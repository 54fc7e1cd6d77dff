use vstd::prelude::*;
use std::collections::VecDeque;
use crate::bytes::{keep_last, push_capped_deque};

verus! {

/// How much each direction buffers before the oldest bytes are dropped.
pub const DEFAULT_MAX_BUFFERED_BYTES: usize = 65_536;

/// How far the firmware has brought up its USB CDC device.
#[derive(Clone, Copy, Debug, PartialEq, Eq, Structural)]
pub enum EmbeddedCdcStage {
    Detached,
    DevicePresent,
    UsbStarted,
    AwaitingDeviceDescriptor,
    AwaitingSetAddressStatus,
    AwaitingSetConfigurationStatus,
    AwaitingSetLineCodingStatus,
    AwaitingSetControlLineStateStatus,
    ProtocolReady,
}

/// A byte pipe between a host program and the emulated firmware's USB CDC
/// device, without a socket in between. The host may connect only once
/// the firmware's protocol is up; leaving that stage drops the connection
/// and whatever was buffered.
#[derive(Debug)]
pub struct EmbeddedCdcLink {
    pub host_to_device: VecDeque<u8>,
    pub device_to_host: VecDeque<u8>,
    pub host_connected: bool,
    pub stage: EmbeddedCdcStage,
    pub max_buffered_bytes: usize,
}

impl EmbeddedCdcLink {
    pub open spec fn wf(self) -> bool {
        &&& self.max_buffered_bytes == DEFAULT_MAX_BUFFERED_BYTES
        &&& self.host_to_device@.len() <= self.max_buffered_bytes
        &&& self.device_to_host@.len() <= self.max_buffered_bytes
    }

    pub fn new() -> (l: EmbeddedCdcLink)
        ensures
            l.wf(),
            l.host_to_device@.len() == 0,
            l.device_to_host@.len() == 0,
            !l.host_connected,
            l.stage == EmbeddedCdcStage::Detached,
            l.max_buffered_bytes == DEFAULT_MAX_BUFFERED_BYTES,
    {
        EmbeddedCdcLink {
            host_to_device: VecDeque::new(),
            device_to_host: VecDeque::new(),
            host_connected: false,
            stage: EmbeddedCdcStage::Detached,
            max_buffered_bytes: DEFAULT_MAX_BUFFERED_BYTES,
        }
    }

    /// Connects the host, with empty buffers, once the protocol is ready.
    pub fn connect(&mut self) -> (r: Result<(), &'static str>)
        requires
            old(self).wf(),
        ensures
            final(self).wf(),
            final(self).stage == old(self).stage,
            final(self).max_buffered_bytes == old(self).max_buffered_bytes,
            old(self).stage == EmbeddedCdcStage::ProtocolReady ==> {
                &&& r is Ok
                &&& final(self).host_connected
                &&& final(self).host_to_device@.len() == 0
                &&& final(self).device_to_host@.len() == 0
            },
            old(self).stage != EmbeddedCdcStage::ProtocolReady ==> {
                &&& r == Err::<(), &'static str>("embedded firmware TunerStudio protocol is not ready")
                &&& final(self).host_connected == old(self).host_connected
                &&& final(self).host_to_device@ == old(self).host_to_device@
                &&& final(self).device_to_host@ == old(self).device_to_host@
            },
    {
        if self.stage != EmbeddedCdcStage::ProtocolReady {
            return Err("embedded firmware TunerStudio protocol is not ready");
        }
        self.host_connected = true;
        self.host_to_device.clear();
        self.device_to_host.clear();
        Ok(())
    }

    /// Disconnects the host and drops whatever was buffered.
    pub fn disconnect(&mut self)
        requires
            old(self).wf(),
        ensures
            final(self).wf(),
            !final(self).host_connected,
            final(self).host_to_device@.len() == 0,
            final(self).device_to_host@.len() == 0,
            final(self).stage == old(self).stage,
            final(self).max_buffered_bytes == old(self).max_buffered_bytes,
    {
        self.host_connected = false;
        self.host_to_device.clear();
        self.device_to_host.clear();
    }

    pub fn is_connected(&self) -> (r: bool)
        ensures
            r == (self.host_connected && self.stage == EmbeddedCdcStage::ProtocolReady),
    {
        self.host_connected && self.stage == EmbeddedCdcStage::ProtocolReady
    }

    pub fn device_present(&self) -> (r: bool)
        ensures
            r == (self.stage != EmbeddedCdcStage::Detached),
    {
        self.stage != EmbeddedCdcStage::Detached
    }

    pub fn protocol_ready(&self) -> (r: bool)
        ensures
            r == (self.stage == EmbeddedCdcStage::ProtocolReady),
    {
        self.protocol_stage() == EmbeddedCdcStage::ProtocolReady
    }

    pub fn protocol_stage(&self) -> (s: EmbeddedCdcStage)
        ensures
            s == self.stage,
    {
        self.stage
    }

    /// Queues bytes from the host for the firmware, keeping only the
    /// newest `max_buffered_bytes`.
    pub fn write_from_host(&mut self, bytes: &[u8]) -> (r: Result<usize, &'static str>)
        requires
            old(self).wf(),
        ensures
            final(self).wf(),
            final(self).stage == old(self).stage,
            final(self).host_connected == old(self).host_connected,
            final(self).max_buffered_bytes == old(self).max_buffered_bytes,
            final(self).device_to_host@ == old(self).device_to_host@,
            old(self).host_connected && old(self).stage == EmbeddedCdcStage::ProtocolReady ==> {
                &&& r == Ok::<usize, &'static str>(bytes@.len() as usize)
                &&& final(self).host_to_device@ == keep_last(
                    old(self).host_to_device@ + bytes@,
                    DEFAULT_MAX_BUFFERED_BYTES as int,
                )
            },
            !(old(self).host_connected && old(self).stage == EmbeddedCdcStage::ProtocolReady) ==> {
                &&& r == Err::<usize, &'static str>("embedded CDC link is not connected")
                &&& final(self).host_to_device@ == old(self).host_to_device@
            },
    {
        if !self.host_connected || self.stage != EmbeddedCdcStage::ProtocolReady {
            return Err("embedded CDC link is not connected");
        }
        let capacity = self.max_buffered_bytes;
        push_capped_deque(&mut self.host_to_device, bytes, capacity);
        Ok(bytes.len())
    }

    /// Moves as many buffered firmware bytes as fit into `target`, oldest
    /// first, and gives their count. Waiting for bytes is the caller's.
    pub fn read_for_host(&mut self, target: &mut [u8]) -> (count: usize)
        requires
            old(self).wf(),
        ensures
            final(self).wf(),
            count == if old(target)@.len() < old(self).device_to_host@.len() {
                old(target)@.len()
            } else {
                old(self).device_to_host@.len()
            },
            final(target)@.len() == old(target)@.len(),
            final(target)@.subrange(0, count as int) == old(self).device_to_host@.subrange(
                0,
                count as int,
            ),
            final(target)@.subrange(count as int, old(target)@.len() as int) == old(
                target,
            )@.subrange(count as int, old(target)@.len() as int),
            final(self).device_to_host@ == old(self).device_to_host@.skip(count as int),
            final(self).host_to_device@ == old(self).host_to_device@,
            final(self).host_connected == old(self).host_connected,
            final(self).stage == old(self).stage,
            final(self).max_buffered_bytes == old(self).max_buffered_bytes,
    {
        let count = if target.len() < self.device_to_host.len() {
            target.len()
        } else {
            self.device_to_host.len()
        };
        let mut k: usize = 0;
        while k < count
            invariant
                k <= count,
                count <= old(target)@.len(),
                count <= old(self).device_to_host@.len(),
                self.wf(),
                target@.len() == old(target)@.len(),
                target@.subrange(0, k as int) == old(self).device_to_host@.subrange(0, k as int),
                target@.subrange(k as int, target@.len() as int) == old(target)@.subrange(
                    k as int,
                    old(target)@.len() as int,
                ),
                self.device_to_host@ == old(self).device_to_host@.skip(k as int),
                self.host_to_device@ == old(self).host_to_device@,
                self.host_connected == old(self).host_connected,
                self.stage == old(self).stage,
                self.max_buffered_bytes == old(self).max_buffered_bytes,
            decreases count - k,
        {
            let b = self.device_to_host.pop_front();
            match b {
                Some(b) => {
                    let ghost t0 = target@;
                    target[k] = b;
                    proof {
                        assert(target@.subrange(0, k + 1) =~= old(self).device_to_host@.subrange(
                            0,
                            k + 1,
                        )) by {
                            assert(t0.subrange(0, k as int) =~= target@.subrange(0, k as int));
                        }
                        assert(target@.subrange(k + 1, target@.len() as int) =~= t0.subrange(
                            k + 1,
                            t0.len() as int,
                        ));
                        assert(old(target)@.subrange(k + 1, old(target)@.len() as int)
                            =~= t0.subrange(k as int, t0.len() as int).skip(1));
                        assert(self.device_to_host@ =~= old(self).device_to_host@.skip(k + 1));
                    }
                },
                None => {},
            }
            k += 1;
        }
        count
    }

    pub fn bytes_available(&self) -> (n: usize)
        ensures
            n == self.device_to_host@.len(),
    {
        self.device_to_host.len()
    }

    /// The firmware's USB device appeared.
    pub fn attach_device(&mut self)
        requires
            old(self).wf(),
        ensures
            final(self).wf(),
            final(self).stage == EmbeddedCdcStage::DevicePresent,
            final(self).host_connected == old(self).host_connected,
            final(self).host_to_device@ == old(self).host_to_device@,
            final(self).device_to_host@ == old(self).device_to_host@,
            final(self).max_buffered_bytes == old(self).max_buffered_bytes,
    {
        self.stage = EmbeddedCdcStage::DevicePresent;
    }

    /// The firmware reached `stage` of its bring-up; a detached device
    /// stays detached. Any stage but the ready one drops the host and the
    /// buffers.
    pub fn set_protocol_stage(&mut self, stage: EmbeddedCdcStage)
        requires
            old(self).wf(),
        ensures
            final(self).wf(),
            final(self).stage == if old(self).stage == EmbeddedCdcStage::Detached {
                EmbeddedCdcStage::Detached
            } else {
                stage
            },
            final(self).max_buffered_bytes == old(self).max_buffered_bytes,
            final(self).stage != EmbeddedCdcStage::ProtocolReady ==> {
                &&& !final(self).host_connected
                &&& final(self).host_to_device@.len() == 0
                &&& final(self).device_to_host@.len() == 0
            },
            final(self).stage == EmbeddedCdcStage::ProtocolReady ==> {
                &&& final(self).host_connected == old(self).host_connected
                &&& final(self).host_to_device@ == old(self).host_to_device@
                &&& final(self).device_to_host@ == old(self).device_to_host@
            },
    {
        self.stage = if self.stage == EmbeddedCdcStage::Detached {
            EmbeddedCdcStage::Detached
        } else {
            stage
        };
        if self.stage != EmbeddedCdcStage::ProtocolReady {
            self.host_connected = false;
            self.host_to_device.clear();
            self.device_to_host.clear();
        }
    }

    /// The firmware's USB device went away: the host is dropped with the
    /// buffers.
    pub fn detach_device(&mut self)
        requires
            old(self).wf(),
        ensures
            final(self).wf(),
            final(self).stage == EmbeddedCdcStage::Detached,
            !final(self).host_connected,
            final(self).host_to_device@.len() == 0,
            final(self).device_to_host@.len() == 0,
            final(self).max_buffered_bytes == old(self).max_buffered_bytes,
    {
        self.stage = EmbeddedCdcStage::Detached;
        self.host_connected = false;
        self.host_to_device.clear();
        self.device_to_host.clear();
    }

    /// Queues firmware bytes for the host, if one is connected, keeping
    /// only the newest `max_buffered_bytes`.
    pub fn write_from_device(&mut self, bytes: &[u8])
        requires
            old(self).wf(),
        ensures
            final(self).wf(),
            final(self).device_to_host@ == if old(self).host_connected {
                keep_last(old(self).device_to_host@ + bytes@, DEFAULT_MAX_BUFFERED_BYTES as int)
            } else {
                old(self).device_to_host@
            },
            final(self).host_to_device@ == old(self).host_to_device@,
            final(self).host_connected == old(self).host_connected,
            final(self).stage == old(self).stage,
            final(self).max_buffered_bytes == old(self).max_buffered_bytes,
    {
        if !self.host_connected {
            return;
        }
        let capacity = self.max_buffered_bytes;
        push_capped_deque(&mut self.device_to_host, bytes, capacity);
    }

    /// Takes up to `maximum` of the host's bytes, oldest first.
    pub fn read_for_device(&mut self, maximum: usize) -> (r: Vec<u8>)
        requires
            old(self).wf(),
        ensures
            final(self).wf(),
            r@ == old(self).host_to_device@.take(
                if maximum < old(self).host_to_device@.len() {
                    maximum as int
                } else {
                    old(self).host_to_device@.len() as int
                },
            ),
            final(self).host_to_device@ == old(self).host_to_device@.skip(r@.len() as int),
            final(self).device_to_host@ == old(self).device_to_host@,
            final(self).host_connected == old(self).host_connected,
            final(self).stage == old(self).stage,
            final(self).max_buffered_bytes == old(self).max_buffered_bytes,
    {
        let count = if maximum < self.host_to_device.len() {
            maximum
        } else {
            self.host_to_device.len()
        };
        let mut r: Vec<u8> = Vec::new();
        let mut k: usize = 0;
        while k < count
            invariant
                k <= count,
                count <= old(self).host_to_device@.len(),
                count == (if maximum < old(self).host_to_device@.len() {
                    maximum as int
                } else {
                    old(self).host_to_device@.len() as int
                }),
                self.wf(),
                r@ == old(self).host_to_device@.take(k as int),
                self.host_to_device@ == old(self).host_to_device@.skip(k as int),
                self.device_to_host@ == old(self).device_to_host@,
                self.host_connected == old(self).host_connected,
                self.stage == old(self).stage,
                self.max_buffered_bytes == old(self).max_buffered_bytes,
            decreases count - k,
        {
            let b = self.host_to_device.pop_front();
            match b {
                Some(b) => {
                    r.push(b);
                },
                None => {},
            }
            proof {
                assert(r@ =~= old(self).host_to_device@.take(k + 1));
                assert(self.host_to_device@ =~= old(self).host_to_device@.skip(k + 1));
            }
            k += 1;
        }
        r
    }
}

} // verus!

verus! {

/// Bytes the host writes reach the firmware unchanged and in order, as
/// long as they fit in the buffer: a link that was just connected (its
/// buffers empty) hands back exactly what was written.
pub proof fn law_cdc_host_bytes_reach_device_in_order(bytes: Seq<u8>, capacity: int)
    requires
        bytes.len() <= capacity,
    ensures
        keep_last(Seq::<u8>::empty() + bytes, capacity).take(bytes.len() as int) == bytes,
{
    assert(Seq::<u8>::empty() + bytes =~= bytes);
    assert(bytes.take(bytes.len() as int) =~= bytes);
}

/// The same holds from the firmware to the host.
pub proof fn law_cdc_device_bytes_reach_host_in_order(bytes: Seq<u8>, capacity: int)
    requires
        bytes.len() <= capacity,
    ensures
        keep_last(Seq::<u8>::empty() + bytes, capacity).subrange(0, bytes.len() as int) == bytes,
{
    assert(Seq::<u8>::empty() + bytes =~= bytes);
    assert(bytes.subrange(0, bytes.len() as int) =~= bytes);
}

} // verus!
