use vstd::prelude::*;
use std::collections::VecDeque;
use crate::bytes::{keep_last, push_capped_deque};

verus! {

/// A USB CDC bridge between a firmware OTG peripheral and a TCP listener.
#[derive(Clone, Debug)]
pub struct UsbCdcTcpConfig {
    pub peripheral: String,
    pub listen: String,
    pub max_buffered_bytes: usize,
}

/// How long, in nanoseconds, a connected client is protected from being
/// replaced by a new connection.
pub const STALE_CLIENT_GRACE_PERIOD_NANOS: u64 = 10_000_000_000;

/// What becomes of a new connection.
#[derive(Clone, Copy, Debug, PartialEq, Eq, Structural)]
pub enum ConnectionDecision {
    /// No client was connected; the new one is taken.
    Accepted,
    /// The current client connected less than the grace period ago; the
    /// new connection is dropped.
    Rejected,
    /// The current client is old enough to be stale; it is dropped with
    /// its buffered bytes and the new one is taken.
    Replaced,
}

/// The buffers and the client bookkeeping of a USB CDC TCP bridge. The
/// sockets belong to the caller, which reports what happened on them.
#[derive(Debug)]
pub struct UsbCdcSession {
    pub max_buffered_bytes: usize,
    pub stale_client_grace_period_nanos: u64,
    pub client_connected: bool,
    /// Bytes from the client, for the firmware.
    pub to_device: VecDeque<u8>,
    /// Bytes from the firmware, for the client.
    pub from_device: VecDeque<u8>,
}

impl UsbCdcSession {
    pub open spec fn wf(self) -> bool {
        &&& self.max_buffered_bytes > 0
        &&& self.to_device@.len() <= self.max_buffered_bytes
        &&& self.from_device@.len() <= self.max_buffered_bytes
    }

    /// A session for `max_buffered_bytes` per direction, which must be
    /// positive.
    pub fn new(max_buffered_bytes: usize) -> (r: Result<UsbCdcSession, &'static str>)
        ensures
            max_buffered_bytes == 0 <==> r is Err,
            r matches Err(e) ==> e == "usb_cdc_tcp max_buffered_bytes must be positive",
            r matches Ok(s) ==> {
                &&& s.wf()
                &&& s.max_buffered_bytes == max_buffered_bytes
                &&& s.stale_client_grace_period_nanos == STALE_CLIENT_GRACE_PERIOD_NANOS
                &&& !s.client_connected
                &&& s.to_device@.len() == 0
                &&& s.from_device@.len() == 0
            },
    {
        if max_buffered_bytes == 0 {
            return Err("usb_cdc_tcp max_buffered_bytes must be positive");
        }
        Ok(
            UsbCdcSession {
                max_buffered_bytes,
                stale_client_grace_period_nanos: STALE_CLIENT_GRACE_PERIOD_NANOS,
                client_connected: false,
                to_device: VecDeque::new(),
                from_device: VecDeque::new(),
            },
        )
    }

    pub fn set_stale_client_grace_period(&mut self, nanos: u64)
        ensures
            final(self).stale_client_grace_period_nanos == nanos,
            final(self).max_buffered_bytes == old(self).max_buffered_bytes,
            final(self).client_connected == old(self).client_connected,
            final(self).to_device@ == old(self).to_device@,
            final(self).from_device@ == old(self).from_device@,
    {
        self.stale_client_grace_period_nanos = nanos;
    }

    /// A new connection arrived while the current client, if any, has
    /// been connected for `client_age_nanos`.
    pub fn on_new_connection(&mut self, client_age_nanos: Option<u64>) -> (d: ConnectionDecision)
        requires
            old(self).wf(),
        ensures
            final(self).wf(),
            final(self).max_buffered_bytes == old(self).max_buffered_bytes,
            final(self).stale_client_grace_period_nanos == old(self).stale_client_grace_period_nanos,
            d == if !old(self).client_connected {
                ConnectionDecision::Accepted
            } else if client_age_nanos matches Some(a) && a < old(self).stale_client_grace_period_nanos {
                ConnectionDecision::Rejected
            } else {
                ConnectionDecision::Replaced
            },
            final(self).client_connected,
            d == ConnectionDecision::Replaced ==> final(self).to_device@.len() == 0
                && final(self).from_device@.len() == 0,
            d != ConnectionDecision::Replaced ==> final(self).to_device@ == old(self).to_device@
                && final(self).from_device@ == old(self).from_device@,
    {
        if self.client_connected {
            let within = match client_age_nanos {
                Some(a) => a < self.stale_client_grace_period_nanos,
                None => false,
            };
            if within {
                return ConnectionDecision::Rejected;
            }
            self.mark_disconnected();
            self.client_connected = true;
            return ConnectionDecision::Replaced;
        }
        self.client_connected = true;
        ConnectionDecision::Accepted
    }

    /// The client went away: its leftover bytes in both directions belong
    /// to a session that no longer exists and are dropped.
    pub fn mark_disconnected(&mut self)
        requires
            old(self).wf(),
        ensures
            final(self).wf(),
            !final(self).client_connected,
            final(self).to_device@.len() == 0,
            final(self).from_device@.len() == 0,
            final(self).max_buffered_bytes == old(self).max_buffered_bytes,
            final(self).stale_client_grace_period_nanos == old(self).stale_client_grace_period_nanos,
    {
        self.client_connected = false;
        self.to_device.clear();
        self.from_device.clear();
    }

    /// Bytes read from the client, queued for the firmware; the oldest
    /// are dropped beyond `max_buffered_bytes`.
    pub fn received_from_client(&mut self, bytes: &[u8])
        requires
            old(self).wf(),
        ensures
            final(self).wf(),
            final(self).to_device@ == keep_last(
                old(self).to_device@ + bytes@,
                old(self).max_buffered_bytes as int,
            ),
            final(self).from_device@ == old(self).from_device@,
            final(self).client_connected == old(self).client_connected,
            final(self).max_buffered_bytes == old(self).max_buffered_bytes,
            final(self).stale_client_grace_period_nanos == old(self).stale_client_grace_period_nanos,
    {
        let capacity = self.max_buffered_bytes;
        push_capped_deque(&mut self.to_device, bytes, capacity);
    }

    /// Bytes from the firmware, queued for the client; the oldest are
    /// dropped beyond `max_buffered_bytes`.
    pub fn push_from_device(&mut self, bytes: &[u8])
        requires
            old(self).wf(),
        ensures
            final(self).wf(),
            final(self).from_device@ == keep_last(
                old(self).from_device@ + bytes@,
                old(self).max_buffered_bytes as int,
            ),
            final(self).to_device@ == old(self).to_device@,
            final(self).client_connected == old(self).client_connected,
            final(self).max_buffered_bytes == old(self).max_buffered_bytes,
            final(self).stale_client_grace_period_nanos == old(self).stale_client_grace_period_nanos,
    {
        let capacity = self.max_buffered_bytes;
        push_capped_deque(&mut self.from_device, bytes, capacity);
    }

    /// Takes up to `maximum` of the client's bytes, oldest first.
    pub fn take_for_device(&mut self, maximum: usize) -> (r: Vec<u8>)
        requires
            old(self).wf(),
        ensures
            final(self).wf(),
            r@ == old(self).to_device@.take(
                if maximum < old(self).to_device@.len() {
                    maximum as int
                } else {
                    old(self).to_device@.len() as int
                },
            ),
            final(self).to_device@ == old(self).to_device@.skip(r@.len() as int),
            final(self).from_device@ == old(self).from_device@,
            final(self).client_connected == old(self).client_connected,
            final(self).max_buffered_bytes == old(self).max_buffered_bytes,
            final(self).stale_client_grace_period_nanos == old(self).stale_client_grace_period_nanos,
    {
        let count = if maximum < self.to_device.len() {
            maximum
        } else {
            self.to_device.len()
        };
        let mut r: Vec<u8> = Vec::new();
        let mut k: usize = 0;
        while k < count
            invariant
                k <= count,
                count <= old(self).to_device@.len(),
                self.wf(),
                r@ == old(self).to_device@.take(k as int),
                self.to_device@ == old(self).to_device@.skip(k as int),
                self.from_device@ == old(self).from_device@,
                self.client_connected == old(self).client_connected,
                self.max_buffered_bytes == old(self).max_buffered_bytes,
                self.stale_client_grace_period_nanos == old(self).stale_client_grace_period_nanos,
            decreases count - k,
        {
            match self.to_device.pop_front() {
                Some(b) => {
                    r.push(b);
                },
                None => {},
            }
            proof {
                assert(r@ =~= old(self).to_device@.take(k + 1));
                assert(self.to_device@ =~= old(self).to_device@.skip(k + 1));
            }
            k += 1;
        }
        r
    }

    /// The client took `count` of the bytes queued for it.
    pub fn sent_to_client(&mut self, count: usize)
        requires
            old(self).wf(),
        ensures
            final(self).wf(),
            final(self).from_device@ == old(self).from_device@.skip(
                if count < old(self).from_device@.len() {
                    count as int
                } else {
                    old(self).from_device@.len() as int
                },
            ),
            final(self).to_device@ == old(self).to_device@,
            final(self).client_connected == old(self).client_connected,
            final(self).max_buffered_bytes == old(self).max_buffered_bytes,
            final(self).stale_client_grace_period_nanos == old(self).stale_client_grace_period_nanos,
    {
        let n = if count < self.from_device.len() {
            count
        } else {
            self.from_device.len()
        };
        let mut k: usize = 0;
        while k < n
            invariant
                k <= n,
                n <= old(self).from_device@.len(),
                self.wf(),
                self.from_device@ == old(self).from_device@.skip(k as int),
                self.to_device@ == old(self).to_device@,
                self.client_connected == old(self).client_connected,
                self.max_buffered_bytes == old(self).max_buffered_bytes,
                self.stale_client_grace_period_nanos == old(self).stale_client_grace_period_nanos,
            decreases n - k,
        {
            self.from_device.pop_front();
            assert(self.from_device@ =~= old(self).from_device@.skip(k + 1));
            k += 1;
        }
    }

    /// The bytes queued for the client, oldest first.
    pub fn pending_for_client(&self) -> (r: Vec<u8>)
        ensures
            r@ == self.from_device@,
    {
        let mut r: Vec<u8> = Vec::new();
        let mut k: usize = 0;
        while k < self.from_device.len()
            invariant
                k <= self.from_device@.len(),
                r@ == self.from_device@.take(k as int),
            decreases self.from_device@.len() - k,
        {
            r.push(self.from_device[k]);
            assert(r@ =~= self.from_device@.take(k + 1));
            k += 1;
        }
        assert(r@ =~= self.from_device@);
        r
    }

    pub fn is_client_connected(&self) -> (r: bool)
        ensures
            r == self.client_connected,
    {
        self.client_connected
    }
}

} // verus!
