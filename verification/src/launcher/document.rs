use vstd::prelude::*;
use crate::bytes::copy_range;
use crate::launcher::{
    EcuIoAdcChannel, EcuIoDevice, EcuIoPin, LauncherCpuModel, MemoryPatch, ResolvedProfile,
    ResolvedUsbCdcTcp,
};

verus! {

/// A memory region of the board configuration that a profile writes:
/// its range, and the firmware file loaded into it, if any.
pub struct DocumentRegion {
    pub name: &'static str,
    pub start: u32,
    pub size: u32,
    pub load: Option<String>,
}

/// The devices section of the board configuration.
pub struct DocumentDevices {
    pub usb_cdc_tcp: Vec<ResolvedUsbCdcTcp>,
    pub ecu_io: Vec<EcuIoDevice>,
}

/// The board configuration that a resolved profile is written out as.
pub struct ProfileDocument {
    pub cpu_model: LauncherCpuModel,
    pub svd: String,
    pub vector_table: u32,
    pub regions: Vec<DocumentRegion>,
    pub patches: Vec<MemoryPatch>,
    /// Present when the profile has any device.
    pub devices: Option<DocumentDevices>,
}

/// `d` is the ECU I/O harness `e`: the same listen address, pins and ADC
/// channels.
pub open spec fn spec_same_ecu_io(d: EcuIoDevice, e: EcuIoDevice) -> bool {
    &&& d.listen == e.listen
    &&& d.pins@ == e.pins@
    &&& d.adc_channels@ == e.adc_channels@
}

fn copy_ecu_io(e: &EcuIoDevice) -> (d: EcuIoDevice)
    ensures
        spec_same_ecu_io(d, *e),
{
    let mut pins: Vec<EcuIoPin> = Vec::new();
    let mut i: usize = 0;
    while i < e.pins.len()
        invariant
            i <= e.pins@.len(),
            pins@ == e.pins@.take(i as int),
        decreases e.pins@.len() - i,
    {
        pins.push(e.pins[i]);
        i += 1;
        assert(pins@ =~= e.pins@.take(i as int));
    }
    assert(pins@ =~= e.pins@);
    let mut adc_channels: Vec<EcuIoAdcChannel> = Vec::new();
    let mut k: usize = 0;
    while k < e.adc_channels.len()
        invariant
            k <= e.adc_channels@.len(),
            adc_channels@ == e.adc_channels@.take(k as int),
        decreases e.adc_channels@.len() - k,
    {
        adc_channels.push(e.adc_channels[k]);
        k += 1;
        assert(adc_channels@ =~= e.adc_channels@.take(k as int));
    }
    assert(adc_channels@ =~= e.adc_channels@);
    EcuIoDevice { listen: e.listen, pins, adc_channels }
}

impl ResolvedProfile {
    /// The board configuration the profile is written out as: its CPU and
    /// SVD, each region with the firmware loaded where the profile loads
    /// it, the patches, and a devices section only when there is a device.
    pub fn document(&self) -> (d: ProfileDocument)
        ensures
            d.cpu_model == self.cpu_model,
            d.svd@ == self.svd@,
            d.vector_table == self.vector_table,
            d.regions@.len() == self.regions@.len(),
            forall|i: int|
                0 <= i < d.regions@.len() ==> {
                    let r = #[trigger] d.regions@[i];
                    let s = self.regions@[i];
                    &&& r.name == s.name
                    &&& r.start == s.start
                    &&& r.size == s.size
                    &&& if s.load_firmware {
                        r.load matches Some(f) && f@ == self.firmware@
                    } else {
                        r.load is None
                    }
                },
            d.patches@.len() == self.patches@.len(),
            forall|i: int|
                0 <= i < d.patches@.len() ==> (#[trigger] d.patches@[i]).start
                    == self.patches@[i].start && d.patches@[i].data@ == self.patches@[i].data@,
            d.devices is Some <==> (self.usb_cdc_tcp is Some || self.ecu_io is Some),
            d.devices matches Some(dev) ==> {
                &&& match self.usb_cdc_tcp {
                    Some(u) => dev.usb_cdc_tcp@ == seq![u],
                    None => dev.usb_cdc_tcp@.len() == 0,
                }
                &&& match self.ecu_io {
                    Some(e) => dev.ecu_io@.len() == 1 && spec_same_ecu_io(dev.ecu_io@[0], e),
                    None => dev.ecu_io@.len() == 0,
                }
            },
    {
        let mut regions: Vec<DocumentRegion> = Vec::new();
        let mut i: usize = 0;
        while i < self.regions.len()
            invariant
                i <= self.regions@.len(),
                regions@.len() == i,
                forall|j: int|
                    0 <= j < i ==> {
                        let r = #[trigger] regions@[j];
                        let s = self.regions@[j];
                        &&& r.name == s.name
                        &&& r.start == s.start
                        &&& r.size == s.size
                        &&& if s.load_firmware {
                            r.load matches Some(f) && f@ == self.firmware@
                        } else {
                            r.load is None
                        }
                    },
            decreases self.regions@.len() - i,
        {
            let s = self.regions[i];
            let load = if s.load_firmware {
                Some(self.firmware.clone())
            } else {
                None
            };
            regions.push(DocumentRegion { name: s.name, start: s.start, size: s.size, load });
            i += 1;
        }
        let mut patches: Vec<MemoryPatch> = Vec::new();
        let mut k: usize = 0;
        while k < self.patches.len()
            invariant
                k <= self.patches@.len(),
                patches@.len() == k,
                forall|j: int|
                    0 <= j < k ==> (#[trigger] patches@[j]).start == self.patches@[j].start
                        && patches@[j].data@ == self.patches@[j].data@,
            decreases self.patches@.len() - k,
        {
            let p = &self.patches[k];
            let data = copy_range(p.data.as_slice(), 0, p.data.len());
            assert(p.data@.subrange(0, p.data@.len() as int) =~= p.data@);
            patches.push(MemoryPatch { start: p.start, data });
            k += 1;
        }
        let devices = if self.usb_cdc_tcp.is_some() || self.ecu_io.is_some() {
            let mut usb_cdc_tcp: Vec<ResolvedUsbCdcTcp> = Vec::new();
            if let Some(u) = &self.usb_cdc_tcp {
                usb_cdc_tcp.push(
                    ResolvedUsbCdcTcp {
                        peripheral: u.peripheral,
                        listen: u.listen.clone(),
                        max_buffered_bytes: u.max_buffered_bytes,
                    },
                );
                assert(usb_cdc_tcp@ =~= seq![*u]);
            }
            let mut ecu_io: Vec<EcuIoDevice> = Vec::new();
            if let Some(e) = &self.ecu_io {
                ecu_io.push(copy_ecu_io(e));
            }
            Some(DocumentDevices { usb_cdc_tcp, ecu_io })
        } else {
            None
        };
        ProfileDocument {
            cpu_model: self.cpu_model,
            svd: self.svd.clone(),
            vector_table: self.vector_table,
            regions,
            patches,
            devices,
        }
    }
}

} // verus!
