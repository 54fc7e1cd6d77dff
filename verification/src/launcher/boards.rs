use vstd::prelude::*;
use crate::launcher::{
    EcuIoAdcChannel, EcuIoDevice, EcuIoPin, LauncherCpuModel, MemoryPatch, MemoryRegion,
    ProfileTemplate, UsbCdcTcpDevice,
};

verus! {

/// The Proteus F7 (STM32F767) memory map: flash seen through its ITCM and
/// AXI aliases, the RAMs and the system-identifier page.
pub open spec fn spec_proteus_f7_regions() -> Seq<MemoryRegion> {
    seq![
        MemoryRegion { name: "ROM-ITCM-alias", start: 0x0020_0000, size: 0x0020_0000, load_firmware: true },
        MemoryRegion { name: "ROM-AXI-alias", start: 0x0800_0000, size: 0x0020_0000, load_firmware: true },
        MemoryRegion { name: "ITCM-RAM", start: 0x0000_0000, size: 0x0000_4000, load_firmware: false },
        MemoryRegion { name: "System-identifiers", start: 0x1ff0_f000, size: 0x0000_1000, load_firmware: false },
        MemoryRegion { name: "DTCM-RAM", start: 0x2000_0000, size: 0x0002_0000, load_firmware: false },
        MemoryRegion { name: "SRAM1", start: 0x2002_0000, size: 0x0005_c000, load_firmware: false },
        MemoryRegion { name: "SRAM2", start: 0x2007_c000, size: 0x0000_4000, load_firmware: false },
    ]
}

/// The ECU I/O harness pins of the Proteus F7: the six digital inputs and
/// the two VR inputs, then the sixteen low-side, twelve ignition and four
/// high-side outputs.
pub open spec fn spec_proteus_f7_pins() -> Seq<EcuIoPin> {
    seq![
        EcuIoPin { name: "din1", pin: "PC6", direction: "input" },
        EcuIoPin { name: "din2", pin: "PE11", direction: "input" },
        EcuIoPin { name: "din3", pin: "PE12", direction: "input" },
        EcuIoPin { name: "din4", pin: "PE14", direction: "input" },
        EcuIoPin { name: "din5", pin: "PE13", direction: "input" },
        EcuIoPin { name: "din6", pin: "PE15", direction: "input" },
        EcuIoPin { name: "vr1", pin: "PE7", direction: "input" },
        EcuIoPin { name: "vr2", pin: "PE8", direction: "input" },
        EcuIoPin { name: "ls1", pin: "PD7", direction: "output" },
        EcuIoPin { name: "ls2", pin: "PG9", direction: "output" },
        EcuIoPin { name: "ls3", pin: "PG10", direction: "output" },
        EcuIoPin { name: "ls4", pin: "PG11", direction: "output" },
        EcuIoPin { name: "ls5", pin: "PG12", direction: "output" },
        EcuIoPin { name: "ls6", pin: "PG13", direction: "output" },
        EcuIoPin { name: "ls7", pin: "PG14", direction: "output" },
        EcuIoPin { name: "ls8", pin: "PB4", direction: "output" },
        EcuIoPin { name: "ls9", pin: "PB5", direction: "output" },
        EcuIoPin { name: "ls10", pin: "PB6", direction: "output" },
        EcuIoPin { name: "ls11", pin: "PB7", direction: "output" },
        EcuIoPin { name: "ls12", pin: "PB8", direction: "output" },
        EcuIoPin { name: "ls13", pin: "PB9", direction: "output" },
        EcuIoPin { name: "ls14", pin: "PE0", direction: "output" },
        EcuIoPin { name: "ls15", pin: "PE1", direction: "output" },
        EcuIoPin { name: "ls16", pin: "PE2", direction: "output" },
        EcuIoPin { name: "ign1", pin: "PD4", direction: "output" },
        EcuIoPin { name: "ign2", pin: "PD3", direction: "output" },
        EcuIoPin { name: "ign3", pin: "PC9", direction: "output" },
        EcuIoPin { name: "ign4", pin: "PC8", direction: "output" },
        EcuIoPin { name: "ign5", pin: "PC7", direction: "output" },
        EcuIoPin { name: "ign6", pin: "PG8", direction: "output" },
        EcuIoPin { name: "ign7", pin: "PG7", direction: "output" },
        EcuIoPin { name: "ign8", pin: "PG6", direction: "output" },
        EcuIoPin { name: "ign9", pin: "PG5", direction: "output" },
        EcuIoPin { name: "ign10", pin: "PG4", direction: "output" },
        EcuIoPin { name: "ign11", pin: "PG3", direction: "output" },
        EcuIoPin { name: "ign12", pin: "PG2", direction: "output" },
        EcuIoPin { name: "hs1", pin: "PA9", direction: "output" },
        EcuIoPin { name: "hs2", pin: "PA8", direction: "output" },
        EcuIoPin { name: "hs3", pin: "PD15", direction: "output" },
        EcuIoPin { name: "hs4", pin: "PD14", direction: "output" },
    ]
}

/// The ECU I/O harness analog inputs of the Proteus F7: eleven voltage
/// inputs, four temperature inputs and the battery voltage.
pub open spec fn spec_proteus_f7_adc_channels() -> Seq<EcuIoAdcChannel> {
    seq![
        EcuIoAdcChannel { name: "av1", pin: "PC0" },
        EcuIoAdcChannel { name: "av2", pin: "PC1" },
        EcuIoAdcChannel { name: "av3", pin: "PC2" },
        EcuIoAdcChannel { name: "av4", pin: "PC3" },
        EcuIoAdcChannel { name: "av5", pin: "PA0" },
        EcuIoAdcChannel { name: "av6", pin: "PA1" },
        EcuIoAdcChannel { name: "av7", pin: "PA2" },
        EcuIoAdcChannel { name: "av8", pin: "PA3" },
        EcuIoAdcChannel { name: "av9", pin: "PA4" },
        EcuIoAdcChannel { name: "av10", pin: "PA5" },
        EcuIoAdcChannel { name: "av11", pin: "PA6" },
        EcuIoAdcChannel { name: "at1", pin: "PC4" },
        EcuIoAdcChannel { name: "at2", pin: "PC5" },
        EcuIoAdcChannel { name: "at3", pin: "PB0" },
        EcuIoAdcChannel { name: "at4", pin: "PB1" },
        EcuIoAdcChannel { name: "vbatt", pin: "PA7" },
    ]
}

/// The flash-size identifier patch: 2048 KB, little-endian, at
/// FLASHSIZE_BASE; the firmware refuses to run with less than 1024 KB.
pub const PROTEUS_F7_FLASH_SIZE_ADDR: u32 = 0x1ff0_f442;

pub fn proteus_f7_regions() -> (v: Vec<MemoryRegion>)
    ensures
        v@ == spec_proteus_f7_regions(),
{
    let mut v: Vec<MemoryRegion> = Vec::new();
    v.push(MemoryRegion { name: "ROM-ITCM-alias", start: 0x0020_0000, size: 0x0020_0000, load_firmware: true });
    v.push(MemoryRegion { name: "ROM-AXI-alias", start: 0x0800_0000, size: 0x0020_0000, load_firmware: true });
    v.push(MemoryRegion { name: "ITCM-RAM", start: 0x0000_0000, size: 0x0000_4000, load_firmware: false });
    v.push(MemoryRegion { name: "System-identifiers", start: 0x1ff0_f000, size: 0x0000_1000, load_firmware: false });
    v.push(MemoryRegion { name: "DTCM-RAM", start: 0x2000_0000, size: 0x0002_0000, load_firmware: false });
    v.push(MemoryRegion { name: "SRAM1", start: 0x2002_0000, size: 0x0005_c000, load_firmware: false });
    v.push(MemoryRegion { name: "SRAM2", start: 0x2007_c000, size: 0x0000_4000, load_firmware: false });
    assert(v@ =~= spec_proteus_f7_regions());
    v
}

pub fn proteus_f7_patches() -> (v: Vec<MemoryPatch>)
    ensures
        v@.len() == 1,
        v@[0].start == PROTEUS_F7_FLASH_SIZE_ADDR,
        v@[0].data@ == seq![0x00u8, 0x08u8],
{
    let mut data: Vec<u8> = Vec::new();
    data.push(0x00);
    data.push(0x08);
    let mut v: Vec<MemoryPatch> = Vec::new();
    v.push(MemoryPatch { start: PROTEUS_F7_FLASH_SIZE_ADDR, data });
    assert(v@[0].data@ =~= seq![0x00u8, 0x08u8]);
    v
}

/// The ECU I/O harness of the Proteus F7, listening on port 29002.
pub fn proteus_f7_ecu_io() -> (d: EcuIoDevice)
    ensures
        d.listen@ == "127.0.0.1:29002"@,
        d.pins@ == spec_proteus_f7_pins(),
        d.adc_channels@ == spec_proteus_f7_adc_channels(),
{
    let mut pins: Vec<EcuIoPin> = Vec::new();
    pins.push(EcuIoPin { name: "din1", pin: "PC6", direction: "input" });
    pins.push(EcuIoPin { name: "din2", pin: "PE11", direction: "input" });
    pins.push(EcuIoPin { name: "din3", pin: "PE12", direction: "input" });
    pins.push(EcuIoPin { name: "din4", pin: "PE14", direction: "input" });
    pins.push(EcuIoPin { name: "din5", pin: "PE13", direction: "input" });
    pins.push(EcuIoPin { name: "din6", pin: "PE15", direction: "input" });
    pins.push(EcuIoPin { name: "vr1", pin: "PE7", direction: "input" });
    pins.push(EcuIoPin { name: "vr2", pin: "PE8", direction: "input" });
    pins.push(EcuIoPin { name: "ls1", pin: "PD7", direction: "output" });
    pins.push(EcuIoPin { name: "ls2", pin: "PG9", direction: "output" });
    pins.push(EcuIoPin { name: "ls3", pin: "PG10", direction: "output" });
    pins.push(EcuIoPin { name: "ls4", pin: "PG11", direction: "output" });
    pins.push(EcuIoPin { name: "ls5", pin: "PG12", direction: "output" });
    pins.push(EcuIoPin { name: "ls6", pin: "PG13", direction: "output" });
    pins.push(EcuIoPin { name: "ls7", pin: "PG14", direction: "output" });
    pins.push(EcuIoPin { name: "ls8", pin: "PB4", direction: "output" });
    pins.push(EcuIoPin { name: "ls9", pin: "PB5", direction: "output" });
    pins.push(EcuIoPin { name: "ls10", pin: "PB6", direction: "output" });
    pins.push(EcuIoPin { name: "ls11", pin: "PB7", direction: "output" });
    pins.push(EcuIoPin { name: "ls12", pin: "PB8", direction: "output" });
    pins.push(EcuIoPin { name: "ls13", pin: "PB9", direction: "output" });
    pins.push(EcuIoPin { name: "ls14", pin: "PE0", direction: "output" });
    pins.push(EcuIoPin { name: "ls15", pin: "PE1", direction: "output" });
    pins.push(EcuIoPin { name: "ls16", pin: "PE2", direction: "output" });
    pins.push(EcuIoPin { name: "ign1", pin: "PD4", direction: "output" });
    pins.push(EcuIoPin { name: "ign2", pin: "PD3", direction: "output" });
    pins.push(EcuIoPin { name: "ign3", pin: "PC9", direction: "output" });
    pins.push(EcuIoPin { name: "ign4", pin: "PC8", direction: "output" });
    pins.push(EcuIoPin { name: "ign5", pin: "PC7", direction: "output" });
    pins.push(EcuIoPin { name: "ign6", pin: "PG8", direction: "output" });
    pins.push(EcuIoPin { name: "ign7", pin: "PG7", direction: "output" });
    pins.push(EcuIoPin { name: "ign8", pin: "PG6", direction: "output" });
    pins.push(EcuIoPin { name: "ign9", pin: "PG5", direction: "output" });
    pins.push(EcuIoPin { name: "ign10", pin: "PG4", direction: "output" });
    pins.push(EcuIoPin { name: "ign11", pin: "PG3", direction: "output" });
    pins.push(EcuIoPin { name: "ign12", pin: "PG2", direction: "output" });
    pins.push(EcuIoPin { name: "hs1", pin: "PA9", direction: "output" });
    pins.push(EcuIoPin { name: "hs2", pin: "PA8", direction: "output" });
    pins.push(EcuIoPin { name: "hs3", pin: "PD15", direction: "output" });
    pins.push(EcuIoPin { name: "hs4", pin: "PD14", direction: "output" });
    let mut adc: Vec<EcuIoAdcChannel> = Vec::new();
    adc.push(EcuIoAdcChannel { name: "av1", pin: "PC0" });
    adc.push(EcuIoAdcChannel { name: "av2", pin: "PC1" });
    adc.push(EcuIoAdcChannel { name: "av3", pin: "PC2" });
    adc.push(EcuIoAdcChannel { name: "av4", pin: "PC3" });
    adc.push(EcuIoAdcChannel { name: "av5", pin: "PA0" });
    adc.push(EcuIoAdcChannel { name: "av6", pin: "PA1" });
    adc.push(EcuIoAdcChannel { name: "av7", pin: "PA2" });
    adc.push(EcuIoAdcChannel { name: "av8", pin: "PA3" });
    adc.push(EcuIoAdcChannel { name: "av9", pin: "PA4" });
    adc.push(EcuIoAdcChannel { name: "av10", pin: "PA5" });
    adc.push(EcuIoAdcChannel { name: "av11", pin: "PA6" });
    adc.push(EcuIoAdcChannel { name: "at1", pin: "PC4" });
    adc.push(EcuIoAdcChannel { name: "at2", pin: "PC5" });
    adc.push(EcuIoAdcChannel { name: "at3", pin: "PB0" });
    adc.push(EcuIoAdcChannel { name: "at4", pin: "PB1" });
    adc.push(EcuIoAdcChannel { name: "vbatt", pin: "PA7" });
    assert(pins@ =~= spec_proteus_f7_pins());
    assert(adc@ =~= spec_proteus_f7_adc_channels());
    EcuIoDevice { listen: "127.0.0.1:29002", pins, adc_channels: adc }
}

/// The Proteus F7 profile: a Cortex-M7 booting from the ITCM flash alias,
/// with the USB CDC bridge on port 29000 and the ECU I/O harness on 29002.
pub fn proteus_f7_profile() -> (t: ProfileTemplate)
    ensures
        t.cpu_model == LauncherCpuModel::CortexM7,
        t.vector_table == 0x0020_0000,
        t.regions@ == spec_proteus_f7_regions(),
        t.patches@.len() == 1,
        t.patches@[0].start == PROTEUS_F7_FLASH_SIZE_ADDR,
        t.patches@[0].data@ == seq![0x00u8, 0x08u8],
        t.usb_cdc_tcp matches Some(u) && u.peripheral@ == "OTG_FS_GLOBAL"@ && u.listen@
            == "127.0.0.1:29000"@ && u.max_buffered_bytes == 65536,
        t.ecu_io matches Some(d) && d.listen@ == "127.0.0.1:29002"@ && d.pins@
            == spec_proteus_f7_pins() && d.adc_channels@ == spec_proteus_f7_adc_channels(),
{
    ProfileTemplate {
        cpu_model: LauncherCpuModel::CortexM7,
        vector_table: 0x0020_0000,
        regions: proteus_f7_regions(),
        patches: proteus_f7_patches(),
        usb_cdc_tcp: Some(
            UsbCdcTcpDevice {
                peripheral: "OTG_FS_GLOBAL",
                listen: "127.0.0.1:29000",
                max_buffered_bytes: 65536,
            },
        ),
        ecu_io: Some(proteus_f7_ecu_io()),
    }
}

} // verus!
