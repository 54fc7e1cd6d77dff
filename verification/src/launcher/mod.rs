use vstd::prelude::*;
use crate::text::{
    chars_of, decimal, is_prefix, parse_hex_u32_from, parse_u16, parse_u32, push_decimal,
    spec_parse_hex_u32, spec_parse_u16, spec_parse_u32, spec_trim, trim,
};

pub mod boards;
pub mod document;
pub mod form;
pub mod process;
pub mod registry;
pub mod session;
pub mod ui_state;
pub mod workspace;

verus! {

/// How far emulation of a board goes.
#[derive(Clone, Copy, Debug, PartialEq, Eq, Structural)]
pub enum EmulationSupport {
    Runnable,
    Partial,
    Unsupported,
}

#[derive(Clone, Copy, Debug, PartialEq, Eq, Structural)]
pub enum LauncherCpuModel {
    CortexM4,
    CortexM7,
}

impl Default for LauncherCpuModel {
    fn default() -> (m: Self)
        ensures
            m == LauncherCpuModel::CortexM4,
    {
        LauncherCpuModel::CortexM4
    }
}

/// The emulation profiles that exist.
#[derive(Clone, Copy, Debug, PartialEq, Eq, Structural)]
pub enum ProfileKind {
    ProteusF7,
}

/// A board the launcher knows of.
#[derive(Clone, Copy, Debug, PartialEq, Eq)]
pub struct KnownVariant {
    pub id: &'static str,
    pub display_name: &'static str,
    pub mcu: Option<&'static str>,
    pub support: EmulationSupport,
    pub profile: Option<ProfileKind>,
}

impl KnownVariant {
    pub fn proteus_f7() -> (v: KnownVariant)
        ensures
            v.id@ == "proteus_f7"@,
            v.display_name@ == "Proteus F7"@,
            v.mcu matches Some(m) && m@ == "STM32F767"@,
            v.support == EmulationSupport::Partial,
            v.profile == Some(ProfileKind::ProteusF7),
    {
        KnownVariant {
            id: "proteus_f7",
            display_name: "Proteus F7",
            mcu: Some("STM32F767"),
            support: EmulationSupport::Partial,
            profile: Some(ProfileKind::ProteusF7),
        }
    }

    pub fn unsupported_for_test() -> (v: KnownVariant)
        ensures
            v.id@ == "unsupported"@,
            v.display_name@ == "Unsupported board"@,
            v.mcu is None,
            v.support == EmulationSupport::Unsupported,
            v.profile is None,
    {
        KnownVariant {
            id: "unsupported",
            display_name: "Unsupported board",
            mcu: None,
            support: EmulationSupport::Unsupported,
            profile: None,
        }
    }

    pub fn manual() -> (v: KnownVariant)
        ensures
            v.id@ == "manual"@,
            v.display_name@ == "Manual profile"@,
            v.mcu is None,
            v.support == EmulationSupport::Runnable,
            v.profile is None,
    {
        KnownVariant {
            id: "manual",
            display_name: "Manual profile",
            mcu: None,
            support: EmulationSupport::Runnable,
            profile: None,
        }
    }

    /// A board of the catalog without an emulation profile.
    pub fn cataloged(id: &'static str, display_name: &'static str, mcu: Option<&'static str>) -> (v:
        KnownVariant)
        ensures
            v.id == id,
            v.display_name == display_name,
            v.mcu == mcu,
            v.support == EmulationSupport::Unsupported,
            v.profile is None,
    {
        KnownVariant { id, display_name, mcu, support: EmulationSupport::Unsupported, profile: None }
    }
}

#[derive(Clone, Copy, Debug, PartialEq, Eq)]
pub struct MemoryRegion {
    pub name: &'static str,
    pub start: u32,
    pub size: u32,
    pub load_firmware: bool,
}

#[derive(Clone, Debug, PartialEq, Eq)]
pub struct MemoryPatch {
    pub start: u32,
    pub data: Vec<u8>,
}

#[derive(Clone, Copy, Debug, PartialEq, Eq)]
pub struct UsbCdcTcpDevice {
    pub peripheral: &'static str,
    pub listen: &'static str,
    pub max_buffered_bytes: usize,
}

/// A USB CDC TCP device of a resolved profile, whose listen address the
/// user may change.
#[derive(Clone, Debug, PartialEq, Eq)]
pub struct ResolvedUsbCdcTcp {
    pub peripheral: &'static str,
    pub listen: String,
    pub max_buffered_bytes: usize,
}

impl ResolvedUsbCdcTcp {
    pub fn from_device(device: UsbCdcTcpDevice) -> (r: ResolvedUsbCdcTcp)
        ensures
            r.peripheral == device.peripheral,
            r.listen@ == device.listen@,
            r.max_buffered_bytes == device.max_buffered_bytes,
    {
        ResolvedUsbCdcTcp {
            peripheral: device.peripheral,
            listen: device.listen.to_owned(),
            max_buffered_bytes: device.max_buffered_bytes,
        }
    }
}

#[derive(Clone, Copy, Debug, PartialEq, Eq)]
pub struct EcuIoPin {
    pub name: &'static str,
    pub pin: &'static str,
    pub direction: &'static str,
}

#[derive(Clone, Copy, Debug, PartialEq, Eq)]
pub struct EcuIoAdcChannel {
    pub name: &'static str,
    pub pin: &'static str,
}

#[derive(Clone, Debug, PartialEq, Eq)]
pub struct EcuIoDevice {
    pub listen: &'static str,
    pub pins: Vec<EcuIoPin>,
    pub adc_channels: Vec<EcuIoAdcChannel>,
}

/// What a profile fixes for a board.
pub struct ProfileTemplate {
    pub cpu_model: LauncherCpuModel,
    pub vector_table: u32,
    pub regions: Vec<MemoryRegion>,
    pub patches: Vec<MemoryPatch>,
    pub usb_cdc_tcp: Option<UsbCdcTcpDevice>,
    pub ecu_io: Option<EcuIoDevice>,
}

/// A board configuration ready to be written out and run.
#[derive(Clone, Debug, PartialEq, Eq)]
pub struct ResolvedProfile {
    pub variant: KnownVariant,
    pub cpu_model: LauncherCpuModel,
    pub vector_table: u32,
    pub firmware: String,
    pub svd: String,
    pub regions: Vec<MemoryRegion>,
    pub patches: Vec<MemoryPatch>,
    pub usb_cdc_tcp: Option<ResolvedUsbCdcTcp>,
    pub ecu_io: Option<EcuIoDevice>,
}

#[derive(Clone, Debug, PartialEq, Eq)]
pub enum ProfileError {
    UnsupportedVariant(&'static str),
}

impl ProfileError {
    pub fn message(&self) -> (m: String)
        ensures
            match self {
                ProfileError::UnsupportedVariant(id) => m@ == "Variant '"@ + id@
                    + "' has no verified emulation profile"@,
            },
    {
        match self {
            ProfileError::UnsupportedVariant(id) => {
                let mut m = String::new();
                m.append("Variant '");
                m.append(id);
                m.append("' has no verified emulation profile");
                m
            },
        }
    }
}

/// The text after the last `:` of `s`, or all of `s` without one.
pub open spec fn spec_after_last_colon(s: Seq<char>) -> Seq<char>
    decreases s.len(),
{
    if s.len() == 0 {
        s
    } else if s.last() == ':' {
        Seq::empty()
    } else {
        spec_after_last_colon(s.drop_last()).push(s.last())
    }
}

/// The port of a `host:port` listen address.
pub open spec fn spec_listen_port(listen: Seq<char>) -> Option<u16> {
    spec_parse_u16(spec_after_last_colon(listen))
}

/// The text after the last `:` of `s`.
pub fn after_last_colon(s: &str) -> (r: Vec<char>)
    ensures
        r@ == spec_after_last_colon(s@),
{
    let v = chars_of(s);
    let mut r: Vec<char> = Vec::new();
    let mut i: usize = 0;
    while i < v.len()
        invariant
            v@ == s@,
            i <= v@.len(),
            r@ == spec_after_last_colon(v@.take(i as int)),
        decreases v@.len() - i,
    {
        proof {
            assert(v@.take(i + 1).drop_last() =~= v@.take(i as int));
        }
        if v[i] == ':' {
            r = Vec::new();
        } else {
            r.push(v[i]);
        }
        i += 1;
    }
    assert(v@.take(i as int) =~= v@);
    r
}

impl ResolvedProfile {
    /// The profile of `variant`: the board's profile data with the given
    /// firmware and SVD.
    pub open spec fn spec_is_variant_profile(
        self,
        variant: KnownVariant,
        firmware: Seq<char>,
        svd: Seq<char>,
    ) -> bool {
        &&& self.variant == variant
        &&& self.firmware@ == firmware
        &&& self.svd@ == svd
        &&& self.cpu_model == LauncherCpuModel::CortexM7
        &&& self.vector_table == 0x0020_0000
        &&& self.regions@ == boards::spec_proteus_f7_regions()
        &&& self.patches@.len() == 1
        &&& self.patches@[0].start == boards::PROTEUS_F7_FLASH_SIZE_ADDR
        &&& self.patches@[0].data@ == seq![0x00u8, 0x08u8]
        &&& self.usb_cdc_tcp matches Some(u) && u.peripheral@ == "OTG_FS_GLOBAL"@ && u.listen@
            == "127.0.0.1:29000"@ && u.max_buffered_bytes == 65536
        &&& self.ecu_io matches Some(d) && d.listen@ == "127.0.0.1:29002"@ && d.pins@
            == boards::spec_proteus_f7_pins() && d.adc_channels@
            == boards::spec_proteus_f7_adc_channels()
    }

    /// The manual profile from explicit values: flash (loaded with the
    /// firmware) and RAM, nothing else.
    pub open spec fn spec_is_manual_profile(
        self,
        cpu_model: LauncherCpuModel,
        firmware: Seq<char>,
        svd: Seq<char>,
        vector_table: u32,
        flash_start: u32,
        flash_size: u32,
        ram_start: u32,
        ram_size: u32,
    ) -> bool {
        &&& self.variant.id@ == "manual"@
        &&& self.variant.display_name@ == "Manual profile"@
        &&& self.variant.mcu is None
        &&& self.variant.support == EmulationSupport::Runnable
        &&& self.variant.profile is None
        &&& self.cpu_model == cpu_model
        &&& self.firmware@ == firmware
        &&& self.svd@ == svd
        &&& self.vector_table == vector_table
        &&& self.regions@ == seq![
            MemoryRegion { name: "Manual-FLASH", start: flash_start, size: flash_size, load_firmware: true },
            MemoryRegion { name: "Manual-RAM", start: ram_start, size: ram_size, load_firmware: false },
        ]
        &&& self.patches@.len() == 0
        &&& self.usb_cdc_tcp is None
        &&& self.ecu_io is None
    }
}

impl ResolvedProfile {
    /// The profile of a board with an emulation profile.
    pub fn for_variant(variant: KnownVariant, firmware: String, svd: String) -> (r: Result<
        ResolvedProfile,
        ProfileError,
    >)
        ensures
            variant.profile is None <==> r is Err,
            r matches Err(e) ==> e == ProfileError::UnsupportedVariant(variant.id),
            r matches Ok(p) ==> p.spec_is_variant_profile(variant, firmware@, svd@),
    {
        match variant.profile {
            None => Err(ProfileError::UnsupportedVariant(variant.id)),
            Some(ProfileKind::ProteusF7) => {
                let template = boards::proteus_f7_profile();
                Ok(
                    ResolvedProfile {
                        variant,
                        cpu_model: template.cpu_model,
                        vector_table: template.vector_table,
                        firmware,
                        svd,
                        regions: template.regions,
                        patches: template.patches,
                        usb_cdc_tcp: match template.usb_cdc_tcp {
                            Some(d) => Some(ResolvedUsbCdcTcp::from_device(d)),
                            None => None,
                        },
                        ecu_io: template.ecu_io,
                    },
                )
            },
        }
    }

    /// The port the USB CDC TCP bridge listens on, if the profile has one
    /// and its address ends in a port number.
    pub fn usb_cdc_tcp_port(&self) -> (r: Option<u16>)
        ensures
            r == match self.usb_cdc_tcp {
                Some(d) => spec_listen_port(d.listen@),
                None => None,
            },
    {
        match &self.usb_cdc_tcp {
            Some(d) => {
                let tail = after_last_colon(d.listen.as_str());
                parse_u16(&tail)
            },
            None => None,
        }
    }

    /// Makes the USB CDC TCP bridge listen on `port` of 127.0.0.1; a
    /// profile without the bridge is left as it is.
    pub fn set_usb_cdc_tcp_port(&mut self, port: u16)
        ensures
            final(self).variant == old(self).variant,
            final(self).cpu_model == old(self).cpu_model,
            final(self).vector_table == old(self).vector_table,
            final(self).firmware == old(self).firmware,
            final(self).svd == old(self).svd,
            final(self).regions == old(self).regions,
            final(self).patches == old(self).patches,
            final(self).ecu_io == old(self).ecu_io,
            match old(self).usb_cdc_tcp {
                None => final(self).usb_cdc_tcp is None,
                Some(d) => final(self).usb_cdc_tcp matches Some(d2) && d2.peripheral == d.peripheral
                    && d2.max_buffered_bytes == d.max_buffered_bytes && d2.listen@ == "127.0.0.1:"@
                    + decimal(port as nat),
            },
    {
        match &mut self.usb_cdc_tcp {
            Some(d) => {
                let mut listen = String::new();
                listen.append("127.0.0.1:");
                push_decimal(&mut listen, port as u32);
                d.listen = listen;
            },
            None => {},
        }
    }

    /// A profile from explicit values: flash (loaded with the firmware)
    /// and RAM.
    pub fn manual(
        cpu_model: LauncherCpuModel,
        firmware: String,
        svd: String,
        vector_table: u32,
        flash_start: u32,
        flash_size: u32,
        ram_start: u32,
        ram_size: u32,
    ) -> (p: ResolvedProfile)
        ensures
            p.spec_is_manual_profile(
                cpu_model,
                firmware@,
                svd@,
                vector_table,
                flash_start,
                flash_size,
                ram_start,
                ram_size,
            ),
    {
        let mut regions: Vec<MemoryRegion> = Vec::new();
        regions.push(MemoryRegion { name: "Manual-FLASH", start: flash_start, size: flash_size, load_firmware: true });
        regions.push(MemoryRegion { name: "Manual-RAM", start: ram_start, size: ram_size, load_firmware: false });
        assert(regions@ =~= seq![
            MemoryRegion { name: "Manual-FLASH", start: flash_start, size: flash_size, load_firmware: true },
            MemoryRegion { name: "Manual-RAM", start: ram_start, size: ram_size, load_firmware: false },
        ]);
        ResolvedProfile {
            variant: KnownVariant::manual(),
            cpu_model,
            vector_table,
            firmware,
            svd,
            regions,
            patches: Vec::new(),
            usb_cdc_tcp: None,
            ecu_io: None,
        }
    }
}

/// The port set on a profile's USB CDC TCP bridge is the port it reports.
pub proof fn law_usb_cdc_tcp_port_round_trip(port: u16)
    ensures
        spec_listen_port("127.0.0.1:"@ + decimal(port as nat)) == Some(port),
{
    let d = decimal(port as nat);
    crate::text::lemma_decimal_digits(port as nat);
    crate::text::law_decimal_parses_back_u16(port);
    reveal_strlit("127.0.0.1:");
    assert forall|i: int| 0 <= i < d.len() implies d[i] != ':' by {
        assert(crate::text::is_digit(d[i]));
    }
    lemma_after_last_colon_tail("127.0.0.1:"@, d);
}

/// Appending colon-free text after a colon leaves exactly that text after
/// the last colon.
pub proof fn lemma_after_last_colon_tail(head: Seq<char>, tail: Seq<char>)
    requires
        head.len() > 0,
        head.last() == ':',
        forall|i: int| 0 <= i < tail.len() ==> tail[i] != ':',
    ensures
        spec_after_last_colon(head + tail) == tail,
    decreases tail.len(),
{
    if tail.len() == 0 {
        assert(head + tail =~= head);
    } else {
        let t = tail.drop_last();
        assert forall|i: int| 0 <= i < t.len() implies t[i] != ':' by {
            assert(t[i] == tail[i]);
        }
        lemma_after_last_colon_tail(head, t);
        assert((head + tail).drop_last() =~= head + t);
        assert((head + tail).last() == tail.last());
        assert(tail =~= t.push(tail.last()));
    }
}

/// The number a manual-profile field holds: decimal, or hexadecimal after
/// `0x` or `0X`, with surrounding whitespace ignored.
pub open spec fn spec_parse_address(input: Seq<char>) -> Option<u32> {
    let v = spec_trim(input);
    if is_prefix("0x"@, v) || is_prefix("0X"@, v) {
        spec_parse_hex_u32(v.skip(2))
    } else {
        spec_parse_u32(v)
    }
}

/// Reads a manual-profile address field; `label` names it in the error.
pub fn parse_address(input: &str, label: &str) -> (r: Result<u32, String>)
    ensures
        r matches Ok(v) ==> spec_parse_address(input@) == Some(v),
        r is Err <==> spec_parse_address(input@) is None,
        r matches Err(m) ==> m@ == "Manual "@ + label@ + " must be decimal or hexadecimal (0x...)."@,
{
    let t = trim(input);
    let v = chars_of(t.as_str());
    proof {
        reveal_strlit("0x");
        reveal_strlit("0X");
    }
    let hex = v.len() >= 2 && v[0] == '0' && (v[1] == 'x' || v[1] == 'X');
    proof {
        if v@.len() >= 2 {
            assert(v@.subrange(0, 2) =~= seq![v@[0], v@[1]]);
            assert("0x"@ =~= seq!['0', 'x']);
            assert("0X"@ =~= seq!['0', 'X']);
        }
        assert(hex == (is_prefix("0x"@, v@) || is_prefix("0X"@, v@)));
    }
    let parsed = if hex {
        parse_hex_u32_from(&v, 2)
    } else {
        parse_u32(&v)
    };
    match parsed {
        Some(x) => Ok(x),
        None => {
            let mut m = String::new();
            m.append("Manual ");
            m.append(label);
            m.append(" must be decimal or hexadecimal (0x...).");
            Err(m)
        },
    }
}

} // verus!
