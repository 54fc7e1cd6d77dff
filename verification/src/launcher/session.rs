use vstd::prelude::*;
use crate::launcher::form::{
    find_variant, resolve_launch, spec_first_variant, spec_launch_ok, spec_or_default, ManualForm,
};
use crate::launcher::registry::{all_variants, support_label, support_summary};
use crate::launcher::ui_state::{LauncherState, RunStatus};
use crate::launcher::workspace::SavedLauncherState;
use crate::launcher::{EmulationSupport, KnownVariant};
use crate::paths::{join, spec_join};
use crate::text::{contains, lowercase_of, spec_contains, str_eq, to_lowercase};

verus! {

/// What the launcher window holds between frames: the selections, the
/// variant catalog with its filter, and the manual form; the files it
/// picks and the emulator process it runs are handled around it.
pub struct LauncherSession {
    pub state: LauncherState,
    pub variants: Vec<KnownVariant>,
    pub filter: String,
    pub manual: ManualForm,
    pub usb_cdc_tcp_port: String,
}

fn copy_path(p: &Option<String>) -> (r: Option<String>)
    ensures
        r == *p,
{
    match p {
        Some(s) => Some(s.clone()),
        None => None,
    }
}

/// A board is listed under a filter when the lowercased filter is empty
/// or occurs in its lowercased id or display name.
pub open spec fn spec_variant_visible(v: KnownVariant, filter: Seq<char>) -> bool {
    let f = lowercase_of(filter);
    ||| f.len() == 0
    ||| spec_contains(lowercase_of(v.id@), f)
    ||| spec_contains(lowercase_of(v.display_name@), f)
}

/// Progress toward a run, as the window's signal chain shows it.
#[derive(Clone, Copy, Debug, PartialEq, Eq, Structural)]
pub struct SignalChain {
    pub firmware: bool,
    pub variant: bool,
    pub profile: bool,
    pub emulator: bool,
}

/// The notes the window shows on the selected board.
pub struct HardwareNotes {
    /// The heading, if any.
    pub heading: Option<String>,
    /// The heading is a warning rather than good news.
    pub warn: bool,
    pub lines: Vec<&'static str>,
}

pub const PROTEUS_F7_NOTE: &'static str = "Verified: STM32F767 code and AXI flash aliases, ITCM/DTCM/SRAM map, and F767 SVD. Current firmware trace still reaches an unmodeled FLASH ACR latency startup boundary.";

pub const CATALOG_ONLY_NOTE: &'static str = "This entry is selectable because it is known source data. It remains blocked until its MCU, SVD, memory map, and required devices are independently verified.";

pub const MANUAL_NOTE: &'static str = "Only the entered flash and RAM regions will be mapped. Peripheral and device behavior is not inferred.";

pub const NO_SELECTION_NOTE: &'static str = "Select a cataloged variant to inspect its emulator evidence.";

impl LauncherSession {
    /// The session holds the saved selections, the catalog and the saved
    /// form; nothing runs and no error is shown.
    pub open spec fn spec_loaded_from(self, saved: SavedLauncherState) -> bool {
        &&& self.state.firmware == saved.firmware
        &&& self.state.svd == saved.svd
        &&& self.state.emulator_executable == saved.emulator_executable
        &&& self.state.selected_variant == saved.selected_variant
        &&& self.state.status == RunStatus::Idle
        &&& self.state.last_error is None
        &&& self.variants@.len() == 1
        &&& self.variants@[0].id@ == "proteus_f7"@
        &&& self.filter == saved.filter
        &&& self.manual.spec_from_saved(saved)
        &&& self.usb_cdc_tcp_port == saved.usb_cdc_tcp_port
    }

    /// `saved` keeps what the session holds.
    pub open spec fn spec_saves_as(self, saved: SavedLauncherState) -> bool {
        &&& saved.firmware == self.state.firmware
        &&& saved.svd == self.state.svd
        &&& saved.emulator_executable == self.state.emulator_executable
        &&& saved.selected_variant == self.state.selected_variant
        &&& saved.filter == self.filter
        &&& saved.manual_enabled == self.manual.enabled
        &&& saved.manual_cpu_model == self.manual.cpu_model
        &&& saved.manual_svd == self.manual.svd
        &&& saved.manual_vector_table == self.manual.vector_table
        &&& saved.manual_flash_start == self.manual.flash_start
        &&& saved.manual_flash_size == self.manual.flash_size
        &&& saved.manual_ram_start == self.manual.ram_start
        &&& saved.manual_ram_size == self.manual.ram_size
        &&& saved.usb_cdc_tcp_port == self.usb_cdc_tcp_port
    }

    /// The window as it opens on the saved selections.
    pub fn new(saved: &SavedLauncherState) -> (s: LauncherSession)
        ensures
            s.spec_loaded_from(*saved),
    {
        LauncherSession {
            state: LauncherState {
                firmware: copy_path(&saved.firmware),
                svd: copy_path(&saved.svd),
                emulator_executable: copy_path(&saved.emulator_executable),
                selected_variant: copy_path(&saved.selected_variant),
                status: RunStatus::Idle,
                last_error: None,
            },
            variants: all_variants(),
            filter: saved.filter.clone(),
            manual: ManualForm::from_saved(saved),
            usb_cdc_tcp_port: saved.usb_cdc_tcp_port.clone(),
        }
    }

    /// The selections to keep for the next session.
    pub fn saved_state(&self) -> (r: SavedLauncherState)
        ensures
            self.spec_saves_as(r),
    {
        SavedLauncherState {
            firmware: copy_path(&self.state.firmware),
            svd: copy_path(&self.state.svd),
            emulator_executable: copy_path(&self.state.emulator_executable),
            selected_variant: copy_path(&self.state.selected_variant),
            filter: self.filter.clone(),
            manual_enabled: self.manual.enabled,
            manual_cpu_model: self.manual.cpu_model,
            manual_svd: self.manual.svd.clone(),
            manual_vector_table: self.manual.vector_table.clone(),
            manual_flash_start: self.manual.flash_start.clone(),
            manual_flash_size: self.manual.flash_size.clone(),
            manual_ram_start: self.manual.ram_start.clone(),
            manual_ram_size: self.manual.ram_size.clone(),
            usb_cdc_tcp_port: self.usb_cdc_tcp_port.clone(),
        }
    }

    /// The variant whose id is selected, if the catalog has it.
    pub fn selected_variant(&self) -> (r: Option<KnownVariant>)
        ensures
            match self.state.selected_variant {
                None => r is None,
                Some(id) => {
                    &&& (r is Some <==> spec_first_variant(self.variants@, id@) >= 0)
                    &&& (r matches Some(v) ==> v == self.variants@[spec_first_variant(
                        self.variants@,
                        id@,
                    )])
                },
            },
    {
        match &self.state.selected_variant {
            None => None,
            Some(id) => find_variant(&self.variants, id.as_str()),
        }
    }

    /// Selects a board of the catalog, leaving manual mode; the Proteus F7
    /// gets the SVD that ships with it, under `current_dir`, when none is
    /// chosen yet.
    pub fn select_variant(&mut self, variant: KnownVariant, current_dir: &str)
        ensures
            !final(self).manual.enabled,
            final(self).manual.cpu_model == old(self).manual.cpu_model,
            final(self).manual.svd == old(self).manual.svd,
            final(self).state.selected_variant matches Some(id) && id@ == variant.id@,
            (variant.id@ == "proteus_f7"@ && old(self).state.svd is None) ==> (final(self).state.svd matches Some(p) && p@ == spec_join(
                spec_join(current_dir@, "proteus_f7"@),
                "STM32F767.svd"@,
            )),
            !(variant.id@ == "proteus_f7"@ && old(self).state.svd is None) ==> final(self).state.svd
                == old(self).state.svd,
            final(self).state.firmware == old(self).state.firmware,
            final(self).state.emulator_executable == old(self).state.emulator_executable,
            final(self).state.status == old(self).state.status,
            final(self).state.last_error == old(self).state.last_error,
            final(self).variants == old(self).variants,
            final(self).filter == old(self).filter,
    {
        self.manual.enabled = false;
        self.state.selected_variant = Some(variant.id.to_owned());
        if str_eq(variant.id, "proteus_f7") && self.state.svd.is_none() {
            let dir = join(current_dir, "proteus_f7");
            self.state.svd = Some(join(dir.as_str(), "STM32F767.svd"));
        }
    }

    /// Turns the manual profile on or off; with it on, no board of the
    /// catalog stays selected.
    pub fn set_manual_enabled(&mut self, enabled: bool)
        ensures
            final(self).manual.enabled == enabled,
            enabled ==> final(self).state.selected_variant is None,
            !enabled ==> final(self).state.selected_variant == old(self).state.selected_variant,
            final(self).state.firmware == old(self).state.firmware,
            final(self).state.svd == old(self).state.svd,
            final(self).state.status == old(self).state.status,
            final(self).state.last_error == old(self).state.last_error,
            final(self).manual.svd == old(self).manual.svd,
            final(self).manual.cpu_model == old(self).manual.cpu_model,
            final(self).variants == old(self).variants,
            final(self).filter == old(self).filter,
    {
        self.manual.enabled = enabled;
        if enabled {
            self.state.selected_variant = None;
        }
    }

    /// The boards of the catalog that the filter lets through, in order.
    pub fn visible_variants(&self) -> (r: Vec<KnownVariant>)
        ensures
            r@ == self.variants@.filter(|v: KnownVariant| spec_variant_visible(v, self.filter@)),
    {
        let filter = to_lowercase(self.filter.as_str());
        let empty = filter.as_str().unicode_len() == 0;
        let ghost pred = |v: KnownVariant| spec_variant_visible(v, self.filter@);
        let mut r: Vec<KnownVariant> = Vec::new();
        let mut i: usize = 0;
        while i < self.variants.len()
            invariant
                i <= self.variants@.len(),
                filter@ == lowercase_of(self.filter@),
                empty == (filter@.len() == 0),
                pred == (|v: KnownVariant| spec_variant_visible(v, self.filter@)),
                r@ == self.variants@.take(i as int).filter(pred),
            decreases self.variants@.len() - i,
        {
            let v = self.variants[i];
            let shown = empty || contains(to_lowercase(v.id).as_str(), filter.as_str()) || contains(
                to_lowercase(v.display_name).as_str(),
                filter.as_str(),
            );
            assert(shown == pred(v));
            proof {
                reveal(Seq::filter);
                assert(self.variants@.take(i as int + 1).drop_last() =~= self.variants@.take(
                    i as int,
                ));
            }
            if shown {
                r.push(v);
            }
            i += 1;
        }
        assert(self.variants@.take(i as int) =~= self.variants@);
        r
    }

    /// The progress the signal chain shows. Whether the firmware and the
    /// SVD that the selection names are files is asked of the caller.
    pub fn signal_chain(&self, firmware_is_file: bool, svd_is_file: bool) -> (c: SignalChain)
        ensures
            c.firmware == self.state.firmware is Some,
            c.variant == (self.manual.enabled || match self.state.selected_variant {
                Some(id) => spec_first_variant(self.variants@, id@) >= 0,
                None => false,
            }),
            c.profile == spec_launch_ok(
                self.state,
                self.manual,
                self.variants@,
                firmware_is_file,
                svd_is_file,
            ),
            c.emulator == (self.state.status == RunStatus::Running),
    {
        let profile = resolve_launch(
            &self.state,
            &self.manual,
            &self.variants,
            firmware_is_file,
            svd_is_file,
        ).is_ok();
        SignalChain {
            firmware: self.state.firmware.is_some(),
            variant: self.manual.enabled || self.selected_variant().is_some(),
            profile,
            emulator: self.state.status == RunStatus::Running,
        }
    }

    /// Whether the run button is live: nothing runs, firmware and a board
    /// are chosen, and the profile resolves.
    pub fn run_enabled(&self, firmware_is_file: bool, svd_is_file: bool) -> (r: bool)
        ensures
            r == (self.state.firmware is Some && self.state.selected_variant is Some
                && self.state.status != RunStatus::Running && spec_launch_ok(
                self.state,
                self.manual,
                self.variants@,
                firmware_is_file,
                svd_is_file,
            )),
    {
        self.state.can_run() && resolve_launch(
            &self.state,
            &self.manual,
            &self.variants,
            firmware_is_file,
            svd_is_file,
        ).is_ok()
    }

    /// The run state the output panel shows.
    pub fn status_text(&self) -> (s: &'static str)
        ensures
            s@ == if self.state.status == RunStatus::Running {
                "Running"@
            } else {
                "Idle"@
            },
    {
        if self.state.status == RunStatus::Running {
            "Running"
        } else {
            "Idle"
        }
    }

    /// The notes on the manual profile or on the selected board.
    pub fn hardware_notes(&self) -> (n: HardwareNotes)
        ensures
            self.manual.enabled ==> {
                &&& n.heading matches Some(h) && h@ == "Manual profile"@
                &&& n.warn
                &&& n.lines@ == seq![MANUAL_NOTE]
            },
            !self.manual.enabled ==> ({
                let k = match self.state.selected_variant {
                    Some(id) => spec_first_variant(self.variants@, id@),
                    None => -1,
                };
                if k >= 0 {
                    let v = self.variants@[k];
                    &&& n.heading matches Some(h) && h@ == v.display_name@ + " — "@ + match v.support {
                        EmulationSupport::Runnable => "runnable"@,
                        EmulationSupport::Partial => "partial"@,
                        EmulationSupport::Unsupported => "cataloged"@,
                    }
                    &&& n.warn == (v.support == EmulationSupport::Unsupported)
                    &&& n.lines@.len() == 2
                    &&& n.lines@[0]@ == match v.support {
                        EmulationSupport::Runnable => "Runnable: profile and devices are modeled."@,
                        EmulationSupport::Partial => "Partial: the memory map is verified; device-model coverage remains incomplete."@,
                        EmulationSupport::Unsupported => "Cataloged only: no evidence-backed MCU, memory map, and SVD profile exists."@,
                    }
                    &&& n.lines@[1] == if v.id@ == "proteus_f7"@ {
                        PROTEUS_F7_NOTE
                    } else {
                        CATALOG_ONLY_NOTE
                    }
                } else {
                    &&& n.heading is None
                    &&& !n.warn
                    &&& n.lines@ == seq![NO_SELECTION_NOTE]
                }
            }),
    {
        if self.manual.enabled {
            let mut lines: Vec<&'static str> = Vec::new();
            lines.push(MANUAL_NOTE);
            return HardwareNotes { heading: Some("Manual profile".to_owned()), warn: true, lines };
        }
        match self.selected_variant() {
            Some(v) => {
                let mut heading = String::new();
                heading.append(v.display_name);
                heading.append(" — ");
                heading.append(support_label(v.support));
                let mut lines: Vec<&'static str> = Vec::new();
                lines.push(support_summary(v));
                if str_eq(v.id, "proteus_f7") {
                    lines.push(PROTEUS_F7_NOTE);
                } else {
                    lines.push(CATALOG_ONLY_NOTE);
                }
                HardwareNotes {
                    heading: Some(heading),
                    warn: v.support == EmulationSupport::Unsupported,
                    lines,
                }
            },
            None => {
                let mut lines: Vec<&'static str> = Vec::new();
                lines.push(NO_SELECTION_NOTE);
                HardwareNotes { heading: None, warn: false, lines }
            },
        }
    }

    /// What came of an attempt to start the emulator: a run, or the
    /// message that stopped it.
    pub fn record_launch(&mut self, outcome: Result<(), String>)
        ensures
            match outcome {
                Ok(()) => final(self).state.status == RunStatus::Running
                    && final(self).state.last_error is None,
                Err(m) => final(self).state.status == old(self).state.status
                    && final(self).state.last_error == Some(m),
            },
            final(self).state.firmware == old(self).state.firmware,
            final(self).state.svd == old(self).state.svd,
            final(self).state.selected_variant == old(self).state.selected_variant,
            final(self).variants == old(self).variants,
    {
        match outcome {
            Ok(()) => {
                self.state.status = RunStatus::Running;
                self.state.last_error = None;
            },
            Err(m) => {
                self.state.last_error = Some(m);
            },
        }
    }

    /// The emulator was stopped; `stop_error` is what stopping it
    /// reported, if it failed.
    pub fn record_stop(&mut self, stop_error: Option<String>)
        ensures
            final(self).state.status == RunStatus::Idle,
            match stop_error {
                Some(m) => final(self).state.last_error == Some(m),
                None => final(self).state.last_error == old(self).state.last_error,
            },
            final(self).state.firmware == old(self).state.firmware,
            final(self).state.selected_variant == old(self).state.selected_variant,
            final(self).variants == old(self).variants,
    {
        if let Some(m) = stop_error {
            self.state.last_error = Some(m);
        }
        self.state.status = RunStatus::Idle;
    }

    /// What polling the running emulator found: still running, ended, or
    /// the message of a failed poll.
    pub fn record_poll(&mut self, running: Result<bool, String>)
        ensures
            match running {
                Ok(true) => final(self).state.status == old(self).state.status
                    && final(self).state.last_error == old(self).state.last_error,
                Ok(false) => final(self).state.status == RunStatus::Idle
                    && final(self).state.last_error == old(self).state.last_error,
                Err(m) => final(self).state.status == RunStatus::Idle
                    && final(self).state.last_error == Some(m),
            },
            final(self).state.firmware == old(self).state.firmware,
            final(self).state.selected_variant == old(self).state.selected_variant,
            final(self).variants == old(self).variants,
    {
        match running {
            Ok(true) => {},
            Ok(false) => {
                self.state.status = RunStatus::Idle;
            },
            Err(m) => {
                self.state.last_error = Some(m);
                self.state.status = RunStatus::Idle;
            },
        }
    }
}

/// A board's entry in the catalog list: its id and support label.
pub fn variant_label(v: KnownVariant) -> (s: String)
    ensures
        s@ == v.id@ + "  ["@ + match v.support {
            EmulationSupport::Runnable => "runnable"@,
            EmulationSupport::Partial => "partial"@,
            EmulationSupport::Unsupported => "cataloged"@,
        } + "]"@,
{
    let mut s = String::new();
    s.append(v.id);
    s.append("  [");
    s.append(support_label(v.support));
    s.append("]");
    s
}

/// The MCU a board carries, or that it is unknown.
pub fn variant_mcu(v: KnownVariant) -> (s: &'static str)
    ensures
        s@ == match v.mcu {
            Some(m) => m@,
            None => "MCU unknown"@,
        },
{
    match v.mcu {
        Some(m) => m,
        None => "MCU unknown",
    }
}

/// The message when no emulator executable is found.
pub fn emulator_missing_message(error: &str) -> (m: String)
    ensures
        m@ == error@ + ". Use “Choose emulator” to select it explicitly."@,
{
    let mut m = String::new();
    m.append(error);
    m.append(". Use “Choose emulator” to select it explicitly.");
    m
}

/// Saving a session right after opening it keeps every selection and
/// field that was saved; address fields saved empty come back with their
/// defaults.
pub proof fn law_session_saves_what_it_loaded(
    saved: SavedLauncherState,
    session: LauncherSession,
    again: SavedLauncherState,
)
    requires
        session.spec_loaded_from(saved),
        session.spec_saves_as(again),
    ensures
        again.firmware == saved.firmware,
        again.svd == saved.svd,
        again.emulator_executable == saved.emulator_executable,
        again.selected_variant == saved.selected_variant,
        again.filter == saved.filter,
        again.manual_enabled == saved.manual_enabled,
        again.manual_cpu_model == saved.manual_cpu_model,
        again.manual_svd@ == saved.manual_svd@,
        again.manual_vector_table@ == spec_or_default(saved.manual_vector_table@, "0x08000000"@),
        again.manual_flash_start@ == spec_or_default(saved.manual_flash_start@, "0x08000000"@),
        again.manual_flash_size@ == spec_or_default(saved.manual_flash_size@, "0x00100000"@),
        again.manual_ram_start@ == spec_or_default(saved.manual_ram_start@, "0x20000000"@),
        again.manual_ram_size@ == spec_or_default(saved.manual_ram_size@, "0x00020000"@),
        again.usb_cdc_tcp_port == saved.usb_cdc_tcp_port,
{
}

} // verus!
