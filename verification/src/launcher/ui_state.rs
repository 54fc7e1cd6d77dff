use vstd::prelude::*;

verus! {

#[derive(Clone, Copy, Debug, PartialEq, Eq, Structural)]
pub enum RunStatus {
    Idle,
    Running,
    Halted,
    Crashed,
}

impl Default for RunStatus {
    fn default() -> (s: Self)
        ensures
            s == RunStatus::Idle,
    {
        RunStatus::Idle
    }
}

/// What the launcher window shows and has selected.
#[derive(Debug)]
pub struct LauncherState {
    pub firmware: Option<String>,
    pub svd: Option<String>,
    pub emulator_executable: Option<String>,
    pub selected_variant: Option<String>,
    pub status: RunStatus,
    pub last_error: Option<String>,
}

impl Default for LauncherState {
    fn default() -> (s: Self)
        ensures
            s.firmware is None,
            s.svd is None,
            s.emulator_executable is None,
            s.selected_variant is None,
            s.status == RunStatus::Idle,
            s.last_error is None,
    {
        LauncherState {
            firmware: None,
            svd: None,
            emulator_executable: None,
            selected_variant: None,
            status: RunStatus::Idle,
            last_error: None,
        }
    }
}

impl LauncherState {
    /// A run can start once firmware and a board are chosen and nothing is
    /// running.
    pub fn can_run(&self) -> (r: bool)
        ensures
            r == (self.firmware is Some && self.selected_variant is Some && self.status
                != RunStatus::Running),
    {
        self.firmware.is_some() && self.selected_variant.is_some() && self.status
            != RunStatus::Running
    }
}

} // verus!
