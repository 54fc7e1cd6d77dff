use vstd::prelude::*;
use crate::launcher::LauncherCpuModel;
use crate::paths::{join, spec_join};

verus! {

#[derive(Clone, Debug, PartialEq, Eq)]
pub struct WindowPlacement {
    pub x: i32,
    pub y: i32,
    pub width: u32,
    pub height: u32,
}

impl Default for WindowPlacement {
    fn default() -> (w: Self)
        ensures
            w.x == 0 && w.y == 0 && w.width == 0 && w.height == 0,
    {
        WindowPlacement { x: 0, y: 0, width: 0, height: 0 }
    }
}

/// The launcher selections kept between sessions.
#[derive(Clone, Debug, PartialEq, Eq)]
pub struct SavedLauncherState {
    pub firmware: Option<String>,
    pub svd: Option<String>,
    pub emulator_executable: Option<String>,
    pub selected_variant: Option<String>,
    pub filter: String,
    pub manual_enabled: bool,
    pub manual_cpu_model: LauncherCpuModel,
    pub manual_svd: String,
    pub manual_vector_table: String,
    pub manual_flash_start: String,
    pub manual_flash_size: String,
    pub manual_ram_start: String,
    pub manual_ram_size: String,
    pub usb_cdc_tcp_port: String,
}

impl Default for SavedLauncherState {
    fn default() -> (s: Self)
        ensures
            s.firmware is None,
            s.svd is None,
            s.emulator_executable is None,
            s.selected_variant is None,
            s.filter@.len() == 0,
            !s.manual_enabled,
            s.manual_cpu_model == LauncherCpuModel::CortexM4,
            s.manual_svd@.len() == 0,
            s.manual_vector_table@.len() == 0,
            s.manual_flash_start@.len() == 0,
            s.manual_flash_size@.len() == 0,
            s.manual_ram_start@.len() == 0,
            s.manual_ram_size@.len() == 0,
            s.usb_cdc_tcp_port@.len() == 0,
    {
        SavedLauncherState {
            firmware: None,
            svd: None,
            emulator_executable: None,
            selected_variant: None,
            filter: String::new(),
            manual_enabled: false,
            manual_cpu_model: LauncherCpuModel::CortexM4,
            manual_svd: String::new(),
            manual_vector_table: String::new(),
            manual_flash_start: String::new(),
            manual_flash_size: String::new(),
            manual_ram_start: String::new(),
            manual_ram_size: String::new(),
            usb_cdc_tcp_port: String::new(),
        }
    }
}

#[derive(Clone, Debug, PartialEq, Eq)]
pub struct Workspace {
    pub window: Option<WindowPlacement>,
    pub state: SavedLauncherState,
}

impl Default for Workspace {
    fn default() -> (w: Self)
        ensures
            w.window is None,
            w.state.firmware is None,
            w.state.selected_variant is None,
    {
        Workspace { window: None, state: SavedLauncherState::default() }
    }
}

/// Where the launcher keeps its files.
pub struct WorkspaceStore {
    pub directory: String,
}

impl WorkspaceStore {
    pub fn new(directory: String) -> (s: WorkspaceStore)
        ensures
            s.directory == directory,
    {
        WorkspaceStore { directory }
    }

    pub fn workspace_path(&self) -> (p: String)
        ensures
            p@ == spec_join(self.directory@, "workspace.yaml"@),
    {
        join(self.directory.as_str(), "workspace.yaml")
    }

    pub fn imgui_ini_path(&self) -> (p: String)
        ensures
            p@ == spec_join(self.directory@, "imgui.ini"@),
    {
        join(self.directory.as_str(), "imgui.ini")
    }
}

#[derive(Debug)]
pub struct WorkspaceError(pub String);

impl WorkspaceError {
    pub fn message(&self) -> (m: &str)
        ensures
            m@ == self.0@,
    {
        self.0.as_str()
    }
}

} // verus!
