use stm32_emulator::launcher::session::{
    emulator_missing_message, variant_label, variant_mcu, LauncherSession, CATALOG_ONLY_NOTE,
    MANUAL_NOTE, NO_SELECTION_NOTE, PROTEUS_F7_NOTE,
};
use stm32_emulator::launcher::ui_state::RunStatus;
use stm32_emulator::launcher::workspace::SavedLauncherState;
use stm32_emulator::launcher::{KnownVariant, LauncherCpuModel};

fn saved() -> SavedLauncherState {
    SavedLauncherState {
        firmware: Some("/fw/rusefi.bin".to_string()),
        svd: None,
        emulator_executable: None,
        selected_variant: Some("proteus_f7".to_string()),
        filter: "F7".to_string(),
        manual_enabled: false,
        manual_cpu_model: LauncherCpuModel::CortexM7,
        manual_svd: "/svd/chip.svd".to_string(),
        manual_vector_table: String::new(),
        manual_flash_start: "0x08004000".to_string(),
        manual_flash_size: String::new(),
        manual_ram_start: String::new(),
        manual_ram_size: "65536".to_string(),
        usb_cdc_tcp_port: "29001".to_string(),
    }
}

#[test]
fn session_saves_what_it_loaded_with_address_defaults() {
    let s = LauncherSession::new(&saved());
    assert_eq!(s.state.status, RunStatus::Idle);
    assert_eq!(s.state.last_error, None);
    let again = s.saved_state();
    let mut expected = saved();
    expected.manual_vector_table = "0x08000000".to_string();
    expected.manual_flash_size = "0x00100000".to_string();
    expected.manual_ram_start = "0x20000000".to_string();
    assert_eq!(again, expected);
}

#[test]
fn selecting_proteus_f7_brings_its_svd_and_leaves_manual_mode() {
    let mut s = LauncherSession::new(&saved());
    s.set_manual_enabled(true);
    assert_eq!(s.state.selected_variant, None);
    s.select_variant(KnownVariant::proteus_f7(), "/work");
    assert!(!s.manual.enabled);
    assert_eq!(s.state.selected_variant.as_deref(), Some("proteus_f7"));
    assert_eq!(s.state.svd.as_deref(), Some("/work/proteus_f7/STM32F767.svd"));

    s.state.svd = Some("/mine.svd".to_string());
    s.select_variant(KnownVariant::proteus_f7(), "/work");
    assert_eq!(s.state.svd.as_deref(), Some("/mine.svd"));
}

#[test]
fn filter_matches_id_or_name_ignoring_case() {
    let mut s = LauncherSession::new(&saved());
    s.filter = "proteus f7".to_string();
    assert_eq!(s.visible_variants().len(), 1);
    s.filter = "F7".to_string();
    assert_eq!(s.visible_variants().len(), 1);
    s.filter = "h7".to_string();
    assert!(s.visible_variants().is_empty());
    s.filter = String::new();
    assert_eq!(s.visible_variants().len(), 1);
}

#[test]
fn catalog_entries_are_labelled_by_support() {
    assert_eq!(variant_label(KnownVariant::proteus_f7()), "proteus_f7  [partial]");
    assert_eq!(variant_label(KnownVariant::unsupported_for_test()), "unsupported  [cataloged]");
    assert_eq!(variant_mcu(KnownVariant::proteus_f7()), "STM32F767");
    assert_eq!(variant_mcu(KnownVariant::manual()), "MCU unknown");
}

#[test]
fn signal_chain_and_run_button_follow_the_files() {
    let mut s = LauncherSession::new(&saved());
    s.state.svd = Some("/svd/STM32F767.svd".to_string());
    let chain = s.signal_chain(true, true);
    assert!(chain.firmware && chain.variant && chain.profile && !chain.emulator);
    assert!(s.run_enabled(true, true));
    assert!(!s.signal_chain(true, false).profile);
    assert!(!s.run_enabled(false, true));
    s.record_launch(Ok(()));
    assert!(s.signal_chain(true, true).emulator);
    assert!(!s.run_enabled(true, true));
    assert_eq!(s.status_text(), "Running");
}

#[test]
fn launch_poll_and_stop_move_the_run_state() {
    let mut s = LauncherSession::new(&saved());
    s.record_launch(Err("Choose a firmware .bin file.".to_string()));
    assert_eq!(s.state.status, RunStatus::Idle);
    assert_eq!(s.state.last_error.as_deref(), Some("Choose a firmware .bin file."));
    s.record_launch(Ok(()));
    assert_eq!(s.state.status, RunStatus::Running);
    assert_eq!(s.state.last_error, None);
    s.record_poll(Ok(true));
    assert_eq!(s.state.status, RunStatus::Running);
    s.record_poll(Ok(false));
    assert_eq!(s.state.status, RunStatus::Idle);
    s.record_launch(Ok(()));
    s.record_poll(Err("wait failed".to_string()));
    assert_eq!(s.state.status, RunStatus::Idle);
    assert_eq!(s.state.last_error.as_deref(), Some("wait failed"));
    s.record_launch(Ok(()));
    s.record_stop(Some("kill failed".to_string()));
    assert_eq!(s.status_text(), "Idle");
    assert_eq!(s.state.last_error.as_deref(), Some("kill failed"));
}

#[test]
fn notes_describe_manual_mode_the_board_or_ask_for_one() {
    let mut s = LauncherSession::new(&saved());
    let notes = s.hardware_notes();
    assert_eq!(notes.heading.as_deref(), Some("Proteus F7 — partial"));
    assert!(!notes.warn);
    assert_eq!(
        notes.lines,
        vec!["Partial: the memory map is verified; device-model coverage remains incomplete.", PROTEUS_F7_NOTE]
    );
    s.state.selected_variant = Some("unknown".to_string());
    let notes = s.hardware_notes();
    assert_eq!(notes.heading, None);
    assert_eq!(notes.lines, vec![NO_SELECTION_NOTE]);
    s.set_manual_enabled(true);
    let notes = s.hardware_notes();
    assert_eq!(notes.heading.as_deref(), Some("Manual profile"));
    assert!(notes.warn);
    assert_eq!(notes.lines, vec![MANUAL_NOTE]);
    assert!(CATALOG_ONLY_NOTE.starts_with("This entry is selectable"));
}

#[test]
fn missing_emulator_message_points_at_the_chooser() {
    assert_eq!(
        emulator_missing_message("Choose the stm32-emulator executable"),
        "Choose the stm32-emulator executable. Use “Choose emulator” to select it explicitly."
    );
}
