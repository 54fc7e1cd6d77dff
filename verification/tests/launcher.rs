use stm32_emulator::launcher::process::{
    build_emulator_arguments, classify_exit, firmware_verdict, push_output_line,
    validate_firmware, OutputLine, OutputStream, ProcessState, MAX_OUTPUT_LINES,
};
use stm32_emulator::launcher::registry::{self, support_label, support_summary};
use stm32_emulator::launcher::ui_state::{LauncherState, RunStatus};
use stm32_emulator::launcher::workspace::WorkspaceStore;
use stm32_emulator::launcher::{
    parse_address, EmulationSupport, KnownVariant, LauncherCpuModel, ResolvedProfile,
};
use stm32_emulator::paths::display_path;

#[test]
fn proteus_f7_resolves_both_verified_firmware_aliases() {
    let profile = ResolvedProfile::for_variant(
        KnownVariant::proteus_f7(),
        r"C:\firmware\rusefi.bin".to_string(),
        r"C:\svd\STM32F767.svd".to_string(),
    )
    .expect("Proteus F7 has an evidence-backed partial profile");

    assert_eq!(profile.vector_table, 0x0020_0000);
    assert!(profile
        .regions
        .iter()
        .any(|region| region.start == 0x0020_0000 && region.load_firmware));
    assert!(profile
        .regions
        .iter()
        .any(|region| region.start == 0x0800_0000 && region.load_firmware));
}

#[test]
fn unsupported_variant_cannot_resolve_to_a_runnable_profile() {
    let profile = ResolvedProfile::for_variant(
        KnownVariant::unsupported_for_test(),
        r"C:\firmware\unknown.bin".to_string(),
        r"C:\svd\unknown.svd".to_string(),
    );
    assert!(profile.is_err());
    assert_eq!(
        profile.unwrap_err().message(),
        "Variant 'unsupported' has no verified emulation profile"
    );
}

#[test]
fn manual_profile_uses_only_explicit_memory_values() {
    let profile = ResolvedProfile::manual(
        LauncherCpuModel::CortexM4,
        r"C:\firmware\custom.bin".to_string(),
        r"C:\svd\custom.svd".to_string(),
        0x0800_0000,
        0x0800_0000,
        0x0010_0000,
        0x2000_0000,
        0x0002_0000,
    );

    assert_eq!(profile.vector_table, 0x0800_0000);
    assert_eq!(profile.regions.len(), 2);
    assert_eq!(profile.regions[0].start, 0x0800_0000);
    assert!(profile.regions[0].load_firmware);
    assert_eq!(profile.regions[1].start, 0x2000_0000);
}

#[test]
fn usb_cdc_tcp_port_defaults_to_the_profiles_template_value() {
    let profile = ResolvedProfile::for_variant(
        KnownVariant::proteus_f7(),
        "rusefi.bin".to_string(),
        "STM32F767.svd".to_string(),
    )
    .unwrap();
    assert_eq!(profile.usb_cdc_tcp_port(), Some(29000));
}

#[test]
fn setting_the_usb_cdc_tcp_port_changes_the_listen_address() {
    let mut profile = ResolvedProfile::for_variant(
        KnownVariant::proteus_f7(),
        "rusefi.bin".to_string(),
        "STM32F767.svd".to_string(),
    )
    .unwrap();
    profile.set_usb_cdc_tcp_port(40123);
    assert_eq!(profile.usb_cdc_tcp_port(), Some(40123));
    assert_eq!(profile.usb_cdc_tcp.unwrap().listen, "127.0.0.1:40123");
}

#[test]
fn setting_the_usb_cdc_tcp_port_on_a_manual_profile_is_a_harmless_no_op() {
    let mut profile = ResolvedProfile::manual(
        LauncherCpuModel::CortexM4,
        "firmware.bin".to_string(),
        "chip.svd".to_string(),
        0x0800_0000,
        0x0800_0000,
        0x0010_0000,
        0x2000_0000,
        0x0002_0000,
    );
    profile.set_usb_cdc_tcp_port(40123);
    assert_eq!(profile.usb_cdc_tcp_port(), None);
}

#[test]
fn compiled_catalog_has_unique_sorted_variant_ids() {
    let variants = registry::all_variants();
    let ids: Vec<_> = variants.iter().map(|variant| variant.id).collect();
    let unique: std::collections::HashSet<_> = ids.iter().copied().collect();
    assert_eq!(ids.len(), unique.len());
    assert!(ids.windows(2).all(|pair| pair[0] < pair[1]));
    assert!(ids.contains(&"proteus_f7"));
}

#[test]
fn unsupported_catalog_variants_do_not_resolve() {
    for variant in registry::all_variants()
        .iter()
        .filter(|variant| variant.support == EmulationSupport::Unsupported)
    {
        assert!(
            ResolvedProfile::for_variant(
                *variant,
                r"C:\firmware\image.bin".to_string(),
                r"C:\svd\device.svd".to_string(),
            )
            .is_err(),
            "{} unexpectedly resolved",
            variant.id
        );
    }
}

#[test]
fn support_texts_name_each_level() {
    assert_eq!(support_label(EmulationSupport::Partial), "partial");
    assert_eq!(support_label(EmulationSupport::Unsupported), "cataloged");
    assert_eq!(
        support_summary(KnownVariant::manual()),
        "Runnable: profile and devices are modeled."
    );
}

#[test]
fn default_launcher_state_has_no_selection_or_runnable_process() {
    let state = LauncherState::default();
    assert!(state.firmware.is_none());
    assert!(state.svd.is_none());
    assert!(state.selected_variant.is_none());
    assert_eq!(state.status, RunStatus::Idle);
    assert!(!state.can_run());
}

fn state_with_selection(status: RunStatus) -> LauncherState {
    LauncherState {
        firmware: Some("firmware.bin".to_string()),
        selected_variant: Some("proteus_f7".to_owned()),
        status,
        ..Default::default()
    }
}

#[test]
fn can_run_is_true_while_idle_halted_or_crashed_once_firmware_and_variant_are_selected() {
    assert!(state_with_selection(RunStatus::Idle).can_run());
    assert!(state_with_selection(RunStatus::Halted).can_run());
    assert!(state_with_selection(RunStatus::Crashed).can_run());
}

#[test]
fn can_run_is_false_while_running() {
    assert!(!state_with_selection(RunStatus::Running).can_run());
}

#[test]
fn builds_config_path_and_requested_verbosity_arguments() {
    assert_eq!(
        build_emulator_arguments("resolved.yaml", 1),
        vec!["resolved.yaml".to_owned(), "-v".to_owned()]
    );
}

#[test]
fn rejects_missing_firmware_before_starting_a_child_process() {
    let result = validate_firmware(r"C:\not-a-real-firmware\image.bin");
    assert!(result.is_err());
}

#[test]
fn a_missing_firmware_is_named_in_the_error() {
    let e = firmware_verdict("x.bin", false).unwrap_err();
    assert_eq!(e.message(), "Firmware file does not exist: x.bin");
    assert!(firmware_verdict("x.bin", true).is_ok());
}

#[test]
fn a_zero_exit_code_is_classified_as_a_successful_exit() {
    assert_eq!(classify_exit(Some(true)), ProcessState::Exited { success: true });
}

#[test]
fn a_nonzero_exit_code_is_classified_as_a_failed_exit() {
    assert_eq!(classify_exit(Some(false)), ProcessState::Exited { success: false });
    assert_eq!(classify_exit(None), ProcessState::Running);
}

#[test]
fn output_keeps_only_the_newest_lines() {
    let mut out = std::collections::VecDeque::new();
    for i in 0..(MAX_OUTPUT_LINES + 5) {
        push_output_line(&mut out, OutputLine { stream: OutputStream::Stdout, text: i.to_string() });
    }
    assert_eq!(out.len(), MAX_OUTPUT_LINES);
    assert_eq!(out.front().unwrap().text, "5");
}

#[test]
fn workspace_files_live_in_the_store_directory() {
    let store = WorkspaceStore::new("/home/u/.local/state/stm32-emulator/launcher".to_string());
    assert_eq!(
        store.workspace_path(),
        "/home/u/.local/state/stm32-emulator/launcher/workspace.yaml"
    );
    let store = WorkspaceStore::new(r"C:\Users\u\AppData\Local\stm32-emulator\launcher".to_string());
    assert_eq!(
        store.imgui_ini_path(),
        r"C:\Users\u\AppData\Local\stm32-emulator\launcher\imgui.ini"
    );
}

#[test]
fn manual_addresses_are_decimal_or_hexadecimal() {
    assert_eq!(parse_address(" 0x0800_0000", "flash start").is_err(), true);
    assert_eq!(parse_address(" 0x08000000 ", "flash start"), Ok(0x0800_0000));
    assert_eq!(parse_address("0X20000000", "RAM start"), Ok(0x2000_0000));
    assert_eq!(parse_address("131072", "RAM size"), Ok(131072));
    assert_eq!(parse_address("+7", "RAM size"), Ok(7));
    assert_eq!(
        parse_address("4294967296", "RAM size"),
        Err("Manual RAM size must be decimal or hexadecimal (0x...).".to_string())
    );
    assert_eq!(
        parse_address("0x", "vector table"),
        Err("Manual vector table must be decimal or hexadecimal (0x...).".to_string())
    );
}

#[test]
fn an_unselected_path_is_shown_as_such() {
    assert_eq!(display_path(None), "not selected");
    assert_eq!(display_path(Some("fw.bin")), "fw.bin");
}

use stm32_emulator::launcher::form::{resolve_launch, ManualForm};
use stm32_emulator::launcher::workspace::SavedLauncherState;

fn selection(variant: &str) -> LauncherState {
    LauncherState {
        firmware: Some("fw.bin".to_string()),
        svd: Some("STM32F767.svd".to_string()),
        selected_variant: Some(variant.to_string()),
        ..Default::default()
    }
}

#[test]
fn an_empty_saved_form_gets_default_addresses() {
    let form = ManualForm::from_saved(&SavedLauncherState::default());
    assert_eq!(form.vector_table, "0x08000000");
    assert_eq!(form.flash_size, "0x00100000");
    assert_eq!(form.ram_start, "0x20000000");
    assert_eq!(form.ram_size, "0x00020000");
    assert!(!form.enabled);
}

#[test]
fn launching_needs_firmware_a_board_and_existing_files() {
    let form = ManualForm::from_saved(&SavedLauncherState::default());
    let variants = registry::all_variants();
    let none = LauncherState::default();
    assert_eq!(
        resolve_launch(&none, &form, &variants, true, true).unwrap_err(),
        "Choose a firmware .bin file."
    );
    assert_eq!(
        resolve_launch(&selection("proteus_f7"), &form, &variants, false, true).unwrap_err(),
        "Firmware file does not exist: fw.bin"
    );
    assert_eq!(
        resolve_launch(&selection("nope"), &form, &variants, true, true).unwrap_err(),
        "Choose a cataloged variant or enable Manual profile."
    );
    assert_eq!(
        resolve_launch(&selection("proteus_f7"), &form, &variants, true, false).unwrap_err(),
        "SVD file does not exist: STM32F767.svd"
    );
    let p = resolve_launch(&selection("proteus_f7"), &form, &variants, true, true).unwrap();
    assert_eq!(p.usb_cdc_tcp_port(), Some(29000));
}

#[test]
fn a_manual_launch_parses_every_address_field() {
    let mut form = ManualForm::from_saved(&SavedLauncherState::default());
    form.enabled = true;
    form.svd = "custom.svd".to_string();
    let variants = registry::all_variants();
    let p = resolve_launch(&selection("proteus_f7"), &form, &variants, true, true).unwrap();
    assert_eq!(p.regions[0].start, 0x0800_0000);
    assert_eq!(p.regions[1].size, 0x0002_0000);
    assert_eq!(
        resolve_launch(&selection("proteus_f7"), &form, &variants, true, false).unwrap_err(),
        "Manual profile requires an existing SVD file."
    );
    form.flash_size = "big".to_string();
    assert_eq!(
        resolve_launch(&selection("proteus_f7"), &form, &variants, true, true).unwrap_err(),
        "Manual flash size must be decimal or hexadecimal (0x...)."
    );
}
