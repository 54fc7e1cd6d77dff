use stm32_emulator::launcher::{KnownVariant, LauncherCpuModel, ResolvedProfile};

#[test]
fn manual_profile_document_has_no_devices_and_loads_firmware_into_flash() {
    let profile = ResolvedProfile::manual(
        LauncherCpuModel::CortexM7,
        "firmware.bin".to_string(),
        "chip.svd".to_string(),
        0x0800_0000,
        0x0800_0000,
        0x0010_0000,
        0x2000_0000,
        0x0002_0000,
    );
    let document = profile.document();
    assert_eq!(document.cpu_model, LauncherCpuModel::CortexM7);
    assert_eq!(document.svd, "chip.svd");
    assert!(document.devices.is_none());
    assert!(document.patches.is_empty());
    assert_eq!(document.regions.len(), 2);
    assert_eq!(document.regions[0].load.as_deref(), Some("firmware.bin"));
    assert_eq!(document.regions[1].load, None);
}

#[test]
fn proteus_f7_document_carries_its_devices_and_patches() {
    let profile = ResolvedProfile::for_variant(
        KnownVariant::proteus_f7(),
        "rusefi.bin".to_string(),
        "STM32F767.svd".to_string(),
    )
    .unwrap();
    let document = profile.document();
    let devices = document.devices.as_ref().expect("the Proteus F7 has devices");
    assert_eq!(devices.usb_cdc_tcp.len(), 1);
    assert_eq!(devices.usb_cdc_tcp[0], profile.usb_cdc_tcp.clone().unwrap());
    assert_eq!(devices.ecu_io.len(), 1);
    assert_eq!(devices.ecu_io[0], profile.ecu_io.clone().unwrap());
    assert_eq!(document.patches, profile.patches);
    let loaded: Vec<bool> = document.regions.iter().map(|r| r.load.is_some()).collect();
    let expected: Vec<bool> = profile.regions.iter().map(|r| r.load_firmware).collect();
    assert_eq!(loaded, expected);
}

#[test]
fn proteus_f7_yaml_includes_the_usb_cdc_tcp_and_ecu_io_devices() {
    let profile = ResolvedProfile::for_variant(
        KnownVariant::proteus_f7(),
        "rusefi.bin".to_string(),
        "STM32F767.svd".to_string(),
    )
    .unwrap();

    let document = profile.document();
    let devices = document.devices.as_ref().expect("the Proteus F7 has devices");
    assert_eq!(devices.usb_cdc_tcp.len(), 1);
    assert_eq!(devices.usb_cdc_tcp[0].peripheral, "OTG_FS_GLOBAL");
    assert_eq!(devices.usb_cdc_tcp[0].listen, "127.0.0.1:29000");
    assert_eq!(devices.usb_cdc_tcp[0].max_buffered_bytes, 65536);
    assert_eq!(devices.ecu_io.len(), 1);
    let ecu_io = &devices.ecu_io[0];
    assert_eq!(ecu_io.listen, "127.0.0.1:29002");

    assert_eq!(ecu_io.pins.iter().filter(|p| p.direction == "input").count(), 8);
    assert_eq!(ecu_io.pins.iter().filter(|p| p.direction == "output").count(), 32);
    assert_eq!(ecu_io.adc_channels.iter().filter(|c| c.name.starts_with("av")).count(), 11);
    assert_eq!(ecu_io.adc_channels.iter().filter(|c| c.name.starts_with("at")).count(), 4);
    assert!(ecu_io.adc_channels.iter().any(|c| c.name == "vbatt"));

    for name in ["ls16", "ign12", "hs4", "din6", "vr1"] {
        assert!(ecu_io.pins.iter().any(|p| p.name == name), "missing {name}");
    }
    assert!(ecu_io.pins.iter().any(|p| p.name == "din6" && p.pin == "PE15"));
    assert!(ecu_io.pins.iter().any(|p| p.name == "ign12" && p.pin == "PG2"));
    assert!(!ecu_io.pins.iter().any(|p| p.name == "crank"));
    assert!(!ecu_io.adc_channels.iter().any(|c| c.name == "map"));
}

#[test]
fn proteus_f7_stock_crank_input_is_din1_on_pc6() {
    let profile = ResolvedProfile::for_variant(
        KnownVariant::proteus_f7(),
        "rusefi.bin".to_string(),
        "STM32F767.svd".to_string(),
    )
    .unwrap();
    let ecu_io = profile.ecu_io.as_ref().unwrap();
    assert_eq!(ecu_io.pins.len(), 40);
    assert_eq!(ecu_io.adc_channels.len(), 16);
    assert_eq!(ecu_io.pins[0].name, "din1");
    assert_eq!(ecu_io.pins[0].pin, "PC6");
    assert_eq!(ecu_io.pins[0].direction, "input");
}
