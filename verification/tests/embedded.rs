use stm32_emulator::config::{
    Config, Cpu, CpuModel, FlashPersistence, InternalFlashConfig, InternalFlashModel, Region,
};
use stm32_emulator::embedded::{
    apply_flash_backing_path, cdc_trace_enabled, resolve_config_paths, resolve_path,
    EmbeddedEmulatorOptions, EmbeddedRunGuard,
};
use stm32_emulator::emulator::{
    faulting_instruction_width, is_exception_return_pc, stop_address_state, thumb, BlockClock,
    VectorTable,
};

#[test]
fn embedded_defaults_are_unbounded_and_interrupt_accurate() {
    let options = EmbeddedEmulatorOptions::new("board.yaml");
    assert_eq!(options.interrupt_period, 1);
    assert_eq!(options.max_instructions, None);
    assert!(!options.busy_loop_stop);
    assert_eq!(options.flash_backing_path, None);
}

#[test]
fn relative_paths_resolve_against_config_directory() {
    assert_eq!(resolve_path(r"C:\boards\proteus", "chip.svd"), r"C:\boards\proteus\chip.svd");
    assert_eq!(resolve_path(r"C:\boards\proteus", r"D:\fw\image.bin"), r"D:\fw\image.bin");
}

#[test]
fn embedded_run_guard_rejects_overlapping_instances_and_releases_on_drop() {
    let mut guard = EmbeddedRunGuard::new();
    assert!(guard.acquire().is_ok());
    assert!(guard.acquire().is_err());
    guard.release();
    assert!(guard.acquire().is_ok());
}

fn config() -> Config {
    Config {
        cpu: Cpu { model: CpuModel::CortexM7, svd: "chip.svd".to_string(), vector_table: 0x0020_0000 },
        regions: vec![
            Region { name: "ROM".to_string(), start: 0x0800_0000, size: 0x20_0000, load: Some("fw.bin".to_string()) },
            Region { name: "RAM".to_string(), start: 0x2000_0000, size: 0x2_0000, load: None },
            Region { name: "ABS".to_string(), start: 0x2002_0000, size: 0x1000, load: Some("/data/blob.bin".to_string()) },
        ],
        internal_flash: Some(InternalFlashConfig {
            model: InternalFlashModel::Stm32F7DualBank,
            start: 0x0800_0000,
            size: 0x20_0000,
            aliases: vec![0x0020_0000],
            persistent: Some(FlashPersistence { start: 0x0808_0000, size: 0x4_0000, backing_file: Some("flash.bin".to_string()) }),
        }),
        patches: None,
        peripherals: None,
        devices: None,
    }
}

#[test]
fn every_relative_configuration_path_is_resolved() {
    let mut c = config();
    resolve_config_paths(&mut c, "/boards/proteus");
    assert_eq!(c.cpu.svd, "/boards/proteus/chip.svd");
    assert_eq!(c.regions[0].load.as_deref(), Some("/boards/proteus/fw.bin"));
    assert_eq!(c.regions[1].load, None);
    assert_eq!(c.regions[2].load.as_deref(), Some("/data/blob.bin"));
    let backing = c.internal_flash.unwrap().persistent.unwrap().backing_file.unwrap();
    assert_eq!(backing, "/boards/proteus/flash.bin");
}

#[test]
fn a_backing_path_needs_a_persistent_flash_range() {
    let mut c = config();
    assert!(apply_flash_backing_path(&mut c, "host.bin".to_string()).is_ok());
    let mut c2 = config();
    c2.internal_flash = None;
    assert_eq!(
        apply_flash_backing_path(&mut c2, "host.bin".to_string()),
        Err("flash_backing_path requires an internal_flash.persistent configuration")
    );
}

#[test]
fn cdc_tracing_is_on_for_any_value_but_empty_or_zero() {
    assert!(!cdc_trace_enabled(None));
    assert!(!cdc_trace_enabled(Some("")));
    assert!(!cdc_trace_enabled(Some("0")));
    assert!(cdc_trace_enabled(Some("1")));
    assert!(cdc_trace_enabled(Some("00")));
}

#[test]
fn the_vector_table_is_two_little_endian_words() {
    let t = VectorTable::from_bytes(&[0x00, 0x00, 0x02, 0x20, 0x01, 0x02, 0x20, 0x00]);
    assert_eq!(t.sp, 0x2002_0000);
    assert_eq!(t.reset, 0x0020_0201);
}

#[test]
fn stop_state_reports_pc_and_r3_in_hex() {
    assert_eq!(
        stop_address_state(0x0800_01a2, 0xdead_beef),
        "Stop address reached at pc=0x080001a2 r3=0xdeadbeef"
    );
}

#[test]
fn exception_return_values_sit_in_the_top_page() {
    assert!(is_exception_return_pc(0xffff_fff9));
    assert!(is_exception_return_pc(0xffff_fff8));
    assert!(!is_exception_return_pc(0x0800_0000));
    assert_eq!(thumb(0x0800_0100), 0x0800_0101);
    assert_eq!(faulting_instruction_width(Some(0xf000)), 4);
    assert_eq!(faulting_instruction_width(Some(0x4770)), 2);
    assert_eq!(faulting_instruction_width(None), 2);
}

#[test]
fn the_block_clock_advances_by_halfwords_and_spaces_its_deadlines() {
    let mut c = BlockClock::new();
    let a = c.on_block(0x100, 6, true, 4, 9);
    assert!(a.run_interrupts == false && a.poll == false && !a.busy_loop);
    assert_eq!(c.instructions, 3);
    let a = c.on_block(0x200, 2, true, 4, 9);
    assert!(!a.run_interrupts);
    assert_eq!(c.instructions, 4);
    let a = c.on_block(0x200, 2, true, 4, 9);
    assert!(a.run_interrupts);
    assert!(a.busy_loop);
    assert_eq!(c.last_interrupt_check, 4);
}

#[test]
fn stop_address_state_reports_runtime_r3() {
    assert_eq!(
        stop_address_state(0x0020_a134, 0x4002_3800),
        "Stop address reached at pc=0x0020a134 r3=0x40023800"
    );
}
