use stm32_emulator::config::{
    FlashPersistence, InternalFlashConfig, InternalFlashModel,
};
use stm32_emulator::ext_devices::ecu_io::{EcuIo, EcuIoAdcChannelConfig, EcuIoConfig};
use stm32_emulator::peripherals::adc::{Adc, ADC_CR2, ADC_DR, ADC_SQR1, ADC_SQR3};
use stm32_emulator::peripherals::can::{Can, TSR_ALL_MAILBOXES_EMPTY};
use stm32_emulator::peripherals::dma::{Access, Dma};
use stm32_emulator::peripherals::dwt::Dwt;
use stm32_emulator::peripherals::exti::{
    Exti, EXTI_IMR, EXTI_PR, EXTI_RTSR, SYSCFG_EXTICR1, SYSCFG_EXTICR2,
};
use stm32_emulator::peripherals::flash::Flash;
use stm32_emulator::peripherals::nvic::{xpsr_on_entry, Nvic, XPSR_ITSTATE_MASK};
use stm32_emulator::peripherals::otg_fs::{
    OtgFs, GRSTCTL_CSRST, GRSTCTL_RXFFLSH, GRSTCTL_SELF_CLEARING, GRSTCTL_TXFFLSH, OTG_GRSTCTL,
    USB_RESET,
};
use stm32_emulator::peripherals::pwr::Pwr;
use stm32_emulator::peripherals::rcc::Rcc;
use stm32_emulator::peripherals::rtc::Rtc;
use stm32_emulator::peripherals::scb::{Scb, ICSR_RETTOBASE};
use stm32_emulator::peripherals::tim11::Tim11;
use stm32_emulator::peripherals::tim5::{Tim5, DIER_CC1IE, SR_CC1IF, TIM5_IRQ};
use stm32_emulator::peripherals::tim6::Tim6;
use stm32_emulator::peripherals::{BusEffect, Model, Peripherals};

#[test]
fn init_mode_request_is_acknowledged_immediately() {
    assert_eq!(Can::msr_after_mcr_write(0x0000_0001) & 0x0000_0001, 0x0000_0001);
}

#[test]
fn leaving_init_mode_clears_the_acknowledge() {
    assert_eq!(Can::msr_after_mcr_write(0x0000_0060) & 0x0000_0001, 0);
}

#[test]
fn sleep_request_is_acknowledged_immediately() {
    assert_eq!(Can::msr_after_mcr_write(0x0000_0002) & 0x0000_0002, 0x0000_0002);
}

#[test]
fn transmit_mailboxes_always_report_empty() {
    assert_eq!(TSR_ALL_MAILBOXES_EMPTY & 0x1c00_0000, 0x1c00_0000);
}

#[test]
fn only_can_peripherals_match() {
    assert!(Can::new("CAN1").is_some());
    assert!(Can::new("CAN3").is_some());
    assert!(Can::new("PWR").is_none());
}

const STREAM4_CR: u32 = 0x10 + 4 * 0x18;
const EN: u32 = 1;
const TCIE: u32 = 1 << 4;

fn dma2() -> Dma {
    Dma::new("DMA2").unwrap()
}

#[test]
fn stream_irq_matches_the_reference_manual_vector_table() {
    assert_eq!(Dma::stream_irq("DMA1", 7), Some(47));
    assert_eq!(Dma::stream_irq("DMA2", 4), Some(60));
    assert_eq!(Dma::stream_irq("DMA3", 0), None);
}

#[test]
fn enabling_a_stream_transfer_raises_its_completion_interrupt_when_tcie_is_set() {
    let mut nvic = Nvic::new();
    let mut dma = dma2();
    dma.write(STREAM4_CR + 0x04, 0, &mut nvic);
    dma.write(STREAM4_CR, EN | TCIE, &mut nvic);
    assert_eq!(nvic.get_and_clear_next_intr_pending(), Some(60));
}

#[test]
fn transfer_complete_flag_sets_but_is_not_forwarded_to_nvic_without_tcie() {
    let mut nvic = Nvic::new();
    let mut dma = dma2();
    dma.write(STREAM4_CR + 0x04, 0, &mut nvic);
    dma.write(STREAM4_CR, EN, &mut nvic);
    assert_eq!(nvic.get_and_clear_next_intr_pending(), None);
    assert_ne!(dma.read(0x04) & Dma::tcif_bit(0), 0);
}

#[test]
fn interrupt_flag_clear_register_clears_the_flag() {
    let mut nvic = Nvic::new();
    let mut dma = dma2();
    dma.write(STREAM4_CR + 0x04, 0, &mut nvic);
    dma.write(STREAM4_CR, EN, &mut nvic);
    let bit = Dma::tcif_bit(0);
    assert_ne!(dma.read(0x04) & bit, 0);
    dma.write(0x0c, bit, &mut nvic);
    assert_eq!(dma.read(0x04) & bit, 0);
}

#[test]
fn cyccnt_write_is_observed_on_the_next_read() {
    let mut dwt = Dwt::default();
    dwt.set_cyccnt(0x1000, 0);
    assert_eq!(dwt.cyccnt(0), 0x1000);
}

#[test]
fn cyccnt_counts_instructions_after_a_write() {
    let mut dwt = Dwt::default();
    dwt.set_cyccnt(0x1000, 500);
    assert_eq!(dwt.cyccnt(750), 0x1000 + 250);
}

fn route_line_6_to_port_c() -> Exti {
    let mut exti = Exti::default();
    exti.write_syscfg(SYSCFG_EXTICR2, 2 << 8);
    exti.write_exti(EXTI_IMR, 1 << 6);
    exti.write_exti(EXTI_RTSR, 1 << 6);
    exti
}

#[test]
fn a_rising_edge_on_an_unmasked_correctly_routed_line_raises_the_shared_irq() {
    let mut exti = route_line_6_to_port_c();
    let port_c = 2;
    assert_eq!(exti.raise_line_if_configured(port_c, 6, true), Some(23));
    assert_eq!(exti.read_exti(EXTI_PR) & (1 << 6), 1 << 6);
}

#[test]
fn a_falling_edge_does_not_fire_when_only_rising_is_selected() {
    let mut exti = route_line_6_to_port_c();
    assert_eq!(exti.raise_line_if_configured(2, 6, false), None);
}

#[test]
fn a_line_routed_to_a_different_port_does_not_fire() {
    let mut exti = route_line_6_to_port_c();
    let port_a = 0;
    assert_eq!(exti.raise_line_if_configured(port_a, 6, true), None);
}

#[test]
fn a_masked_line_does_not_fire() {
    let mut exti = route_line_6_to_port_c();
    exti.write_exti(EXTI_IMR, 0);
    assert_eq!(exti.raise_line_if_configured(2, 6, true), None);
}

#[test]
fn pending_bit_clears_on_write_one() {
    let mut exti = route_line_6_to_port_c();
    exti.raise_line_if_configured(2, 6, true);
    exti.write_exti(EXTI_PR, 1 << 6);
    assert_eq!(exti.read_exti(EXTI_PR) & (1 << 6), 0);
}

#[test]
fn irq_numbers_match_the_svd_for_each_line_group() {
    let mut exti = Exti::default();
    exti.write_syscfg(SYSCFG_EXTICR1, 0);
    exti.write_exti(EXTI_IMR, 0b1111);
    exti.write_exti(EXTI_RTSR, 0b1111);
    assert_eq!(exti.raise_line_if_configured(0, 0, true), Some(6));
    assert_eq!(exti.raise_line_if_configured(0, 1, true), Some(7));
    assert_eq!(exti.raise_line_if_configured(0, 2, true), Some(8));
    assert_eq!(exti.raise_line_if_configured(0, 3, true), Some(9));
}

#[test]
fn f7_dual_bank_sector_register_values_map_to_physical_ranges() {
    assert_eq!(Flash::sector_range(0), Some((0, 16 * 1024)));
    assert_eq!(Flash::sector_range(4), Some((64 * 1024, 64 * 1024)));
    assert_eq!(Flash::sector_range(11), Some((896 * 1024, 128 * 1024)));
    assert_eq!(Flash::sector_range(0x10), Some((1024 * 1024, 16 * 1024)));
    assert_eq!(Flash::sector_range(0x1b), Some((1920 * 1024, 128 * 1024)));
    assert_eq!(Flash::sector_range(12), None);
}

#[test]
fn pwr_reports_voltage_scaling_ready_after_configuration() {
    assert_eq!(Pwr::csr1_after_cr1_write(0x0000_c000) & 0x0000_4000, 0x0000_4000);
}

#[test]
fn pwr_reports_overdrive_ready_after_overdrive_is_enabled() {
    assert_eq!(Pwr::csr1_after_cr1_write(0x0001_c000) & 0x0001_0000, 0x0001_0000);
}

#[test]
fn pwr_csr1_reports_standby_ready_after_observed_enable() {
    assert_eq!(Pwr::csr1_after_csr1_write(0x0000_0200) & 0x0000_0008, 0x0000_0008);
}

#[test]
fn rtc_isr_reports_init_ready_after_init_request() {
    assert_eq!(Rtc::isr_after_write(0x0000_0080) & 0x0000_0040, 0x0000_0040);
}

#[test]
fn masked_usb_reset_interrupt_does_not_become_pending() {
    let mut otg = OtgFs::for_test();
    otg.set_global_interrupt_status(USB_RESET);
    assert!(!otg.interrupt_pending());
    otg.write_global_interrupt_mask(USB_RESET);
    assert!(otg.interrupt_pending());
}

#[test]
fn virtual_host_reset_sets_the_masked_reset_interrupt() {
    let mut otg = OtgFs::for_test();
    otg.write_global_interrupt_mask(USB_RESET);
    otg.virtual_host_reset();
    assert!(otg.interrupt_pending());
}

#[test]
fn grstctl_core_soft_reset_clears_immediately() {
    let mut otg = OtgFs::for_test();
    otg.register_write(OTG_GRSTCTL, GRSTCTL_CSRST);
    assert_eq!(otg.register_read(OTG_GRSTCTL) & GRSTCTL_CSRST, 0);
}

#[test]
fn grstctl_fifo_flush_requests_clear_immediately() {
    let mut otg = OtgFs::for_test();
    otg.register_write(OTG_GRSTCTL, GRSTCTL_RXFFLSH | GRSTCTL_TXFFLSH);
    assert_eq!(otg.register_read(OTG_GRSTCTL) & GRSTCTL_SELF_CLEARING, 0);
}

#[test]
fn flash_acr_retains_latency_and_cache_bits() {
    assert_eq!(Flash::acr_after_write(0x0000_0707), 0x0000_0707);
}

#[test]
fn tim11_reports_capture_ready_after_observed_configuration() {
    assert_eq!(
        Tim11::sr_after_setup(0x0000_0001, 0x0000_0001, 0x0000_0001) & 0x0000_0002,
        0x0000_0002
    );
}

#[test]
fn scb_model_range_includes_cpacr() {
    assert_eq!(
        Peripherals::modeled_range("SCB", 0xe000_ed00, 4),
        (0xe000_ed00, 0xe000_ed8f),
    );
}

#[test]
fn core_systick_model_covers_control_register() {
    let mut peripherals = Peripherals::default();
    peripherals.register_core_peripherals();
    assert!(Peripherals::get_peripheral(&peripherals.peripherals, 0xe000_e010).is_some());
}

#[test]
fn enabling_systick_over_the_bus_raises_it_every_round_of_the_reload_value() {
    let mut p = Peripherals::default();
    p.register_core_peripherals();
    p.write(0xe000_e014, 4, 999, 0, None);
    assert_eq!(p.nvic.systick_period, None);
    p.write(0xe000_e010, 4, 0x7, 100, None);
    assert_eq!(p.nvic.systick_period, Some(999));
    assert_eq!(p.read(0xe000_e014, 4, 100, None), 999);
    assert_eq!(p.read(0xe000_e010, 4, 100, None), 0x7);
    assert_eq!(p.read(0xe000_e018, 4, 100, None), 999);
    assert_eq!(p.read(0xe000_e018, 4, 110, None), 989);
    assert_eq!(p.nvic.run_pending_interrupts(1099, false), None);
    assert_eq!(p.nvic.run_pending_interrupts(1100, false), Some(-1));
}

#[test]
fn systick_on_the_external_clock_counts_eight_instructions_per_tick_and_stops_when_disabled() {
    let mut p = Peripherals::default();
    p.register_core_peripherals();
    p.write(0xe000_e014, 4, 0xffff_ffff, 0, None);
    assert_eq!(p.read(0xe000_e014, 4, 0, None), 0x00ff_ffff);
    p.write(0xe000_e014, 4, 9, 0, None);
    p.write(0xe000_e010, 4, 0x3, 0, None);
    assert_eq!(p.nvic.systick_period, Some(79));
    assert_eq!(p.read(0xe000_e018, 4, 16, None), 7);
    p.write(0xe000_e010, 4, 0x1, 20, None);
    assert_eq!(p.nvic.systick_period, None);
}

#[test]
fn core_scb_model_covers_interrupt_control_register() {
    let mut peripherals = Peripherals::default();
    peripherals.register_core_peripherals();
    assert!(Peripherals::get_peripheral(&peripherals.peripherals, 0xe000_ed04).is_some());
}

#[test]
fn run_interrupt_clears_itstate_before_entering_the_handler() {
    let xpsr = xpsr_on_entry(0x0600_fc00);
    assert_eq!(xpsr & XPSR_ITSTATE_MASK, 0);
}

#[test]
fn cfgr_reports_hsi_status_when_hsi_is_selected() {
    assert_eq!(Rcc::cfgr_after_write(0) & 0x0000_000c, 0);
}

#[test]
fn csr_reports_lsi_ready_when_lsi_is_enabled() {
    assert_eq!(Rcc::csr_after_write(0x0000_0001) & 0x0000_0002, 0x0000_0002);
}

#[test]
fn bdcr_reports_lse_ready_when_lse_is_enabled() {
    assert_eq!(Rcc::bdcr_after_write(0x0000_0001) & 0x0000_0002, 0x0000_0002);
}

#[test]
fn cpacr_retains_the_firmware_fpu_enable_value() {
    let mut scb = Scb::default();
    scb.write_cpacr(0x00f0_0000);
    assert_eq!(scb.read_cpacr(), 0x00f0_0000);
}

#[test]
fn icsr_read_reports_rettobase_since_nested_interrupts_are_unsupported() {
    let nvic = Nvic::new();
    let scb = Scb::default();
    assert_eq!(scb.read_icsr(&nvic) & ICSR_RETTOBASE, ICSR_RETTOBASE);
}

#[test]
fn icsr_read_reports_vectactive_from_nvics_currently_running_exception() {
    let mut nvic = Nvic::new();
    let scb = Scb::default();
    assert_eq!(nvic.active_exception_number(), 0);
    assert_eq!(scb.read_icsr(&nvic) & 0x1ff, 0);
    nvic.enter_interrupt(TIM5_IRQ);
    assert_eq!(scb.read_icsr(&nvic) & 0x1ff, 66);
}

#[test]
fn cnt_reads_zero_by_default_while_disabled() {
    let tim5 = Tim5::default();
    assert_eq!(tim5.cnt(0), 0);
}

#[test]
fn writing_cnt_while_enabled_is_observed_on_the_next_read() {
    let mut tim5 = Tim5::default();
    tim5.write_cr1(1, 0);
    tim5.write_cnt(0x1000, 0);
    assert_eq!(tim5.cnt(0), 0x1000);
}

#[test]
fn disabling_freezes_cnt_at_its_current_value() {
    let mut tim5 = Tim5::default();
    tim5.write_cr1(1, 0);
    tim5.write_cnt(0x2000, 0);
    tim5.write_cr1(0, 0);
    assert_eq!(tim5.cnt(0), 0x2000);
}

#[test]
fn cnt_written_while_disabled_takes_effect_once_enabled() {
    let mut tim5 = Tim5::default();
    tim5.write_cnt(0x3000, 0);
    tim5.write_cr1(1, 0);
    assert_eq!(tim5.cnt(0), 0x3000);
}

#[test]
fn ccr1_reset_value_of_zero_never_spuriously_matches_before_firmware_arms_it() {
    let mut nvic = Nvic::new();
    let mut tim5 = Tim5::default();
    tim5.write_cr1(1, 0);
    tim5.write_cnt(0, 0);
    tim5.poll(0, &mut nvic);
    assert_eq!(tim5.read(0x0010, 0) & SR_CC1IF, 0);
}

#[test]
fn compare_match_sets_status_flag_but_does_not_interrupt_while_masked() {
    let mut nvic = Nvic::new();
    let mut tim5 = Tim5::default();
    tim5.write_cr1(1, 0);
    tim5.write(0x0034, 100, 0);
    tim5.write_cnt(200, 0);
    tim5.poll(0, &mut nvic);
    assert_ne!(tim5.read(0x0010, 0) & SR_CC1IF, 0);
    assert_eq!(nvic.get_and_clear_next_intr_pending(), None);
}

#[test]
fn compare_match_raises_tim5_interrupt_once_the_mask_is_enabled() {
    let mut nvic = Nvic::new();
    let mut tim5 = Tim5::default();
    tim5.write_cr1(1, 0);
    tim5.write(0x0034, 100, 0);
    tim5.write(0x000c, DIER_CC1IE, 0);
    tim5.write_cnt(200, 0);
    tim5.poll(0, &mut nvic);
    assert_eq!(nvic.get_and_clear_next_intr_pending(), Some(TIM5_IRQ));
}

#[test]
fn epic_efi_fast_adc_configuration_is_ten_khz() {
    assert_eq!(Tim6::period_instructions(1_079, 9), 21_600);
}

fn ecu_io_with(channels: &[(&str, &str, i32)]) -> EcuIo {
    let config = EcuIoConfig {
        listen: "127.0.0.1:0".to_string(),
        pins: vec![],
        adc_channels: channels
            .iter()
            .map(|(name, pin, _)| EcuIoAdcChannelConfig {
                name: name.to_string(),
                pin: pin.to_string(),
            })
            .collect(),
        trigger_wheel: None,
    };
    let mut ecu_io = EcuIo::new(config, false);
    for (name, _, value) in channels {
        ecu_io.set_value(name, *value);
    }
    ecu_io
}

#[test]
fn dr_reads_cycle_through_the_configured_channel_sequence_and_wrap() {
    let ecu_io = ecu_io_with(&[("map", "PC0", 1500), ("tps", "PC1", 3300), ("clt", "PB0", 0)]);
    let mut adc = Adc::for_test();
    adc.register_write(ADC_SQR1, 2 << 20);
    adc.register_write(ADC_SQR3, 10 | (11 << 5) | (8 << 10));
    assert_eq!(adc.register_read(ADC_DR, Some(&ecu_io)), Adc::millivolts_to_counts(1500));
    assert_eq!(adc.register_read(ADC_DR, Some(&ecu_io)), Adc::millivolts_to_counts(3300));
    assert_eq!(adc.register_read(ADC_DR, Some(&ecu_io)), Adc::millivolts_to_counts(0));
    assert_eq!(adc.register_read(ADC_DR, Some(&ecu_io)), Adc::millivolts_to_counts(1500));
}

#[test]
fn swstart_resets_the_sequence_to_the_first_channel() {
    let ecu_io = ecu_io_with(&[("map", "PC0", 1500), ("tps", "PC1", 3300)]);
    let mut adc = Adc::for_test();
    adc.register_write(ADC_SQR1, 1 << 20);
    adc.register_write(ADC_SQR3, 10 | (11 << 5));
    adc.register_read(ADC_DR, Some(&ecu_io));
    adc.register_write(ADC_CR2, 1 << 30);
    assert_eq!(adc.register_read(ADC_DR, Some(&ecu_io)), Adc::millivolts_to_counts(1500));
}

#[test]
fn an_unconfigured_channel_reads_zero() {
    let ecu_io = ecu_io_with(&[("map", "PC0", 1500)]);
    let mut adc = Adc::for_test();
    adc.register_write(ADC_SQR1, 0);
    adc.register_write(ADC_SQR3, 3);
    assert_eq!(adc.register_read(ADC_DR, Some(&ecu_io)), 0);
}

#[test]
fn dma_read_advances_the_sequence_once_per_halfword_not_once_per_byte() {
    let ecu_io = ecu_io_with(&[("map", "PC0", 1500), ("tps", "PC1", 3300)]);
    let mut adc = Adc::for_test();
    adc.register_write(ADC_SQR1, 1 << 20);
    adc.register_write(ADC_SQR3, 10 | (11 << 5));
    let bytes = adc.dma_read_bytes(ADC_DR, 4, Some(&ecu_io));
    let map_counts = Adc::millivolts_to_counts(1500);
    let tps_counts = Adc::millivolts_to_counts(3300);
    let expected: Vec<u8> = vec![
        (map_counts & 0xFF) as u8,
        (map_counts >> 8) as u8,
        (tps_counts & 0xFF) as u8,
        (tps_counts >> 8) as u8,
    ];
    assert_eq!(bytes, expected);
}

#[test]
fn millivolts_to_counts_clamps_and_scales_across_the_full_range() {
    assert_eq!(Adc::millivolts_to_counts(0), 0);
    assert_eq!(Adc::millivolts_to_counts(3300), 4095);
    assert_eq!(Adc::millivolts_to_counts(-10), 0);
    assert_eq!(Adc::millivolts_to_counts(10_000), 4095);
}

fn bus() -> Peripherals {
    let mut p = Peripherals::default();
    p.register_peripheral("RCC".to_string(), 0x4002_3800, vec![(0, "CR".to_string()), (0x8c, "DCKCFGR2".to_string())], None);
    p.register_peripheral("SCB".to_string(), 0xe000_ed00, vec![(0, "CPUID".to_string()), (4, "ICSR".to_string())], None);
    p.register_peripheral("GPIOA".to_string(), 0x4002_0000, vec![(0, "MODER".to_string())], None);
    p.register_peripheral("DMA2".to_string(), 0x4002_6400, vec![(0xcc, "S7FCR".to_string())], None);
    p
}

#[test]
fn registered_models_are_kept_sorted_by_address() {
    let mut p = bus();
    assert_eq!(p.peripherals.len(), 3);
    assert!(p.peripherals.windows(2).all(|w| w[0].start <= w[1].start));
    assert_eq!(p.debug_peripherals.len(), 4);
    assert!(p.finish_registration().is_ok());
}

#[test]
fn a_register_written_over_the_bus_reads_back_through_scb() {
    let mut p = bus();
    p.write(0xe000_ed88, 4, 0x00f0_0000, 0, None);
    assert_eq!(p.read(0xe000_ed88, 4, 0, None), 0x00f0_0000);
}

#[test]
fn an_address_without_a_model_reads_zero() {
    let mut p = bus();
    assert_eq!(p.read(0x4002_0000, 4, 0, None), 0);
    assert!(matches!(p.write(0x4002_0000, 4, 7, 0, None), BusEffect::Nothing));
}

#[test]
fn an_unaligned_read_shifts_the_word_into_its_byte_lane() {
    let mut p = bus();
    p.write(0xe000_ed88, 4, 0x0000_00ab, 0, None);
    assert_eq!(p.read(0xe000_ed89, 1, 0, None), 0x0000_ab00);
}

#[test]
fn a_byte_write_to_a_later_lane_merges_over_the_lanes_below() {
    let mut p = bus();
    p.write(0xe000_ed88, 4, 0x0000_00cd, 0, None);
    p.write(0xe000_ed89, 1, 0x12, 0, None);
    assert_eq!(p.read(0xe000_ed88, 4, 0, None), 0x0000_12cd);
}

#[test]
fn a_bit_band_read_gives_one_bit_of_the_mapped_word() {
    let mut p = bus();
    // RCC CSR at 0x4002_3874: writing LSION makes LSIRDY (bit 1) read as set.
    p.write(0x4002_3874, 4, 1, 0, None);
    let alias = 0x4200_0000 + (0x0002_3874 * 32) + 1 * 4;
    assert_eq!(p.read(alias, 4, 0, None), 1);
    let alias_bit2 = 0x4200_0000 + (0x0002_3874 * 32) + 2 * 4;
    assert_eq!(p.read(alias_bit2, 4, 0, None), 0);
}

#[test]
fn enabling_a_dma_stream_over_the_bus_asks_for_its_transfer() {
    let mut p = bus();
    let stream1_cr = 0x4002_6400 + 0x10 + 0x18;
    p.write(stream1_cr + 0x04, 4, 2, 0, None);
    p.write(stream1_cr + 0x08, 4, 0x4002_3800, 0, None);
    p.write(stream1_cr + 0x0c, 4, 0x2000_0000, 0, None);
    match p.write(stream1_cr, 4, EN, 0, None) {
        BusEffect::Transfer(t) => {
            assert_eq!(t.size, 2);
            assert_eq!(t.src, 0x4002_3800);
            assert_eq!(t.dst, 0x2000_0000);
            let out = p.perform_transfer(&t, None, 0, None);
            let (addr, bytes) = out.memory_write.unwrap();
            assert_eq!(addr, 0x2000_0000);
            assert_eq!(bytes.len(), 2);
        }
        _ => panic!("a transfer was expected"),
    }
}

#[test]
fn polling_raises_the_timer_interrupt_once_a_compare_has_passed() {
    let mut p = Peripherals::default();
    p.register_peripheral("TIM5".to_string(), 0x4000_0c00, vec![(0x50, "OR".to_string())], None);
    p.write(0x4000_0c00, 4, 1, 0, None);
    p.write(0x4000_0c34, 4, 100, 0, None);
    p.write(0x4000_0c0c, 4, DIER_CC1IE, 0, None);
    p.write(0x4000_0c24, 4, 200, 0, None);
    p.poll(0, false);
    assert_eq!(p.nvic.get_and_clear_next_intr_pending(), Some(TIM5_IRQ));
}

#[test]
fn overlapping_register_blocks_are_reported_by_name() {
    let mut p = Peripherals::default();
    p.register_peripheral("A".to_string(), 0x4000_0000, vec![(0x10, "X".to_string())], None);
    p.register_peripheral("B".to_string(), 0x4000_0010, vec![(0, "Y".to_string())], None);
    let e = p.finish_registration().unwrap_err();
    assert_eq!(e.message(), "Overlapping register blocks between A and B");
}

#[test]
fn the_flash_model_gets_the_internal_flash_configuration() {
    let mut p = Peripherals::default();
    let config = InternalFlashConfig {
        model: InternalFlashModel::Stm32F7DualBank,
        start: 0x0800_0000,
        size: 0x20_0000,
        aliases: vec![0x0020_0000],
        persistent: Some(FlashPersistence { start: 0x0808_0000, size: 0x4_0000, backing_file: None }),
    };
    p.register_peripheral("FLASH".to_string(), 0x4002_3c00, vec![(0x1c, "OPTCR1".to_string())], Some(config));
    match &p.peripherals[0].peripheral {
        Model::Flash(f) => assert!(f.internal.is_some()),
        _ => panic!("the flash model was expected"),
    }
    // Unlock, then erase sector 1: the flash and its alias are to be erased.
    p.write(0x4002_3c04, 4, 0x4567_0123, 0, None);
    p.write(0x4002_3c04, 4, 0xcdef_89ab, 0, None);
    match p.write(0x4002_3c10, 4, 0x1_0000 | 0x2 | (1 << 3), 0, None) {
        BusEffect::Flash(cmd) => {
            assert_eq!(cmd.erase, vec![(0x0800_4000u64, 0x4000u32), (0x0020_4000u64, 0x4000u32)]);
            assert!(!cmd.persist);
        }
        _ => panic!("an erase was expected"),
    }
}

#[test]
fn dma_stream_zero_registers_start_right_after_the_flag_registers() {
    assert_eq!(Access::from_offset(0x0c), Access::Reg(0x0c));
    assert_eq!(Access::from_offset(0x10), Access::StreamReg(0, 0));
    assert_eq!(Access::from_offset(0x14), Access::StreamReg(0, 4));
    assert_eq!(Access::from_offset(0x10 + 4 * 0x18), Access::StreamReg(4, 0));
    assert_eq!(Access::from_offset(0xcc), Access::StreamReg(7, 0x14));
}

#[test]
fn dma_read_from_an_address_without_a_model_gives_zeros() {
    let mut p = bus();
    let stream0_cr = 0x4002_6400 + 0x10;
    p.write(stream0_cr + 0x04, 4, 3, 0, None);
    p.write(stream0_cr + 0x08, 4, 0x5000_0000, 0, None);
    p.write(stream0_cr + 0x0c, 4, 0x2000_0000, 0, None);
    match p.write(stream0_cr, 4, EN, 0, None) {
        BusEffect::Transfer(t) => {
            assert_eq!(t.src, 0x5000_0000);
            let out = p.perform_transfer(&t, None, 0, None);
            assert_eq!(out.memory_write.unwrap(), (0x2000_0000, vec![0, 0, 0]));
        }
        _ => panic!("a transfer was expected"),
    }
}
