use stm32_emulator::bytes::{push_capped_deque, push_capped_vec};
use stm32_emulator::ext_devices::ecu_io::{
    EcuIo, EcuIoAdcChannelConfig, EcuIoConfig, EcuIoPinConfig, EcuIoPinDirection,
};
use stm32_emulator::ext_devices::embedded_cdc::{EmbeddedCdcLink, EmbeddedCdcStage};
use stm32_emulator::ext_devices::embedded_ecu_io::EmbeddedEcuIoLink;
use stm32_emulator::ext_devices::usb_cdc_tcp::{ConnectionDecision, UsbCdcSession};
use stm32_emulator::peripherals::exti::{Exti, EXTI_IMR, EXTI_PR, EXTI_RTSR, SYSCFG_EXTICR2};
use stm32_emulator::peripherals::gpio::Pin;
use stm32_emulator::peripherals::nvic::Nvic;

#[test]
fn host_and_device_exchange_binary_bytes_without_a_socket() {
    let mut link = EmbeddedCdcLink::new();
    link.attach_device();
    link.set_protocol_stage(EmbeddedCdcStage::ProtocolReady);
    link.connect().unwrap();

    assert_eq!(link.write_from_host(&[0x00, 0xff, 0x42]), Ok(3));
    assert_eq!(link.read_for_device(64), vec![0x00, 0xff, 0x42]);

    link.write_from_device(&[0x10, 0x20]);
    let mut received = [0; 4];
    let count = link.read_for_host(&mut received);
    assert_eq!(&received[..count], &[0x10, 0x20]);
}

#[test]
fn host_cannot_connect_until_the_firmware_protocol_is_ready() {
    let mut link = EmbeddedCdcLink::new();
    assert!(!link.device_present());
    assert_eq!(link.connect(), Err("embedded firmware TunerStudio protocol is not ready"));
    link.attach_device();
    assert!(link.device_present());
    assert!(!link.protocol_ready());
    assert_eq!(link.connect(), Err("embedded firmware TunerStudio protocol is not ready"));
    link.set_protocol_stage(EmbeddedCdcStage::ProtocolReady);
    assert!(link.protocol_ready());
    assert_eq!(link.connect(), Ok(()));
    link.detach_device();
    assert!(!link.device_present());
    assert!(!link.protocol_ready());
    assert!(!link.is_connected());
}

#[test]
fn leaving_the_ready_stage_drops_the_host_and_its_bytes() {
    let mut link = EmbeddedCdcLink::new();
    link.attach_device();
    link.set_protocol_stage(EmbeddedCdcStage::ProtocolReady);
    link.connect().unwrap();
    link.write_from_device(&[1, 2, 3]);
    link.set_protocol_stage(EmbeddedCdcStage::UsbStarted);
    assert!(!link.is_connected());
    assert_eq!(link.bytes_available(), 0);
    assert_eq!(link.write_from_host(&[1]), Err("embedded CDC link is not connected"));
}

#[test]
fn a_detached_device_stays_detached_whatever_stage_is_reported() {
    let mut link = EmbeddedCdcLink::new();
    link.set_protocol_stage(EmbeddedCdcStage::ProtocolReady);
    assert_eq!(link.protocol_stage(), EmbeddedCdcStage::Detached);
}

#[test]
fn host_bytes_beyond_the_buffer_keep_only_the_newest() {
    let mut link = EmbeddedCdcLink::new();
    link.attach_device();
    link.set_protocol_stage(EmbeddedCdcStage::ProtocolReady);
    link.connect().unwrap();
    let bytes: Vec<u8> = (0..65_538u32).map(|i| (i % 251) as u8).collect();
    assert_eq!(link.write_from_host(&bytes), Ok(65_538));
    let delivered = link.read_for_device(70_000);
    assert_eq!(delivered.len(), 65_536);
    assert_eq!(delivered[..], bytes[2..]);
}

#[test]
fn exchanges_named_inputs_and_outputs() {
    let mut link = EmbeddedEcuIoLink::new();
    link.attach_device();
    link.set_input("trigger_rpm", 1250);
    assert_eq!(link.take_inputs(), vec![("trigger_rpm".to_string(), 1250)]);
    link.publish_output("ign1", 1, 0);
    assert_eq!(link.outputs().get("ign1"), Some(1));
    link.publish_output("ign1", 0, 0);
    let events = link.take_output_events();
    assert_eq!(events.len(), 2);
    assert_eq!(events[0].name, "ign1");
    assert_eq!(events[0].previous_value, None);
    assert_eq!(events[0].value, 1);
    assert_eq!(events[1].previous_value, Some(1));
    assert_eq!(events[1].value, 0);
}

#[test]
fn an_unchanged_output_is_not_an_event_and_events_are_numbered() {
    let mut link = EmbeddedEcuIoLink::new();
    link.publish_output("inj1", 1, 10);
    link.publish_output("inj1", 1, 20);
    link.publish_output("inj1", 0, 30);
    let events = link.take_output_events();
    assert_eq!(events.len(), 2);
    assert_eq!(events[0].sequence, 0);
    assert_eq!(events[0].instruction_count, 10);
    assert_eq!(events[1].sequence, 1);
    assert_eq!(events[1].instruction_count, 30);
    assert_eq!(link.output_value("inj1"), Some(0));
}

fn test_config() -> EcuIoConfig {
    EcuIoConfig {
        listen: "127.0.0.1:0".to_string(),
        pins: vec![],
        adc_channels: vec![EcuIoAdcChannelConfig { name: "map".to_string(), pin: "PC0".to_string() }],
        trigger_wheel: None,
    }
}

#[test]
fn an_adc_millivolt_value_is_clamped_to_the_valid_range() {
    let mut ecu_io = EcuIo::new(test_config(), false);
    ecu_io.set_value("map", 999_999);
    assert_eq!(ecu_io.adc_millivolts(Pin::from_str("PC0").unwrap()), 3300);
    ecu_io.set_value("map", -50);
    assert_eq!(ecu_io.adc_millivolts(Pin::from_str("PC0").unwrap()), 0);
}

#[test]
fn an_unconfigured_pin_reads_zero() {
    let ecu_io = EcuIo::new(test_config(), false);
    assert_eq!(ecu_io.adc_millivolts(Pin::from_str("PA4").unwrap()), 0);
}

#[test]
fn push_capped_vec_drops_oldest_bytes_once_over_capacity() {
    let mut buffer = vec![1u8, 2, 3];
    push_capped_vec(&mut buffer, &[4, 5], 3);
    assert_eq!(buffer, vec![3, 4, 5]);
}

#[test]
fn push_capped_deque_drops_oldest_bytes_once_over_capacity() {
    let mut queue: std::collections::VecDeque<u8> = vec![1u8, 2, 3].into();
    push_capped_deque(&mut queue, &[4, 5], 3);
    assert_eq!(queue.into_iter().collect::<Vec<u8>>(), vec![3, 4, 5]);
}

#[test]
fn a_digital_input_level_change_raises_the_configured_exti_line() {
    let config = EcuIoConfig {
        listen: "127.0.0.1:0".to_string(),
        pins: vec![EcuIoPinConfig {
            name: "crank".to_string(),
            pin: "PC6".to_string(),
            direction: EcuIoPinDirection::Input,
        }],
        adc_channels: vec![],
        trigger_wheel: None,
    };
    let mut ecu_io = EcuIo::new(config, false);
    let mut exti = Exti::default();
    let mut nvic = Nvic::new();
    exti.write_syscfg(SYSCFG_EXTICR2, 2 << 8);
    exti.write_exti(EXTI_IMR, 1 << 6);
    exti.write_exti(EXTI_RTSR, 1 << 6);

    ecu_io.set_value("crank", 1);
    ecu_io.check_digital_edges(&mut exti, &mut nvic);

    assert_eq!(exti.read_exti(EXTI_PR) & (1 << 6), 1 << 6);
    assert_eq!(nvic.get_and_clear_next_intr_pending(), Some(23));
}

#[test]
fn a_line_sent_by_the_client_updates_the_named_value() {
    let mut ecu_io = EcuIo::new(test_config(), false);
    ecu_io.set_client_connected(true);
    ecu_io.receive(b"map=1500\n");
    assert_eq!(ecu_io.adc_millivolts(Pin::from_str("PC0").unwrap()), 1500);
}

#[test]
fn a_malformed_line_is_ignored_not_fatal() {
    let mut ecu_io = EcuIo::new(test_config(), false);
    ecu_io.set_client_connected(true);
    ecu_io.receive(b"not-a-valid-line\nmap=750\n");
    assert_eq!(ecu_io.adc_millivolts(Pin::from_str("PC0").unwrap()), 750);
}

#[test]
fn an_unknown_signal_name_is_logged_and_not_stored() {
    let mut ecu_io = EcuIo::new(test_config(), false);
    ecu_io.set_client_connected(true);
    ecu_io.receive(b"av12=1500\n");
    assert_eq!(ecu_io.value("av12"), None);
}

#[test]
fn a_new_connection_is_rejected_while_the_current_client_is_within_its_grace_period() {
    let mut s = UsbCdcSession::new(65536).unwrap();
    assert_eq!(s.on_new_connection(None), ConnectionDecision::Accepted);
    s.received_from_client(&[1, 2]);
    assert_eq!(s.on_new_connection(Some(1_000)), ConnectionDecision::Rejected);
    assert_eq!(s.take_for_device(8), vec![1, 2]);
}

#[test]
fn a_new_connection_replaces_a_stale_one_once_its_grace_period_has_elapsed() {
    let mut s = UsbCdcSession::new(65536).unwrap();
    s.set_stale_client_grace_period(0);
    s.on_new_connection(None);
    s.push_from_device(&[9, 9, 9]);
    assert_eq!(s.on_new_connection(Some(0)), ConnectionDecision::Replaced);
    assert!(s.is_client_connected());
    assert_eq!(s.pending_for_client(), Vec::<u8>::new());
}

#[test]
fn stale_unsent_bytes_do_not_reach_the_next_client_after_a_disconnect() {
    let mut s = UsbCdcSession::new(65536).unwrap();
    s.on_new_connection(None);
    s.push_from_device(&[1, 2, 3]);
    s.sent_to_client(1);
    assert_eq!(s.pending_for_client(), vec![2, 3]);
    s.mark_disconnected();
    s.on_new_connection(None);
    assert_eq!(s.pending_for_client(), Vec::<u8>::new());
}

#[test]
fn a_zero_byte_buffer_is_refused() {
    assert_eq!(
        UsbCdcSession::new(0).err(),
        Some("usb_cdc_tcp max_buffered_bytes must be positive")
    );
}

#[test]
fn a_second_client_is_rejected_while_one_is_already_connected() {
    let mut ecu_io = EcuIo::new(test_config(), false);
    assert!(ecu_io.accept_client());
    assert!(!ecu_io.accept_client());
    ecu_io.set_client_connected(false);
    assert!(ecu_io.accept_client());
}

fn output_config() -> EcuIoConfig {
    EcuIoConfig {
        listen: "127.0.0.1:0".to_string(),
        pins: vec![EcuIoPinConfig {
            name: "inj1".to_string(),
            pin: "PD7".to_string(),
            direction: EcuIoPinDirection::Output,
        }],
        adc_channels: vec![],
        trigger_wheel: None,
    }
}

#[test]
fn report_output_pushes_a_line_only_when_a_client_is_connected() {
    let mut ecu_io = EcuIo::new(output_config(), false);
    ecu_io.report_output("inj1", false);
    assert!(ecu_io.outgoing.is_empty());
    ecu_io.accept_client();
    ecu_io.report_output("inj1", true);
    assert_eq!(ecu_io.outgoing.iter().copied().collect::<Vec<u8>>(), b"inj1=1\n".to_vec());
}

#[test]
fn report_output_only_queues_a_line_when_the_level_actually_changes() {
    let mut ecu_io = EcuIo::new(output_config(), false);
    ecu_io.accept_client();
    ecu_io.report_output("inj1", true);
    ecu_io.report_output("inj1", true);
    ecu_io.report_output("inj1", false);
    assert_eq!(
        ecu_io.outgoing.iter().copied().collect::<Vec<u8>>(),
        b"inj1=1\ninj1=0\n".to_vec()
    );
}

#[test]
fn an_embedded_harness_publishes_changes_instead_of_queuing_lines() {
    let mut ecu_io = EcuIo::new(output_config(), true);
    assert_eq!(ecu_io.report_output("inj1", true), Some(1));
    assert_eq!(ecu_io.report_output("inj1", true), None);
    assert!(ecu_io.outgoing.is_empty());
}

#[test]
fn an_output_line_fed_back_to_the_line_protocol_sets_that_level() {
    let mut sender = EcuIo::new(output_config(), false);
    sender.accept_client();
    sender.report_output("inj1", true);
    let line: Vec<u8> = sender.outgoing.iter().copied().collect();
    let mut receiver = EcuIo::new(output_config(), false);
    receiver.receive(&line);
    assert_eq!(receiver.value("inj1"), Some(1));
}

#[test]
fn push_capped_deque_with_no_capacity_keeps_nothing() {
    let mut queue: std::collections::VecDeque<u8> = vec![1, 2].into();
    push_capped_deque(&mut queue, &[3, 4], 0);
    assert!(queue.is_empty());
}

#[test]
fn push_capped_deque_trims_an_over_full_queue_to_the_newest_bytes() {
    let mut queue: std::collections::VecDeque<u8> = vec![1, 2, 3, 4, 5].into();
    push_capped_deque(&mut queue, &[6], 3);
    assert_eq!(queue.iter().copied().collect::<Vec<u8>>(), vec![4, 5, 6]);
}

#[test]
fn push_capped_deque_keeps_only_the_tail_of_an_oversized_push() {
    let mut queue: std::collections::VecDeque<u8> = vec![1, 2].into();
    push_capped_deque(&mut queue, &[3, 4, 5, 6], 3);
    assert_eq!(queue.iter().copied().collect::<Vec<u8>>(), vec![4, 5, 6]);
}
