use stm32_emulator::peripherals::svd::{sort_by_base_address, SvdLayoutError, SvdPeripheral, UNSUPPORTED_SVD_MESSAGE};
use stm32_emulator::peripherals::svd_screen::svd_text_screened;
use stm32_emulator::peripherals::{Model, Peripherals};

fn block(name: &str, base: u64, derived_from: Option<&str>, registers: &[(u32, &str)]) -> SvdPeripheral {
    SvdPeripheral {
        name: name.to_string(),
        base_address: base,
        derived_from: derived_from.map(|d| d.to_string()),
        registers: registers.iter().map(|(o, n)| (*o, n.to_string())).collect(),
    }
}

fn layout_ok(r: Result<Peripherals, SvdLayoutError>) -> Peripherals {
    match r {
        Ok(p) => p,
        Err(e) => panic!("{}", e.message()),
    }
}

fn layout_error(r: Result<Peripherals, SvdLayoutError>) -> SvdLayoutError {
    match r {
        Ok(_) => panic!("the layout was accepted"),
        Err(e) => e,
    }
}

fn names(p: &Peripherals) -> Vec<String> {
    p.debug_peripherals.iter().map(|s| s.peripheral.name.clone()).collect()
}

#[test]
fn blocks_are_sorted_by_base_address_and_ties_keep_their_order() {
    let sorted = sort_by_base_address(vec![
        block("C", 0x4000_2000, None, &[]),
        block("A", 0x4000_0000, None, &[]),
        block("B1", 0x4000_1000, None, &[]),
        block("B2", 0x4000_1000, None, &[]),
    ]);
    let order: Vec<&str> = sorted.iter().map(|b| b.name.as_str()).collect();
    assert_eq!(order, vec!["A", "B1", "B2", "C"]);
}

#[test]
fn layout_places_blocks_in_address_order_with_core_peripherals() {
    let p = layout_ok(Peripherals::from_svd(
        vec![
            block("TIM5", 0x4000_0c00, None, &[(0x0, "CR1"), (0x24, "CNT")]),
            block("RCC", 0x4002_3800, None, &[(0x0, "CR"), (0x30, "AHB1ENR")]),
            block("UNMODELED", 0x4000_0000, None, &[(0x8, "X")]),
        ],
        None,
    )
    );
    assert_eq!(names(&p), vec!["UNMODELED", "TIM5", "RCC"]);
    assert_eq!(p.debug_peripherals[0].start, 0x4000_0000);
    assert_eq!(p.debug_peripherals[0].end, 0x4000_000c);
    assert_eq!(p.debug_peripherals[1].end, 0x4000_0c28);
    assert_eq!(p.debug_peripherals[2].end, 0x4002_3834);
    // TIM5, RCC, then the DWT, SysTick and SCB that the description leaves out.
    assert_eq!(p.peripherals.len(), 5);
    assert!(matches!(p.peripherals[0].peripheral, Model::Tim5(_)));
    assert!(matches!(p.peripherals[1].peripheral, Model::Rcc(_)));
    assert!(matches!(p.peripherals[2].peripheral, Model::Dwt(_)));
    assert!(matches!(p.peripherals[3].peripheral, Model::SysTick(_)));
    assert_eq!(p.peripherals[3].start, 0xe000_e010);
    assert!(matches!(p.peripherals[4].peripheral, Model::Scb(_)));
    assert_eq!(p.peripherals[4].start, 0xe000_ed00);
}

#[test]
fn derived_block_takes_the_registers_of_the_last_block_with_that_name() {
    let p = layout_ok(Peripherals::from_svd(
        vec![
            block("GPIOB", 0x4002_0400, Some("GPIOA"), &[]),
            block("GPIOA", 0x4002_0000, None, &[(0x0, "MODER"), (0x14, "ODR")]),
        ],
        None,
    )
    );
    assert_eq!(names(&p), vec!["GPIOA", "GPIOB"]);
    assert_eq!(p.debug_peripherals[1].peripheral.registers.len(), 2);
    assert_eq!(p.debug_peripherals[1].peripheral.registers[1], (0x14, "ODR".to_string()));
    assert_eq!(p.debug_peripherals[1].end, 0x4002_0418);
    assert_eq!(p.addr_desc(0x4002_0414), "addr=0x40020414 peri=GPIOB offset=0x0014 reg=ODR");
}

#[test]
fn unknown_derivation_is_reported_with_its_name() {
    let e = layout_error(Peripherals::from_svd(vec![block("USART2", 0x4000_4400, Some("USART9"), &[])], None));
    assert!(matches!(&e, SvdLayoutError::UnknownDerivation(n) if n == "USART9"));
    assert_eq!(e.message(), "Cannot find peripheral USART9");
}

#[test]
fn overlapping_blocks_are_reported_in_address_order() {
    let e = layout_error(Peripherals::from_svd(
        vec![
            block("SECOND", 0x4000_0008, None, &[(0x0, "A")]),
            block("FIRST", 0x4000_0000, None, &[(0x8, "B")]),
        ],
        None,
    ));
    assert_eq!(e.message(), "Overlapping register blocks between FIRST and SECOND");
}

#[test]
fn block_past_the_end_of_the_address_space_is_refused() {
    let e = layout_error(Peripherals::from_svd(vec![block("TOP", 0xffff_fff0, None, &[(0x10, "R")])], None));
    assert!(matches!(&e, SvdLayoutError::AddressOverflow(n) if n == "TOP"));
    assert_eq!(e.message(), "Register block TOP does not fit in the address space");
}

const SVD: &str = r#"<?xml version="1.0" encoding="utf-8"?>
<device schemaVersion="1.1">
  <name>TEST</name>
  <addressUnitBits>8</addressUnitBits>
  <width>32</width>
  <size>32</size>
  <resetValue>0</resetValue>
  <resetMask>0xFFFFFFFF</resetMask>
  <peripherals>
    <peripheral>
      <name>RCC</name>
      <baseAddress>0x40023800</baseAddress>
      <registers>
        <register>
          <name>CR</name>
          <addressOffset>0x0</addressOffset>
        </register>
        <register>
          <name>PLLCFGR</name>
          <addressOffset>0x4</addressOffset>
        </register>
      </registers>
    </peripheral>
    <peripheral derivedFrom="RCC">
      <name>RCC_SHADOW</name>
      <baseAddress>0x40023c00</baseAddress>
    </peripheral>
  </peripherals>
</device>
"#;

#[test]
fn device_description_text_is_parsed_and_laid_out() {
    let p = layout_ok(Peripherals::from_svd_text(SVD, None));
    assert_eq!(names(&p), vec!["RCC", "RCC_SHADOW"]);
    assert_eq!(p.debug_peripherals[1].peripheral.registers.len(), 2);
    assert_eq!(p.debug_peripherals[1].start, 0x4002_3c00);
    assert_eq!(p.debug_peripherals[1].end, 0x4002_3c08);
    assert!(matches!(p.peripherals[0].peripheral, Model::Rcc(_)));
}

#[test]
fn text_that_is_no_device_description_is_a_parse_error() {
    let e = layout_error(Peripherals::from_svd_text("not xml at all", None));
    assert!(matches!(e, SvdLayoutError::Parse(_)));
}

fn svd_with_register_extra(extra: &str) -> String {
    SVD.replacen(
        "<addressOffset>0x0</addressOffset>",
        &format!("<addressOffset>0x0</addressOffset>\n          {extra}"),
        1,
    )
}

#[test]
fn an_empty_write_constraint_is_turned_away_before_parsing() {
    let text = svd_with_register_extra("<writeConstraint/>");
    assert!(!svd_text_screened(&text));
    let e = layout_error(Peripherals::from_svd_text(&text, None));
    assert!(matches!(e, SvdLayoutError::Unsupported));
    assert_eq!(e.message(), UNSUPPORTED_SVD_MESSAGE);
}

#[test]
fn a_write_constraint_with_a_range_is_parsed() {
    let text = svd_with_register_extra(
        "<writeConstraint>\n            <range><minimum>0</minimum><maximum>3</maximum></range>\n          </writeConstraint>",
    );
    assert!(svd_text_screened(&text));
    let p = layout_ok(Peripherals::from_svd_text(&text, None));
    assert_eq!(names(&p), vec!["RCC", "RCC_SHADOW"]);
}

#[test]
fn a_field_bit_range_of_small_numbers_is_parsed() {
    let text = svd_with_register_extra(
        "<fields><field><name>HSION</name><bitRange>[31:0]</bitRange></field></fields>",
    );
    assert!(svd_text_screened(&text));
    layout_ok(Peripherals::from_svd_text(&text, None));
}

#[test]
fn a_bit_range_reaching_the_top_of_u32_is_turned_away() {
    let text = svd_with_register_extra(
        "<fields><field><name>HSION</name><bitRange>[4294967295:0]</bitRange></field></fields>",
    );
    assert!(!svd_text_screened(&text));
    let msb = svd_with_register_extra(
        "<fields><field><name>HSION</name><lsb>0</lsb><msb>0xFFFFFFFF</msb></field></fields>",
    );
    assert!(!svd_text_screened(&msb));
    assert!(matches!(
        layout_error(Peripherals::from_svd_text(&msb, None)),
        SvdLayoutError::Unsupported
    ));
}

#[test]
fn a_huge_dim_index_range_and_entity_declarations_are_turned_away() {
    assert!(!svd_text_screened("<dimIndex>0-4294967295</dimIndex>"));
    assert!(svd_text_screened("<dimIndex>0-7</dimIndex>"));
    assert!(!svd_text_screened("<!DOCTYPE d [<!ENTITY e \"x\">]><device/>"));
    assert!(svd_text_screened(SVD));
}
