# stm32-emulator

An STM32 (Cortex-M4/M7) firmware emulator: the register models of the
microcontroller's peripherals, the bus that routes the CPU's memory-mapped
accesses to them, the interrupt controller, and the host-side devices that
firmware talks to (a USB CDC serial bridge, an ECU I/O harness), together with
a launcher that resolves board profiles and runs the emulator.

The crate is written in Verus. The code under `src/` is verified: each
public function states its result in `ensures`, and the properties that span
calls are proved as `law_*` proof functions. Four functions are trusted rather
than proved, each a thin call into outside code whose contract is assumed:
`parse_svd` (`src/peripherals/svd.rs`, the svd-parser crate), and
`decode_utf8_lossy`, `to_lowercase` (`src/text.rs`) and `path_is_file`
(`src/launcher/process.rs`), which call the standard library.

- `src/peripherals/` — register models (RCC, PWR, RTC, FLASH, DMA, ADC, TIM5,
  TIM6, TIM11, DWT, SysTick, SCB, EXTI/SYSCFG, CAN, OTG FS, NVIC) and the bus
  (`mod.rs`): address lookup, bit-banding, byte lanes, DMA transfers, and the
  layout of a device description's register blocks (`svd.rs`), with the
  screen that keeps the SVD parser off its non-returning paths
  (`svd_screen.rs`).
- `src/ext_devices/` — the host links: USB CDC over TCP, the ECU I/O line
  protocol, and the in-process links for embedding hosts.
- `src/emulator.rs` — the run loop's decisions: block clock, fault skipping,
  stop conditions.
- `src/launcher/` — board catalog and profiles, the manual form, the launcher
  session, workspace and process helpers.
- `src/text.rs`, `src/paths.rs`, `src/bytes.rs`, `src/name_map.rs` — string,
  path and buffer utilities with their specifications.
- `app/` — ordinary Rust around the library: YAML configuration, the CPU
  engine (unicorn) and its hooks, sockets, files and the launcher's child
  process.
- `tests/` — tests run against the compiled library.
