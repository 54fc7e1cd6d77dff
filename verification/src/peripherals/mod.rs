use vstd::prelude::*;
use vstd::string::StrSliceExecFns;
use crate::text::{hex_padded, push_hex_padded};

pub mod can;
pub mod pwr;
pub mod rtc;
pub mod rcc;
pub mod tim11;
pub mod nvic;
pub mod dwt;
pub mod systick;
pub mod scb;
pub mod exti;
pub mod tim5;
pub mod tim6;
pub mod dma;
pub mod flash;
pub mod otg_fs;
pub mod gpio;
pub mod adc;
pub mod svd;
pub mod svd_screen;

use crate::ext_devices::ecu_io::EcuIo;
use crate::config::InternalFlashConfig;
use adc::{Adc, ADC_DR, spec_halfword_bytes};
use can::Can;
use dma::{Dir, Dma, TransferRequest, DMA_REGISTER_SPAN};
use dwt::Dwt;
use systick::SysTick;
use exti::{Exti, ExtiWrapper, SyscfgWrapper};
use flash::{Flash, FlashCommand, FLASH_CR};
use nvic::{Nvic, NvicWrapper, irq_bit};
use otg_fs::{OtgFs, OTG_FS_IRQ, USB_RESET};
use pwr::Pwr;
use rcc::Rcc;
use rtc::Rtc;
use scb::{Scb, SCB_CPACR};
use tim11::Tim11;
use tim5::{Tim5, TIM5_IRQ, SR_CC1IF, DIER_CC1IE};
use tim6::{Tim6, TIM6_DAC_IRQ};

verus! {

/// A peripheral placed on the bus over the inclusive address range
/// `start..=end`.
pub struct PeripheralSlot<T> {
    pub start: u32,
    pub end: u32,
    pub peripheral: T,
}

/// Slots ordered by start address, as the bus lookup needs.
pub open spec fn slots_sorted<T>(s: Seq<PeripheralSlot<T>>) -> bool {
    forall|i: int, j: int| 0 <= i < j < s.len() ==> s[i].start <= s[j].start
}

/// Index of the last slot whose start is at or below `addr`, or -1.
pub open spec fn last_start_at_or_below<T>(s: Seq<PeripheralSlot<T>>, addr: u32) -> int
    decreases s.len(),
{
    if s.len() == 0 {
        -1
    } else if s.last().start <= addr {
        s.len() - 1
    } else {
        last_start_at_or_below(s.drop_last(), addr)
    }
}

/// The slot that serves `addr`: the last one starting at or below it,
/// provided the address is within its range.
pub open spec fn spec_find<T>(s: Seq<PeripheralSlot<T>>, addr: u32) -> Option<int> {
    let i = last_start_at_or_below(s, addr);
    if i >= 0 && addr <= s[i].end {
        Some(i)
    } else {
        None
    }
}

/// In sorted slots, the starts at or below `addr` form a prefix of length
/// `k`, and the last of them is the one found.
pub proof fn lemma_last_start_prefix<T>(s: Seq<PeripheralSlot<T>>, addr: u32, k: int)
    requires
        0 <= k <= s.len(),
        forall|j: int| 0 <= j < k ==> s[j].start <= addr,
        forall|j: int| k <= j < s.len() ==> s[j].start > addr,
    ensures
        last_start_at_or_below(s, addr) == k - 1,
    decreases s.len(),
{
    if s.len() > 0 && k < s.len() {
        let t = s.drop_last();
        assert forall|j: int| 0 <= j < k implies t[j].start <= addr by {
            assert(t[j] == s[j]);
        }
        assert forall|j: int| k <= j < t.len() implies t[j].start > addr by {
            assert(t[j] == s[j]);
        }
        lemma_last_start_prefix(t, addr, k);
    }
}

/// The slot found starts at or below the address and ends at or above it.
pub proof fn lemma_find_bounds<T>(s: Seq<PeripheralSlot<T>>, addr: u32)
    ensures
        -1 <= last_start_at_or_below(s, addr) < s.len(),
        last_start_at_or_below(s, addr) >= 0 ==> s[last_start_at_or_below(s, addr)].start <= addr,
        spec_find(s, addr) matches Some(i) ==> 0 <= i < s.len() && s[i].start <= addr <= s[i].end,
    decreases s.len(),
{
    if s.len() > 0 && s.last().start > addr {
        let t = s.drop_last();
        lemma_find_bounds(t, addr);
        let k = last_start_at_or_below(t, addr);
        if k >= 0 {
            assert(t[k] == s[k]);
        }
    }
}

/// Lookup depends only on where the slots are placed.
pub proof fn lemma_find_same_layout<A, B>(s1: Seq<PeripheralSlot<A>>, s2: Seq<PeripheralSlot<B>>, addr: u32)
    requires
        s1.len() == s2.len(),
        forall|i: int| 0 <= i < s1.len() ==> s1[i].start == s2[i].start && s1[i].end == s2[i].end,
    ensures
        last_start_at_or_below(s1, addr) == last_start_at_or_below(s2, addr),
        spec_find(s1, addr) == spec_find(s2, addr),
    decreases s1.len(),
{
    if s1.len() > 0 {
        let t1 = s1.drop_last();
        let t2 = s2.drop_last();
        assert forall|i: int| 0 <= i < t1.len() implies t1[i].start == t2[i].start && t1[i].end == t2[i].end by {
            assert(t1[i] == s1[i]);
            assert(t2[i] == s2[i]);
        }
        lemma_find_same_layout(t1, t2, addr);
        lemma_find_bounds(s1, addr);
    }
}

/// Binary search for the slot serving `addr`.
pub fn find_slot<T>(slots: &Vec<PeripheralSlot<T>>, addr: u32) -> (r: Option<usize>)
    requires
        slots_sorted(slots@),
    ensures
        r is None <==> spec_find(slots@, addr) is None,
        r matches Some(i) ==> spec_find(slots@, addr) == Some(i as int),
        r matches Some(i) ==> i < slots@.len() && slots@[i as int].start <= addr <= slots@[i as int].end,
{
    proof {
        lemma_find_bounds(slots@, addr);
    }
    let mut lo: usize = 0;
    let mut hi: usize = slots.len();
    while lo < hi
        invariant
            0 <= lo <= hi <= slots@.len(),
            slots_sorted(slots@),
            forall|j: int| 0 <= j < lo ==> slots@[j].start <= addr,
            forall|j: int| hi <= j < slots@.len() ==> slots@[j].start > addr,
        decreases hi - lo,
    {
        let mid = lo + (hi - lo) / 2;
        if slots[mid].start <= addr {
            lo = mid + 1;
        } else {
            hi = mid;
        }
    }
    proof {
        lemma_last_start_prefix(slots@, addr, lo as int);
    }
    if lo == 0 {
        None
    } else if addr <= slots[lo - 1].end {
        Some(lo - 1)
    } else {
        None
    }
}

/// Address ranges that the bus decodes.
pub const MEMORY_MAPS: [(u32, u32); 2] = [(0x4000_0000, 0xB000_0000), (0xE000_0000, 0xE100_0000)];

/// Start of the peripheral bit-band alias region.
pub const BITBAND_ALIAS_START: u32 = 0x4200_0000;
/// End (exclusive) of the peripheral bit-band alias region.
pub const BITBAND_ALIAS_END: u32 = 0x4400_0000;
/// Start of the bit-banded peripheral region.
pub const BITBAND_BASE: u32 = 0x4000_0000;

pub open spec fn spec_bitbanding(addr: u32) -> Option<(u32, u32)> {
    if BITBAND_ALIAS_START <= addr < BITBAND_ALIAS_END {
        Some(((BITBAND_BASE + (addr - BITBAND_ALIAS_START) / 32) as u32, (addr % 32) / 4))
    } else {
        None
    }
}

/// Outside the external memory banks every address is a register.
pub open spec fn spec_is_register(addr: u32) -> bool {
    !(0x6000_0000 <= addr < 0xA000_0000)
}

/// A register access is reduced to its aligned word and the byte offset in
/// it; other accesses are taken as they come.
pub open spec fn spec_align(addr: u32) -> (u32, u32) {
    if spec_is_register(addr) {
        ((addr - addr % 4) as u32, addr % 4)
    } else {
        (addr, 0)
    }
}

/// The range a peripheral is modeled over: the external memory controller
/// spans its banks, OTG FS its FIFO windows, SCB its whole block up to
/// CPACR; the others their register block.
pub open spec fn spec_modeled_range(name: Seq<char>, base: u32, size: u32) -> (u32, u32) {
    if name == "FSMC"@ {
        (0x6000_0000, 0xA000_1000)
    } else if name == "OTG_FS_GLOBAL"@ {
        (base, (base + 0x7000) as u32)
    } else if name == "SCB"@ {
        (base, (base + 0x008f) as u32)
    } else {
        (base, (base + size) as u32)
    }
}

pub fn bitbanding(addr: u32) -> (r: Option<(u32, u32)>)
    ensures
        r == spec_bitbanding(addr),
{
    if BITBAND_ALIAS_START <= addr && addr < BITBAND_ALIAS_END {
        let bit_number = (addr % 32) / 4;
        let a = BITBAND_BASE + (addr - BITBAND_ALIAS_START) / 32;
        Some((a, bit_number))
    } else {
        None
    }
}

pub fn is_register(addr: u32) -> (r: bool)
    ensures
        r == spec_is_register(addr),
{
    !(0x6000_0000 <= addr && addr < 0xA000_0000)
}

pub fn align_addr_4(addr: u32) -> (r: (u32, u32))
    ensures
        r == ((addr - addr % 4) as u32, addr % 4),
{
    let byte_offset = addr % 4;
    (addr - byte_offset, byte_offset)
}

/// A register model on the bus.
pub enum Model {
    Nvic(NvicWrapper),
    Scb(Scb),
    Rcc(Rcc),
    Pwr(Pwr),
    OtgFs(OtgFs),
    Rtc(Rtc),
    Flash(Flash),
    Tim11(Tim11),
    Dma(Dma),
    Adc(Adc),
    Can(Can),
    Tim5(Tim5),
    Tim6(Tim6),
    Dwt(Dwt),
    Exti(ExtiWrapper),
    Syscfg(SyscfgWrapper),
    SysTick(SysTick),
}

/// What a bus write asks of the owner of guest memory.
pub enum BusEffect {
    Nothing,
    /// A DMA stream was enabled and its transfer is to be performed.
    Transfer(TransferRequest),
    /// A flash control write asks for erases and possibly a save.
    Flash(FlashCommand),
}

impl Model {
    pub open spec fn wf(self) -> bool {
        match self {
            Model::Dma(d) => d.wf(),
            Model::Adc(a) => a.wf(),
            _ => true,
        }
    }

    /// Register offsets that the model can serve without failing.
    pub open spec fn accepts(self, offset: u32) -> bool {
        match self {
            Model::Dma(_) => offset < DMA_REGISTER_SPAN,
            _ => true,
        }
    }

    /// The value a register read gives.
    pub open spec fn read_value(
        self,
        offset: u32,
        nvic: Nvic,
        exti: Exti,
        now: u64,
        ecu: Option<EcuIo>,
    ) -> u32 {
        match self {
            Model::Nvic(_) => 0,
            Model::Scb(s) => s.spec_read(offset, nvic),
            Model::Rcc(r) => r.spec_read(offset),
            Model::Pwr(p) => p.spec_read(offset),
            Model::OtgFs(o) => o.spec_read(offset),
            Model::Rtc(r) => r.spec_read(offset),
            Model::Flash(f) => f.spec_read(offset),
            Model::Tim11(t) => t.spec_read(offset),
            Model::Dma(d) => d.spec_read_value(offset),
            Model::Adc(a) => a.spec_read_value(offset, ecu),
            Model::Can(c) => c.spec_read(offset),
            Model::Tim5(t) => t.spec_read(offset, now),
            Model::Tim6(t) => t.spec_read(offset, now),
            Model::Dwt(d) => d.spec_read(offset, now),
            Model::Exti(_) => exti.spec_read_exti(offset),
            Model::Syscfg(_) => exti.spec_read_syscfg(offset),
            Model::SysTick(t) => t.spec_read(offset, now, nvic),
        }
    }

    /// How a register read leaves the model: a DMA stream or an ADC data
    /// read may change it, other reads do not.
    pub open spec fn read_next(self, next: Model, offset: u32) -> bool {
        match self {
            Model::Dma(d) => next matches Model::Dma(d2) && d.spec_read_next(d2, offset),
            Model::Adc(a) => next == Model::Adc(
                if offset == ADC_DR {
                    a.spec_after_conversion()
                } else {
                    a
                },
            ),
            _ => next == self,
        }
    }

    /// How a register write leaves the model, the interrupt controller and
    /// the external interrupt controller, and what it asks for.
    pub open spec fn write_next(
        self,
        next: Model,
        offset: u32,
        value: u32,
        now: u64,
        nvic: Nvic,
        next_nvic: Nvic,
        exti: Exti,
        next_exti: Exti,
        effect: BusEffect,
    ) -> bool {
        &&& match self {
            Model::SysTick(t) => next_nvic == t.spec_nvic_after_write(offset, value, now, nvic),
            _ => next_nvic.same_except_pending(nvic),
        }
        &&& match self {
            Model::Scb(_) => true,
            Model::Dma(_) => true,
            _ => next_nvic.pending == nvic.pending,
        }
        &&& match self {
            Model::Exti(_) => next_exti == exti.spec_write_exti(offset, value),
            Model::Syscfg(_) => next_exti == exti.spec_write_syscfg(offset, value),
            _ => next_exti == exti,
        }
        &&& match self {
            Model::Flash(_) => true,
            Model::Dma(_) => true,
            _ => effect is Nothing,
        }
        &&& match self {
            Model::Nvic(_) => next == self,
            Model::Scb(s) => {
                let (s2, p2) = s.spec_write(offset, value, nvic.pending);
                next == Model::Scb(s2) && next_nvic.pending == p2
            },
            Model::Rcc(r) => next == Model::Rcc(r.spec_write(offset, value)),
            Model::Pwr(p) => next == Model::Pwr(p.spec_write(offset, value)),
            Model::OtgFs(o) => next matches Model::OtgFs(o2) && o.spec_write_next(o2, offset, value),
            Model::Rtc(r) => next == Model::Rtc(r.spec_write(offset, value)),
            Model::Flash(f) => {
                &&& next == Model::Flash(f.spec_write(offset, value))
                &&& if offset == FLASH_CR {
                    effect matches BusEffect::Flash(c) && (c.erase@, c.persist) == (
                        f.spec_write_control(value).1,
                        f.spec_write_control(value).2,
                    )
                } else {
                    effect is Nothing
                }
            },
            Model::Tim11(t) => next == Model::Tim11(t.spec_write(offset, value)),
            Model::Dma(d) => next matches Model::Dma(d2) && match effect {
                BusEffect::Nothing => d.spec_write_next(
                    d2,
                    offset,
                    value,
                    nvic.pending,
                    next_nvic.pending,
                    None,
                ),
                BusEffect::Transfer(t) => d.spec_write_next(
                    d2,
                    offset,
                    value,
                    nvic.pending,
                    next_nvic.pending,
                    Some(t),
                ),
                BusEffect::Flash(_) => false,
            },
            Model::Adc(a) => next == Model::Adc(a.spec_write(offset, value)),
            Model::Can(c) => next == Model::Can(c.spec_write(offset, value)),
            Model::Tim5(t) => next == Model::Tim5(t.spec_write(offset, value, now)),
            Model::Tim6(t) => next == Model::Tim6(t.spec_write(offset, value, now)),
            Model::Dwt(d) => next == Model::Dwt(d.spec_write(offset, value, now)),
            Model::Exti(_) => next == self,
            Model::Syscfg(_) => next == self,
            Model::SysTick(t) => next == Model::SysTick(t.spec_write(offset, value)),
        }
    }

    pub fn read(
        &mut self,
        offset: u32,
        nvic: &Nvic,
        exti: &Exti,
        now: u64,
        ecu: Option<&EcuIo>,
    ) -> (v: u32)
        requires
            old(self).wf(),
            old(self).accepts(offset),
            ecu matches Some(e) ==> e.wf(),
        ensures
            final(self).wf(),
            v == old(self).read_value(
                offset,
                *nvic,
                *exti,
                now,
                match ecu {
                    Some(e) => Some(*e),
                    None => None,
                },
            ),
            old(self).read_next(*final(self), offset),
    {
        match self {
            Model::Nvic(_) => 0,
            Model::Scb(s) => s.read(offset, nvic),
            Model::Rcc(r) => r.read(offset),
            Model::Pwr(p) => p.read(offset),
            Model::OtgFs(o) => o.register_read(offset),
            Model::Rtc(r) => r.read(offset),
            Model::Flash(f) => f.read(offset),
            Model::Tim11(t) => t.read(offset),
            Model::Dma(d) => d.read(offset),
            Model::Adc(a) => a.register_read(offset, ecu),
            Model::Can(c) => c.read(offset),
            Model::Tim5(t) => t.read(offset, now),
            Model::Tim6(t) => t.read(offset, now),
            Model::Dwt(d) => d.read(offset, now),
            Model::Exti(_) => exti.read_exti(offset),
            Model::Syscfg(_) => exti.read_syscfg(offset),
            Model::SysTick(t) => t.read(offset, now, nvic),
        }
    }

    pub fn write(
        &mut self,
        offset: u32,
        value: u32,
        now: u64,
        nvic: &mut Nvic,
        exti: &mut Exti,
    ) -> (effect: BusEffect)
        requires
            old(self).wf(),
            old(self).accepts(offset),
        ensures
            final(self).wf(),
            old(self).write_next(
                *final(self),
                offset,
                value,
                now,
                *old(nvic),
                *final(nvic),
                *old(exti),
                *final(exti),
                effect,
            ),
    {
        match self {
            Model::Nvic(_) => BusEffect::Nothing,
            Model::Scb(s) => {
                s.write(offset, value, nvic);
                BusEffect::Nothing
            },
            Model::Rcc(r) => {
                r.write(offset, value);
                BusEffect::Nothing
            },
            Model::Pwr(p) => {
                p.write(offset, value);
                BusEffect::Nothing
            },
            Model::OtgFs(o) => {
                o.register_write(offset, value);
                BusEffect::Nothing
            },
            Model::Rtc(r) => {
                r.write(offset, value);
                BusEffect::Nothing
            },
            Model::Flash(f) => match f.write(offset, value) {
                Some(c) => BusEffect::Flash(c),
                None => BusEffect::Nothing,
            },
            Model::Tim11(t) => {
                t.write(offset, value);
                BusEffect::Nothing
            },
            Model::Dma(d) => match d.write(offset, value, nvic) {
                Some(t) => BusEffect::Transfer(t),
                None => BusEffect::Nothing,
            },
            Model::Adc(a) => {
                a.register_write(offset, value);
                BusEffect::Nothing
            },
            Model::Can(c) => {
                c.write(offset, value);
                BusEffect::Nothing
            },
            Model::Tim5(t) => {
                t.write(offset, value, now);
                BusEffect::Nothing
            },
            Model::Tim6(t) => {
                t.write(offset, value, now);
                BusEffect::Nothing
            },
            Model::Dwt(d) => {
                d.write(offset, value, now);
                BusEffect::Nothing
            },
            Model::Exti(_) => {
                exti.write_exti(offset, value);
                BusEffect::Nothing
            },
            Model::Syscfg(_) => {
                exti.write_syscfg(offset, value);
                BusEffect::Nothing
            },
            Model::SysTick(t) => {
                t.write(offset, value, now, nvic);
                BusEffect::Nothing
            },
        }
    }
}

/// A register block as the device description lists it: the name and the
/// registers by offset, kept for diagnostics.
pub struct GenericPeripheral {
    pub name: String,
    pub registers: Vec<(u32, String)>,
}

/// The highest register offset listed, 0 when none is.
pub open spec fn spec_max_offset(regs: Seq<(u32, String)>) -> u32
    decreases regs.len(),
{
    if regs.len() == 0 {
        0
    } else {
        let rest = spec_max_offset(regs.drop_last());
        if regs.last().0 > rest {
            regs.last().0
        } else {
            rest
        }
    }
}

pub proof fn lemma_max_offset_bounds(regs: Seq<(u32, String)>)
    ensures
        forall|i: int| 0 <= i < regs.len() ==> regs[i].0 <= spec_max_offset(regs),
        regs.len() == 0 || exists|i: int| 0 <= i < regs.len() && regs[i].0 == spec_max_offset(regs),
    decreases regs.len(),
{
    if regs.len() > 0 {
        let t = regs.drop_last();
        lemma_max_offset_bounds(t);
        assert forall|i: int| 0 <= i < regs.len() implies regs[i].0 <= spec_max_offset(regs) by {
            if i < regs.len() - 1 {
                assert(regs[i] == t[i]);
            }
        }
        if regs.last().0 > spec_max_offset(t) {
            assert(regs[regs.len() - 1].0 == spec_max_offset(regs));
        } else if t.len() > 0 {
            let k = choose|i: int| 0 <= i < t.len() && t[i].0 == spec_max_offset(t);
            assert(regs[k] == t[k]);
        } else {
            assert(regs[0].0 == spec_max_offset(regs));
        }
    }
}

/// The highest register offset listed, 0 when none is.
pub fn max_register_offset(registers: &Vec<(u32, String)>) -> (m: u32)
    ensures
        m == spec_max_offset(registers@),
{
    let mut max: u32 = 0;
    let mut i: usize = 0;
    while i < registers.len()
        invariant
            i <= registers@.len(),
            max == spec_max_offset(registers@.take(i as int)),
        decreases registers@.len() - i,
    {
        assert(registers@.take(i as int + 1).drop_last() =~= registers@.take(i as int));
        if registers[i].0 > max {
            max = registers[i].0;
        }
        i += 1;
    }
    assert(registers@.take(i as int) =~= registers@);
    max
}

impl GenericPeripheral {
    pub fn new(name: String, registers: Vec<(u32, String)>) -> (g: GenericPeripheral)
        ensures
            g.name == name,
            g.registers@ == registers@,
    {
        GenericPeripheral { name, registers }
    }

    /// Bytes spanned: one word past the highest register offset.
    pub fn size(&self) -> (n: u32)
        requires
            spec_max_offset(self.registers@) <= u32::MAX - 4,
        ensures
            n == spec_max_offset(self.registers@) + 4,
    {
        max_register_offset(&self.registers) + 4
    }

    pub fn name(&self) -> (n: &str)
        ensures
            n@ == self.name@,
    {
        self.name.as_str()
    }
}

/// The peripheral bus: register models placed by address, the interrupt
/// controllers they share, and the register blocks of the device
/// description for diagnostics.
pub struct Peripherals {
    pub debug_peripherals: Vec<PeripheralSlot<GenericPeripheral>>,
    pub peripherals: Vec<PeripheralSlot<Model>>,
    pub nvic: Nvic,
    pub exti: Exti,
}

impl Peripherals {
    pub open spec fn wf(self) -> bool {
        &&& slots_sorted(self.peripherals@)
        &&& slots_sorted(self.debug_peripherals@)
        &&& forall|i: int| 0 <= i < self.peripherals@.len() ==> (#[trigger] self.peripherals@[i]).peripheral.wf()
    }

    /// `next` differs from `self` at most in the model of slot `i` and in
    /// the interrupt controllers.
    pub open spec fn same_but_slot(self, next: Peripherals, i: int) -> bool {
        &&& next.debug_peripherals@ == self.debug_peripherals@
        &&& next.peripherals@.len() == self.peripherals@.len()
        &&& forall|j: int| 0 <= j < self.peripherals@.len() && j != i ==> next.peripherals@[j] == self.peripherals@[j]
        &&& next.peripherals@[i].start == self.peripherals@[i].start
        &&& next.peripherals@[i].end == self.peripherals@[i].end
    }

    /// The word address and slot an access ends up at, after bit-band
    /// decoding and alignment.
    pub open spec fn spec_target(addr: u32) -> u32 {
        let a = match spec_bitbanding(addr) {
            Some((a, _)) => a,
            None => addr,
        };
        spec_align(a).0
    }

    /// The word address reaches no register offset that its model cannot
    /// serve.
    pub open spec fn word_accessible(self, t: u32) -> bool {
        match spec_find(self.peripherals@, t) {
            Some(i) => self.peripherals@[i].peripheral.accepts(
                (t - self.peripherals@[i].start) as u32,
            ),
            None => true,
        }
    }

    /// The access reaches no register offset that its model cannot serve.
    pub open spec fn accessible(self, addr: u32) -> bool {
        self.word_accessible(Self::spec_target(addr))
    }

    /// A read of `addr` without bit-band decoding turns `self` into `next`
    /// and gives `v`: the model's register value shifted to the byte lane
    /// addressed, or 0 where no model is placed.
    pub open spec fn plain_read(
        self,
        next: Peripherals,
        addr: u32,
        now: u64,
        ecu: Option<EcuIo>,
        v: u32,
    ) -> bool {
        let (ra, off) = spec_align(addr);
        match spec_find(self.peripherals@, ra) {
            None => next == self && v == 0,
            Some(i) => {
                let slot = self.peripherals@[i];
                let o = (ra - slot.start) as u32;
                &&& self.same_but_slot(next, i)
                &&& next.nvic == self.nvic
                &&& next.exti == self.exti
                &&& slot.peripheral.read_next(next.peripherals@[i].peripheral, o)
                &&& v == slot.peripheral.read_value(o, self.nvic, self.exti, now, ecu) << ((8
                    * off) as u32)
            },
        }
    }

    /// A bus read: a bit-band alias reads one bit of the word it maps to.
    pub open spec fn bus_read(
        self,
        next: Peripherals,
        addr: u32,
        now: u64,
        ecu: Option<EcuIo>,
        v: u32,
    ) -> bool {
        match spec_bitbanding(addr) {
            Some((a, bit)) => exists|raw: u32|
                #[trigger] self.plain_read(next, a, now, ecu, raw) && v == (raw >> bit) & 1,
            None => self.plain_read(next, addr, now, ecu, v),
        }
    }

    fn read_plain(&mut self, addr: u32, now: u64, ecu: Option<&EcuIo>) -> (v: u32)
        requires
            old(self).wf(),
            old(self).word_accessible(spec_align(addr).0),
            ecu matches Some(e) ==> e.wf(),
        ensures
            final(self).wf(),
            old(self).plain_read(
                *final(self),
                addr,
                now,
                match ecu {
                    Some(e) => Some(*e),
                    None => None,
                },
                v,
            ),
    {
        let (ra, off) = if is_register(addr) {
            align_addr_4(addr)
        } else {
            (addr, 0)
        };
        assert((ra, off) == spec_align(addr));
        match find_slot(&self.peripherals, ra) {
            None => 0,
            Some(i) => {
                let start = self.peripherals[i].start;
                let o = ra - start;
                let ghost before = *self;
                let raw = self.peripherals[i].peripheral.read(o, &self.nvic, &self.exti, now, ecu);
                proof {
                    assert forall|j: int| 0 <= j < self.peripherals@.len() implies (
                    #[trigger] self.peripherals@[j]).peripheral.wf() by {
                        if j != i {
                            assert(self.peripherals@[j] == before.peripherals@[j]);
                        }
                    }
                    assert forall|a: int, b: int| 0 <= a < b < self.peripherals@.len() implies self.peripherals@[a].start <= self.peripherals@[b].start by {
                        assert(before.peripherals@[a].start == self.peripherals@[a].start);
                        assert(before.peripherals@[b].start == self.peripherals@[b].start);
                    }
                }
                raw << (8 * off)
            },
        }
    }

    /// A bus read of `size` bytes at `addr`. Register accesses are reduced
    /// to their aligned word and the value is shifted to the byte lane
    /// addressed; a bit-band alias reads bit `bit` of the word it maps to.
    pub fn read(&mut self, addr: u32, size: u8, now: u64, ecu: Option<&EcuIo>) -> (v: u32)
        requires
            old(self).wf(),
            old(self).accessible(addr),
            spec_bitbanding(addr) is None ==> spec_align(addr).1 + size <= 4,
            ecu matches Some(e) ==> e.wf(),
        ensures
            final(self).wf(),
            old(self).bus_read(
                *final(self),
                addr,
                now,
                match ecu {
                    Some(e) => Some(*e),
                    None => None,
                },
                v,
            ),
    {
        match bitbanding(addr) {
            Some((a, bit)) => {
                let raw = self.read_plain(a, now, ecu);
                (raw >> bit) & 1
            },
            None => self.read_plain(addr, now, ecu),
        }
    }

    /// A write of `value` to the word at `ra`: the model placed there takes
    /// it; nothing happens where no model is placed.
    pub open spec fn word_write(
        self,
        next: Peripherals,
        ra: u32,
        value: u32,
        now: u64,
        effect: BusEffect,
    ) -> bool {
        match spec_find(self.peripherals@, ra) {
            None => next == self && effect is Nothing,
            Some(i) => {
                let slot = self.peripherals@[i];
                &&& self.same_but_slot(next, i)
                &&& slot.peripheral.write_next(
                    next.peripherals@[i].peripheral,
                    (ra - slot.start) as u32,
                    value,
                    now,
                    self.nvic,
                    next.nvic,
                    self.exti,
                    next.exti,
                    effect,
                )
            },
        }
    }

    /// The word written when `value` goes to byte lane `off` of a word that
    /// reads `cur`: the value shifted up, the lanes below kept.
    pub open spec fn spec_merge(value: u32, cur: u32, off: u32) -> u32 {
        (value << ((8 * off) as u32)) | (cur & (0xFFFF_FFFFu32 >> ((32 - 8 * off) as u32)))
    }

    /// A write without bit-band decoding. A write into a byte lane other
    /// than the first reads the word first and merges the value over it.
    pub open spec fn plain_write(
        self,
        next: Peripherals,
        addr: u32,
        value: u32,
        now: u64,
        ecu: Option<EcuIo>,
        effect: BusEffect,
    ) -> bool {
        let (ra, off) = spec_align(addr);
        if off == 0 {
            self.word_write(next, ra, value, now, effect)
        } else {
            exists|mid: Peripherals, cur: u32|
                #[trigger] self.plain_read(mid, ra, now, ecu, cur) && mid.word_write(
                    next,
                    ra,
                    Self::spec_merge(value, cur, off),
                    now,
                    effect,
                )
        }
    }

    /// A bus write. Through a bit-band alias the word it maps to is read,
    /// only the addressed bit of it is kept, the written bit is set into it
    /// and the result is written back.
    pub open spec fn bus_write(
        self,
        next: Peripherals,
        addr: u32,
        value: u32,
        now: u64,
        ecu: Option<EcuIo>,
        effect: BusEffect,
    ) -> bool {
        match spec_bitbanding(addr) {
            Some((a, bit)) => exists|mid: Peripherals, cur: u32|
                #[trigger] self.plain_read(mid, a, now, ecu, cur) && mid.plain_write(
                    next,
                    a,
                    (cur & (1u32 << bit)) | ((value & 1) << bit),
                    now,
                    ecu,
                    effect,
                ),
            None => self.plain_write(next, addr, value, now, ecu, effect),
        }
    }

    fn write_word(&mut self, ra: u32, value: u32, now: u64) -> (effect: BusEffect)
        requires
            old(self).wf(),
            old(self).word_accessible(ra),
        ensures
            final(self).wf(),
            old(self).word_write(*final(self), ra, value, now, effect),
    {
        match find_slot(&self.peripherals, ra) {
            None => BusEffect::Nothing,
            Some(i) => {
                let start = self.peripherals[i].start;
                let o = ra - start;
                let ghost before = *self;
                let effect = self.peripherals[i].peripheral.write(
                    o,
                    value,
                    now,
                    &mut self.nvic,
                    &mut self.exti,
                );
                proof {
                    assert forall|j: int| 0 <= j < self.peripherals@.len() implies (
                    #[trigger] self.peripherals@[j]).peripheral.wf() by {
                        if j != i {
                            assert(self.peripherals@[j] == before.peripherals@[j]);
                        }
                    }
                    assert forall|a: int, b: int|
                        0 <= a < b < self.peripherals@.len() implies self.peripherals@[a].start
                        <= self.peripherals@[b].start by {
                        assert(before.peripherals@[a].start == self.peripherals@[a].start);
                        assert(before.peripherals@[b].start == self.peripherals@[b].start);
                    }
                }
                effect
            },
        }
    }

    fn write_plain(&mut self, addr: u32, value: u32, now: u64, ecu: Option<&EcuIo>) -> (effect: BusEffect)
        requires
            old(self).wf(),
            old(self).word_accessible(spec_align(addr).0),
            ecu matches Some(e) ==> e.wf(),
        ensures
            final(self).wf(),
            old(self).plain_write(
                *final(self),
                addr,
                value,
                now,
                match ecu {
                    Some(e) => Some(*e),
                    None => None,
                },
                effect,
            ),
    {
        let (ra, off) = if is_register(addr) {
            align_addr_4(addr)
        } else {
            (addr, 0)
        };
        assert((ra, off) == spec_align(addr));
        if off != 0 {
            let ghost s0 = *self;
            assert(spec_align(ra) == (ra, 0u32));
            let cur = self.read_plain(ra, now, ecu);
            let ghost mid = *self;
            proof {
                lemma_find_same_layout(s0.peripherals@, mid.peripherals@, ra);
                match spec_find(s0.peripherals@, ra) {
                    Some(i) => {
                        lemma_find_bounds(s0.peripherals@, ra);
                    },
                    None => {},
                }
            }
            let merged = (value << (8 * off)) | (cur & (0xFFFF_FFFFu32 >> (32 - 8 * off)));
            let effect = self.write_word(ra, merged, now);
            proof {
                let e = match ecu {
                    Some(x) => Some(*x),
                    None => None,
                };
                assert(s0.plain_read(mid, ra, now, e, cur));
                assert(merged == Self::spec_merge(value, cur, off));
            }
            effect
        } else {
            self.write_word(ra, value, now)
        }
    }

    /// A bus write of `size` bytes of `value` at `addr`, and what it asks
    /// of the owner of guest memory.
    pub fn write(&mut self, addr: u32, size: u8, value: u32, now: u64, ecu: Option<&EcuIo>) -> (effect: BusEffect)
        requires
            old(self).wf(),
            old(self).accessible(addr),
            spec_bitbanding(addr) is None ==> spec_align(addr).1 + size <= 4,
            ecu matches Some(e) ==> e.wf(),
        ensures
            final(self).wf(),
            old(self).bus_write(
                *final(self),
                addr,
                value,
                now,
                match ecu {
                    Some(e) => Some(*e),
                    None => None,
                },
                effect,
            ),
    {
        match bitbanding(addr) {
            Some((a, bit)) => {
                let ghost s0 = *self;
                let cur = self.read_plain(a, now, ecu);
                let ghost mid = *self;
                proof {
                    lemma_find_same_layout(s0.peripherals@, mid.peripherals@, spec_align(a).0);
                    match spec_find(s0.peripherals@, spec_align(a).0) {
                        Some(i) => {
                            lemma_find_bounds(s0.peripherals@, spec_align(a).0);
                        },
                        None => {},
                    }
                }
                let v = (cur & (1u32 << bit)) | ((value & 1) << bit);
                let effect = self.write_plain(a, v, now, ecu);
                proof {
                    let e = match ecu {
                        Some(x) => Some(*x),
                        None => None,
                    };
                    assert(s0.plain_read(mid, a, now, e, cur));
                }
                effect
            },
            None => self.write_plain(addr, value, now, ecu),
        }
    }
}

/// Which model a register block of the device description gets, by its
/// name: the one whose name it has (CAN and DMA blocks by prefix), or none.
pub open spec fn spec_model_matches(m: Model, name: Seq<char>) -> bool {
    match m {
        Model::Nvic(_) => name == "NVIC"@,
        Model::Scb(_) => name == "SCB"@,
        Model::Rcc(_) => name == "RCC"@,
        Model::Pwr(_) => name == "PWR"@,
        Model::OtgFs(_) => name == "OTG_FS_GLOBAL"@,
        Model::Rtc(_) => name == "RTC"@,
        Model::Flash(_) => name == "FLASH"@,
        Model::Tim11(_) => name == "TIM11"@,
        Model::Dma(d) => crate::text::is_prefix("DMA"@, name) && d.name@ == name,
        Model::Adc(_) => name == "ADC1"@,
        Model::Can(_) => crate::text::is_prefix("CAN"@, name),
        Model::Tim5(_) => name == "TIM5"@,
        Model::Tim6(_) => name == "TIM6"@,
        Model::Dwt(_) => name == "DWT"@,
        Model::Exti(_) => name == "EXTI"@,
        Model::Syscfg(_) => name == "SYSCFG"@,
        Model::SysTick(_) => name == "STK"@,
    }
}

/// The model is in its reset state; a flash interface holds `flash`.
pub open spec fn spec_in_reset_state(m: Model, flash: Option<InternalFlashConfig>) -> bool {
    match m {
        Model::Nvic(_) => true,
        Model::Scb(s) => s.cpacr == 0,
        Model::Rcc(r) => r.cfgr == 0 && r.csr == 0 && r.bdcr == 0,
        Model::Pwr(p) => p.cr1 == 0 && p.csr1 == 0,
        Model::OtgFs(o) => o.registers@ == Map::<u32, u32>::empty() && o.global_interrupt_status == 0
            && o.global_interrupt_mask == 0 && !o.host_attached,
        Model::Rtc(r) => r.isr == 7,
        Model::Flash(f) => f.acr == 0 && f.sr == 0 && f.cr == flash::CR_LOCK && f.optcr
            == flash::OPTCR_RESET && f.key_stage == 0 && f.internal == flash,
        Model::Tim11(t) => t.cr1 == 0 && t.ccmr1 == 0 && t.ccer == 0 && t.sr == 0,
        Model::Dma(d) => d.lisr == 0 && d.hisr == 0 && forall|i: int|
            0 <= i < 8 ==> d.streams@[i] == dma::spec_reset_stream(),
        Model::Adc(a) => a.cr1 == 0 && a.cr2 == 0 && a.smpr1 == 0 && a.smpr2 == 0 && a.sqr1 == 0
            && a.sqr2 == 0 && a.sqr3 == 0 && a.sr == 0 && a.sequence_index == 0,
        Model::Can(c) => c.mcr == 0,
        Model::Tim5(t) => t == Tim5::default_spec(),
        Model::Tim6(t) => t.cr1 == 0 && t.cr2 == 0 && t.dier == 0 && t.sr == 0 && t.psc == 0
            && t.arr == 0 && t.enabled_at == 0,
        Model::Dwt(d) => d.ctrl == 0 && d.cyccnt_offset == 0,
        Model::Exti(_) => true,
        Model::Syscfg(_) => true,
        Model::SysTick(t) => t.ctrl == 0 && t.load == 0,
    }
}

/// A name that some register model serves.
pub open spec fn spec_has_model(name: Seq<char>) -> bool {
    ||| name == "NVIC"@
    ||| name == "SCB"@
    ||| name == "RCC"@
    ||| name == "PWR"@
    ||| name == "OTG_FS_GLOBAL"@
    ||| name == "RTC"@
    ||| name == "FLASH"@
    ||| name == "TIM11"@
    ||| crate::text::is_prefix("DMA"@, name)
    ||| name == "ADC1"@
    ||| crate::text::is_prefix("CAN"@, name)
    ||| name == "TIM5"@
    ||| name == "TIM6"@
    ||| name == "DWT"@
    ||| name == "EXTI"@
    ||| name == "SYSCFG"@
    ||| name == "STK"@
}

/// The model for a register block named `name`, in its reset state; the
/// flash interface gets the internal-flash configuration.
pub fn build_model(name: &str, internal_flash: Option<InternalFlashConfig>) -> (r: Option<Model>)
    ensures
        r is Some <==> spec_has_model(name@),
        r matches Some(m) ==> m.wf() && spec_model_matches(m, name@) && spec_in_reset_state(
            m,
            internal_flash,
        ),
{
    if let Some(p) = NvicWrapper::new(name) {
        return Some(Model::Nvic(p));
    }
    if let Some(p) = SysTick::new(name) {
        return Some(Model::SysTick(p));
    }
    if let Some(p) = Scb::new(name) {
        return Some(Model::Scb(p));
    }
    if let Some(p) = Rcc::new(name) {
        return Some(Model::Rcc(p));
    }
    if let Some(p) = Pwr::new(name) {
        return Some(Model::Pwr(p));
    }
    if let Some(p) = OtgFs::new(name) {
        return Some(Model::OtgFs(p));
    }
    if let Some(p) = Rtc::new(name) {
        return Some(Model::Rtc(p));
    }
    if let Some(p) = Flash::new(name, internal_flash) {
        return Some(Model::Flash(p));
    }
    if let Some(p) = Tim11::new(name) {
        return Some(Model::Tim11(p));
    }
    if let Some(p) = Dma::new(name) {
        return Some(Model::Dma(p));
    }
    if let Some(p) = Adc::new(name) {
        return Some(Model::Adc(p));
    }
    if let Some(p) = Can::new(name) {
        return Some(Model::Can(p));
    }
    if let Some(p) = Tim5::new(name) {
        return Some(Model::Tim5(p));
    }
    if let Some(p) = Tim6::new(name) {
        return Some(Model::Tim6(p));
    }
    if let Some(p) = Dwt::new(name) {
        return Some(Model::Dwt(p));
    }
    if let Some(p) = ExtiWrapper::new(name) {
        return Some(Model::Exti(p));
    }
    if let Some(p) = SyscfgWrapper::new(name) {
        return Some(Model::Syscfg(p));
    }
    None
}

/// The core models that every bus gets: the data watchpoint unit, the
/// SysTick timer and the system control block, in their reset state.
pub open spec fn spec_core_dwt() -> PeripheralSlot<Model> {
    PeripheralSlot { start: 0xe000_1000u32, end: 0xe000_1008u32, peripheral: Model::Dwt(Dwt { ctrl: 0, cyccnt_offset: 0 }) }
}

pub open spec fn spec_core_systick() -> PeripheralSlot<Model> {
    PeripheralSlot { start: 0xe000_e010u32, end: 0xe000_e01cu32, peripheral: Model::SysTick(SysTick { ctrl: 0, load: 0 }) }
}

pub open spec fn spec_core_scb() -> PeripheralSlot<Model> {
    PeripheralSlot { start: 0xe000_ed00u32, end: 0xe000_ed8fu32, peripheral: Model::Scb(Scb { cpacr: 0 }) }
}

/// `e` placed after every slot that starts at or below it.
pub open spec fn spec_placed<T>(prev: Seq<PeripheralSlot<T>>, e: PeripheralSlot<T>) -> Seq<
    PeripheralSlot<T>,
> {
    prev.insert(last_start_at_or_below(prev, e.start) + 1, e)
}

/// Inserts `slot` after every slot that starts at or below it, which
/// keeps the slots sorted and slots with equal starts in insertion order.
pub fn insert_sorted<T>(v: &mut Vec<PeripheralSlot<T>>, slot: PeripheralSlot<T>)
    requires
        slots_sorted(old(v)@),
    ensures
        slots_sorted(final(v)@),
        final(v)@ == old(v)@.insert(last_start_at_or_below(old(v)@, slot.start) + 1, slot),
{
    let key = slot.start;
    let mut lo: usize = 0;
    let mut hi: usize = v.len();
    while lo < hi
        invariant
            0 <= lo <= hi <= v@.len(),
            slots_sorted(v@),
            forall|j: int| 0 <= j < lo ==> v@[j].start <= key,
            forall|j: int| hi <= j < v@.len() ==> v@[j].start > key,
        decreases hi - lo,
    {
        let mid = lo + (hi - lo) / 2;
        if v[mid].start <= key {
            lo = mid + 1;
        } else {
            hi = mid;
        }
    }
    proof {
        lemma_last_start_prefix(v@, key, lo as int);
    }
    let ghost before = v@;
    v.insert(lo, slot);
    assert forall|i: int, j: int| 0 <= i < j < v@.len() implies v@[i].start <= v@[j].start by {
        if j < lo {
            assert(v@[i] == before[i] && v@[j] == before[j]);
        } else if j == lo {
            assert(v@[i] == before[i]);
        } else if i < lo {
            assert(v@[i] == before[i] && v@[j] == before[j - 1]);
        } else if i == lo {
            assert(v@[j] == before[j - 1]);
        } else {
            assert(v@[i] == before[i - 1] && v@[j] == before[j - 1]);
        }
    }
}

/// Two register blocks of the device description that overlap.
#[derive(Debug)]
pub struct OverlapError {
    pub first: String,
    pub second: String,
}

impl OverlapError {
    pub fn message(&self) -> (m: String)
        ensures
            m@ == "Overlapping register blocks between "@ + self.first@ + " and "@ + self.second@,
    {
        let mut m = String::new();
        m.append("Overlapping register blocks between ");
        m.append(self.first.as_str());
        m.append(" and ");
        m.append(self.second.as_str());
        m
    }
}

/// Adjacent register blocks leave a gap between them.
pub open spec fn spec_no_overlap<T>(s: Seq<PeripheralSlot<T>>) -> bool {
    forall|i: int| 0 <= i < s.len() - 1 ==> #[trigger] s[i].end < s[i + 1].start
}

impl Peripherals {
    /// An empty bus with idle interrupt controllers.
    pub fn new() -> (p: Peripherals)
        ensures
            p.wf(),
            p.peripherals@.len() == 0,
            p.debug_peripherals@.len() == 0,
            p.nvic.pending == 0,
            p.nvic.systick_period is None,
            p.nvic.last_systick_trigger == 0,
            !p.nvic.in_interrupt,
            p.nvic.active_exception == 0,
            p.exti == Exti::default_spec(),
    {
        Peripherals {
            debug_peripherals: Vec::new(),
            peripherals: Vec::new(),
            nvic: Nvic::new(),
            exti: Exti::default(),
        }
    }

    /// The range a model covers on the bus.
    pub fn modeled_range(name: &str, base: u32, size: u32) -> (r: (u32, u32))
        requires
            name@ == "OTG_FS_GLOBAL"@ ==> base <= u32::MAX - 0x7000,
            name@ == "SCB"@ ==> base <= u32::MAX - 0x008f,
            name@ != "FSMC"@ && name@ != "OTG_FS_GLOBAL"@ && name@ != "SCB"@ ==> base + size
                <= u32::MAX,
        ensures
            r == spec_modeled_range(name@, base, size),
    {
        if crate::text::str_eq(name, "FSMC") {
            (0x6000_0000, 0xA000_1000)
        } else if crate::text::str_eq(name, "OTG_FS_GLOBAL") {
            (base, base + 0x7000)
        } else if crate::text::str_eq(name, "SCB") {
            (base, base + 0x008f)
        } else {
            (base, base + size)
        }
    }

    /// The slot serving `addr`: the last one starting at or below it,
    /// provided the address is within its range.
    pub fn get_peripheral<T>(peripherals: &Vec<PeripheralSlot<T>>, addr: u32) -> (r: Option<
        &PeripheralSlot<T>,
    >)
        requires
            slots_sorted(peripherals@),
        ensures
            r is Some <==> spec_find(peripherals@, addr) is Some,
            r matches Some(slot) ==> *slot == peripherals@[spec_find(peripherals@, addr).unwrap()],
    {
        match find_slot(peripherals, addr) {
            Some(i) => Some(&peripherals[i]),
            None => None,
        }
    }

    /// Registers a register block of the device description at `base`:
    /// it is kept for diagnostics over its listed registers, and the model
    /// for its name, if any, is placed over its modeled range.
    pub fn register_peripheral(
        &mut self,
        name: String,
        base: u32,
        registers: Vec<(u32, String)>,
        internal_flash: Option<InternalFlashConfig>,
    )
        requires
            old(self).wf(),
            spec_max_offset(registers@) <= u32::MAX - 4,
            base + spec_max_offset(registers@) + 4 <= u32::MAX,
            name@ == "OTG_FS_GLOBAL"@ ==> base <= u32::MAX - 0x7000,
            name@ == "SCB"@ ==> base <= u32::MAX - 0x008f,
        ensures
            final(self).wf(),
            final(self).nvic == old(self).nvic,
            final(self).exti == old(self).exti,
            ({
                let end = (base + spec_max_offset(registers@) + 4) as u32;
                let d = final(self).debug_peripherals@[last_start_at_or_below(
                    old(self).debug_peripherals@,
                    base,
                ) + 1];
                &&& final(self).debug_peripherals@.len() == old(self).debug_peripherals@.len() + 1
                &&& final(self).debug_peripherals@ == old(self).debug_peripherals@.insert(
                    last_start_at_or_below(old(self).debug_peripherals@, base) + 1,
                    d,
                )
                &&& d.start == base
                &&& d.end == end
                &&& d.peripheral.name == name
                &&& d.peripheral.registers@ == registers@
            }),
            !spec_has_model(name@) ==> final(self).peripherals@ == old(self).peripherals@,
            spec_has_model(name@) ==> ({
                let (start, end) = spec_modeled_range(
                    name@,
                    base,
                    (spec_max_offset(registers@) + 4) as u32,
                );
                let k = last_start_at_or_below(old(self).peripherals@, start) + 1;
                let m = final(self).peripherals@[k];
                &&& final(self).peripherals@ == old(self).peripherals@.insert(k, m)
                &&& m.start == start
                &&& m.end == end
                &&& m.peripheral.wf()
                &&& spec_model_matches(m.peripheral, name@)
                &&& spec_in_reset_state(m.peripheral, internal_flash)
            }),
    {
        let model = build_model(name.as_str(), internal_flash);
        let g = GenericPeripheral::new(name, registers);
        let size = g.size();
        let end = base + size;
        let (start, end) = Self::modeled_range(g.name(), base, size);
        let ghost d0 = self.debug_peripherals@;
        proof {
            lemma_find_bounds(d0, base);
        }
        insert_sorted(&mut self.debug_peripherals, PeripheralSlot { start: base, end: base + size, peripheral: g });
        assert(self.debug_peripherals@[last_start_at_or_below(d0, base) + 1].start == base);
        if let Some(m) = model {
            let ghost before = self.peripherals@;
            proof {
                lemma_find_bounds(before, start);
            }
            insert_sorted(&mut self.peripherals, PeripheralSlot { start, end, peripheral: m });
            assert(self.peripherals@[last_start_at_or_below(before, start) + 1].start == start);
            assert forall|i: int| 0 <= i < self.peripherals@.len() implies (
            #[trigger] self.peripherals@[i]).peripheral.wf() by {
                let k = last_start_at_or_below(before, start) + 1;
                lemma_find_bounds(before, start);
                if i < k {
                    assert(self.peripherals@[i] == before[i]);
                } else if i > k {
                    assert(self.peripherals@[i] == before[i - 1]);
                }
            }
        }
    }

    /// Places the core peripherals that the device description leaves
    /// out: the data watchpoint unit, the SysTick timer and the system
    /// control block.
    pub fn register_core_peripherals(&mut self)
        requires
            old(self).wf(),
        ensures
            final(self).wf(),
            final(self).nvic == old(self).nvic,
            final(self).exti == old(self).exti,
            final(self).debug_peripherals@ == old(self).debug_peripherals@,
            final(self).peripherals@ == spec_placed(
                spec_placed(spec_placed(old(self).peripherals@, spec_core_dwt()), spec_core_systick()),
                spec_core_scb(),
            ),
            final(self).peripherals@.len() == old(self).peripherals@.len() + 3,
            exists|i: int|
                0 <= i < final(self).peripherals@.len() && #[trigger] final(self).peripherals@[i]
                    == spec_core_dwt(),
            exists|i: int|
                0 <= i < final(self).peripherals@.len() && #[trigger] final(self).peripherals@[i]
                    == spec_core_systick(),
            exists|i: int|
                0 <= i < final(self).peripherals@.len() && #[trigger] final(self).peripherals@[i]
                    == spec_core_scb(),
    {
        let ghost p0 = self.peripherals@;
        self.place_core(PeripheralSlot { start: 0xe000_1000, end: 0xe000_1008, peripheral: Model::Dwt(Dwt::default()) });
        let ghost p1 = self.peripherals@;
        self.place_core(PeripheralSlot { start: 0xe000_e010, end: 0xe000_e01c, peripheral: Model::SysTick(SysTick::default()) });
        let ghost p2 = self.peripherals@;
        self.place_core(PeripheralSlot { start: 0xe000_ed00, end: 0xe000_ed8f, peripheral: Model::Scb(Scb::default()) });
        let ghost p3 = self.peripherals@;
        proof {
            let k1 = last_start_at_or_below(p0, 0xe000_1000u32) + 1;
            let k2 = last_start_at_or_below(p1, 0xe000_e010u32) + 1;
            let k3 = last_start_at_or_below(p2, 0xe000_ed00u32) + 1;
            lemma_find_bounds(p0, 0xe000_1000u32);
            lemma_find_bounds(p1, 0xe000_e010u32);
            lemma_find_bounds(p2, 0xe000_ed00u32);
            assert(p3[k3] == spec_core_scb());
            let j2 = if k3 <= k2 { k2 + 1 } else { k2 };
            assert(p3[j2] == spec_core_systick());
            let j1a = if k2 <= k1 { k1 + 1 } else { k1 };
            assert(p2[j1a] == spec_core_dwt());
            let j1 = if k3 <= j1a { j1a + 1 } else { j1a };
            assert(p3[j1] == spec_core_dwt());
        }
    }

    /// Inserts one core model in address order.
    fn place_core(&mut self, slot: PeripheralSlot<Model>)
        requires
            old(self).wf(),
            slot.peripheral.wf(),
        ensures
            final(self).wf(),
            final(self).nvic == old(self).nvic,
            final(self).exti == old(self).exti,
            final(self).debug_peripherals@ == old(self).debug_peripherals@,
            final(self).peripherals@ == spec_placed(old(self).peripherals@, slot),
    {
        let ghost p0 = self.peripherals@;
        let ghost k = last_start_at_or_below(p0, slot.start) + 1;
        insert_sorted(&mut self.peripherals, slot);
        proof {
            lemma_find_bounds(p0, slot.start);
            let p1 = self.peripherals@;
            assert forall|i: int| 0 <= i < p1.len() implies (#[trigger] p1[i]).peripheral.wf() by {
                if i < k {
                    assert(p1[i] == p0[i]);
                } else if i > k {
                    assert(p1[i] == p0[i - 1]);
                }
            }
        }
    }

    /// Checks that no two register blocks of the device description
    /// overlap; the blocks are kept sorted as they are registered.
    pub fn finish_registration(&mut self) -> (r: Result<(), OverlapError>)
        requires
            old(self).wf(),
        ensures
            *final(self) == *old(self),
            r is Ok <==> spec_no_overlap(old(self).debug_peripherals@),
            r matches Err(e) ==> exists|i: int|
                0 <= i < old(self).debug_peripherals@.len() - 1
                    && #[trigger] old(self).debug_peripherals@[i].end >= old(self).debug_peripherals@[i + 1].start
                    && e.first == old(self).debug_peripherals@[i].peripheral.name
                    && e.second == old(self).debug_peripherals@[i + 1].peripheral.name
                    && (forall|j: int| 0 <= j < i ==> #[trigger] old(self).debug_peripherals@[j].end < old(self).debug_peripherals@[j + 1].start),
    {
        let n = self.debug_peripherals.len();
        if n == 0 {
            return Ok(());
        }
        let mut i: usize = 0;
        while i < n - 1
            invariant
                n == self.debug_peripherals@.len(),
                n > 0,
                forall|j: int| 0 <= j < i ==> #[trigger] self.debug_peripherals@[j].end < self.debug_peripherals@[j + 1].start,
            decreases n - i,
        {
            if self.debug_peripherals[i].end >= self.debug_peripherals[i + 1].start {
                let first = self.debug_peripherals[i].peripheral.name.clone();
                let second = self.debug_peripherals[i + 1].peripheral.name.clone();
                return Err(OverlapError { first, second });
            }
            i += 1;
        }
        Ok(())
    }
}

impl Model {
    /// How a poll leaves the model: the OTG core tracks whether a host is
    /// attached to its bridge, the timers latch their flags.
    pub open spec fn poll_next(self, next: Model, now: u64, connected: bool) -> bool {
        match self {
            Model::OtgFs(o) => next matches Model::OtgFs(o2) && {
                &&& o2.host_attached == connected
                &&& o2.global_interrupt_status == if connected && !o.host_attached {
                    o.global_interrupt_status | USB_RESET
                } else {
                    o.global_interrupt_status
                }
                &&& o2.global_interrupt_mask == o.global_interrupt_mask
                &&& o2.registers@ == o.registers@
            },
            Model::Tim5(t) => next == Model::Tim5(Tim5 { sr: t.spec_polled_sr(now), ..t }),
            Model::Tim6(t) => next == Model::Tim6(t.spec_poll(now)),
            _ => next == self,
        }
    }

    /// The interrupt that a polled model keeps pending, as a pending-set
    /// bit, or 0.
    pub open spec fn raised(self) -> u128 {
        match self {
            Model::OtgFs(o) => if o.spec_interrupt_pending() {
                1u128 << irq_bit(OTG_FS_IRQ)
            } else {
                0
            },
            Model::Tim5(t) => if t.sr & SR_CC1IF != 0 && t.dier & DIER_CC1IE != 0 {
                1u128 << irq_bit(TIM5_IRQ)
            } else {
                0
            },
            Model::Tim6(t) => if t.sr & 1 != 0 && t.dier & 1 != 0 {
                1u128 << irq_bit(TIM6_DAC_IRQ)
            } else {
                0
            },
            _ => 0,
        }
    }

    pub fn poll(&mut self, now: u64, connected: bool, nvic: &mut Nvic)
        requires
            old(self).wf(),
        ensures
            final(self).wf(),
            old(self).poll_next(*final(self), now, connected),
            final(nvic).same_except_pending(*old(nvic)),
            final(nvic).pending == old(nvic).pending | final(self).raised(),
    {
        let ghost p0 = nvic.pending;
        match self {
            Model::OtgFs(o) => o.poll(connected, nvic),
            Model::Tim5(t) => t.poll(now, nvic),
            Model::Tim6(t) => t.poll(now, nvic),
            _ => {},
        }
        proof {
            assert(p0 | 0u128 == p0) by (bit_vector);
        }
    }
}

/// The pending-set bits that the models keep pending.
pub open spec fn spec_raised_by(s: Seq<PeripheralSlot<Model>>) -> u128
    decreases s.len(),
{
    if s.len() == 0 {
        0
    } else {
        spec_raised_by(s.drop_last()) | s.last().peripheral.raised()
    }
}

impl Peripherals {
    /// Polls every model in address order: the OTG core sees whether a
    /// client is connected to its bridge, the timers latch their flags at
    /// instruction count `now`, and the interrupts they keep pending are
    /// set.
    pub fn poll(&mut self, now: u64, connected: bool)
        requires
            old(self).wf(),
        ensures
            final(self).wf(),
            final(self).debug_peripherals@ == old(self).debug_peripherals@,
            final(self).exti == old(self).exti,
            final(self).nvic.same_except_pending(old(self).nvic),
            final(self).peripherals@.len() == old(self).peripherals@.len(),
            forall|i: int| 0 <= i < old(self).peripherals@.len() ==> {
                let a = #[trigger] old(self).peripherals@[i];
                let b = final(self).peripherals@[i];
                a.start == b.start && a.end == b.end && a.peripheral.poll_next(b.peripheral, now, connected)
            },
            final(self).nvic.pending == old(self).nvic.pending | spec_raised_by(final(self).peripherals@),
    {
        let n = self.peripherals.len();
        let mut i: usize = 0;
        proof {
            assert(self.peripherals@.take(0) =~= Seq::<PeripheralSlot<Model>>::empty());
            let p = self.nvic.pending;
            assert(p | 0u128 == p) by (bit_vector);
        }
        while i < n
            invariant
                n == self.peripherals@.len(),
                n == old(self).peripherals@.len(),
                i <= n,
                self.debug_peripherals@ == old(self).debug_peripherals@,
                self.exti == old(self).exti,
                self.nvic.same_except_pending(old(self).nvic),
                forall|j: int| 0 <= j < n ==> (#[trigger] self.peripherals@[j]).peripheral.wf(),
                forall|j: int| 0 <= j < n ==> {
                    let a = #[trigger] old(self).peripherals@[j];
                    let b = self.peripherals@[j];
                    a.start == b.start && a.end == b.end
                },
                forall|j: int| 0 <= j < i ==> {
                    let a = #[trigger] old(self).peripherals@[j];
                    let b = self.peripherals@[j];
                    a.peripheral.poll_next(b.peripheral, now, connected)
                },
                forall|j: int| i <= j < n ==> #[trigger] self.peripherals@[j] == old(self).peripherals@[j],
                self.nvic.pending == old(self).nvic.pending | spec_raised_by(self.peripherals@.take(i as int)),
            decreases n - i,
        {
            let ghost before = self.peripherals@;
            let ghost pb = self.nvic.pending;
            self.peripherals[i].peripheral.poll(now, connected, &mut self.nvic);
            proof {
                assert forall|j: int| 0 <= j < n && j != i implies #[trigger] self.peripherals@[j] == before[j] by {}
                assert(self.peripherals@.take(i + 1).drop_last() =~= before.take(i as int));
                assert(self.peripherals@.take(i + 1).last() == self.peripherals@[i as int]);
                let o = old(self).nvic.pending;
                let r = spec_raised_by(before.take(i as int));
                let x = self.peripherals@[i as int].peripheral.raised();
                assert((o | r) | x == o | (r | x)) by (bit_vector);
            }
            i += 1;
        }
        proof {
            assert(self.peripherals@.take(n as int) =~= self.peripherals@);
            assert forall|a: int, b: int| 0 <= a < b < self.peripherals@.len() implies self.peripherals@[a].start <= self.peripherals@[b].start by {
                assert(old(self).peripherals@[a].start == self.peripherals@[a].start);
                assert(old(self).peripherals@[b].start == self.peripherals@[b].start);
            }
        }
    }
}

/// What a DMA transfer leaves to the owner of guest memory: bytes to
/// write to memory, and what the peripheral writes asked for.
pub struct TransferOutcome {
    pub memory_write: Option<(u32, Vec<u8>)>,
    pub effects: Vec<BusEffect>,
}

impl TransferRequest {
    /// The transfer reads its bytes from guest memory (to a peripheral, or
    /// memory to memory).
    pub fn reads_memory(&self) -> (r: bool)
        ensures
            r <==> (self.dir == Dir::Write || self.dir == Dir::MemCopy),
    {
        match self.dir {
            Dir::Write => true,
            Dir::MemCopy => true,
            _ => false,
        }
    }
}

impl Peripherals {
    /// A read of the register at `addr` as the DMA controller does it: no
    /// alignment, the model placed there reads at `addr - start`; 0 where
    /// no model is placed.
    pub open spec fn raw_read(
        self,
        next: Peripherals,
        addr: u32,
        now: u64,
        ecu: Option<EcuIo>,
        v: u32,
    ) -> bool {
        match spec_find(self.peripherals@, addr) {
            None => next == self && v == 0,
            Some(i) => {
                let slot = self.peripherals@[i];
                let o = (addr - slot.start) as u32;
                &&& self.same_but_slot(next, i)
                &&& next.nvic == self.nvic
                &&& next.exti == self.exti
                &&& slot.peripheral.read_next(next.peripherals@[i].peripheral, o)
                &&& v == slot.peripheral.read_value(o, self.nvic, self.exti, now, ecu)
            },
        }
    }

    /// The register at `addr` is an ADC's.
    pub open spec fn adc_at(self, addr: u32) -> bool {
        match spec_find(self.peripherals@, addr) {
            Some(i) => self.peripherals@[i].peripheral is Adc,
            None => false,
        }
    }

    /// A DMA read of `bytes` from the register at `addr` turns `self` into
    /// `next`. An ADC serves it as its DMA interface does; any other model
    /// is read once per byte and gives the low byte of each read.
    pub open spec fn dma_read(
        self,
        next: Peripherals,
        addr: u32,
        size: usize,
        now: u64,
        ecu: Option<EcuIo>,
        bytes: Seq<u8>,
    ) -> bool {
        if self.adc_at(addr) {
            let i = spec_find(self.peripherals@, addr).unwrap();
            let slot = self.peripherals@[i];
            let o = (addr - slot.start) as u32;
            &&& self.same_but_slot(next, i)
            &&& next.nvic == self.nvic
            &&& next.exti == self.exti
            &&& next.peripherals@[i].peripheral matches Model::Adc(a2) && {
                let a = slot.peripheral->Adc_0;
                &&& a2.wf()
                &&& o != ADC_DR ==> bytes == Seq::new(
                    size as nat,
                    |k: int| a.spec_read_value(o, None) as u8,
                ) && a2 == a
                &&& o == ADC_DR ==> bytes == spec_halfword_bytes(
                    a.spec_conversion_run(ecu, (size / 2) as nat).0,
                ) && a2 == a.spec_conversion_run(ecu, (size / 2) as nat).1
            }
        } else {
            exists|states: Seq<Peripherals>, vals: Seq<u32>|
                #![trigger states.len(), vals.len()]
                {
                    &&& states.len() == size + 1
                    &&& vals.len() == size
                    &&& states[0] == self
                    &&& states[size as int] == next
                    &&& bytes == vals.map_values(|v: u32| v as u8)
                    &&& forall|k: int|
                        0 <= k < size ==> #[trigger] states[k].raw_read(
                            states[k + 1],
                            addr,
                            now,
                            ecu,
                            vals[k],
                        )
                }
        }
    }

    /// A DMA write of `bytes` to the register at `addr` writes each byte in
    /// turn; `effects` is what each write asked for.
    pub open spec fn dma_write(
        self,
        next: Peripherals,
        addr: u32,
        bytes: Seq<u8>,
        now: u64,
        effects: Seq<BusEffect>,
    ) -> bool {
        exists|states: Seq<Peripherals>|
            #![trigger states.len()]
            {
                &&& states.len() == bytes.len() + 1
                &&& effects.len() == bytes.len()
                &&& states[0] == self
                &&& states[bytes.len() as int] == next
                &&& forall|k: int|
                    0 <= k < bytes.len() ==> #[trigger] states[k].word_write(
                        states[k + 1],
                        addr,
                        bytes[k] as u32,
                        now,
                        effects[k],
                    )
            }
    }

    /// Same placement of slots and same kind of model in each.
    pub open spec fn same_layout(self, next: Peripherals) -> bool {
        &&& next.peripherals@.len() == self.peripherals@.len()
        &&& forall|j: int|
            0 <= j < self.peripherals@.len() ==> {
                let a = #[trigger] self.peripherals@[j];
                let b = next.peripherals@[j];
                &&& a.start == b.start
                &&& a.end == b.end
                &&& (a.peripheral is Dma <==> b.peripheral is Dma)
                &&& (a.peripheral is Adc <==> b.peripheral is Adc)
            }
    }

    proof fn lemma_same_layout_accessible(self, next: Peripherals, addr: u32)
        requires
            self.same_layout(next),
        ensures
            spec_find(self.peripherals@, addr) == spec_find(next.peripherals@, addr),
            self.word_accessible(addr) == next.word_accessible(addr),
            self.adc_at(addr) == next.adc_at(addr),
    {
        lemma_find_same_layout(self.peripherals@, next.peripherals@, addr);
        lemma_find_bounds(self.peripherals@, addr);
        match spec_find(self.peripherals@, addr) {
            Some(i) => {
                assert(self.peripherals@[i].peripheral is Dma <==> next.peripherals@[i].peripheral is Dma);
            },
            None => {},
        }
    }

    fn read_raw(&mut self, addr: u32, now: u64, ecu: Option<&EcuIo>) -> (v: u32)
        requires
            old(self).wf(),
            old(self).word_accessible(addr),
            ecu matches Some(e) ==> e.wf(),
        ensures
            final(self).wf(),
            old(self).same_layout(*final(self)),
            final(self).debug_peripherals@ == old(self).debug_peripherals@,
            old(self).raw_read(
                *final(self),
                addr,
                now,
                match ecu {
                    Some(e) => Some(*e),
                    None => None,
                },
                v,
            ),
    {
        match find_slot(&self.peripherals, addr) {
            None => 0,
            Some(i) => {
                let o = addr - self.peripherals[i].start;
                let ghost before = *self;
                let raw = self.peripherals[i].peripheral.read(o, &self.nvic, &self.exti, now, ecu);
                proof {
                    assert forall|j: int| 0 <= j < self.peripherals@.len() implies (
                    #[trigger] self.peripherals@[j]).peripheral.wf() by {
                        if j != i {
                            assert(self.peripherals@[j] == before.peripherals@[j]);
                        }
                    }
                    assert forall|a: int, b: int|
                        0 <= a < b < self.peripherals@.len() implies self.peripherals@[a].start
                        <= self.peripherals@[b].start by {
                        assert(before.peripherals@[a].start == self.peripherals@[a].start);
                        assert(before.peripherals@[b].start == self.peripherals@[b].start);
                    }
                    assert forall|j: int| 0 <= j < before.peripherals@.len() implies {
                        let a = #[trigger] before.peripherals@[j];
                        let b = self.peripherals@[j];
                        &&& a.start == b.start
                        &&& a.end == b.end
                        &&& (a.peripheral is Dma <==> b.peripheral is Dma)
                        &&& (a.peripheral is Adc <==> b.peripheral is Adc)
                    } by {
                        if j != i {
                            assert(self.peripherals@[j] == before.peripherals@[j]);
                        }
                    }
                }
                raw
            },
        }
    }

    fn write_word_tracked(&mut self, ra: u32, value: u32, now: u64) -> (effect: BusEffect)
        requires
            old(self).wf(),
            old(self).word_accessible(ra),
        ensures
            final(self).wf(),
            old(self).same_layout(*final(self)),
            final(self).debug_peripherals@ == old(self).debug_peripherals@,
            old(self).word_write(*final(self), ra, value, now, effect),
    {
        let ghost before = *self;
        let effect = self.write_word(ra, value, now);
        proof {
            lemma_find_bounds(before.peripherals@, ra);
            assert forall|j: int| 0 <= j < before.peripherals@.len() implies {
                let a = #[trigger] before.peripherals@[j];
                let b = self.peripherals@[j];
                &&& a.start == b.start
                &&& a.end == b.end
                &&& (a.peripheral is Dma <==> b.peripheral is Dma)
                &&& (a.peripheral is Adc <==> b.peripheral is Adc)
            } by {
                match spec_find(before.peripherals@, ra) {
                    Some(i) => {
                        if j != i {
                            assert(self.peripherals@[j] == before.peripherals@[j]);
                        }
                    },
                    None => {},
                }
            }
        }
        effect
    }

    /// A DMA read of `size` bytes from the register at `addr`.
    pub fn read_dma(&mut self, addr: u32, size: usize, now: u64, ecu: Option<&EcuIo>) -> (r: Vec<u8>)
        requires
            old(self).wf(),
            old(self).word_accessible(addr),
            ecu matches Some(e) ==> e.wf(),
        ensures
            final(self).wf(),
            final(self).debug_peripherals@ == old(self).debug_peripherals@,
            old(self).dma_read(
                *final(self),
                addr,
                size,
                now,
                match ecu {
                    Some(e) => Some(*e),
                    None => None,
                },
                r@,
            ),
    {
        let ghost e = match ecu {
            Some(x) => Some(*x),
            None => None,
        };
        if let Some(i) = find_slot(&self.peripherals, addr) {
            if let Model::Adc(_) = &self.peripherals[i].peripheral {
                let o = addr - self.peripherals[i].start;
                let ghost before = *self;
                let r = match &mut self.peripherals[i].peripheral {
                    Model::Adc(a) => a.dma_read_bytes(o, size, ecu),
                    _ => Vec::new(),
                };
                proof {
                    assert forall|j: int| 0 <= j < self.peripherals@.len() implies (
                    #[trigger] self.peripherals@[j]).peripheral.wf() by {
                        if j != i {
                            assert(self.peripherals@[j] == before.peripherals@[j]);
                        }
                    }
                    assert forall|a: int, b: int|
                        0 <= a < b < self.peripherals@.len() implies self.peripherals@[a].start
                        <= self.peripherals@[b].start by {
                        assert(before.peripherals@[a].start == self.peripherals@[a].start);
                        assert(before.peripherals@[b].start == self.peripherals@[b].start);
                    }
                }
                return r;
            }
        }
        let ghost s0 = *self;
        let mut r: Vec<u8> = Vec::new();
        let ghost mut states: Seq<Peripherals> = seq![*self];
        let ghost mut vals: Seq<u32> = Seq::empty();
        let mut k: usize = 0;
        proof {
            s0.lemma_same_layout_accessible(s0, addr);
            assert(!s0.adc_at(addr));
        }
        while k < size
            invariant
                k <= size,
                self.wf(),
                ecu matches Some(x) ==> x.wf(),
                e == match ecu {
                    Some(x) => Some(*x),
                    None => None,
                },
                s0.same_layout(*self),
                s0.word_accessible(addr),
                !s0.adc_at(addr),
                self.debug_peripherals@ == s0.debug_peripherals@,
                states.len() == k + 1,
                vals.len() == k,
                states[0] == s0,
                states[k as int] == *self,
                r@ == vals.map_values(|v: u32| v as u8),
                forall|j: int| 0 <= j < k ==> #[trigger] states[j].raw_read(states[j + 1], addr, now, e, vals[j]),
            decreases size - k,
        {
            proof {
                s0.lemma_same_layout_accessible(*self, addr);
            }
            let ghost pre = *self;
            let v = self.read_raw(addr, now, ecu);
            proof {
                assert forall|j: int| 0 <= j < s0.peripherals@.len() implies {
                    let a = #[trigger] s0.peripherals@[j];
                    let b = self.peripherals@[j];
                    &&& a.start == b.start
                    &&& a.end == b.end
                    &&& (a.peripheral is Dma <==> b.peripheral is Dma)
                    &&& (a.peripheral is Adc <==> b.peripheral is Adc)
                } by {
                    assert(pre.peripherals@[j].start == s0.peripherals@[j].start);
                }
                states = states.push(*self);
                vals = vals.push(v);
            }
            r.push(v as u8);
            k += 1;
            proof {
                assert(r@ =~= vals.map_values(|v: u32| v as u8));
            }
        }
        proof {
            assert(states.len() == size + 1 && vals.len() == size);
        }
        r
    }

    /// A DMA write of `bytes` to the register at `addr`, one write per
    /// byte; gives what each write asked for.
    pub fn write_dma(&mut self, addr: u32, bytes: &Vec<u8>, now: u64) -> (effects: Vec<BusEffect>)
        requires
            old(self).wf(),
            old(self).word_accessible(addr),
        ensures
            final(self).wf(),
            final(self).debug_peripherals@ == old(self).debug_peripherals@,
            old(self).dma_write(*final(self), addr, bytes@, now, effects@),
    {
        let ghost s0 = *self;
        let mut effects: Vec<BusEffect> = Vec::new();
        let ghost mut states: Seq<Peripherals> = seq![*self];
        let mut k: usize = 0;
        proof {
            s0.lemma_same_layout_accessible(s0, addr);
        }
        while k < bytes.len()
            invariant
                k <= bytes@.len(),
                self.wf(),
                s0.same_layout(*self),
                s0.word_accessible(addr),
                self.debug_peripherals@ == s0.debug_peripherals@,
                states.len() == k + 1,
                effects@.len() == k,
                states[0] == s0,
                states[k as int] == *self,
                forall|j: int| 0 <= j < k ==> #[trigger] states[j].word_write(states[j + 1], addr, bytes@[j] as u32, now, effects@[j]),
            decreases bytes@.len() - k,
        {
            proof {
                s0.lemma_same_layout_accessible(*self, addr);
            }
            let ghost pre = *self;
            let effect = self.write_word_tracked(addr, bytes[k] as u32, now);
            proof {
                assert forall|j: int| 0 <= j < s0.peripherals@.len() implies {
                    let a = #[trigger] s0.peripherals@[j];
                    let b = self.peripherals@[j];
                    &&& a.start == b.start
                    &&& a.end == b.end
                    &&& (a.peripheral is Dma <==> b.peripheral is Dma)
                    &&& (a.peripheral is Adc <==> b.peripheral is Adc)
                } by {
                    assert(pre.peripherals@[j].start == s0.peripherals@[j].start);
                }
                states = states.push(*self);
            }
            effects.push(effect);
            k += 1;
        }
        proof {
            assert(states.len() == bytes@.len() + 1);
        }
        effects
    }

    /// Performs a DMA transfer on the bus side. From a peripheral, the bytes
    /// are read from it and go to memory; to a peripheral, the bytes read
    /// from memory (`memory`, zeros where that read failed) are written to
    /// it; memory to memory, they go back to memory.
    pub fn perform_transfer(
        &mut self,
        req: &TransferRequest,
        memory: Option<Vec<u8>>,
        now: u64,
        ecu: Option<&EcuIo>,
    ) -> (out: TransferOutcome)
        requires
            old(self).wf(),
            req.size <= usize::MAX,
            req.dir == Dir::Read ==> old(self).word_accessible(req.src),
            req.dir == Dir::Write ==> old(self).word_accessible(req.dst),
            ecu matches Some(e) ==> e.wf(),
        ensures
            final(self).wf(),
            final(self).debug_peripherals@ == old(self).debug_peripherals@,
            ({
                let from_memory = match memory {
                    Some(m) => m@,
                    None => Seq::new(req.size as nat, |k: int| 0u8),
                };
                match req.dir {
                    Dir::Read => {
                        &&& out.effects@.len() == 0
                        &&& out.memory_write matches Some((a, b)) && a == req.dst
                            && old(self).dma_read(
                            *final(self),
                            req.src,
                            req.size as usize,
                            now,
                            match ecu {
                                Some(e) => Some(*e),
                                None => None,
                            },
                            b@,
                        )
                    },
                    Dir::Write => {
                        &&& out.memory_write is None
                        &&& old(self).dma_write(
                            *final(self),
                            req.dst,
                            from_memory,
                            now,
                            out.effects@,
                        )
                    },
                    Dir::MemCopy => {
                        &&& *final(self) == *old(self)
                        &&& out.effects@.len() == 0
                        &&& out.memory_write matches Some((a, b)) && a == req.dst && b@ == from_memory
                    },
                    Dir::Invalid => {
                        &&& *final(self) == *old(self)
                        &&& out.effects@.len() == 0
                        &&& out.memory_write is None
                    },
                }
            }),
    {
        let size = req.size as usize;
        match req.dir {
            Dir::Read => {
                let buf = self.read_dma(req.src, size, now, ecu);
                TransferOutcome { memory_write: Some((req.dst, buf)), effects: Vec::new() }
            },
            Dir::Invalid => TransferOutcome { memory_write: None, effects: Vec::new() },
            _ => {
                let buf = match memory {
                    Some(m) => m,
                    None => {
                        let mut z: Vec<u8> = Vec::new();
                        let mut k: usize = 0;
                        while k < size
                            invariant
                                k <= size,
                                z@ == Seq::new(k as nat, |j: int| 0u8),
                            decreases size - k,
                        {
                            z.push(0u8);
                            k += 1;
                            assert(z@ =~= Seq::new(k as nat, |j: int| 0u8));
                        }
                        z
                    },
                };
                if req.dir == Dir::Write {
                    let effects = self.write_dma(req.dst, &buf, now);
                    TransferOutcome { memory_write: None, effects }
                } else {
                    TransferOutcome { memory_write: Some((req.dst, buf)), effects: Vec::new() }
                }
            },
        }
    }
}

impl Default for Peripherals {
    fn default() -> (p: Self)
        ensures
            p.wf(),
            p.peripherals@.len() == 0,
            p.debug_peripherals@.len() == 0,
            p.nvic.pending == 0,
            p.exti == Exti::default_spec(),
    {
        Peripherals::new()
    }
}

/// The registers that read back exactly the value last written to them
/// (at the same instruction count, for the counters).
pub open spec fn spec_keeps_written(m: Model, offset: u32) -> bool {
    match m {
        Model::Scb(_) => offset == SCB_CPACR,
        Model::Pwr(_) => offset == 0,
        Model::Tim11(_) => offset == tim11::TIM11_CR1 || offset == tim11::TIM11_CCMR1 || offset
            == tim11::TIM11_CCER,
        Model::Adc(_) => offset == adc::ADC_SR || offset == adc::ADC_CR1 || offset == adc::ADC_CR2
            || offset == adc::ADC_SMPR1 || offset == adc::ADC_SMPR2 || offset == adc::ADC_SQR1
            || offset == adc::ADC_SQR2 || offset == adc::ADC_SQR3,
        Model::Can(_) => offset == can::CAN_MCR,
        Model::Tim5(_) => offset == tim5::TIM5_CR1 || offset == tim5::TIM5_DIER || offset
            == tim5::TIM5_CNT || offset == tim5::TIM5_CCR1,
        Model::Tim6(_) => offset == tim6::TIM6_CR1 || offset == tim6::TIM6_CR2 || offset
            == tim6::TIM6_DIER || offset == tim6::TIM6_ARR,
        Model::Dwt(_) => offset == dwt::DWT_CTRL || offset == dwt::DWT_CYCCNT,
        _ => false,
    }
}

/// A word written over the bus to a register that keeps what is written
/// is what the next read of that address gives, at the same instruction
/// count.
pub proof fn law_bus_write_then_read_back(
    p: Peripherals,
    mid: Peripherals,
    next: Peripherals,
    addr: u32,
    value: u32,
    now: u64,
    ecu: Option<EcuIo>,
    effect: BusEffect,
    v: u32,
)
    requires
        p.wf(),
        addr % 4 == 0,
        spec_bitbanding(addr) is None,
        spec_is_register(addr),
        spec_find(p.peripherals@, addr) matches Some(i) && spec_keeps_written(
            p.peripherals@[i].peripheral,
            (addr - p.peripherals@[i].start) as u32,
        ),
        p.bus_write(mid, addr, value, now, ecu, effect),
        mid.bus_read(next, addr, now, ecu, v),
    ensures
        v == value,
{
    let i = spec_find(p.peripherals@, addr).unwrap();
    lemma_find_bounds(p.peripherals@, addr);
    assert(spec_align(addr) == (addr, 0u32));
    lemma_find_same_layout(p.peripherals@, mid.peripherals@, addr);
    let o = (addr - p.peripherals@[i].start) as u32;
    let m = mid.peripherals@[i].peripheral;
    let raw = m.read_value(o, mid.nvic, mid.exti, now, ecu);
    assert(v == raw << 0u32);
    assert(raw << 0u32 == raw) by (bit_vector);
    match p.peripherals@[i].peripheral {
        Model::Tim5(t) => {
            assert(t.spec_write(o, value, now).spec_read(o, now) == value);
        },
        Model::Dwt(d) => {
            assert(d.spec_write(o, value, now).spec_read(o, now) == value);
        },
        _ => {},
    }
}

/// Index of the last listed register at `offset`, or -1.
pub open spec fn spec_last_register_at(regs: Seq<(u32, String)>, offset: u32) -> int
    decreases regs.len(),
{
    if regs.len() == 0 {
        -1
    } else if regs.last().0 == offset {
        regs.len() - 1
    } else {
        spec_last_register_at(regs.drop_last(), offset)
    }
}

proof fn lemma_last_register_bounds(regs: Seq<(u32, String)>, offset: u32)
    ensures
        -1 <= spec_last_register_at(regs, offset) < regs.len(),
    decreases regs.len(),
{
    if regs.len() > 0 && regs.last().0 != offset {
        lemma_last_register_bounds(regs.drop_last(), offset);
    }
}

impl GenericPeripheral {
    /// The register at `offset` as diagnostics show it: its offset in
    /// hexadecimal and the name listed for it (the last one listed for
    /// that offset), or `????`.
    pub fn reg_name(&self, offset: u32) -> (r: String)
        requires
            offset % 4 == 0,
        ensures
            r@ == "offset=0x"@ + hex_padded(offset, 4) + " reg="@ + {
                let k = spec_last_register_at(self.registers@, offset);
                if k >= 0 {
                    self.registers@[k].1@
                } else {
                    "????"@
                }
            },
    {
        let mut k: usize = self.registers.len();
        let mut found: Option<usize> = None;
        assert(self.registers@.take(k as int) =~= self.registers@);
        while k > 0 && found.is_none()
            invariant
                k <= self.registers@.len(),
                found is None ==> spec_last_register_at(self.registers@, offset)
                    == spec_last_register_at(self.registers@.take(k as int), offset),
                found matches Some(j) ==> j as int == spec_last_register_at(self.registers@, offset)
                    && j < self.registers@.len(),
            decreases k,
        {
            proof {
                assert(self.registers@.take(k as int).drop_last() =~= self.registers@.take(k - 1));
                assert(self.registers@.take(k as int).last() == self.registers@[k - 1]);
            }
            if self.registers[k - 1].0 == offset {
                found = Some(k - 1);
            }
            k -= 1;
        }
        proof {
            if found is None {
                assert(self.registers@.take(0) =~= Seq::<(u32, String)>::empty());
            }
            lemma_last_register_bounds(self.registers@, offset);
        }
        let mut r = String::new();
        r.append("offset=0x");
        push_hex_padded(&mut r, offset, 4);
        r.append(" reg=");
        match found {
            Some(j) => r.append(self.registers[j].1.as_str()),
            None => r.append("????"),
        }
        r
    }
}

impl Peripherals {
    /// An address as diagnostics show it: with the register block of the
    /// device description that holds it and the register, if any.
    pub fn addr_desc(&self, addr: u32) -> (r: String)
        requires
            slots_sorted(self.debug_peripherals@),
            spec_find(self.debug_peripherals@, addr) matches Some(i) ==> (addr
                - self.debug_peripherals@[i].start) % 4 == 0,
        ensures
            spec_find(self.debug_peripherals@, addr) is None ==> r@ == "addr=0x"@ + hex_padded(addr, 8)
                + " peri=????"@,
            spec_find(self.debug_peripherals@, addr) matches Some(i) ==> {
                let slot = self.debug_peripherals@[i];
                let regs = slot.peripheral.registers@;
                let k = spec_last_register_at(regs, (addr - slot.start) as u32);
                r@ == "addr=0x"@ + hex_padded(addr, 8) + " peri="@ + slot.peripheral.name@ + " "@
                    + "offset=0x"@ + hex_padded((addr - slot.start) as u32, 4) + " reg="@ + (if k
                    >= 0 {
                    regs[k].1@
                } else {
                    "????"@
                })
            },
    {
        let mut r = String::new();
        r.append("addr=0x");
        push_hex_padded(&mut r, addr, 8);
        match find_slot(&self.debug_peripherals, addr) {
            Some(i) => {
                let slot = &self.debug_peripherals[i];
                r.append(" peri=");
                r.append(slot.peripheral.name.as_str());
                r.append(" ");
                let reg = slot.peripheral.reg_name(addr - slot.start);
                r.append(reg.as_str());
            },
            None => {
                r.append(" peri=????");
            },
        }
        r
    }
}

impl Peripherals {
    /// Whether the model at word address `t`, if any, can serve the
    /// register offset that `t` reaches.
    pub fn is_word_accessible(&self, t: u32) -> (r: bool)
        requires
            slots_sorted(self.peripherals@),
        ensures
            r == self.word_accessible(t),
    {
        match find_slot(&self.peripherals, t) {
            None => true,
            Some(i) => match &self.peripherals[i].peripheral {
                Model::Dma(_) => t - self.peripherals[i].start < DMA_REGISTER_SPAN,
                _ => true,
            },
        }
    }

    /// Whether a bus access of `size` bytes at `addr` can be served: the
    /// register it reaches exists in its model, and the bytes stay within
    /// one word.
    pub fn can_access(&self, addr: u32, size: u8) -> (r: bool)
        requires
            slots_sorted(self.peripherals@),
        ensures
            r == (self.accessible(addr) && (spec_bitbanding(addr) is None ==> spec_align(addr).1
                + size <= 4)),
    {
        let a = match bitbanding(addr) {
            Some((a, _)) => a,
            None => addr,
        };
        let (ra, off) = if is_register(a) {
            align_addr_4(a)
        } else {
            (a, 0)
        };
        assert(ra == Self::spec_target(addr));
        if !self.is_word_accessible(ra) {
            return false;
        }
        match bitbanding(addr) {
            Some(_) => true,
            None => off + (size as u32) <= 4,
        }
    }
}

} // verus!
