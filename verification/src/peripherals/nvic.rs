use vstd::prelude::*;
use crate::text::str_eq;

verus! {

/// Offset between an IRQ number and its exception number (and bit in the
/// pending set): external IRQ 0 is exception 16.
pub const IRQ_OFFSET: i32 = 16;

/// ITSTATE is split across two xPSR fields: bits [15:10] and [26:25].
pub const XPSR_ITSTATE_MASK: u32 = 0x0600_fc00;

/// PendSV, exception 14.
pub const IRQ_PENDSV: i32 = -2;
/// SysTick, exception 15.
pub const IRQ_SYSTICK: i32 = -1;
/// SVCall, exception 11.
pub const IRQ_SVCALL: i32 = -5;

/// Whether bit `bit` of `pending` is set.
pub open spec fn bit_set(pending: u128, bit: u128) -> bool {
    (pending >> bit) & 1u128 == 1u128
}

/// The pending-set bit that stands for `irq`.
pub open spec fn irq_bit(irq: i32) -> u128 {
    (IRQ_OFFSET + irq) as u128
}

/// Whether `irq` has a bit in the 128-entry pending set (exception
/// numbers 1 to 127).
pub open spec fn valid_irq(irq: i32) -> bool {
    0 < IRQ_OFFSET + irq < 128
}

/// Taking the next interrupt from the pending set `before` left `after`
/// and gave `r`: the one with the lowest exception number, its bit
/// cleared, or `None` when nothing was pending.
pub open spec fn spec_took_lowest(before: u128, after: u128, r: Option<i32>) -> bool {
    match r {
        None => before == 0 && after == 0,
        Some(irq) => {
            &&& valid_irq(irq) || irq == -IRQ_OFFSET
            &&& 0 <= IRQ_OFFSET + irq < 128
            &&& bit_set(before, irq_bit(irq))
            &&& forall|j: u128| j < irq_bit(irq) ==> !bit_set(before, j)
            &&& after == before & !(1u128 << irq_bit(irq))
        },
    }
}

/// Interrupt controller model: a 128-entry pending set indexed by
/// exception number, a SysTick period measured in instructions, and the
/// exception currently being handled (no nesting).
pub struct Nvic {
    pub systick_period: Option<u32>,
    pub last_systick_trigger: u64,
    pub pending: u128,
    pub in_interrupt: bool,
    /// Exception number being handled, 0 in thread mode.
    pub active_exception: u32,
}

/// Marking an interrupt pending adds exactly that interrupt to the
/// pending set: every other exception keeps its state.
pub proof fn law_nvic_marking_pending_adds_only_that_irq(pending: u128, irq: i32, j: u128)
    requires
        valid_irq(irq),
        j < 128,
    ensures
        bit_set(pending | (1u128 << irq_bit(irq)), j) == (bit_set(pending, j) || j == irq_bit(irq)),
{
    let b = irq_bit(irq);
    assert(b < 128 && j < 128 ==> (((pending | (1u128 << b)) >> j) & 1u128 == 1u128) == ((((
        pending >> j) & 1u128) == 1u128) || j == b)) by (bit_vector);
}

/// Taking the next interrupt removes exactly that interrupt from the
/// pending set: every other pending exception stays pending.
pub proof fn law_nvic_taking_removes_only_that_irq(before: u128, after: u128, irq: i32, j: u128)
    requires
        spec_took_lowest(before, after, Some(irq)),
        j < 128,
    ensures
        bit_set(after, j) == (bit_set(before, j) && j != irq_bit(irq)),
{
    let b = irq_bit(irq);
    assert(b < 128 && j < 128 ==> (((before & !(1u128 << b)) >> j) & 1u128 == 1u128) == ((((before
        >> j) & 1u128) == 1u128) && j != b)) by (bit_vector);
}

proof fn lemma_shift_step(p: u128, b: u128)
    requires
        b < 127,
        (p >> b) != 0,
        (p >> b) & 1 == 0,
    ensures
        (p >> ((b + 1) as u128)) != 0,
{
    assert(b < 127 && (p >> b) != 0 && (p >> b) & 1 == 0 ==> (p >> ((b + 1) as u128)) != 0)
        by (bit_vector);
}

proof fn lemma_top_bit(p: u128)
    requires
        (p >> 127u128) != 0,
    ensures
        (p >> 127u128) & 1 == 1,
{
    assert((p >> 127u128) != 0 ==> (p >> 127u128) & 1 == 1) by (bit_vector);
}

proof fn lemma_low_bit(x: u128)
    ensures
        x & 1 != 0 ==> x & 1 == 1,
{
    assert(x & 1 != 0 ==> x & 1 == 1) by (bit_vector);
}

proof fn lemma_shift_zero(p: u128)
    ensures
        p >> 0u128 == p,
{
    assert(p >> 0u128 == p) by (bit_vector);
}

impl Nvic {
    pub open spec fn same_except_pending(self, other: Nvic) -> bool {
        &&& self.systick_period == other.systick_period
        &&& self.last_systick_trigger == other.last_systick_trigger
        &&& self.in_interrupt == other.in_interrupt
        &&& self.active_exception == other.active_exception
    }

    /// An idle controller: nothing pending, no SysTick, thread mode.
    pub fn new() -> (n: Nvic)
        ensures
            n.pending == 0,
            n.systick_period is None,
            n.last_systick_trigger == 0,
            !n.in_interrupt,
            n.active_exception == 0,
    {
        Nvic {
            systick_period: None,
            last_systick_trigger: 0,
            pending: 0,
            in_interrupt: false,
            active_exception: 0,
        }
    }

    /// Marks `irq` pending.
    pub fn set_intr_pending(&mut self, irq: i32)
        requires
            valid_irq(irq),
        ensures
            final(self).pending == old(self).pending | (1u128 << irq_bit(irq)),
            final(self).same_except_pending(*old(self)),
    {
        let bit = (IRQ_OFFSET + irq) as u128;
        self.pending = self.pending | (1u128 << bit);
    }

    /// Takes the pending interrupt with the lowest exception number, or
    /// `None` when nothing is pending.
    pub fn get_and_clear_next_intr_pending(&mut self) -> (r: Option<i32>)
        ensures
            final(self).same_except_pending(*old(self)),
            spec_took_lowest(old(self).pending, final(self).pending, r),
    {
        if self.pending == 0 {
            return None;
        }
        let p = self.pending;
        let mut bit: u128 = 0;
        proof {
            lemma_shift_zero(p);
        }
        while (p >> bit) & 1 == 0
            invariant
                bit < 128,
                (p >> bit) != 0,
                forall|j: u128| j < bit ==> !bit_set(p, j),
            decreases 128 - bit,
        {
            proof {
                if bit == 127 {
                    lemma_top_bit(p);
                }
                lemma_shift_step(p, bit);
            }
            bit = bit + 1;
        }
        proof {
            lemma_low_bit(p >> bit);
        }
        self.pending = p & !(1u128 << bit);
        let irq = (bit as i32) - IRQ_OFFSET;
        assert(irq_bit(irq) == bit);
        Some(irq)
    }

    /// Raises SysTick once more than `systick_period` instructions have
    /// passed since the last time it was raised.
    pub fn maybe_set_systick_intr_pending(&mut self, now: u64)
        requires
            old(self).systick_period is Some ==> now >= old(self).last_systick_trigger,
        ensures
            ({
                let o = *old(self);
                let fire = o.systick_period matches Some(period) && now - o.last_systick_trigger
                    > period;
                &&& fire ==> final(self).pending == o.pending | (1u128 << irq_bit(IRQ_SYSTICK))
                    && final(self).last_systick_trigger == now
                &&& !fire ==> final(self).pending == o.pending && final(self).last_systick_trigger
                    == o.last_systick_trigger
            }),
            final(self).systick_period == old(self).systick_period,
            final(self).in_interrupt == old(self).in_interrupt,
            final(self).active_exception == old(self).active_exception,
    {
        if let Some(systick_period) = self.systick_period {
            let delta_num_instructions = now - self.last_systick_trigger;
            if delta_num_instructions > (systick_period as u64) {
                self.last_systick_trigger = now;
                self.set_intr_pending(IRQ_SYSTICK);
            }
        }
    }

    /// Decides which interrupt, if any, is to be entered now: SysTick is
    /// raised when due, then the lowest pending interrupt is taken unless
    /// interrupts are masked (`interrupts_disabled`, from PRIMASK/BASEPRI)
    /// or one is already being handled.
    pub fn run_pending_interrupts(&mut self, now: u64, interrupts_disabled: bool) -> (r: Option<
        i32,
    >)
        requires
            old(self).systick_period is Some ==> now >= old(self).last_systick_trigger,
        ensures
            ({
                let o = *old(self);
                let fire = o.systick_period matches Some(period) && now - o.last_systick_trigger
                    > period;
                let raised = if fire {
                    o.pending | (1u128 << irq_bit(IRQ_SYSTICK))
                } else {
                    o.pending
                };
                &&& final(self).last_systick_trigger == if fire {
                    now
                } else {
                    o.last_systick_trigger
                }
                &&& (interrupts_disabled || o.in_interrupt) ==> r is None && final(self).pending
                    == raised
                &&& !(interrupts_disabled || o.in_interrupt) ==> spec_took_lowest(
                    raised,
                    final(self).pending,
                    r,
                )
            }),
            r matches Some(irq) ==> 0 <= IRQ_OFFSET + irq < 128,
            final(self).systick_period == old(self).systick_period,
            final(self).in_interrupt == old(self).in_interrupt,
            final(self).active_exception == old(self).active_exception,
    {
        self.maybe_set_systick_intr_pending(now);
        if interrupts_disabled || self.in_interrupt {
            return None;
        }
        self.get_and_clear_next_intr_pending()
    }

    /// Records that exception `IRQ_OFFSET + irq` is now being handled.
    pub fn enter_interrupt(&mut self, irq: i32)
        requires
            0 <= IRQ_OFFSET + irq < 128,
        ensures
            final(self).in_interrupt,
            final(self).active_exception == (IRQ_OFFSET + irq) as u32,
            final(self).pending == old(self).pending,
            final(self).systick_period == old(self).systick_period,
            final(self).last_systick_trigger == old(self).last_systick_trigger,
    {
        self.in_interrupt = true;
        self.active_exception = (IRQ_OFFSET + irq) as u32;
    }

    /// Records that the SVCall exception, raised by an `svc` instruction,
    /// is now being handled.
    pub fn enter_svcall(&mut self)
        ensures
            final(self).in_interrupt,
            final(self).active_exception == (IRQ_OFFSET + IRQ_SVCALL) as u32,
            final(self).pending == old(self).pending,
            final(self).systick_period == old(self).systick_period,
            final(self).last_systick_trigger == old(self).last_systick_trigger,
    {
        self.enter_interrupt(IRQ_SVCALL);
    }

    /// Records the return to thread mode.
    pub fn return_from_interrupt(&mut self)
        ensures
            !final(self).in_interrupt,
            final(self).active_exception == 0,
            final(self).pending == old(self).pending,
            final(self).systick_period == old(self).systick_period,
            final(self).last_systick_trigger == old(self).last_systick_trigger,
    {
        self.in_interrupt = false;
        self.active_exception = 0;
    }

    /// The exception number currently running (ICSR.VECTACTIVE).
    pub fn active_exception_number(&self) -> (r: u32)
        ensures
            r == self.active_exception,
    {
        self.active_exception
    }

    /// Address of the vector table word for `irq`.
    pub fn vector_address(vector_table_addr: u32, irq: i32) -> (r: u32)
        requires
            0 <= IRQ_OFFSET + irq < 128,
            vector_table_addr + 4 * (IRQ_OFFSET + irq) <= u32::MAX,
        ensures
            r == vector_table_addr + 4 * (IRQ_OFFSET + irq),
    {
        vector_table_addr + 4 * ((IRQ_OFFSET + irq) as u32)
    }
}

/// EXC_RETURN value placed in LR on exception entry: thread mode, main or
/// process stack (SPSEL), extended or basic frame (FPCA).
pub open spec fn spec_exc_return(spsel: bool, fpca: bool) -> u32 {
    (0xFFFF_FFE9u32 | (if spsel { 4u32 } else { 0u32 })) | (if fpca { 0u32 } else { 0x10u32 })
}

pub fn exc_return(spsel: bool, fpca: bool) -> (lr: u32)
    ensures
        lr == spec_exc_return(spsel, fpca),
{
    (0xFFFF_FFE9u32 | (if spsel { 0b0000_0100u32 } else { 0u32 })) | (if fpca {
        0u32
    } else {
        0b0001_0000u32
    })
}

/// Whether LR holds an EXC_RETURN value.
pub fn is_exc_return(lr: u32) -> (r: bool)
    ensures
        r == (lr & 0xFFFF_FF00 == 0xFFFF_FF00),
{
    lr & 0xFFFF_FF00 == 0xFFFF_FF00
}

/// The stack selection (SPSEL) and frame type (FPCA) an EXC_RETURN value
/// encodes: bit 2 set selects the process stack, bit 4 clear an extended
/// frame.
pub fn exc_return_frame(lr: u32) -> (r: (bool, bool))
    ensures
        r.0 == (lr & 4 != 0),
        r.1 == (lr & 0x10 == 0),
{
    (lr & 0b0000_0100 != 0, lr & 0b0001_0000 == 0)
}

/// SPSEL (bit 1) and FPCA (bit 2) of the CONTROL register.
pub fn control_frame(control: u32) -> (r: (bool, bool))
    ensures
        r.0 == (control & 2 != 0),
        r.1 == (control & 4 != 0),
{
    (control & 2 != 0, control & 4 != 0)
}

/// CONTROL value restored on exception return.
pub fn control_after_return(spsel: bool, fpca: bool) -> (c: u32)
    ensures
        c == (if spsel { 2u32 } else { 0u32 }) | (if fpca { 4u32 } else { 0u32 }),
{
    (if spsel { 2u32 } else { 0u32 }) | (if fpca { 4u32 } else { 0u32 })
}

/// xPSR on exception entry: ITSTATE cleared, everything else kept.
pub fn xpsr_on_entry(xpsr: u32) -> (r: u32)
    ensures
        r == xpsr & !XPSR_ITSTATE_MASK,
{
    xpsr & !XPSR_ITSTATE_MASK
}

/// Size in bytes of the exception frame: 8 core words, plus 16 FP
/// registers, FPSCR and a reserved alignment word when extended.
pub fn exception_frame_size(fpca: bool) -> (r: u32)
    ensures
        r == if fpca { 104u32 } else { 32u32 },
{
    if fpca {
        104
    } else {
        32
    }
}

/// A word of an exception frame.
#[derive(Clone, Copy, Debug, PartialEq, Eq, Structural)]
pub enum FrameSlot {
    R0,
    R1,
    R2,
    R3,
    R12,
    Lr,
    Pc,
    Xpsr,
    /// Floating-point register S0 to S15.
    S(u8),
    Fpscr,
    /// The alignment word above FPSCR in an extended frame.
    Reserved,
}

/// The words of an exception frame from its lowest address up: the eight
/// core words, then in an extended frame S0 to S15, FPSCR and the
/// reserved word.
pub open spec fn spec_frame_layout(fpca: bool) -> Seq<FrameSlot> {
    let core = seq![
        FrameSlot::R0,
        FrameSlot::R1,
        FrameSlot::R2,
        FrameSlot::R3,
        FrameSlot::R12,
        FrameSlot::Lr,
        FrameSlot::Pc,
        FrameSlot::Xpsr,
    ];
    if fpca {
        core + Seq::new(16, |i: int| FrameSlot::S(i as u8)) + seq![FrameSlot::Fpscr, FrameSlot::Reserved]
    } else {
        core
    }
}

/// Stacking below `sp`, in the order the words are pushed (the highest
/// address first): each word goes one word below the previous one.
pub open spec fn spec_push_plan(sp: u32, fpca: bool) -> Seq<(u32, FrameSlot)> {
    let l = spec_frame_layout(fpca);
    Seq::new(l.len(), |k: int| ((sp - 4 * (k + 1)) as u32, l[l.len() - 1 - k]))
}

/// Unstacking from `sp` upward: each word of the frame is read in turn,
/// except the reserved word, which is skipped.
pub open spec fn spec_pop_plan(sp: u32, fpca: bool) -> Seq<(u32, FrameSlot)> {
    let l = spec_frame_layout(fpca);
    let n = if fpca { l.len() - 1 } else { l.len() as int };
    Seq::new(n as nat, |k: int| ((sp + 4 * k) as u32, l[k]))
}

pub fn frame_layout(fpca: bool) -> (v: Vec<FrameSlot>)
    ensures
        v@ == spec_frame_layout(fpca),
{
    let mut v: Vec<FrameSlot> = Vec::new();
    v.push(FrameSlot::R0);
    v.push(FrameSlot::R1);
    v.push(FrameSlot::R2);
    v.push(FrameSlot::R3);
    v.push(FrameSlot::R12);
    v.push(FrameSlot::Lr);
    v.push(FrameSlot::Pc);
    v.push(FrameSlot::Xpsr);
    if fpca {
        let mut i: u8 = 0;
        while i < 16
            invariant
                i <= 16,
                v@.len() == 8 + i,
                v@.take(8) == spec_frame_layout(false),
                forall|j: int| 8 <= j < v@.len() ==> v@[j] == FrameSlot::S((j - 8) as u8),
            decreases 16 - i,
        {
            v.push(FrameSlot::S(i));
            i += 1;
        }
        v.push(FrameSlot::Fpscr);
        v.push(FrameSlot::Reserved);
        assert(v@ =~= spec_frame_layout(true));
    } else {
        assert(v@ =~= spec_frame_layout(false));
    }
    v
}

/// Where stacking an exception frame below `sp` writes each word, in push
/// order, and the stack pointer after it.
pub fn frame_push_plan(sp: u32, fpca: bool) -> (r: (u32, Vec<(u32, FrameSlot)>))
    requires
        sp >= 4 * spec_frame_layout(fpca).len(),
    ensures
        r.0 == sp - 4 * spec_frame_layout(fpca).len(),
        r.1@ == spec_push_plan(sp, fpca),
{
    let layout = frame_layout(fpca);
    let n = layout.len();
    let mut plan: Vec<(u32, FrameSlot)> = Vec::new();
    let mut at: u32 = sp;
    let mut k: usize = 0;
    while k < n
        invariant
            n == layout@.len(),
            layout@ == spec_frame_layout(fpca),
            sp >= 4 * n,
            k <= n,
            at == sp - 4 * k,
            plan@ == spec_push_plan(sp, fpca).take(k as int),
        decreases n - k,
    {
        at = at - 4;
        plan.push((at, layout[n - 1 - k]));
        k += 1;
        assert(plan@ =~= spec_push_plan(sp, fpca).take(k as int));
    }
    assert(plan@ =~= spec_push_plan(sp, fpca));
    (at, plan)
}

/// Where unstacking an exception frame from `sp` reads each word, in pop
/// order, and the stack pointer after it (past the reserved word of an
/// extended frame).
pub fn frame_pop_plan(sp: u32, fpca: bool) -> (r: (u32, Vec<(u32, FrameSlot)>))
    requires
        sp + 4 * spec_frame_layout(fpca).len() <= u32::MAX,
    ensures
        r.0 == sp + 4 * spec_frame_layout(fpca).len(),
        r.1@ == spec_pop_plan(sp, fpca),
{
    let layout = frame_layout(fpca);
    let n = layout.len();
    let read = if fpca { n - 1 } else { n };
    let mut plan: Vec<(u32, FrameSlot)> = Vec::new();
    let mut at: u32 = sp;
    let mut k: usize = 0;
    while k < read
        invariant
            n == layout@.len(),
            layout@ == spec_frame_layout(fpca),
            read == if fpca { n - 1 } else { n as int },
            sp + 4 * n <= u32::MAX,
            k <= read,
            at == sp + 4 * k,
            plan@ == spec_pop_plan(sp, fpca).take(k as int),
        decreases read - k,
    {
        plan.push((at, layout[k]));
        at = at + 4;
        k += 1;
        assert(plan@ =~= spec_pop_plan(sp, fpca).take(k as int));
    }
    assert(plan@ =~= spec_pop_plan(sp, fpca));
    if fpca {
        at = at + 4;
    }
    (at, plan)
}

/// Unstacking a frame right after stacking it restores the stack pointer,
/// and each word is read back from where it was written.
pub proof fn law_frame_pop_reads_what_push_wrote(sp: u32, fpca: bool)
    requires
        sp >= 4 * spec_frame_layout(fpca).len(),
    ensures
        ({
            let n = spec_frame_layout(fpca).len();
            let pushed = spec_push_plan(sp, fpca);
            let popped = spec_pop_plan((sp - 4 * n) as u32, fpca);
            &&& (sp - 4 * n) + 4 * n == sp
            &&& forall|k: int| 0 <= k < popped.len() ==> #[trigger] popped[k] == pushed[n - 1 - k]
        }),
{
    let n = spec_frame_layout(fpca).len();
    let pushed = spec_push_plan(sp, fpca);
    let popped = spec_pop_plan((sp - 4 * n) as u32, fpca);
    assert forall|k: int| 0 <= k < popped.len() implies #[trigger] popped[k] == pushed[n - 1 - k] by {
        assert(((sp - 4 * n) + 4 * k) == sp - 4 * ((n - 1 - k) + 1));
    }
}

/// The basic exception frame is the ARMv7-M one. Stacking below `sp`
/// moves the stack pointer down eight words and leaves, from the new stack
/// pointer up, R0, R1, R2, R3, R12, LR, PC and xPSR (xPSR pushed first).
pub proof fn law_basic_frame_is_architectural(sp: u32)
    requires
        sp >= 32,
    ensures
        spec_frame_layout(false).len() == 8,
        ({
            let p = spec_push_plan(sp, false);
            let b = sp - 32;
            &&& p.len() == 8
            &&& p[0] == ((b + 28) as u32, FrameSlot::Xpsr)
            &&& p[1] == ((b + 24) as u32, FrameSlot::Pc)
            &&& p[2] == ((b + 20) as u32, FrameSlot::Lr)
            &&& p[3] == ((b + 16) as u32, FrameSlot::R12)
            &&& p[4] == ((b + 12) as u32, FrameSlot::R3)
            &&& p[5] == ((b + 8) as u32, FrameSlot::R2)
            &&& p[6] == ((b + 4) as u32, FrameSlot::R1)
            &&& p[7] == (b as u32, FrameSlot::R0)
        }),
{
}

/// Unstacking a basic frame from `sp` reads R0, R1, R2, R3, R12, LR, PC
/// and xPSR from the eight words at `sp` upward, in that order.
pub proof fn law_basic_frame_unstacks_architecturally(sp: u32)
    requires
        sp + 32 <= u32::MAX,
    ensures
        ({
            let q = spec_pop_plan(sp, false);
            &&& q.len() == 8
            &&& q[0] == (sp, FrameSlot::R0)
            &&& q[1] == ((sp + 4) as u32, FrameSlot::R1)
            &&& q[2] == ((sp + 8) as u32, FrameSlot::R2)
            &&& q[3] == ((sp + 12) as u32, FrameSlot::R3)
            &&& q[4] == ((sp + 16) as u32, FrameSlot::R12)
            &&& q[5] == ((sp + 20) as u32, FrameSlot::Lr)
            &&& q[6] == ((sp + 24) as u32, FrameSlot::Pc)
            &&& q[7] == ((sp + 28) as u32, FrameSlot::Xpsr)
        }),
{
}

/// The extended frame adds, above the eight core words, S0 to S15, FPSCR
/// and one reserved word: stacking below `sp` moves the stack pointer down
/// 26 words and puts word `k` of the frame at the new stack pointer plus
/// `4 * k`.
pub proof fn law_extended_frame_is_architectural(sp: u32)
    requires
        sp >= 104,
    ensures
        ({
            let p = spec_push_plan(sp, true);
            let b = sp - 104;
            &&& p.len() == 26
            &&& p[25] == (b as u32, FrameSlot::R0)
            &&& p[24] == ((b + 4) as u32, FrameSlot::R1)
            &&& p[23] == ((b + 8) as u32, FrameSlot::R2)
            &&& p[22] == ((b + 12) as u32, FrameSlot::R3)
            &&& p[21] == ((b + 16) as u32, FrameSlot::R12)
            &&& p[20] == ((b + 20) as u32, FrameSlot::Lr)
            &&& p[19] == ((b + 24) as u32, FrameSlot::Pc)
            &&& p[18] == ((b + 28) as u32, FrameSlot::Xpsr)
            &&& forall|k: int|
                0 <= k < 16 ==> #[trigger] p[17 - k] == ((b + 32 + 4 * k) as u32, FrameSlot::S(
                    k as u8,
                ))
            &&& p[1] == ((b + 96) as u32, FrameSlot::Fpscr)
            &&& p[0] == ((b + 100) as u32, FrameSlot::Reserved)
        }),
{
    let l = spec_frame_layout(true);
    assert(l.len() == 26);
    assert forall|k: int| 0 <= k < 16 implies #[trigger] spec_push_plan(sp, true)[17 - k] == (
    (sp - 104 + 32 + 4 * k) as u32, FrameSlot::S(k as u8)) by {
        assert(l[8 + k] == FrameSlot::S(k as u8));
        assert(sp - 4 * ((17 - k) + 1) == sp - 104 + 32 + 4 * k);
    }
}

/// The NVIC register window itself reads as zero and ignores writes.
pub struct NvicWrapper;

impl NvicWrapper {
    pub fn new(name: &str) -> (r: Option<NvicWrapper>)
        ensures
            r is Some <==> name@ == "NVIC"@,
    {
        if str_eq(name, "NVIC") {
            Some(NvicWrapper)
        } else {
            None
        }
    }
}

} // verus!
