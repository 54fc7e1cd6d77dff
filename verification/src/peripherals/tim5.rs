use vstd::prelude::*;
use crate::text::str_eq;
use crate::peripherals::nvic::{Nvic, irq_bit};

verus! {

/// TIM5's global interrupt, at this NVIC position across the STM32F4/F7
/// family.
pub const TIM5_IRQ: i32 = 50;

pub const TIM5_CR1: u32 = 0x0000;
pub const TIM5_DIER: u32 = 0x000c;
pub const TIM5_SR: u32 = 0x0010;
pub const TIM5_CNT: u32 = 0x0024;
pub const TIM5_CCR1: u32 = 0x0034;

/// DIER.CC1IE.
pub const DIER_CC1IE: u32 = 2;
/// SR.CC1IF.
pub const SR_CC1IF: u32 = 2;

/// Free-running 32-bit timebase with an output-compare channel 1.
///
/// While enabled (CR1.CEN), CNT reads as the instruction count plus an
/// offset; while disabled it holds `held_cnt`. Compare matching starts
/// only once firmware has written CCR1.
pub struct Tim5 {
    pub cr1: u32,
    pub dier: u32,
    pub sr: u32,
    pub ccr1: u32,
    pub ccr1_armed: bool,
    pub cnt_offset: u32,
    pub held_cnt: u32,
}

pub open spec fn add32(a: u32, b: u32) -> u32 {
    vstd::wrapping::u32_specs::wrapping_add(a, b)
}

pub open spec fn sub32(a: u32, b: u32) -> u32 {
    vstd::wrapping::u32_specs::wrapping_sub(a, b)
}

impl Tim5 {
    pub open spec fn spec_cen(self) -> bool {
        self.cr1 & 1 != 0
    }

    pub open spec fn spec_cnt(self, now: u64) -> u32 {
        if self.spec_cen() {
            add32(now as u32, self.cnt_offset)
        } else {
            self.held_cnt
        }
    }

    pub open spec fn spec_write_cr1(self, value: u32, now: u64) -> Tim5 {
        let was_enabled = self.spec_cen();
        let now_enabled = value & 1 != 0;
        if now_enabled && !was_enabled {
            Tim5 { cr1: value, cnt_offset: sub32(self.held_cnt, now as u32), ..self }
        } else if !now_enabled && was_enabled {
            Tim5 { cr1: value, held_cnt: self.spec_cnt(now), ..self }
        } else {
            Tim5 { cr1: value, ..self }
        }
    }

    pub open spec fn spec_write_cnt(self, value: u32, now: u64) -> Tim5 {
        if self.spec_cen() {
            Tim5 { cnt_offset: sub32(value, now as u32), ..self }
        } else {
            Tim5 { held_cnt: value, ..self }
        }
    }

    /// Whether CNT has reached or passed CCR1, read as a signed difference
    /// so that a target behind a wraparound still counts as passed.
    pub open spec fn spec_has_passed_ccr1(self, now: u64) -> bool {
        sub32(self.spec_cnt(now), self.ccr1) < 0x8000_0000
    }

    pub open spec fn spec_read(self, offset: u32, now: u64) -> u32 {
        if offset == TIM5_CR1 {
            self.cr1
        } else if offset == TIM5_DIER {
            self.dier
        } else if offset == TIM5_SR {
            self.sr
        } else if offset == TIM5_CNT {
            self.spec_cnt(now)
        } else if offset == TIM5_CCR1 {
            self.ccr1
        } else {
            0
        }
    }

    pub open spec fn spec_write(self, offset: u32, value: u32, now: u64) -> Tim5 {
        if offset == TIM5_CR1 {
            self.spec_write_cr1(value, now)
        } else if offset == TIM5_DIER {
            Tim5 { dier: value, ..self }
        } else if offset == TIM5_SR {
            Tim5 { sr: self.sr & value, ..self }
        } else if offset == TIM5_CNT {
            self.spec_write_cnt(value, now)
        } else if offset == TIM5_CCR1 {
            Tim5 { ccr1: value, ccr1_armed: true, ..self }
        } else {
            self
        }
    }

    /// The status register after a poll: CC1IF latches on a compare match
    /// of an armed channel.
    pub open spec fn spec_polled_sr(self, now: u64) -> u32 {
        if self.ccr1_armed && self.sr & SR_CC1IF == 0 && self.spec_has_passed_ccr1(now) {
            self.sr | SR_CC1IF
        } else {
            self.sr
        }
    }

    pub fn default() -> (t: Tim5)
        ensures
            t.cr1 == 0 && t.dier == 0 && t.sr == 0 && t.ccr1 == 0 && !t.ccr1_armed && t.cnt_offset
                == 0 && t.held_cnt == 0,
    {
        Tim5 { cr1: 0, dier: 0, sr: 0, ccr1: 0, ccr1_armed: false, cnt_offset: 0, held_cnt: 0 }
    }

    pub fn new(name: &str) -> (r: Option<Tim5>)
        ensures
            r is Some <==> name@ == "TIM5"@,
            r matches Some(t) ==> t == Tim5::default_spec(),
    {
        if str_eq(name, "TIM5") {
            Some(Self::default())
        } else {
            None
        }
    }

    pub open spec fn default_spec() -> Tim5 {
        Tim5 { cr1: 0, dier: 0, sr: 0, ccr1: 0, ccr1_armed: false, cnt_offset: 0, held_cnt: 0 }
    }

    pub fn cen(&self) -> (r: bool)
        ensures
            r == self.spec_cen(),
    {
        self.cr1 & 1 != 0
    }

    pub fn cnt(&self, now: u64) -> (v: u32)
        ensures
            v == self.spec_cnt(now),
    {
        if self.cen() {
            (now as u32).wrapping_add(self.cnt_offset)
        } else {
            self.held_cnt
        }
    }

    /// Enabling starts counting from the held value; disabling freezes the
    /// current value.
    pub fn write_cr1(&mut self, value: u32, now: u64)
        ensures
            *final(self) == old(self).spec_write_cr1(value, now),
    {
        let was_enabled = self.cen();
        let now_enabled = value & 1 != 0;
        if now_enabled && !was_enabled {
            self.cnt_offset = self.held_cnt.wrapping_sub(now as u32);
        } else if !now_enabled && was_enabled {
            self.held_cnt = self.cnt(now);
        }
        self.cr1 = value;
    }

    pub fn write_cnt(&mut self, value: u32, now: u64)
        ensures
            *final(self) == old(self).spec_write_cnt(value, now),
    {
        if self.cen() {
            self.cnt_offset = value.wrapping_sub(now as u32);
        } else {
            self.held_cnt = value;
        }
    }

    pub fn has_passed_ccr1(&self, now: u64) -> (r: bool)
        ensures
            r == self.spec_has_passed_ccr1(now),
    {
        (self.cnt(now).wrapping_sub(self.ccr1)) < 0x8000_0000
    }

    pub fn read(&self, offset: u32, now: u64) -> (v: u32)
        ensures
            v == self.spec_read(offset, now),
    {
        if offset == TIM5_CR1 {
            self.cr1
        } else if offset == TIM5_DIER {
            self.dier
        } else if offset == TIM5_SR {
            self.sr
        } else if offset == TIM5_CNT {
            self.cnt(now)
        } else if offset == TIM5_CCR1 {
            self.ccr1
        } else {
            0
        }
    }

    /// SR is rc_w0: writing 0 clears a flag. A CCR1 write arms channel 1.
    pub fn write(&mut self, offset: u32, value: u32, now: u64)
        ensures
            *final(self) == old(self).spec_write(offset, value, now),
    {
        if offset == TIM5_CR1 {
            self.write_cr1(value, now);
        } else if offset == TIM5_DIER {
            self.dier = value;
        } else if offset == TIM5_SR {
            self.sr = self.sr & value;
        } else if offset == TIM5_CNT {
            self.write_cnt(value, now);
        } else if offset == TIM5_CCR1 {
            self.ccr1 = value;
            self.ccr1_armed = true;
        }
    }

    /// Latches CC1IF on a compare match and, while both CC1IF and CC1IE are
    /// set, keeps TIM5's interrupt pending (a level, re-asserted on every
    /// poll).
    pub fn poll(&mut self, now: u64, nvic: &mut Nvic)
        ensures
            *final(self) == (Tim5 { sr: old(self).spec_polled_sr(now), ..*old(self) }),
            final(nvic).same_except_pending(*old(nvic)),
            final(nvic).pending == if final(self).sr & SR_CC1IF != 0 && final(self).dier
                & DIER_CC1IE != 0 {
                old(nvic).pending | (1u128 << irq_bit(TIM5_IRQ))
            } else {
                old(nvic).pending
            },
    {
        if self.ccr1_armed && self.sr & SR_CC1IF == 0 && self.has_passed_ccr1(now) {
            self.sr = self.sr | SR_CC1IF;
        }
        if self.sr & SR_CC1IF != 0 && self.dier & DIER_CC1IE != 0 {
            nvic.set_intr_pending(TIM5_IRQ);
        }
    }
}

/// A CNT write is observed by a read at the same instruction count,
/// whether the timer is running or not.
pub proof fn law_tim5_cnt_write_is_read_back(t: Tim5, value: u32, now: u64)
    ensures
        t.spec_write_cnt(value, now).spec_cnt(now) == value,
{
}

/// Disabling the timer freezes CNT at the value it had at that moment.
pub proof fn law_tim5_disable_freezes_cnt(t: Tim5, value: u32, now: u64, later: u64)
    requires
        value & 1 == 0,
    ensures
        t.spec_write_cr1(value, now).spec_cnt(later) == t.spec_cnt(now),
{
}

/// Enabling the timer resumes counting from the held value.
pub proof fn law_tim5_enable_resumes_from_held_value(t: Tim5, value: u32, now: u64)
    requires
        !t.spec_cen(),
        value & 1 == 1,
    ensures
        t.spec_write_cr1(value, now).spec_cnt(now) == t.held_cnt,
{
    assert(value & 1 == 1 ==> value & 1 != 0);
}

/// While the timer runs, CNT advances by the instructions executed,
/// modulo 2^32: the free-running timebase firmware busy-waits on.
pub proof fn law_tim5_cnt_runs_with_the_instruction_clock(t: Tim5, now: u64, later: u64)
    requires
        t.spec_cen(),
        now <= later,
    ensures
        t.spec_cnt(later) == (t.spec_cnt(now) + (later - now)) % 0x1_0000_0000,
{
    let off = t.cnt_offset;
    assert((((later as u32) as u64 + off as u64) % 0x1_0000_0000) as u32 == (((((now as u32) as u64
        + off as u64) % 0x1_0000_0000) as u64 + (later - now) as u64) % 0x1_0000_0000) as u32)
        by (bit_vector)
        requires
            now <= later,
    ;
}

/// Once CNT reaches an armed CCR1, a poll latches CC1IF, so that with
/// CC1IE set the poll leaves TIM5's interrupt pending.
pub proof fn law_tim5_compare_match_latches_cc1if(t: Tim5, now: u64)
    requires
        t.ccr1_armed,
        t.spec_has_passed_ccr1(now),
    ensures
        t.spec_polled_sr(now) & SR_CC1IF != 0,
{
    let sr = t.sr;
    assert(sr & 2 == 0 ==> (sr | 2) & 2 != 0) by (bit_vector);
}

} // verus!
