use vstd::prelude::*;
use crate::text::str_eq;
use crate::peripherals::nvic::{Nvic, irq_bit};

verus! {

/// TIM6 update interrupt on STM32F767 (shared with the DAC).
pub const TIM6_DAC_IRQ: i32 = 54;

pub const TIM6_CR1: u32 = 0x00;
pub const TIM6_CR2: u32 = 0x04;
pub const TIM6_DIER: u32 = 0x0c;
pub const TIM6_SR: u32 = 0x10;
pub const TIM6_EGR: u32 = 0x14;
pub const TIM6_CNT: u32 = 0x24;
pub const TIM6_PSC: u32 = 0x28;
pub const TIM6_ARR: u32 = 0x2c;

/// Basic timer: counts timer ticks since it was (re)started, where one
/// tick is `2 * (PSC + 1)` instructions (the timer is clocked at half the
/// core clock), and raises its update flag every `ARR + 1` ticks.
pub struct Tim6 {
    pub cr1: u32,
    pub cr2: u32,
    pub dier: u32,
    pub sr: u32,
    pub psc: u32,
    pub arr: u32,
    pub enabled_at: u64,
}

/// `a * b`, or `u64::MAX` when that does not fit.
pub open spec fn sat_mul(a: int, b: int) -> int {
    if a * b > u64::MAX {
        u64::MAX as int
    } else {
        a * b
    }
}

pub open spec fn spec_period_instructions(psc: u32, arr: u32) -> u64 {
    let p = sat_mul(2 * (psc + 1), arr + 1);
    (if p < 1 {
        1
    } else {
        p
    }) as u64
}

pub open spec fn sat_sub64(a: u64, b: u64) -> u64 {
    if a < b {
        0
    } else {
        (a - b) as u64
    }
}

fn saturating_mul_u64(a: u64, b: u64) -> (r: u64)
    ensures
        r == sat_mul(a as int, b as int),
{
    match a.checked_mul(b) {
        Some(v) => v,
        None => u64::MAX,
    }
}

impl Tim6 {
    pub open spec fn spec_enabled(self) -> bool {
        self.cr1 & 1 != 0
    }

    pub open spec fn spec_counter(self, now: u64) -> u32 {
        if !self.spec_enabled() {
            0
        } else {
            ((sat_sub64(now, self.enabled_at) / (2 * (self.psc + 1)) as u64) % (self.arr + 1) as u64) as u32
        }
    }

    pub open spec fn spec_read(self, offset: u32, now: u64) -> u32 {
        if offset == TIM6_CR1 {
            self.cr1
        } else if offset == TIM6_CR2 {
            self.cr2
        } else if offset == TIM6_DIER {
            self.dier
        } else if offset == TIM6_SR {
            self.sr
        } else if offset == TIM6_CNT {
            self.spec_counter(now)
        } else if offset == TIM6_PSC {
            self.psc
        } else if offset == TIM6_ARR {
            self.arr
        } else {
            0
        }
    }

    pub open spec fn spec_write(self, offset: u32, value: u32, now: u64) -> Tim6 {
        if offset == TIM6_CR1 {
            if value & 1 != 0 && !self.spec_enabled() {
                Tim6 { cr1: value, enabled_at: now, ..self }
            } else {
                Tim6 { cr1: value, ..self }
            }
        } else if offset == TIM6_CR2 {
            Tim6 { cr2: value, ..self }
        } else if offset == TIM6_DIER {
            Tim6 { dier: value, ..self }
        } else if offset == TIM6_SR {
            Tim6 { sr: self.sr & value, ..self }
        } else if offset == TIM6_EGR {
            if value & 1 != 0 {
                Tim6 { enabled_at: now, ..self }
            } else {
                self
            }
        } else if offset == TIM6_CNT {
            Tim6 { enabled_at: now, ..self }
        } else if offset == TIM6_PSC {
            Tim6 { psc: value & 0xffff, ..self }
        } else if offset == TIM6_ARR {
            Tim6 { arr: value, ..self }
        } else {
            self
        }
    }

    pub open spec fn spec_poll(self, now: u64) -> Tim6 {
        if self.spec_enabled() && sat_sub64(now, self.enabled_at) >= spec_period_instructions(
            self.psc,
            self.arr,
        ) {
            Tim6 { sr: self.sr | 1, enabled_at: now, ..self }
        } else {
            self
        }
    }

    pub fn default() -> (t: Tim6)
        ensures
            t.cr1 == 0 && t.cr2 == 0 && t.dier == 0 && t.sr == 0 && t.psc == 0 && t.arr == 0
                && t.enabled_at == 0,
    {
        Tim6 { cr1: 0, cr2: 0, dier: 0, sr: 0, psc: 0, arr: 0, enabled_at: 0 }
    }

    pub fn new(name: &str) -> (r: Option<Tim6>)
        ensures
            r is Some <==> name@ == "TIM6"@,
            r matches Some(t) ==> t.cr1 == 0 && t.cr2 == 0 && t.dier == 0 && t.sr == 0 && t.psc == 0
                && t.arr == 0 && t.enabled_at == 0,
    {
        if str_eq(name, "TIM6") {
            Some(Self::default())
        } else {
            None
        }
    }

    /// Instructions per update period. PSC and ARR are programmed as
    /// value-minus-one.
    pub fn period_instructions(psc: u32, arr: u32) -> (r: u64)
        ensures
            r == spec_period_instructions(psc, arr),
    {
        let p = saturating_mul_u64(2 * (psc as u64 + 1), arr as u64 + 1);
        if p < 1 {
            1
        } else {
            p
        }
    }

    pub fn enabled(&self) -> (r: bool)
        ensures
            r == self.spec_enabled(),
    {
        self.cr1 & 1 != 0
    }

    pub fn counter(&self, now: u64) -> (v: u32)
        ensures
            v == self.spec_counter(now),
    {
        if !self.enabled() {
            return 0;
        }
        let timer_instructions: u64 = 2 * (self.psc as u64 + 1);
        let elapsed = now.saturating_sub(self.enabled_at);
        let m: u64 = self.arr as u64 + 1;
        let r = (elapsed / timer_instructions) % m;
        assert(r < m);
        r as u32
    }

    pub fn read(&self, offset: u32, now: u64) -> (v: u32)
        ensures
            v == self.spec_read(offset, now),
    {
        if offset == TIM6_CR1 {
            self.cr1
        } else if offset == TIM6_CR2 {
            self.cr2
        } else if offset == TIM6_DIER {
            self.dier
        } else if offset == TIM6_SR {
            self.sr
        } else if offset == TIM6_CNT {
            self.counter(now)
        } else if offset == TIM6_PSC {
            self.psc
        } else if offset == TIM6_ARR {
            self.arr
        } else {
            0
        }
    }

    /// Enabling, an update event (EGR.UG) or any CNT write restarts the
    /// period; SR is rc_w0.
    pub fn write(&mut self, offset: u32, value: u32, now: u64)
        ensures
            *final(self) == old(self).spec_write(offset, value, now),
    {
        if offset == TIM6_CR1 {
            let was_enabled = self.enabled();
            self.cr1 = value;
            if self.enabled() && !was_enabled {
                self.enabled_at = now;
            }
        } else if offset == TIM6_CR2 {
            self.cr2 = value;
        } else if offset == TIM6_DIER {
            self.dier = value;
        } else if offset == TIM6_SR {
            self.sr = self.sr & value;
        } else if offset == TIM6_EGR {
            if value & 1 != 0 {
                self.enabled_at = now;
            }
        } else if offset == TIM6_CNT {
            self.enabled_at = now;
        } else if offset == TIM6_PSC {
            self.psc = value & 0xffff;
        } else if offset == TIM6_ARR {
            self.arr = value;
        }
    }

    /// Latches the update flag once a period has elapsed (and restarts the
    /// period); keeps the interrupt pending while UIF and UIE are set.
    pub fn poll(&mut self, now: u64, nvic: &mut Nvic)
        ensures
            *final(self) == old(self).spec_poll(now),
            final(nvic).same_except_pending(*old(nvic)),
            final(nvic).pending == if final(self).sr & 1 != 0 && final(self).dier & 1 != 0 {
                old(nvic).pending | (1u128 << irq_bit(TIM6_DAC_IRQ))
            } else {
                old(nvic).pending
            },
    {
        if self.enabled() && now.saturating_sub(self.enabled_at) >= Self::period_instructions(
            self.psc,
            self.arr,
        ) {
            self.sr = self.sr | 1;
            self.enabled_at = now;
        }
        if self.sr & 1 != 0 && self.dier & 1 != 0 {
            nvic.set_intr_pending(TIM6_DAC_IRQ);
        }
    }
}

} // verus!
