use vstd::prelude::*;
use crate::text::str_eq;
use crate::peripherals::nvic::Nvic;

verus! {

/// The Cortex-M SysTick timer (STK). The counter runs on the instruction
/// clock (one instruction is one processor cycle; with CLKSOURCE clear it
/// runs on the processor clock divided by eight). While ENABLE and TICKINT
/// are set, the interrupt controller raises SysTick each time the counter
/// has gone round its reload value. A write to CTRL, LOAD or VAL restarts
/// the count. COUNTFLAG is not modelled and reads clear; CALIB reads 0.
pub struct SysTick {
    pub ctrl: u32,
    pub load: u32,
}

pub const STK_CTRL: u32 = 0x0000;
pub const STK_LOAD: u32 = 0x0004;
pub const STK_VAL: u32 = 0x0008;
pub const STK_CALIB: u32 = 0x000c;

pub const CTRL_ENABLE: u32 = 0x1;
pub const CTRL_TICKINT: u32 = 0x2;
pub const CTRL_CLKSOURCE: u32 = 0x4;
/// The CTRL bits that firmware can write.
pub const CTRL_WRITABLE: u32 = 0x7;
/// The 24 bits of the reload value.
pub const LOAD_MASK: u32 = 0x00ff_ffff;

impl SysTick {
    pub open spec fn spec_write(self, offset: u32, value: u32) -> SysTick {
        if offset == STK_CTRL {
            SysTick { ctrl: value & CTRL_WRITABLE, ..self }
        } else if offset == STK_LOAD {
            SysTick { load: value & LOAD_MASK, ..self }
        } else {
            self
        }
    }

    /// The SysTick period that the interrupt controller counts, when the
    /// timer raises its interrupt: the instructions in one round of the
    /// counter, less one (the controller raises it once more than that
    /// many have passed).
    pub open spec fn spec_period(self) -> Option<u32> {
        if self.ctrl & CTRL_ENABLE != 0 && self.ctrl & CTRL_TICKINT != 0 {
            Some(
                if self.ctrl & CTRL_CLKSOURCE != 0 {
                    self.load & LOAD_MASK
                } else {
                    ((self.load & LOAD_MASK) * 8 + 7) as u32
                },
            )
        } else {
            None
        }
    }

    /// The counter at instruction count `now` when it was last restarted
    /// at `since`: it counts down from the reload value and wraps; it
    /// reads 0 while the timer is disabled.
    pub open spec fn spec_val(self, now: u64, since: u64) -> u32 {
        if self.ctrl & CTRL_ENABLE != 0 {
            let reload = (self.load & LOAD_MASK) as int;
            let elapsed = if now >= since {
                now - since
            } else {
                0
            };
            let ticks = if self.ctrl & CTRL_CLKSOURCE != 0 {
                elapsed
            } else {
                elapsed / 8
            };
            (reload - ticks % (reload + 1)) as u32
        } else {
            0
        }
    }

    pub open spec fn spec_read(self, offset: u32, now: u64, nvic: Nvic) -> u32 {
        if offset == STK_CTRL {
            self.ctrl
        } else if offset == STK_LOAD {
            self.load
        } else if offset == STK_VAL {
            self.spec_val(now, nvic.last_systick_trigger)
        } else {
            0
        }
    }

    /// The interrupt controller after a write: a write to CTRL, LOAD or VAL
    /// sets the SysTick period from the new state and restarts the count
    /// at `now`; other writes leave it as it was.
    pub open spec fn spec_nvic_after_write(self, offset: u32, value: u32, now: u64, nvic: Nvic) -> Nvic {
        if offset == STK_CTRL || offset == STK_LOAD || offset == STK_VAL {
            Nvic {
                systick_period: self.spec_write(offset, value).spec_period(),
                last_systick_trigger: now,
                ..nvic
            }
        } else {
            nvic
        }
    }

    pub fn default() -> (s: SysTick)
        ensures
            s.ctrl == 0 && s.load == 0,
    {
        SysTick { ctrl: 0, load: 0 }
    }

    pub fn new(name: &str) -> (r: Option<SysTick>)
        ensures
            r is Some <==> name@ == "STK"@,
            r matches Some(s) ==> s.ctrl == 0 && s.load == 0,
    {
        if str_eq(name, "STK") {
            Some(Self::default())
        } else {
            None
        }
    }

    pub fn period(&self) -> (p: Option<u32>)
        ensures
            p == self.spec_period(),
    {
        if self.ctrl & CTRL_ENABLE != 0 && self.ctrl & CTRL_TICKINT != 0 {
            let load = self.load;
            let reload = load & LOAD_MASK;
            assert(load & LOAD_MASK <= LOAD_MASK) by (bit_vector);
            if self.ctrl & CTRL_CLKSOURCE != 0 {
                Some(reload)
            } else {
                Some(reload * 8 + 7)
            }
        } else {
            None
        }
    }

    pub fn val(&self, now: u64, since: u64) -> (v: u32)
        ensures
            v == self.spec_val(now, since),
    {
        if self.ctrl & CTRL_ENABLE != 0 {
            let load = self.load;
            let reload = (load & LOAD_MASK) as u64;
            assert(load & LOAD_MASK <= LOAD_MASK) by (bit_vector);
            let elapsed = if now >= since {
                now - since
            } else {
                0
            };
            let ticks = if self.ctrl & CTRL_CLKSOURCE != 0 {
                elapsed
            } else {
                elapsed / 8
            };
            let m = reload + 1;
            let r = ticks % m;
            assert(r < m) by (nonlinear_arith)
                requires
                    r == ticks % m,
                    m > 0,
            ;
            (reload - r) as u32
        } else {
            0
        }
    }

    pub fn read(&self, offset: u32, now: u64, nvic: &Nvic) -> (v: u32)
        ensures
            v == self.spec_read(offset, now, *nvic),
    {
        if offset == STK_CTRL {
            self.ctrl
        } else if offset == STK_LOAD {
            self.load
        } else if offset == STK_VAL {
            self.val(now, nvic.last_systick_trigger)
        } else {
            0
        }
    }

    pub fn write(&mut self, offset: u32, value: u32, now: u64, nvic: &mut Nvic)
        ensures
            *final(self) == old(self).spec_write(offset, value),
            *final(nvic) == old(self).spec_nvic_after_write(offset, value, now, *old(nvic)),
    {
        if offset == STK_CTRL {
            self.ctrl = value & CTRL_WRITABLE;
        } else if offset == STK_LOAD {
            self.load = value & LOAD_MASK;
        }
        if offset == STK_CTRL || offset == STK_LOAD || offset == STK_VAL {
            nvic.systick_period = self.period();
            nvic.last_systick_trigger = now;
        }
    }
}

/// Loading a reload value and then enabling the timer with its interrupt
/// on the processor clock makes the interrupt controller count rounds of
/// the reload value from the enabling write on, pending set untouched.
pub proof fn law_systick_enable_sets_period(s: SysTick, load: u32, now: u64, nvic: Nvic)
    ensures
        ({
            let s1 = s.spec_write(STK_LOAD, load);
            let n = s1.spec_nvic_after_write(STK_CTRL, CTRL_ENABLE | CTRL_TICKINT | CTRL_CLKSOURCE, now, nvic);
            &&& n.systick_period == Some(load & LOAD_MASK)
            &&& n.last_systick_trigger == now
            &&& n.pending == nvic.pending
        }),
{
    let c: u32 = (CTRL_ENABLE | CTRL_TICKINT | CTRL_CLKSOURCE) & CTRL_WRITABLE;
    assert(c == 7u32) by (bit_vector)
        requires
            c == (1u32 | 2u32 | 4u32) & 7u32,
    ;
    assert(7u32 & 1u32 != 0 && 7u32 & 2u32 != 0 && 7u32 & 4u32 != 0) by (bit_vector);
    assert((load & 0xff_ffffu32) & 0xff_ffffu32 == load & 0xff_ffffu32) by (bit_vector);
}

/// A CTRL write that clears ENABLE or TICKINT stops SysTick from being
/// raised.
pub proof fn law_systick_disable_clears_period(s: SysTick, value: u32, now: u64, nvic: Nvic)
    requires
        value & CTRL_ENABLE == 0 || value & CTRL_TICKINT == 0,
    ensures
        s.spec_nvic_after_write(STK_CTRL, value, now, nvic).systick_period is None,
{
    assert(value & 1u32 == 0 ==> (value & 7u32) & 1u32 == 0) by (bit_vector);
    assert(value & 2u32 == 0 ==> (value & 7u32) & 2u32 == 0) by (bit_vector);
}

} // verus!
