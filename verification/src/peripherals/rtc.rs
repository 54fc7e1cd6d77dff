use vstd::prelude::*;
use crate::text::str_eq;

verus! {

/// Real-time clock model: only ISR is kept, and its INITF flag (bit 6)
/// follows the INIT request (bit 7).
pub struct Rtc {
    pub isr: u32,
}

/// ISR register offset.
pub const RTC_ISR: u32 = 0x000c;

pub open spec fn spec_isr_after_write(value: u32) -> u32 {
    if value & 0x0000_0080 != 0 {
        value | 0x0000_0040
    } else {
        value & !0x0000_0040u32
    }
}

impl Rtc {
    pub open spec fn spec_read(self, offset: u32) -> u32 {
        if offset == RTC_ISR {
            self.isr
        } else {
            0
        }
    }

    pub open spec fn spec_write(self, offset: u32, value: u32) -> Rtc {
        if offset == RTC_ISR {
            Rtc { isr: spec_isr_after_write(value) }
        } else {
            self
        }
    }

    pub fn new(name: &str) -> (r: Option<Rtc>)
        ensures
            r is Some <==> name@ == "RTC"@,
            r matches Some(x) ==> x.isr == 7,
    {
        if str_eq(name, "RTC") {
            Some(Rtc { isr: 0x0000_0007 })
        } else {
            None
        }
    }

    pub fn isr_after_write(value: u32) -> (r: u32)
        ensures
            r == spec_isr_after_write(value),
    {
        if value & 0x0000_0080 != 0 {
            value | 0x0000_0040
        } else {
            value & !0x0000_0040u32
        }
    }

    pub fn read(&self, offset: u32) -> (v: u32)
        ensures
            v == self.spec_read(offset),
    {
        if offset == RTC_ISR {
            self.isr
        } else {
            0
        }
    }

    pub fn write(&mut self, offset: u32, value: u32)
        ensures
            *final(self) == old(self).spec_write(offset, value),
    {
        if offset == RTC_ISR {
            self.isr = Self::isr_after_write(value);
        }
    }
}

} // verus!
