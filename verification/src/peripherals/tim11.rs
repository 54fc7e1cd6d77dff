use vstd::prelude::*;
use crate::text::str_eq;

verus! {

/// TIM11 input-capture model: once the counter is enabled and channel 1 is
/// configured as an enabled input capture, SR.CC1IF (bit 1) latches.
pub struct Tim11 {
    pub cr1: u32,
    pub ccmr1: u32,
    pub ccer: u32,
    pub sr: u32,
}

pub const TIM11_CR1: u32 = 0x0000;
pub const TIM11_SR: u32 = 0x0010;
pub const TIM11_CCMR1: u32 = 0x0018;
pub const TIM11_CCER: u32 = 0x0020;

pub open spec fn spec_sr_after_setup(cr1: u32, ccmr1: u32, ccer: u32) -> u32 {
    if cr1 & 1 != 0 && ccmr1 & 3 == 1 && ccer & 1 != 0 {
        2
    } else {
        0
    }
}

impl Tim11 {
    pub open spec fn spec_read(self, offset: u32) -> u32 {
        if offset == TIM11_CR1 {
            self.cr1
        } else if offset == TIM11_SR {
            self.sr
        } else if offset == TIM11_CCMR1 {
            self.ccmr1
        } else if offset == TIM11_CCER {
            self.ccer
        } else {
            0
        }
    }

    /// The state after a write, before the capture status is refreshed.
    pub open spec fn spec_stored(self, offset: u32, value: u32) -> Tim11 {
        if offset == TIM11_CR1 {
            Tim11 { cr1: value, ..self }
        } else if offset == TIM11_SR {
            Tim11 { sr: self.sr & !value, ..self }
        } else if offset == TIM11_CCMR1 {
            Tim11 { ccmr1: value, ..self }
        } else {
            Tim11 { ccer: value, ..self }
        }
    }

    pub open spec fn spec_write(self, offset: u32, value: u32) -> Tim11 {
        if offset == TIM11_CR1 || offset == TIM11_SR || offset == TIM11_CCMR1 || offset
            == TIM11_CCER {
            let s = self.spec_stored(offset, value);
            Tim11 { sr: s.sr | spec_sr_after_setup(s.cr1, s.ccmr1, s.ccer), ..s }
        } else {
            self
        }
    }

    pub fn new(name: &str) -> (r: Option<Tim11>)
        ensures
            r is Some <==> name@ == "TIM11"@,
            r matches Some(t) ==> t.cr1 == 0 && t.ccmr1 == 0 && t.ccer == 0 && t.sr == 0,
    {
        if str_eq(name, "TIM11") {
            Some(Tim11 { cr1: 0, ccmr1: 0, ccer: 0, sr: 0 })
        } else {
            None
        }
    }

    pub fn sr_after_setup(cr1: u32, ccmr1: u32, ccer: u32) -> (r: u32)
        ensures
            r == spec_sr_after_setup(cr1, ccmr1, ccer),
    {
        if cr1 & 1 != 0 && ccmr1 & 3 == 1 && ccer & 1 != 0 {
            2
        } else {
            0
        }
    }

    pub fn read(&self, offset: u32) -> (v: u32)
        ensures
            v == self.spec_read(offset),
    {
        if offset == TIM11_CR1 {
            self.cr1
        } else if offset == TIM11_SR {
            self.sr
        } else if offset == TIM11_CCMR1 {
            self.ccmr1
        } else if offset == TIM11_CCER {
            self.ccer
        } else {
            0
        }
    }

    /// Writing a 1 to an SR bit clears it; every accepted write then
    /// re-latches the capture flag from the current configuration.
    pub fn write(&mut self, offset: u32, value: u32)
        ensures
            *final(self) == old(self).spec_write(offset, value),
    {
        if offset == TIM11_CR1 {
            self.cr1 = value;
        } else if offset == TIM11_SR {
            self.sr = self.sr & !value;
        } else if offset == TIM11_CCMR1 {
            self.ccmr1 = value;
        } else if offset == TIM11_CCER {
            self.ccer = value;
        } else {
            return;
        }
        self.sr = self.sr | Self::sr_after_setup(self.cr1, self.ccmr1, self.ccer);
    }
}

} // verus!
