use vstd::prelude::*;
use crate::text::str_eq;

verus! {

/// Reset and clock control model: every CR ready flag reads set, the
/// system clock switch status follows the request, and the LSI/LSE ready
/// flags follow their enables.
pub struct Rcc {
    pub cfgr: u32,
    pub csr: u32,
    pub bdcr: u32,
}

pub const RCC_CR: u32 = 0x0000;
pub const RCC_CFGR: u32 = 0x0008;
pub const RCC_BDCR: u32 = 0x0070;
pub const RCC_CSR: u32 = 0x0074;

/// CFGR.SWS (bits 2-3) reports the clock selected in CFGR.SW (bits 0-1).
pub open spec fn spec_cfgr_after_write(value: u32) -> u32 {
    (value & !0x0000_000cu32) | ((value & 0x0000_0003) << 2u32)
}

/// Bit 1 (LSIRDY/LSERDY) follows bit 0 (LSION/LSEON).
pub open spec fn spec_ready_follows_enable(value: u32) -> u32 {
    if value & 0x0000_0001 != 0 {
        value | 0x0000_0002
    } else {
        value & !0x0000_0002u32
    }
}

impl Rcc {
    pub open spec fn spec_read(self, offset: u32) -> u32 {
        if offset == RCC_CR {
            0xFFFF_FFFF
        } else if offset == RCC_CFGR {
            self.cfgr
        } else if offset == RCC_CSR {
            self.csr
        } else if offset == RCC_BDCR {
            self.bdcr
        } else {
            0
        }
    }

    pub open spec fn spec_write(self, offset: u32, value: u32) -> Rcc {
        if offset == RCC_CFGR {
            Rcc { cfgr: spec_cfgr_after_write(value), ..self }
        } else if offset == RCC_CSR {
            Rcc { csr: spec_ready_follows_enable(value), ..self }
        } else if offset == RCC_BDCR {
            Rcc { bdcr: spec_ready_follows_enable(value), ..self }
        } else {
            self
        }
    }

    pub fn new(name: &str) -> (r: Option<Rcc>)
        ensures
            r is Some <==> name@ == "RCC"@,
            r matches Some(x) ==> x.cfgr == 0 && x.csr == 0 && x.bdcr == 0,
    {
        if str_eq(name, "RCC") {
            Some(Rcc { cfgr: 0, csr: 0, bdcr: 0 })
        } else {
            None
        }
    }

    pub fn cfgr_after_write(value: u32) -> (r: u32)
        ensures
            r == spec_cfgr_after_write(value),
    {
        (value & !0x0000_000cu32) | ((value & 0x0000_0003) << 2u32)
    }

    pub fn csr_after_write(value: u32) -> (r: u32)
        ensures
            r == spec_ready_follows_enable(value),
    {
        if value & 0x0000_0001 != 0 {
            value | 0x0000_0002
        } else {
            value & !0x0000_0002u32
        }
    }

    pub fn bdcr_after_write(value: u32) -> (r: u32)
        ensures
            r == spec_ready_follows_enable(value),
    {
        if value & 0x0000_0001 != 0 {
            value | 0x0000_0002
        } else {
            value & !0x0000_0002u32
        }
    }

    pub fn read(&self, offset: u32) -> (v: u32)
        ensures
            v == self.spec_read(offset),
    {
        if offset == RCC_CR {
            0xFFFF_FFFF
        } else if offset == RCC_CFGR {
            self.cfgr
        } else if offset == RCC_CSR {
            self.csr
        } else if offset == RCC_BDCR {
            self.bdcr
        } else {
            0
        }
    }

    pub fn write(&mut self, offset: u32, value: u32)
        ensures
            *final(self) == old(self).spec_write(offset, value),
    {
        if offset == RCC_CFGR {
            self.cfgr = Self::cfgr_after_write(value);
        } else if offset == RCC_CSR {
            self.csr = Self::csr_after_write(value);
        } else if offset == RCC_BDCR {
            self.bdcr = Self::bdcr_after_write(value);
        }
    }
}

} // verus!
