use vstd::prelude::*;
use crate::text::str_eq;

verus! {

/// Power controller model: voltage-scaling, over-drive and standby
/// readiness flags follow the requests that firmware writes.
pub struct Pwr {
    pub cr1: u32,
    pub csr1: u32,
}

/// CR1: VOS (bits 14-15), ODEN (bit 16), ODSWEN (bit 17).
pub open spec fn spec_csr1_after_cr1_write(value: u32) -> u32 {
    (if value & 0x0000_c000 != 0 { 0x0000_4000u32 } else { 0u32 }) | (value & 0x0001_0000) | (
    value & 0x0002_0000)
}

/// CSR1.BRR (bit 3) follows CSR1.BRE (bit 9).
pub open spec fn spec_csr1_after_csr1_write(value: u32) -> u32 {
    if value & 0x0000_0200 != 0 {
        value | 0x0000_0008
    } else {
        value & !0x0000_0008u32
    }
}

impl Pwr {
    pub open spec fn spec_read(self, offset: u32) -> u32 {
        if offset == 0 {
            self.cr1
        } else if offset == 4 {
            spec_csr1_after_cr1_write(self.cr1) | self.csr1
        } else {
            0
        }
    }

    pub open spec fn spec_write(self, offset: u32, value: u32) -> Pwr {
        if offset == 0 {
            Pwr { cr1: value, ..self }
        } else if offset == 4 {
            Pwr { csr1: spec_csr1_after_csr1_write(value), ..self }
        } else {
            self
        }
    }

    pub fn new(name: &str) -> (r: Option<Pwr>)
        ensures
            r is Some <==> name@ == "PWR"@,
            r matches Some(p) ==> p.cr1 == 0 && p.csr1 == 0,
    {
        if str_eq(name, "PWR") {
            Some(Pwr { cr1: 0, csr1: 0 })
        } else {
            None
        }
    }

    /// VOSRDY (bit 14) is set once any voltage scale is selected; ODRDY and
    /// ODSWRDY mirror ODEN and ODSWEN.
    pub fn csr1_after_cr1_write(value: u32) -> (r: u32)
        ensures
            r == spec_csr1_after_cr1_write(value),
    {
        (if value & 0x0000_c000 != 0 { 0x0000_4000u32 } else { 0u32 }) | (value & 0x0001_0000) | (
        value & 0x0002_0000)
    }

    /// The backup regulator reports ready exactly when it is enabled.
    pub fn csr1_after_csr1_write(value: u32) -> (r: u32)
        ensures
            r == spec_csr1_after_csr1_write(value),
    {
        if value & 0x0000_0200 != 0 {
            value | 0x0000_0008
        } else {
            value & !0x0000_0008u32
        }
    }

    pub fn read(&self, offset: u32) -> (v: u32)
        ensures
            v == self.spec_read(offset),
    {
        if offset == 0 {
            self.cr1
        } else if offset == 4 {
            Self::csr1_after_cr1_write(self.cr1) | self.csr1
        } else {
            0
        }
    }

    pub fn write(&mut self, offset: u32, value: u32)
        ensures
            *final(self) == old(self).spec_write(offset, value),
    {
        if offset == 0 {
            self.cr1 = value;
        } else if offset == 4 {
            self.csr1 = Self::csr1_after_csr1_write(value);
        }
    }
}

} // verus!
