use vstd::prelude::*;
use crate::text::str_eq;

verus! {

/// ARM CoreSight DWT unit. CYCCNT counts executed instructions: it reads
/// as the instruction count plus an offset, and a write sets the offset so
/// that the next read at the same count returns the written value.
pub struct Dwt {
    pub ctrl: u32,
    pub cyccnt_offset: u32,
}

pub const DWT_CTRL: u32 = 0x0000;
pub const DWT_CYCCNT: u32 = 0x0004;

impl Dwt {
    pub open spec fn spec_cyccnt(self, now: u64) -> u32 {
        vstd::wrapping::u32_specs::wrapping_add(now as u32, self.cyccnt_offset)
    }

    pub open spec fn spec_read(self, offset: u32, now: u64) -> u32 {
        if offset == DWT_CTRL {
            self.ctrl
        } else if offset == DWT_CYCCNT {
            self.spec_cyccnt(now)
        } else {
            0
        }
    }

    pub open spec fn spec_write(self, offset: u32, value: u32, now: u64) -> Dwt {
        if offset == DWT_CTRL {
            Dwt { ctrl: value, ..self }
        } else if offset == DWT_CYCCNT {
            Dwt {
                cyccnt_offset: vstd::wrapping::u32_specs::wrapping_sub(value, now as u32),
                ..self
            }
        } else {
            self
        }
    }

    pub fn default() -> (d: Dwt)
        ensures
            d.ctrl == 0 && d.cyccnt_offset == 0,
    {
        Dwt { ctrl: 0, cyccnt_offset: 0 }
    }

    pub fn new(name: &str) -> (r: Option<Dwt>)
        ensures
            r is Some <==> name@ == "DWT"@,
            r matches Some(d) ==> d.ctrl == 0 && d.cyccnt_offset == 0,
    {
        if str_eq(name, "DWT") {
            Some(Self::default())
        } else {
            None
        }
    }

    /// CYCCNT at instruction count `now`.
    pub fn cyccnt(&self, now: u64) -> (v: u32)
        ensures
            v == self.spec_cyccnt(now),
    {
        (now as u32).wrapping_add(self.cyccnt_offset)
    }

    /// Sets CYCCNT to `value` at instruction count `now`.
    pub fn set_cyccnt(&mut self, value: u32, now: u64)
        ensures
            *final(self) == old(self).spec_write(DWT_CYCCNT, value, now),
    {
        self.cyccnt_offset = value.wrapping_sub(now as u32);
    }

    pub fn read(&self, offset: u32, now: u64) -> (v: u32)
        ensures
            v == self.spec_read(offset, now),
    {
        if offset == DWT_CTRL {
            self.ctrl
        } else if offset == DWT_CYCCNT {
            self.cyccnt(now)
        } else {
            0
        }
    }

    pub fn write(&mut self, offset: u32, value: u32, now: u64)
        ensures
            *final(self) == old(self).spec_write(offset, value, now),
    {
        if offset == DWT_CTRL {
            self.ctrl = value;
        } else if offset == DWT_CYCCNT {
            self.set_cyccnt(value, now);
        }
    }
}

/// A CYCCNT write is observed by a read at the same instruction count.
pub proof fn law_dwt_cyccnt_write_is_read_back(d: Dwt, value: u32, now: u64)
    ensures
        d.spec_write(DWT_CYCCNT, value, now).spec_read(DWT_CYCCNT, now) == value,
{
}

/// CYCCNT counts instructions: between two instruction counts it advances
/// by the instructions executed, modulo 2^32.
pub proof fn law_dwt_cyccnt_counts_instructions(d: Dwt, now: u64, later: u64)
    requires
        now <= later,
    ensures
        d.spec_cyccnt(later) == (d.spec_cyccnt(now) + (later - now)) % 0x1_0000_0000,
{
    let off = d.cyccnt_offset;
    assert((((later as u32) as u64 + off as u64) % 0x1_0000_0000) as u32 == (((((now as u32) as u64
        + off as u64) % 0x1_0000_0000) as u64 + (later - now) as u64) % 0x1_0000_0000) as u32)
        by (bit_vector)
        requires
            now <= later,
    ;
}

} // verus!
