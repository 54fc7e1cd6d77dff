use vstd::prelude::*;
use crate::text::starts_with;

verus! {

/// Minimal bxCAN readiness model: mode requests (MCR.INRQ, MCR.SLEEP) are
/// acknowledged at once in MSR, and the transmit mailboxes always report
/// empty. No frames are ever transferred.
pub struct Can {
    pub mcr: u32,
}

/// Master control register offset.
pub const CAN_MCR: u32 = 0x0000;
/// Master status register offset.
pub const CAN_MSR: u32 = 0x0004;
/// Transmit status register offset.
pub const CAN_TSR: u32 = 0x0008;
/// TSR with TME0/TME1/TME2 (bits 26-28) permanently set.
pub const TSR_ALL_MAILBOXES_EMPTY: u32 = 0x1c00_0000;

impl Can {
    /// The value a register read at `offset` returns.
    pub open spec fn spec_read(self, offset: u32) -> u32 {
        if offset == CAN_MCR {
            self.mcr
        } else if offset == CAN_MSR {
            self.mcr & 3
        } else if offset == CAN_TSR {
            TSR_ALL_MAILBOXES_EMPTY
        } else {
            0
        }
    }

    pub open spec fn spec_write(self, offset: u32, value: u32) -> Can {
        if offset == CAN_MCR {
            Can { mcr: value }
        } else {
            self
        }
    }

    /// Every peripheral whose name starts with `CAN` is a bxCAN instance.
    pub fn new(name: &str) -> (r: Option<Can>)
        ensures
            r is Some <==> crate::text::is_prefix("CAN"@, name@),
            r matches Some(c) ==> c.mcr == 0,
    {
        if starts_with(name, "CAN") {
            Some(Can { mcr: 0 })
        } else {
            None
        }
    }

    /// MSR.INAK (bit 0) acknowledges MCR.INRQ (bit 0); MSR.SLAK (bit 1)
    /// acknowledges MCR.SLEEP (bit 1). Both transitions are instantaneous.
    pub fn msr_after_mcr_write(mcr: u32) -> (msr: u32)
        ensures
            msr == mcr & 3,
    {
        mcr & 0x0000_0003
    }

    pub fn read(&self, offset: u32) -> (v: u32)
        ensures
            v == self.spec_read(offset),
    {
        if offset == CAN_MCR {
            self.mcr
        } else if offset == CAN_MSR {
            Self::msr_after_mcr_write(self.mcr)
        } else if offset == CAN_TSR {
            TSR_ALL_MAILBOXES_EMPTY
        } else {
            0
        }
    }

    /// Only MCR is writable.
    pub fn write(&mut self, offset: u32, value: u32)
        ensures
            *final(self) == old(self).spec_write(offset, value),
    {
        if offset == CAN_MCR {
            self.mcr = value;
        }
    }
}

} // verus!
