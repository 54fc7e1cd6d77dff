use vstd::prelude::*;
use std::collections::BTreeMap;
use crate::text::str_eq;
use crate::peripherals::nvic::{Nvic, irq_bit};

verus! {

broadcast use vstd::std_specs::btree::group_btree_axioms;

/// USB OTG FS global interrupt.
pub const OTG_FS_IRQ: i32 = 67;
/// GINTSTS.USBRST.
pub const USB_RESET: u32 = 0x1000;
pub const OTG_GRSTCTL: u32 = 0x0010;
pub const OTG_GINTSTS: u32 = 0x0014;
pub const OTG_GINTMSK: u32 = 0x0018;
/// GRSTCTL.CSRST, core soft reset.
pub const GRSTCTL_CSRST: u32 = 0x01;
/// GRSTCTL.RXFFLSH, RX FIFO flush.
pub const GRSTCTL_RXFFLSH: u32 = 0x10;
/// GRSTCTL.TXFFLSH, TX FIFO flush.
pub const GRSTCTL_TXFFLSH: u32 = 0x20;
/// GRSTCTL commands that complete at once and so never read back set.
pub const GRSTCTL_SELF_CLEARING: u32 = 0x31;
/// GRSTCTL.AHBIDL, always idle.
pub const GRSTCTL_AHBIDL: u32 = 0x8000_0000;

/// USB OTG FS core model: plain register storage, the global interrupt
/// status and mask, self-clearing reset commands, and a virtual host that
/// resets the bus when a client attaches to the bridge.
pub struct OtgFs {
    pub registers: BTreeMap<u32, u32>,
    pub global_interrupt_status: u32,
    pub global_interrupt_mask: u32,
    pub host_attached: bool,
}

impl OtgFs {
    pub open spec fn stored(self, offset: u32) -> u32 {
        if self.registers@.contains_key(offset) {
            self.registers@[offset]
        } else {
            0
        }
    }

    pub open spec fn spec_read(self, offset: u32) -> u32 {
        if offset == OTG_GRSTCTL {
            self.stored(offset) | GRSTCTL_AHBIDL
        } else if offset == OTG_GINTSTS {
            self.global_interrupt_status
        } else if offset == OTG_GINTMSK {
            self.global_interrupt_mask
        } else {
            self.stored(offset)
        }
    }

    /// How a register write leaves the core.
    pub open spec fn spec_write_next(self, next: OtgFs, offset: u32, value: u32) -> bool {
        &&& next.host_attached == self.host_attached
        &&& next.global_interrupt_status == if offset == OTG_GINTSTS {
            self.global_interrupt_status & !value
        } else {
            self.global_interrupt_status
        }
        &&& next.global_interrupt_mask == if offset == OTG_GINTMSK {
            value
        } else {
            self.global_interrupt_mask
        }
        &&& next.registers@ == if offset == OTG_GINTSTS || offset == OTG_GINTMSK {
            self.registers@
        } else if offset == OTG_GRSTCTL {
            self.registers@.insert(offset, value & !GRSTCTL_SELF_CLEARING)
        } else {
            self.registers@.insert(offset, value)
        }
    }

    pub open spec fn spec_interrupt_pending(self) -> bool {
        self.global_interrupt_status & self.global_interrupt_mask != 0
    }

    pub fn for_test() -> (o: OtgFs)
        ensures
            o.registers@ == Map::<u32, u32>::empty(),
            o.global_interrupt_status == 0,
            o.global_interrupt_mask == 0,
            !o.host_attached,
    {
        OtgFs {
            registers: BTreeMap::new(),
            global_interrupt_status: 0,
            global_interrupt_mask: 0,
            host_attached: false,
        }
    }

    pub fn new(name: &str) -> (r: Option<OtgFs>)
        ensures
            r is Some <==> name@ == "OTG_FS_GLOBAL"@,
            r matches Some(o) ==> o.registers@ == Map::<u32, u32>::empty()
                && o.global_interrupt_status == 0 && o.global_interrupt_mask == 0
                && !o.host_attached,
    {
        if str_eq(name, "OTG_FS_GLOBAL") {
            Some(Self::for_test())
        } else {
            None
        }
    }

    pub fn set_global_interrupt_status(&mut self, value: u32)
        ensures
            final(self).global_interrupt_status == old(self).global_interrupt_status | value,
            final(self).global_interrupt_mask == old(self).global_interrupt_mask,
            final(self).registers@ == old(self).registers@,
            final(self).host_attached == old(self).host_attached,
    {
        self.global_interrupt_status = self.global_interrupt_status | value;
    }

    pub fn write_global_interrupt_mask(&mut self, value: u32)
        ensures
            final(self).global_interrupt_mask == value,
            final(self).global_interrupt_status == old(self).global_interrupt_status,
            final(self).registers@ == old(self).registers@,
            final(self).host_attached == old(self).host_attached,
    {
        self.global_interrupt_mask = value;
    }

    pub fn interrupt_pending(&self) -> (r: bool)
        ensures
            r == self.spec_interrupt_pending(),
    {
        self.global_interrupt_status & self.global_interrupt_mask != 0
    }

    /// The virtual host resets the bus: USBRST becomes pending.
    pub fn virtual_host_reset(&mut self)
        ensures
            final(self).global_interrupt_status == old(self).global_interrupt_status | USB_RESET,
            final(self).global_interrupt_mask == old(self).global_interrupt_mask,
            final(self).registers@ == old(self).registers@,
            final(self).host_attached == old(self).host_attached,
    {
        self.set_global_interrupt_status(USB_RESET);
    }

    fn stored_value(&self, offset: u32) -> (v: u32)
        ensures
            v == self.stored(offset),
    {
        match self.registers.get(&offset) {
            Some(v) => *v,
            None => 0,
        }
    }

    pub fn register_read(&self, offset: u32) -> (v: u32)
        ensures
            v == self.spec_read(offset),
    {
        if offset == OTG_GRSTCTL {
            self.stored_value(offset) | GRSTCTL_AHBIDL
        } else if offset == OTG_GINTSTS {
            self.global_interrupt_status
        } else if offset == OTG_GINTMSK {
            self.global_interrupt_mask
        } else {
            self.stored_value(offset)
        }
    }

    /// GINTSTS is write-1-to-clear; GRSTCTL drops its self-clearing command
    /// bits; every other register keeps what is written.
    pub fn register_write(&mut self, offset: u32, value: u32)
        ensures
            old(self).spec_write_next(*final(self), offset, value),
    {
        if offset == OTG_GINTSTS {
            self.global_interrupt_status = self.global_interrupt_status & !value;
        } else if offset == OTG_GINTMSK {
            self.global_interrupt_mask = value;
        } else if offset == OTG_GRSTCTL {
            self.registers.insert(offset, value & !GRSTCTL_SELF_CLEARING);
        } else {
            self.registers.insert(offset, value);
        }
    }

    /// Tracks the virtual host: a newly connected bridge client attaches
    /// the host and resets the bus, a disconnect detaches it. A pending,
    /// unmasked global interrupt keeps the OTG interrupt pending.
    pub fn poll(&mut self, connected: bool, nvic: &mut Nvic)
        ensures
            final(self).host_attached == connected,
            final(self).global_interrupt_status == if connected && !old(self).host_attached {
                old(self).global_interrupt_status | USB_RESET
            } else {
                old(self).global_interrupt_status
            },
            final(self).global_interrupt_mask == old(self).global_interrupt_mask,
            final(self).registers@ == old(self).registers@,
            final(nvic).same_except_pending(*old(nvic)),
            final(nvic).pending == if final(self).spec_interrupt_pending() {
                old(nvic).pending | (1u128 << irq_bit(OTG_FS_IRQ))
            } else {
                old(nvic).pending
            },
    {
        if connected && !self.host_attached {
            self.host_attached = true;
            self.virtual_host_reset();
        } else if !connected {
            self.host_attached = false;
        }
        if self.interrupt_pending() {
            nvic.set_intr_pending(OTG_FS_IRQ);
        }
    }
}

/// The reset and FIFO-flush commands of GRSTCTL never read back as set.
pub proof fn law_otg_self_clearing_commands_read_back_clear(o: OtgFs, value: u32)
    ensures
        ((value & !GRSTCTL_SELF_CLEARING) | GRSTCTL_AHBIDL) & GRSTCTL_SELF_CLEARING == 0,
{
    assert(((value & !0x31u32) | 0x8000_0000u32) & 0x31u32 == 0) by (bit_vector);
}

} // verus!
