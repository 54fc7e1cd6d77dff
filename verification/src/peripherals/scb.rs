use vstd::prelude::*;
use crate::text::str_eq;
use crate::peripherals::nvic::{Nvic, IRQ_SYSTICK, IRQ_PENDSV, irq_bit};

verus! {

/// System control block model: CPACR keeps what firmware writes, ICSR
/// reports the running exception and can raise SysTick and PendSV.
pub struct Scb {
    pub cpacr: u32,
}

pub const SCB_ICSR: u32 = 0x0004;
pub const SCB_CPACR: u32 = 0x0088;

/// ICSR bit 11 (RETTOBASE): no other exception is active. Interrupts never
/// nest here, so it always reads set.
pub const ICSR_RETTOBASE: u32 = 0x800;
/// ICSR bit 26 (PENDSTSET) raises SysTick.
pub const ICSR_PENDSTSET: u32 = 0x0400_0000;
/// ICSR bit 28 (PENDSVSET) raises PendSV.
pub const ICSR_PENDSVSET: u32 = 0x1000_0000;

impl Scb {
    pub open spec fn spec_read(self, offset: u32, nvic: Nvic) -> u32 {
        if offset == SCB_ICSR {
            ICSR_RETTOBASE | nvic.active_exception
        } else if offset == SCB_CPACR {
            self.cpacr
        } else {
            0
        }
    }

    /// The SCB and the pending set after a write.
    pub open spec fn spec_write(self, offset: u32, value: u32, pending: u128) -> (Scb, u128) {
        if offset == SCB_ICSR {
            (
                self,
                (pending | (if value & ICSR_PENDSTSET != 0 {
                    1u128 << irq_bit(IRQ_SYSTICK)
                } else {
                    0u128
                })) | (if value & ICSR_PENDSVSET != 0 {
                    1u128 << irq_bit(IRQ_PENDSV)
                } else {
                    0u128
                }),
            )
        } else if offset == SCB_CPACR {
            (Scb { cpacr: value }, pending)
        } else {
            (self, pending)
        }
    }

    pub fn default() -> (s: Scb)
        ensures
            s.cpacr == 0,
    {
        Scb { cpacr: 0 }
    }

    pub fn new(name: &str) -> (r: Option<Scb>)
        ensures
            r is Some <==> name@ == "SCB"@,
            r matches Some(s) ==> s.cpacr == 0,
    {
        if str_eq(name, "SCB") {
            Some(Self::default())
        } else {
            None
        }
    }

    pub fn write_cpacr(&mut self, value: u32)
        ensures
            final(self).cpacr == value,
    {
        self.cpacr = value;
    }

    pub fn read_cpacr(&self) -> (v: u32)
        ensures
            v == self.cpacr,
    {
        self.cpacr
    }

    /// ICSR: RETTOBASE plus VECTACTIVE (bits 0-8) from the controller.
    pub fn read_icsr(&self, nvic: &Nvic) -> (v: u32)
        ensures
            v == ICSR_RETTOBASE | nvic.active_exception,
    {
        ICSR_RETTOBASE | nvic.active_exception_number()
    }

    pub fn read(&self, offset: u32, nvic: &Nvic) -> (v: u32)
        ensures
            v == self.spec_read(offset, *nvic),
    {
        if offset == SCB_ICSR {
            self.read_icsr(nvic)
        } else if offset == SCB_CPACR {
            self.read_cpacr()
        } else {
            0
        }
    }

    pub fn write(&mut self, offset: u32, value: u32, nvic: &mut Nvic)
        ensures
            (*final(self), final(nvic).pending) == old(self).spec_write(
                offset,
                value,
                old(nvic).pending,
            ),
            final(nvic).same_except_pending(*old(nvic)),
    {
        if offset == SCB_ICSR {
            let ghost p0 = nvic.pending;
            if value & ICSR_PENDSTSET != 0 {
                nvic.set_intr_pending(IRQ_SYSTICK);
            }
            let ghost p1 = nvic.pending;
            if value & ICSR_PENDSVSET != 0 {
                nvic.set_intr_pending(IRQ_PENDSV);
            }
            proof {
                assert(p0 | 0u128 == p0) by (bit_vector);
                assert(p1 | 0u128 == p1) by (bit_vector);
            }
        } else if offset == SCB_CPACR {
            self.write_cpacr(value);
        }
    }
}

} // verus!
