use vstd::prelude::*;
use crate::text::str_eq;

verus! {

/// External interrupt controller together with the SYSCFG line routing
/// registers (EXTICR1-4), which select the GPIO port of each line.
pub struct Exti {
    pub imr: u32,
    pub emr: u32,
    pub rtsr: u32,
    pub ftsr: u32,
    pub swier: u32,
    pub pr: u32,
    pub exticr1: u32,
    pub exticr2: u32,
    pub exticr3: u32,
    pub exticr4: u32,
}

pub const EXTI_IMR: u32 = 0x00;
pub const EXTI_EMR: u32 = 0x04;
pub const EXTI_RTSR: u32 = 0x08;
pub const EXTI_FTSR: u32 = 0x0C;
pub const EXTI_SWIER: u32 = 0x10;
pub const EXTI_PR: u32 = 0x14;

pub const SYSCFG_EXTICR1: u32 = 0x08;
pub const SYSCFG_EXTICR2: u32 = 0x0C;
pub const SYSCFG_EXTICR3: u32 = 0x10;
pub const SYSCFG_EXTICR4: u32 = 0x14;

/// Lines 0-4 each have a vector; 5-9 share EXTI9_5 (23); 10-15 share
/// EXTI15_10 (40).
pub open spec fn spec_irq_for_line(line: u8) -> i32 {
    if line == 0 {
        6
    } else if line == 1 {
        7
    } else if line == 2 {
        8
    } else if line == 3 {
        9
    } else if line == 4 {
        10
    } else if line <= 9 {
        23
    } else {
        40
    }
}

impl Exti {
    pub open spec fn spec_read_exti(self, offset: u32) -> u32 {
        if offset == EXTI_IMR {
            self.imr
        } else if offset == EXTI_EMR {
            self.emr
        } else if offset == EXTI_RTSR {
            self.rtsr
        } else if offset == EXTI_FTSR {
            self.ftsr
        } else if offset == EXTI_SWIER {
            self.swier
        } else if offset == EXTI_PR {
            self.pr
        } else {
            0
        }
    }

    pub open spec fn spec_write_exti(self, offset: u32, value: u32) -> Exti {
        if offset == EXTI_IMR {
            Exti { imr: value, ..self }
        } else if offset == EXTI_EMR {
            Exti { emr: value, ..self }
        } else if offset == EXTI_RTSR {
            Exti { rtsr: value, ..self }
        } else if offset == EXTI_FTSR {
            Exti { ftsr: value, ..self }
        } else if offset == EXTI_SWIER {
            Exti { swier: value, ..self }
        } else if offset == EXTI_PR {
            Exti { pr: self.pr & !value, ..self }
        } else {
            self
        }
    }

    pub open spec fn spec_read_syscfg(self, offset: u32) -> u32 {
        if offset == SYSCFG_EXTICR1 {
            self.exticr1
        } else if offset == SYSCFG_EXTICR2 {
            self.exticr2
        } else if offset == SYSCFG_EXTICR3 {
            self.exticr3
        } else if offset == SYSCFG_EXTICR4 {
            self.exticr4
        } else {
            0
        }
    }

    pub open spec fn spec_write_syscfg(self, offset: u32, value: u32) -> Exti {
        if offset == SYSCFG_EXTICR1 {
            Exti { exticr1: value, ..self }
        } else if offset == SYSCFG_EXTICR2 {
            Exti { exticr2: value, ..self }
        } else if offset == SYSCFG_EXTICR3 {
            Exti { exticr3: value, ..self }
        } else if offset == SYSCFG_EXTICR4 {
            Exti { exticr4: value, ..self }
        } else {
            self
        }
    }

    /// The GPIO port routed to `line` (a 4-bit field of EXTICR1-4).
    pub open spec fn spec_port_for_line(self, line: u8) -> u8 {
        if line <= 3 {
            ((self.exticr1 >> (line * 4) as u32) & 0xF) as u8
        } else if line <= 7 {
            ((self.exticr2 >> ((line - 4) * 4) as u32) & 0xF) as u8
        } else if line <= 11 {
            ((self.exticr3 >> ((line - 8) * 4) as u32) & 0xF) as u8
        } else {
            ((self.exticr4 >> ((line - 12) * 4) as u32) & 0xF) as u8
        }
    }

    /// Whether an edge on `port`/`pin` raises its line.
    pub open spec fn spec_line_fires(self, port: u8, pin: u8, rising: bool) -> bool {
        &&& pin <= 15
        &&& self.spec_port_for_line(pin) == port
        &&& self.imr & (1u32 << pin as u32) != 0
        &&& (rising && self.rtsr & (1u32 << pin as u32) != 0) || (!rising && self.ftsr & (1u32
            << pin as u32) != 0)
    }

    /// Every register at its reset value, zero.
    pub open spec fn default_spec() -> Exti {
        Exti {
            imr: 0,
            emr: 0,
            rtsr: 0,
            ftsr: 0,
            swier: 0,
            pr: 0,
            exticr1: 0,
            exticr2: 0,
            exticr3: 0,
            exticr4: 0,
        }
    }

    pub fn default() -> (e: Exti)
        ensures
            e == Self::default_spec(),
    {
        Exti {
            imr: 0,
            emr: 0,
            rtsr: 0,
            ftsr: 0,
            swier: 0,
            pr: 0,
            exticr1: 0,
            exticr2: 0,
            exticr3: 0,
            exticr4: 0,
        }
    }

    pub fn read_exti(&self, offset: u32) -> (v: u32)
        ensures
            v == self.spec_read_exti(offset),
    {
        if offset == EXTI_IMR {
            self.imr
        } else if offset == EXTI_EMR {
            self.emr
        } else if offset == EXTI_RTSR {
            self.rtsr
        } else if offset == EXTI_FTSR {
            self.ftsr
        } else if offset == EXTI_SWIER {
            self.swier
        } else if offset == EXTI_PR {
            self.pr
        } else {
            0
        }
    }

    /// PR is write-1-to-clear; the other registers keep what is written.
    pub fn write_exti(&mut self, offset: u32, value: u32)
        ensures
            *final(self) == old(self).spec_write_exti(offset, value),
    {
        if offset == EXTI_IMR {
            self.imr = value;
        } else if offset == EXTI_EMR {
            self.emr = value;
        } else if offset == EXTI_RTSR {
            self.rtsr = value;
        } else if offset == EXTI_FTSR {
            self.ftsr = value;
        } else if offset == EXTI_SWIER {
            self.swier = value;
        } else if offset == EXTI_PR {
            self.pr = self.pr & !value;
        }
    }

    pub fn read_syscfg(&self, offset: u32) -> (v: u32)
        ensures
            v == self.spec_read_syscfg(offset),
    {
        if offset == SYSCFG_EXTICR1 {
            self.exticr1
        } else if offset == SYSCFG_EXTICR2 {
            self.exticr2
        } else if offset == SYSCFG_EXTICR3 {
            self.exticr3
        } else if offset == SYSCFG_EXTICR4 {
            self.exticr4
        } else {
            0
        }
    }

    pub fn write_syscfg(&mut self, offset: u32, value: u32)
        ensures
            *final(self) == old(self).spec_write_syscfg(offset, value),
    {
        if offset == SYSCFG_EXTICR1 {
            self.exticr1 = value;
        } else if offset == SYSCFG_EXTICR2 {
            self.exticr2 = value;
        } else if offset == SYSCFG_EXTICR3 {
            self.exticr3 = value;
        } else if offset == SYSCFG_EXTICR4 {
            self.exticr4 = value;
        }
    }

    pub fn exticr_port_for_line(&self, line: u8) -> (port: u8)
        requires
            line <= 15,
        ensures
            port == self.spec_port_for_line(line),
    {
        if line <= 3 {
            ((self.exticr1 >> ((line * 4) as u32)) & 0xF) as u8
        } else if line <= 7 {
            ((self.exticr2 >> (((line - 4) * 4) as u32)) & 0xF) as u8
        } else if line <= 11 {
            ((self.exticr3 >> (((line - 8) * 4) as u32)) & 0xF) as u8
        } else {
            ((self.exticr4 >> (((line - 12) * 4) as u32)) & 0xF) as u8
        }
    }

    pub fn irq_for_line(line: u8) -> (irq: i32)
        ensures
            irq == spec_irq_for_line(line),
    {
        if line == 0 {
            6
        } else if line == 1 {
            7
        } else if line == 2 {
            8
        } else if line == 3 {
            9
        } else if line == 4 {
            10
        } else if line <= 9 {
            23
        } else {
            40
        }
    }

    /// Delivers an edge on `port`/`pin`: when the line is routed to that
    /// port, unmasked and armed for that edge, its pending bit is set and
    /// the line's interrupt is returned; otherwise nothing changes.
    pub fn raise_line_if_configured(&mut self, port: u8, pin: u8, rising: bool) -> (r: Option<i32>)
        ensures
            (r is Some) <==> old(self).spec_line_fires(port, pin, rising),
            r matches Some(irq) ==> irq == spec_irq_for_line(pin) && *final(self) == (Exti {
                pr: old(self).pr | (1u32 << pin as u32),
                ..*old(self)
            }),
            (r is None) ==> *final(self) == *old(self),
    {
        if pin > 15 {
            return None;
        }
        if self.exticr_port_for_line(pin) != port {
            return None;
        }
        let mask: u32 = 1u32 << (pin as u32);
        if self.imr & mask == 0 {
            return None;
        }
        let edge_matches = (rising && self.rtsr & mask != 0) || (!rising && self.ftsr & mask
            != 0);
        if !edge_matches {
            return None;
        }
        self.pr = self.pr | mask;
        Some(Self::irq_for_line(pin))
    }
}

/// The EXTI register window, backed by the shared controller.
pub struct ExtiWrapper;

impl ExtiWrapper {
    pub fn new(name: &str) -> (r: Option<ExtiWrapper>)
        ensures
            r is Some <==> name@ == "EXTI"@,
    {
        if str_eq(name, "EXTI") {
            Some(ExtiWrapper)
        } else {
            None
        }
    }
}

/// The SYSCFG register window, backed by the shared controller.
pub struct SyscfgWrapper;

impl SyscfgWrapper {
    pub fn new(name: &str) -> (r: Option<SyscfgWrapper>)
        ensures
            r is Some <==> name@ == "SYSCFG"@,
    {
        if str_eq(name, "SYSCFG") {
            Some(SyscfgWrapper)
        } else {
            None
        }
    }
}

/// Writing a 1 to a pending bit clears it, whatever else is written.
pub proof fn law_exti_pending_clears_on_write_one(e: Exti, line: u32)
    requires
        line < 32,
    ensures
        e.spec_write_exti(EXTI_PR, 1u32 << line).pr & (1u32 << line) == 0,
{
    let p = e.pr;
    assert(line < 32 ==> (p & !(1u32 << line)) & (1u32 << line) == 0) by (bit_vector);
}

/// A line that fired has its pending bit set.
pub proof fn law_exti_fired_line_is_pending(e: Exti, pin: u8)
    requires
        pin <= 15,
    ensures
        (e.pr | (1u32 << pin as u32)) & (1u32 << pin as u32) == (1u32 << pin as u32),
{
    let p = e.pr;
    let s = pin as u32;
    assert(s <= 15 ==> (p | (1u32 << s)) & (1u32 << s) == (1u32 << s)) by (bit_vector);
}

/// The 4-bit field `k` (0-3, from the low end) of a routing register.
pub open spec fn nibble(v: u32, k: int) -> int {
    if k == 0 {
        v as int % 16
    } else if k == 1 {
        (v as int / 16) % 16
    } else if k == 2 {
        (v as int / 256) % 16
    } else {
        (v as int / 4096) % 16
    }
}

/// The SYSCFG offset of the routing register of `line`: EXTICR1 for lines
/// 0-3, EXTICR2 for 4-7, EXTICR3 for 8-11, EXTICR4 for 12-15.
pub open spec fn routing_register_offset(line: u8) -> u32 {
    (0x08 + 4 * (line as int / 4)) as u32
}

proof fn lemma_nibbles(v: u32)
    ensures
        (v >> 0u32) & 0xF == nibble(v, 0),
        (v >> 4u32) & 0xF == nibble(v, 1),
        (v >> 8u32) & 0xF == nibble(v, 2),
        (v >> 12u32) & 0xF == nibble(v, 3),
{
    assert((v >> 0u32) & 0xF == v % 16) by (bit_vector);
    assert((v >> 4u32) & 0xF == (v / 16) % 16) by (bit_vector);
    assert((v >> 8u32) & 0xF == (v / 256) % 16) by (bit_vector);
    assert((v >> 12u32) & 0xF == (v / 4096) % 16) by (bit_vector);
}

/// Line `line` takes its GPIO port from field `line % 4` of its routing
/// register, EXTICR(`line / 4` + 1), as SYSCFG reads it back.
pub proof fn law_exti_line_routing(e: Exti, line: u8)
    requires
        line <= 15,
    ensures
        e.spec_port_for_line(line) as int == nibble(
            e.spec_read_syscfg(routing_register_offset(line)),
            line as int % 4,
        ),
{
    if line <= 3 {
        assert(routing_register_offset(line) == SYSCFG_EXTICR1);
        lemma_nibbles(e.exticr1);
    } else if line <= 7 {
        assert(routing_register_offset(line) == SYSCFG_EXTICR2);
        lemma_nibbles(e.exticr2);
    } else if line <= 11 {
        assert(routing_register_offset(line) == SYSCFG_EXTICR3);
        lemma_nibbles(e.exticr3);
    } else {
        assert(routing_register_offset(line) == SYSCFG_EXTICR4);
        lemma_nibbles(e.exticr4);
    }
}

/// After the routing register of `line` is written with `value`, an edge
/// on the unmasked line, armed for that edge, fires exactly when it comes
/// from the port that the line's field of `value` names.
pub proof fn law_exti_routed_edge_fires(e: Exti, line: u8, value: u32, port: u8, rising: bool)
    requires
        line <= 15,
        e.imr & (1u32 << line as u32) != 0,
        rising ==> e.rtsr & (1u32 << line as u32) != 0,
        !rising ==> e.ftsr & (1u32 << line as u32) != 0,
    ensures
        e.spec_write_syscfg(routing_register_offset(line), value).spec_line_fires(port, line, rising)
            <==> port as int == nibble(value, line as int % 4),
{
    let e1 = e.spec_write_syscfg(routing_register_offset(line), value);
    law_exti_line_routing(e1, line);
}

} // verus!

