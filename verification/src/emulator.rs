use vstd::prelude::*;
use crate::text::{hex_digits, push_hex};

verus! {

/// The initial stack pointer and reset handler at the start of a vector
/// table.
#[derive(Clone, Copy, Debug, PartialEq, Eq)]
pub struct VectorTable {
    pub sp: u32,
    pub reset: u32,
}

pub open spec fn le_u32(b0: u8, b1: u8, b2: u8, b3: u8) -> u32 {
    (b0 as int + b1 as int * 0x100 + b2 as int * 0x1_0000 + b3 as int * 0x100_0000) as u32
}

impl VectorTable {
    /// Reads the two little-endian words at the start of `bytes`.
    pub fn from_bytes(bytes: &[u8]) -> (t: VectorTable)
        requires
            bytes@.len() >= 8,
        ensures
            t.sp == le_u32(bytes@[0], bytes@[1], bytes@[2], bytes@[3]),
            t.reset == le_u32(bytes@[4], bytes@[5], bytes@[6], bytes@[7]),
    {
        let sp = bytes[0] as u32 + bytes[1] as u32 * 0x100 + bytes[2] as u32 * 0x1_0000 + bytes[3]
            as u32 * 0x100_0000;
        let reset = bytes[4] as u32 + bytes[5] as u32 * 0x100 + bytes[6] as u32 * 0x1_0000
            + bytes[7] as u32 * 0x100_0000;
        VectorTable { sp, reset }
    }
}

/// A code address with the Thumb bit set.
pub fn thumb(pc: u64) -> (r: u64)
    ensures
        r == pc | 1,
{
    pc | 1
}

/// A fetch address in the top page, where only the EXC_RETURN values
/// point: an exception return that was taken as a plain branch.
pub fn is_exception_return_pc(pc: u32) -> (r: bool)
    ensures
        r == (pc & 0xFFFF_FF00 == 0xFFFF_FF00),
{
    pc & 0xFFFF_FF00 == 0xFFFF_FF00
}

/// What is reported when the run stops at the stop address.
pub fn stop_address_state(pc: u32, r3: u32) -> (s: String)
    ensures
        s@ == "Stop address reached at pc=0x"@ + hex_digits(pc, 8) + " r3=0x"@ + hex_digits(r3, 8),
{
    let mut s = String::new();
    s.append("Stop address reached at pc=0x");
    push_hex(&mut s, pc, 8);
    s.append(" r3=0x");
    push_hex(&mut s, r3, 8);
    s
}

/// Bytes of the instruction at a faulting PC, from its first halfword: a
/// halfword from 0xE800 up starts a 32-bit Thumb-2 encoding. An unreadable
/// PC counts as a 16-bit instruction.
pub fn faulting_instruction_width(first_halfword: Option<u16>) -> (w: u64)
    ensures
        w == match first_halfword {
            Some(h) => if h >= 0xE800 {
                4u64
            } else {
                2u64
            },
            None => 2u64,
        },
{
    match first_halfword {
        Some(h) => if h >= 0xE800 {
            4
        } else {
            2
        },
        None => 2,
    }
}

/// Where execution resumes after skipping a faulting instruction.
pub fn resume_pc_after_fault(pc: u64, first_halfword: Option<u16>) -> (r: u64)
    requires
        pc <= u64::MAX - 4,
    ensures
        r == (pc + faulting_instruction_width_spec(first_halfword)) as u64 | 1,
{
    thumb(pc + faulting_instruction_width(first_halfword))
}

pub open spec fn faulting_instruction_width_spec(first_halfword: Option<u16>) -> u64 {
    match first_halfword {
        Some(h) => if h >= 0xE800 {
            4u64
        } else {
            2u64
        },
        None => 2u64,
    }
}

/// A stack word that looks like a return address into flash.
pub fn is_probable_return_address(v: u32) -> (r: bool)
    ensures
        r == (0x0800_0000 <= v < 0x0810_0000),
{
    0x0800_0000 <= v && v < 0x0810_0000
}

/// Instructions left before the limit, after `executed` of them.
pub fn remaining_instructions(max_instructions: Option<u64>, executed: u64) -> (r: Option<u64>)
    requires
        max_instructions matches Some(m) ==> executed <= m,
    ensures
        r == match max_instructions {
            Some(m) => Some((m - executed) as u64),
            None => None::<u64>,
        },
{
    match max_instructions {
        Some(m) => Some(m - executed),
        None => None,
    }
}

/// What the clock decides at the start of a translation block.
#[derive(Clone, Copy, Debug, PartialEq, Eq, Structural)]
pub struct BlockActions {
    /// The block jumps to itself: a busy loop, where the run stops when
    /// asked to.
    pub busy_loop: bool,
    /// Pending interrupts are to be delivered now.
    pub run_interrupts: bool,
    /// Devices and peripherals are to be polled now.
    pub poll: bool,
}

/// The emulated clock, advanced once per translation block by the block's
/// halfword count, and the deadlines of interrupt delivery and polling.
#[derive(Clone, Copy, Debug, PartialEq, Eq, Structural)]
pub struct BlockClock {
    pub last_block: u32,
    pub last_block_size: u32,
    pub instructions: u64,
    pub last_interrupt_check: u64,
    pub last_poll: u64,
}

pub open spec fn wrapping_sub64(a: u64, b: u64) -> u64 {
    if a >= b {
        (a - b) as u64
    } else {
        (a - b + 0x1_0000_0000_0000_0000) as u64
    }
}

pub open spec fn wrapping_add64(a: u64, b: u64) -> u64 {
    if a + b <= u64::MAX {
        (a + b) as u64
    } else {
        (a + b - 0x1_0000_0000_0000_0000) as u64
    }
}

impl BlockClock {
    pub fn new() -> (c: BlockClock)
        ensures
            c.last_block == 0 && c.last_block_size == 0 && c.instructions == 0
                && c.last_interrupt_check == 0 && c.last_poll == 0,
    {
        BlockClock {
            last_block: 0,
            last_block_size: 0,
            instructions: 0,
            last_interrupt_check: 0,
            last_poll: 0,
        }
    }

    /// A block of `size` bytes at `addr` starts. The clock advances by
    /// `(size + 1) / 2`; the checks use its value before the block.
    /// Interrupts are due once `interrupt_period` instructions have passed
    /// since they last ran, polling once `poll_interval + 1` have.
    pub fn on_block(
        &mut self,
        addr: u32,
        size: u32,
        busy_loop_stop: bool,
        interrupt_period: u64,
        poll_interval: u64,
    ) -> (a: BlockActions)
        requires
            poll_interval < u64::MAX,
        ensures
            a.busy_loop == (busy_loop_stop && size <= 4 && old(self).last_block == addr),
            final(self).last_block == addr,
            final(self).last_block_size == size,
            final(self).instructions == wrapping_add64(
                old(self).instructions,
                ((size as int + 1) / 2) as u64,
            ),
            a.run_interrupts == (wrapping_sub64(old(self).instructions, old(self).last_interrupt_check)
                >= interrupt_period),
            final(self).last_interrupt_check == if a.run_interrupts {
                old(self).instructions
            } else {
                old(self).last_interrupt_check
            },
            a.poll == (wrapping_sub64(old(self).instructions, old(self).last_poll) >= poll_interval
                + 1),
            final(self).last_poll == if a.poll {
                old(self).instructions
            } else {
                old(self).last_poll
            },
    {
        let busy_loop = busy_loop_stop && size <= 4 && self.last_block == addr;
        self.last_block = addr;
        self.last_block_size = size;
        let n = self.instructions;
        let step: u64 = (size as u64 + 1) / 2;
        self.instructions = n.wrapping_add(step);
        let run_interrupts = n.wrapping_sub(self.last_interrupt_check) >= interrupt_period;
        if run_interrupts {
            self.last_interrupt_check = n;
        }
        let poll = n.wrapping_sub(self.last_poll) >= poll_interval + 1;
        if poll {
            self.last_poll = n;
        }
        BlockActions { busy_loop, run_interrupts, poll }
    }
}

/// Why a run ended without an error.
#[derive(Clone, Copy, Debug, PartialEq, Eq, Structural)]
pub enum StopReason {
    InstructionLimit,
    Requested,
    StopAddress,
    BusyLoop,
}

/// What the run loop does after the engine returns.
#[derive(Clone, Copy, Debug, PartialEq, Eq, Structural)]
pub enum RunStep {
    /// Start the engine again at this (Thumb) address.
    Resume(u64),
    Stop(StopReason),
    /// The engine failed at this address and no skipped access explains it.
    Fail(u64),
}

/// The next step once the engine returned at `returned_pc`: a stop request
/// wins; an error is survived only when a bad memory access was skipped;
/// then the stop address and a detected busy loop end the run; otherwise
/// execution resumes where it left off.
pub fn after_engine_run(
    returned_pc: u64,
    stop_requested: bool,
    failed: bool,
    skipped_fault: bool,
    stop_addr: Option<u32>,
    busy_loop_reached: bool,
) -> (step: RunStep)
    ensures
        step == if stop_requested {
            RunStep::Stop(StopReason::Requested)
        } else if failed && skipped_fault {
            RunStep::Resume(returned_pc | 1)
        } else if failed {
            RunStep::Fail(returned_pc)
        } else if stop_addr == Some(returned_pc as u32) {
            RunStep::Stop(StopReason::StopAddress)
        } else if busy_loop_reached {
            RunStep::Stop(StopReason::BusyLoop)
        } else {
            RunStep::Resume(returned_pc | 1)
        },
{
    let pc = thumb(returned_pc);
    if stop_requested {
        return RunStep::Stop(StopReason::Requested);
    }
    if failed {
        if skipped_fault {
            let again = thumb(pc);
            assert((returned_pc | 1) | 1 == returned_pc | 1) by (bit_vector);
            return RunStep::Resume(again);
        }
        return RunStep::Fail(returned_pc);
    }
    let at_stop = match stop_addr {
        Some(a) => a == returned_pc as u32,
        None => false,
    };
    if at_stop {
        return RunStep::Stop(StopReason::StopAddress);
    }
    if busy_loop_reached {
        return RunStep::Stop(StopReason::BusyLoop);
    }
    RunStep::Resume(pc)
}

} // verus!
