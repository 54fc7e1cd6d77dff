use vstd::prelude::*;
use crate::text::{starts_with, str_eq};
use crate::peripherals::nvic::{Nvic, irq_bit};

verus! {

/// Byte span of the register block: LISR/HISR/LIFCR/HIFCR and 8 streams
/// of 6 registers each (stride 0x18 from 0x10).
pub const DMA_REGISTER_SPAN: u32 = 0xd0;

/// Direction of a stream transfer (CR.DIR, bits 6-7).
#[derive(Clone, Copy, Debug, PartialEq, Eq, Structural)]
pub enum Dir {
    Read,
    Write,
    MemCopy,
    Invalid,
}

/// A register access decoded from its offset.
#[derive(Clone, Copy, Debug, PartialEq, Eq)]
pub enum Access {
    Reg(u32),
    /// A stream register: stream index, register offset within the stream.
    StreamReg(usize, u32),
}

/// The shared registers (LISR, HISR, LIFCR, HIFCR) sit below 0x10; stream
/// `k`'s six registers start at 0x10 + 0x18 * k.
pub open spec fn spec_access(offset: u32) -> Access {
    if offset < 0x10 {
        Access::Reg(offset)
    } else {
        Access::StreamReg(((offset - 0x10) / 0x18) as usize, ((offset - 0x10) % 0x18) as u32)
    }
}

impl Access {
    /// Offsets below 0x10 are the shared registers; from there on the
    /// stream registers follow with a stride of 0x18.
    pub fn from_offset(offset: u32) -> (a: Access)
        ensures
            a == spec_access(offset),
    {
        if offset < 0x10 {
            Access::Reg(offset)
        } else {
            let stride: u32 = 0x18;
            let start: u32 = 0x10;
            let offset = offset - start;
            Access::StreamReg((offset / stride) as usize, offset % stride)
        }
    }
}

/// A transfer that enabling a stream asks for. Moving the bytes touches
/// guest memory, which the caller owns.
#[derive(Clone, Copy, Debug, PartialEq, Eq)]
pub struct TransferRequest {
    pub dir: Dir,
    pub channel: u8,
    pub peripheral_addr: u32,
    pub memory_addr: u32,
    /// Bytes to move: word size times NDTR.
    pub size: u64,
    pub src: u32,
    pub dst: u32,
}

/// One DMA stream's registers. `next_cr` is the value CR takes after the
/// next CR read (the enable bit drops one read after a transfer).
#[derive(Clone, Copy, Debug, PartialEq, Eq)]
pub struct Stream {
    pub cr: u32,
    pub next_cr: Option<u32>,
    pub ndtr: u32,
    pub par: u32,
    pub m0ar: u32,
    pub m1ar: u32,
    pub fcr: u32,
}

/// A stream as it is at reset: every register zero, no control value
/// waiting.
pub open spec fn spec_reset_stream() -> Stream {
    Stream { cr: 0, next_cr: None, ndtr: 0, par: 0, m0ar: 0, m1ar: 0, fcr: 0 }
}

pub open spec fn spec_dir(cr: u32) -> Dir {
    let d = (cr >> 6u32) & 3;
    if d == 0 {
        Dir::Read
    } else if d == 1 {
        Dir::Write
    } else if d == 2 {
        Dir::MemCopy
    } else {
        Dir::Invalid
    }
}

pub open spec fn spec_word_size(cr: u32) -> u64 {
    let w = (cr >> 11u32) & 3;
    if w == 0 {
        1
    } else if w == 1 {
        2
    } else if w == 2 {
        4
    } else {
        1
    }
}

impl Stream {
    pub open spec fn spec_data_size(self) -> u64 {
        (spec_word_size(self.cr) * self.ndtr) as u64
    }

    pub open spec fn spec_data_addr(self) -> u32 {
        if (self.cr >> 19u32) & 1 != 0 {
            self.m1ar
        } else {
            self.m0ar
        }
    }

    pub open spec fn spec_request(self) -> TransferRequest {
        let dir = spec_dir(self.cr);
        let data = self.spec_data_addr();
        TransferRequest {
            dir,
            channel: ((self.cr >> 25u32) & 7) as u8,
            peripheral_addr: self.par,
            memory_addr: data,
            size: self.spec_data_size(),
            src: match dir {
                Dir::Read => self.par,
                Dir::Write => data,
                Dir::MemCopy => self.par,
                Dir::Invalid => 0,
            },
            dst: match dir {
                Dir::Read => data,
                Dir::Write => self.par,
                Dir::MemCopy => data,
                Dir::Invalid => 0,
            },
        }
    }

    pub open spec fn spec_read_value(self, offset: u32) -> u32 {
        if offset == 0 {
            self.cr
        } else if offset == 4 {
            self.ndtr
        } else if offset == 8 {
            self.par
        } else if offset == 0xc {
            self.m0ar
        } else if offset == 0x10 {
            self.m1ar
        } else if offset == 0x14 {
            self.fcr
        } else {
            0
        }
    }

    /// The stream after a register read: reading CR applies a pending CR
    /// value, and a zero-length memory-to-peripheral transfer toggles the
    /// enable bit on every read so that firmware polling for it to rise and
    /// fall sees both edges at once.
    pub open spec fn spec_after_read(self, offset: u32) -> Stream {
        if offset == 0 {
            let cr = match self.next_cr {
                Some(n) => n,
                None => self.cr,
            };
            let s = Stream { cr, next_cr: None, ..self };
            if spec_dir(cr) == Dir::Write && s.spec_data_size() == 0 {
                Stream { next_cr: Some(cr ^ 1), ..s }
            } else {
                s
            }
        } else {
            self
        }
    }

    /// The stream after a register write.
    pub open spec fn spec_after_write(self, offset: u32, value: u32) -> Stream {
        if offset == 0 {
            if value & 1 != 0 {
                Stream { cr: value, ndtr: 0, next_cr: Some(value & !1u32), ..self }
            } else {
                Stream { cr: value, ..self }
            }
        } else if offset == 4 {
            Stream { ndtr: value & 0xFFFF, ..self }
        } else if offset == 8 {
            Stream { par: value, ..self }
        } else if offset == 0xc {
            Stream { m0ar: value, ..self }
        } else if offset == 0x10 {
            Stream { m1ar: value, ..self }
        } else if offset == 0x14 {
            Stream { fcr: value, ..self }
        } else {
            self
        }
    }

    pub fn default() -> (s: Stream)
        ensures
            s.cr == 0 && s.next_cr is None && s.ndtr == 0 && s.par == 0 && s.m0ar == 0 && s.m1ar
                == 0 && s.fcr == 0,
    {
        Stream { cr: 0, next_cr: None, ndtr: 0, par: 0, m0ar: 0, m1ar: 0, fcr: 0 }
    }

    pub fn channel(&self) -> (c: u8)
        ensures
            c == ((self.cr >> 25u32) & 7) as u8,
    {
        ((self.cr >> 25u32) & 0b111) as u8
    }

    pub fn dir(&self) -> (d: Dir)
        ensures
            d == spec_dir(self.cr),
    {
        let d = (self.cr >> 6u32) & 0b11;
        if d == 0 {
            Dir::Read
        } else if d == 1 {
            Dir::Write
        } else if d == 2 {
            Dir::MemCopy
        } else {
            Dir::Invalid
        }
    }

    /// 1, 2 or 4 bytes per item (8, 16 or 32 bits).
    pub fn word_size(&self) -> (w: u64)
        ensures
            w == spec_word_size(self.cr),
    {
        let w = (self.cr >> 11u32) & 0b11;
        if w == 0 {
            1
        } else if w == 1 {
            2
        } else if w == 2 {
            4
        } else {
            1
        }
    }

    pub fn data_size(&self) -> (n: u64)
        ensures
            n == self.spec_data_size(),
    {
        let w = self.word_size();
        assert(w <= 4);
        assert(w * self.ndtr <= 4 * 0xFFFF_FFFFu64) by (nonlinear_arith)
            requires
                w <= 4,
                self.ndtr <= 0xFFFF_FFFF,
        ;
        w * (self.ndtr as u64)
    }

    pub fn data_addr(&self) -> (a: u32)
        ensures
            a == self.spec_data_addr(),
    {
        if (self.cr >> 19u32) & 1 != 0 {
            self.m1ar
        } else {
            self.m0ar
        }
    }

    /// The transfer described by the current registers.
    pub fn request(&self) -> (r: TransferRequest)
        ensures
            r == self.spec_request(),
    {
        let dir = self.dir();
        let data = self.data_addr();
        let (src, dst) = match dir {
            Dir::Read => (self.par, data),
            Dir::Write => (data, self.par),
            Dir::MemCopy => (self.par, data),
            Dir::Invalid => (0, 0),
        };
        TransferRequest {
            dir,
            channel: self.channel(),
            peripheral_addr: self.par,
            memory_addr: data,
            size: self.data_size(),
            src,
            dst,
        }
    }

    pub fn read(&mut self, offset: u32) -> (v: u32)
        ensures
            v == old(self).spec_read_value(offset),
            *final(self) == old(self).spec_after_read(offset),
    {
        if offset == 0 {
            let v = self.cr;
            if let Some(next_cr) = self.next_cr {
                self.cr = next_cr;
            }
            self.next_cr = None;
            if self.dir() == Dir::Write && self.data_size() == 0 {
                self.next_cr = Some(self.cr ^ 1);
            }
            v
        } else if offset == 4 {
            self.ndtr
        } else if offset == 8 {
            self.par
        } else if offset == 0xc {
            self.m0ar
        } else if offset == 0x10 {
            self.m1ar
        } else if offset == 0x14 {
            self.fcr
        } else {
            0
        }
    }

    /// Writes a register. Setting CR's enable bit starts a transfer: the
    /// transfer it asks for is returned, NDTR drops to 0 and the enable bit
    /// clears on the next CR read.
    pub fn write(&mut self, offset: u32, value: u32) -> (r: Option<TransferRequest>)
        ensures
            *final(self) == old(self).spec_after_write(offset, value),
            (r is Some) <==> (offset == 0 && value & 1 != 0),
            r matches Some(t) ==> t == (Stream { cr: value, ..*old(self) }).spec_request(),
    {
        if offset == 0 {
            self.cr = value;
            if value & 1 != 0 {
                let t = self.request();
                self.ndtr = 0;
                self.next_cr = Some(value & !1u32);
                return Some(t);
            }
            None
        } else if offset == 4 {
            self.ndtr = value & 0xFFFF;
            None
        } else if offset == 8 {
            self.par = value;
            None
        } else if offset == 0xc {
            self.m0ar = value;
            None
        } else if offset == 0x10 {
            self.m1ar = value;
            None
        } else if offset == 0x14 {
            self.fcr = value;
            None
        } else {
            None
        }
    }
}

/// TCIF of stream `local_index` (0-3) within LISR/HISR: bit 5 of the
/// stream's flag group, the groups sitting at bits 0, 6, 16 and 22.
pub open spec fn spec_tcif_bit(local_index: usize) -> u32 {
    if local_index == 0 {
        0x20
    } else if local_index == 1 {
        0x800
    } else if local_index == 2 {
        0x20_0000
    } else {
        0x800_0000
    }
}

/// DMA1/DMA2 stream global interrupts (RM0410 vector table).
pub open spec fn spec_stream_irq(name: Seq<char>, stream_index: usize) -> Option<i32> {
    if name == "DMA1"@ {
        if stream_index == 0 {
            Some(11)
        } else if stream_index == 1 {
            Some(12)
        } else if stream_index == 2 {
            Some(13)
        } else if stream_index == 3 {
            Some(14)
        } else if stream_index == 4 {
            Some(15)
        } else if stream_index == 5 {
            Some(16)
        } else if stream_index == 6 {
            Some(17)
        } else if stream_index == 7 {
            Some(47)
        } else {
            None
        }
    } else if name == "DMA2"@ {
        if stream_index == 0 {
            Some(56)
        } else if stream_index == 1 {
            Some(57)
        } else if stream_index == 2 {
            Some(58)
        } else if stream_index == 3 {
            Some(59)
        } else if stream_index == 4 {
            Some(60)
        } else if stream_index == 5 {
            Some(68)
        } else if stream_index == 6 {
            Some(69)
        } else if stream_index == 7 {
            Some(70)
        } else {
            None
        }
    } else {
        None
    }
}

/// A DMA controller: eight streams plus the interrupt status registers.
/// Only the transfer-complete flags are ever set.
pub struct Dma {
    pub name: String,
    pub streams: Vec<Stream>,
    pub lisr: u32,
    pub hisr: u32,
}

impl Dma {
    pub open spec fn wf(self) -> bool {
        self.streams@.len() == 8
    }

    /// The status registers after stream `i` completes a transfer.
    pub open spec fn spec_flagged(self, i: usize) -> (u32, u32) {
        if i < 4 {
            (self.lisr | spec_tcif_bit(i % 4), self.hisr)
        } else {
            (self.lisr, self.hisr | spec_tcif_bit(i % 4))
        }
    }

    /// What a register read gives.
    pub open spec fn spec_read_value(self, offset: u32) -> u32 {
        match spec_access(offset) {
            Access::Reg(r) => if r == 0 {
                self.lisr
            } else if r == 4 {
                self.hisr
            } else {
                0
            },
            Access::StreamReg(i, o) => self.streams@[i as int].spec_read_value(o),
        }
    }

    /// How a register read leaves the controller: only the stream read
    /// may change.
    pub open spec fn spec_read_next(self, next: Dma, offset: u32) -> bool {
        &&& next.wf()
        &&& next.name == self.name
        &&& next.lisr == self.lisr
        &&& next.hisr == self.hisr
        &&& next.streams@ == match spec_access(offset) {
            Access::Reg(_) => self.streams@,
            Access::StreamReg(i, o) => self.streams@.update(
                i as int,
                self.streams@[i as int].spec_after_read(o),
            ),
        }
    }

    /// How a register write leaves the controller and the pending
    /// interrupts, and the transfer it asks for.
    pub open spec fn spec_write_next(
        self,
        next: Dma,
        offset: u32,
        value: u32,
        pending: u128,
        next_pending: u128,
        r: Option<TransferRequest>,
    ) -> bool {
        &&& next.wf()
        &&& next.name == self.name
        &&& match spec_access(offset) {
            Access::Reg(reg) => {
                &&& r is None
                &&& next.streams@ == self.streams@
                &&& next_pending == pending
                &&& next.lisr == if reg == 8 {
                    self.lisr & !value
                } else {
                    self.lisr
                }
                &&& next.hisr == if reg == 0xc {
                    self.hisr & !value
                } else {
                    self.hisr
                }
            },
            Access::StreamReg(i, o) => {
                let s = self.streams@[i as int];
                &&& next.streams@ == self.streams@.update(i as int, s.spec_after_write(o, value))
                &&& (r is Some) <==> (o == 0 && value & 1 != 0)
                &&& r matches Some(t) ==> t == (Stream { cr: value, ..s }).spec_request()
                &&& (r is Some) ==> (next.lisr, next.hisr) == self.spec_flagged(i)
                &&& (r is None) ==> next.lisr == self.lisr && next.hisr == self.hisr
                &&& next_pending == if r is Some && value & 0x10 != 0 && spec_stream_irq(
                    self.name@,
                    i,
                ) is Some {
                    pending | (1u128 << irq_bit(spec_stream_irq(self.name@, i).unwrap()))
                } else {
                    pending
                }
            },
        }
    }

    pub fn named(name: String) -> (d: Dma)
        ensures
            d.wf(),
            d.name@ == name@,
            d.lisr == 0 && d.hisr == 0,
            forall|i: int| 0 <= i < 8 ==> d.streams@[i] == (Stream {
                cr: 0,
                next_cr: None,
                ndtr: 0,
                par: 0,
                m0ar: 0,
                m1ar: 0,
                fcr: 0,
            }),
    {
        let mut streams: Vec<Stream> = Vec::new();
        let mut i: usize = 0;
        while i < 8
            invariant
                i <= 8,
                streams@.len() == i,
                forall|j: int| 0 <= j < i ==> streams@[j] == (Stream {
                    cr: 0,
                    next_cr: None,
                    ndtr: 0,
                    par: 0,
                    m0ar: 0,
                    m1ar: 0,
                    fcr: 0,
                }),
            decreases 8 - i,
        {
            streams.push(Stream::default());
            i += 1;
        }
        Dma { name, streams, lisr: 0, hisr: 0 }
    }

    /// Every peripheral whose name starts with `DMA` is a DMA controller.
    pub fn new(name: &str) -> (r: Option<Dma>)
        ensures
            r is Some <==> crate::text::is_prefix("DMA"@, name@),
            r matches Some(d) ==> d.wf() && d.name@ == name@ && d.lisr == 0 && d.hisr == 0
                && forall|i: int| 0 <= i < 8 ==> d.streams@[i] == spec_reset_stream(),
    {
        if starts_with(name, "DMA") {
            Some(Self::named(name.to_owned()))
        } else {
            None
        }
    }

    pub fn tcif_bit(local_index: usize) -> (b: u32)
        requires
            local_index < 4,
        ensures
            b == spec_tcif_bit(local_index),
    {
        let base: u32 = if local_index < 2 {
            (local_index * 6) as u32
        } else {
            (16 + (local_index - 2) * 6) as u32
        };
        let b = 1u32 << (base + 5);
        proof {
            if local_index == 0 {
                assert(1u32 << 5u32 == 0x20) by (bit_vector);
            } else if local_index == 1 {
                assert(1u32 << 11u32 == 0x800) by (bit_vector);
            } else if local_index == 2 {
                assert(1u32 << 21u32 == 0x20_0000) by (bit_vector);
            } else {
                assert(1u32 << 27u32 == 0x800_0000) by (bit_vector);
            }
        }
        b
    }

    pub fn set_transfer_complete_flag(&mut self, stream_index: usize)
        ensures
            (final(self).lisr, final(self).hisr) == old(self).spec_flagged(stream_index),
            final(self).streams == old(self).streams,
            final(self).name == old(self).name,
    {
        let bit = Self::tcif_bit(stream_index % 4);
        if stream_index < 4 {
            self.lisr = self.lisr | bit;
        } else {
            self.hisr = self.hisr | bit;
        }
    }

    pub fn stream_irq(dma_name: &str, stream_index: usize) -> (r: Option<i32>)
        ensures
            r == spec_stream_irq(dma_name@, stream_index),
    {
        if str_eq(dma_name, "DMA1") {
            if stream_index == 0 {
                Some(11)
            } else if stream_index == 1 {
                Some(12)
            } else if stream_index == 2 {
                Some(13)
            } else if stream_index == 3 {
                Some(14)
            } else if stream_index == 4 {
                Some(15)
            } else if stream_index == 5 {
                Some(16)
            } else if stream_index == 6 {
                Some(17)
            } else if stream_index == 7 {
                Some(47)
            } else {
                None
            }
        } else if str_eq(dma_name, "DMA2") {
            if stream_index == 0 {
                Some(56)
            } else if stream_index == 1 {
                Some(57)
            } else if stream_index == 2 {
                Some(58)
            } else if stream_index == 3 {
                Some(59)
            } else if stream_index == 4 {
                Some(60)
            } else if stream_index == 5 {
                Some(68)
            } else if stream_index == 6 {
                Some(69)
            } else if stream_index == 7 {
                Some(70)
            } else {
                None
            }
        } else {
            None
        }
    }

    pub fn read(&mut self, offset: u32) -> (v: u32)
        requires
            old(self).wf(),
            offset < DMA_REGISTER_SPAN,
        ensures
            v == old(self).spec_read_value(offset),
            old(self).spec_read_next(*final(self), offset),
    {
        match Access::from_offset(offset) {
            Access::Reg(r) => {
                if r == 0 {
                    self.lisr
                } else if r == 4 {
                    self.hisr
                } else {
                    0
                }
            },
            Access::StreamReg(i, o) => {
                let mut s = self.streams[i];
                let v = s.read(o);
                self.streams.set(i, s);
                v
            },
        }
    }

    /// Writes a register. LIFCR/HIFCR clear the flags written as 1. Enabling
    /// a stream sets its transfer-complete flag, raises the stream's
    /// interrupt when CR.TCIE (bit 4) is set, and returns the transfer to
    /// perform.
    pub fn write(&mut self, offset: u32, value: u32, nvic: &mut Nvic) -> (r: Option<
        TransferRequest,
    >)
        requires
            old(self).wf(),
            offset < DMA_REGISTER_SPAN,
        ensures
            final(nvic).same_except_pending(*old(nvic)),
            old(self).spec_write_next(*final(self), offset, value, old(nvic).pending, final(nvic).pending, r),
    {
        match Access::from_offset(offset) {
            Access::Reg(reg) => {
                if reg == 8 {
                    self.lisr = self.lisr & !value;
                } else if reg == 0xc {
                    self.hisr = self.hisr & !value;
                }
                None
            },
            Access::StreamReg(i, o) => {
                let mut s = self.streams[i];
                let r = s.write(o, value);
                self.streams.set(i, s);
                if r.is_some() {
                    self.set_transfer_complete_flag(i);
                    let tcie = s.cr & 0x10 != 0;
                    if tcie {
                        if let Some(irq) = Self::stream_irq(self.name.as_str(), i) {
                            nvic.set_intr_pending(irq);
                        }
                    }
                }
                r
            },
        }
    }
}

/// The flag group of a stream's local index 0-3 within LISR/HISR starts
/// at bit 0, 6, 16 or 22 (RM0410).
pub open spec fn flag_group_offset(local_index: int) -> u32 {
    if local_index == 0 {
        0
    } else if local_index == 1 {
        6
    } else if local_index == 2 {
        16
    } else {
        22
    }
}

/// A completed transfer of stream `i` sets exactly its TCIF, bit 5 of
/// its flag group: in LISR for streams 0-3 and in HISR for streams 4-7,
/// leaving the other status register and every other bit as they were.
pub proof fn law_dma_completion_sets_tcif(d: Dma, i: usize)
    requires
        i < 8,
    ensures
        ({
            let (l, h) = d.spec_flagged(i);
            let bit = 1u32 << (flag_group_offset(i as int % 4) + 5);
            if i < 4 {
                l == d.lisr | bit && h == d.hisr
            } else {
                h == d.hisr | bit && l == d.lisr
            }
        }),
{
    assert(1u32 << (0u32 + 5) == 0x20u32) by (bit_vector);
    assert(1u32 << (6u32 + 5) == 0x800u32) by (bit_vector);
    assert(1u32 << (16u32 + 5) == 0x20_0000u32) by (bit_vector);
    assert(1u32 << (22u32 + 5) == 0x800_0000u32) by (bit_vector);
}

} // verus!

