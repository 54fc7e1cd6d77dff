use vstd::prelude::*;
use crate::text::str_eq;
use crate::peripherals::gpio::Pin;
use crate::ext_devices::ecu_io::EcuIo;

verus! {

pub const ADC_SR: u32 = 0x00;
pub const ADC_CR1: u32 = 0x04;
pub const ADC_CR2: u32 = 0x08;
pub const ADC_SMPR1: u32 = 0x0C;
pub const ADC_SMPR2: u32 = 0x10;
pub const ADC_SQR1: u32 = 0x2C;
pub const ADC_SQR2: u32 = 0x30;
pub const ADC_SQR3: u32 = 0x34;
pub const ADC_DR: u32 = 0x4C;
/// CR2.SWSTART: restart the regular sequence.
pub const CR2_SWSTART: u32 = 0x4000_0000;

/// 12-bit counts for `millivolts`, clamped to the 0-3300 mV reference.
pub open spec fn spec_millivolts_to_counts(millivolts: i32) -> u32 {
    let c: int = if millivolts < 0 {
        0
    } else if millivolts > 3300 {
        3300
    } else {
        millivolts as int
    };
    (c * 4095 / 3300) as u32
}

/// The GPIO pin of ADC channel `ch` (0-15): PA0-PA7, PB0-PB1, PC0-PC5.
pub open spec fn spec_channel_pin(ch: int) -> Pin {
    if ch < 8 {
        Pin { port: 0, number: ch as u8 }
    } else if ch < 10 {
        Pin { port: 1, number: (ch - 8) as u8 }
    } else {
        Pin { port: 2, number: (ch - 10) as u8 }
    }
}

/// ADC1 model: DR reads walk the regular sequence (SQR1-3) and convert the
/// millivolts that the ECU harness holds for each channel's pin.
pub struct Adc {
    pub cr1: u32,
    pub cr2: u32,
    pub smpr1: u32,
    pub smpr2: u32,
    pub sqr1: u32,
    pub sqr2: u32,
    pub sqr3: u32,
    pub sr: u32,
    pub sequence_index: u32,
}

impl Adc {
    pub open spec fn wf(self) -> bool {
        self.sequence_index < 16
    }

    /// Length of the regular sequence, SQR1.L + 1.
    pub open spec fn spec_num_channels(self) -> u32 {
        let n = ((self.sqr1 >> 20u32) & 0xF) + 1;
        if n < 16 {
            n as u32
        } else {
            16
        }
    }

    /// Channel at sequence position `n` (5 bits per position).
    pub open spec fn spec_channel_at(self, n: u32) -> u32 {
        if n < 6 {
            (self.sqr3 >> (n * 5) as u32) & 0x1F
        } else if n < 12 {
            (self.sqr2 >> ((n - 6) * 5) as u32) & 0x1F
        } else {
            (self.sqr1 >> ((n - 12) * 5) as u32) & 0x1F
        }
    }

    pub open spec fn spec_channel_millivolts(ecu: Option<EcuIo>, channel: u32) -> i32 {
        if channel < 16 {
            match ecu {
                Some(e) => e.spec_adc_millivolts(spec_channel_pin(channel as int)),
                None => 0,
            }
        } else {
            0
        }
    }

    /// The value the next conversion yields.
    pub open spec fn spec_conversion(self, ecu: Option<EcuIo>) -> u32 {
        let n = self.spec_num_channels();
        spec_millivolts_to_counts(
            Self::spec_channel_millivolts(ecu, self.spec_channel_at(self.sequence_index % n)),
        )
    }

    /// The converter after a conversion: the sequence moves on, wrapping.
    pub open spec fn spec_after_conversion(self) -> Adc {
        let n = self.spec_num_channels();
        Adc { sequence_index: ((self.sequence_index % n + 1) % (n as int)) as u32, ..self }
    }

    /// The values of `k` conversions in a row, and the converter after
    /// them.
    pub open spec fn spec_conversion_run(self, ecu: Option<EcuIo>, k: nat) -> (Seq<u32>, Adc)
        decreases k,
    {
        if k == 0 {
            (Seq::empty(), self)
        } else {
            let (vals, a) = self.spec_conversion_run(ecu, (k - 1) as nat);
            (vals.push(a.spec_conversion(ecu)), a.spec_after_conversion())
        }
    }

    pub open spec fn spec_read_value(self, offset: u32, ecu: Option<EcuIo>) -> u32 {
        if offset == ADC_SR {
            self.sr
        } else if offset == ADC_CR1 {
            self.cr1
        } else if offset == ADC_CR2 {
            self.cr2
        } else if offset == ADC_SMPR1 {
            self.smpr1
        } else if offset == ADC_SMPR2 {
            self.smpr2
        } else if offset == ADC_SQR1 {
            self.sqr1
        } else if offset == ADC_SQR2 {
            self.sqr2
        } else if offset == ADC_SQR3 {
            self.sqr3
        } else if offset == ADC_DR {
            self.spec_conversion(ecu)
        } else {
            0
        }
    }

    pub open spec fn spec_write(self, offset: u32, value: u32) -> Adc {
        if offset == ADC_SR {
            Adc { sr: value, ..self }
        } else if offset == ADC_CR1 {
            Adc { cr1: value, ..self }
        } else if offset == ADC_CR2 {
            Adc {
                cr2: value,
                sequence_index: if value & CR2_SWSTART != 0 {
                    0
                } else {
                    self.sequence_index
                },
                ..self
            }
        } else if offset == ADC_SMPR1 {
            Adc { smpr1: value, ..self }
        } else if offset == ADC_SMPR2 {
            Adc { smpr2: value, ..self }
        } else if offset == ADC_SQR1 {
            Adc { sqr1: value, ..self }
        } else if offset == ADC_SQR2 {
            Adc { sqr2: value, ..self }
        } else if offset == ADC_SQR3 {
            Adc { sqr3: value, ..self }
        } else {
            self
        }
    }

    pub fn for_test() -> (a: Adc)
        ensures
            a.wf(),
            a.cr1 == 0 && a.cr2 == 0 && a.smpr1 == 0 && a.smpr2 == 0 && a.sqr1 == 0 && a.sqr2 == 0
                && a.sqr3 == 0 && a.sr == 0 && a.sequence_index == 0,
    {
        Adc {
            cr1: 0,
            cr2: 0,
            smpr1: 0,
            smpr2: 0,
            sqr1: 0,
            sqr2: 0,
            sqr3: 0,
            sr: 0,
            sequence_index: 0,
        }
    }

    pub fn new(name: &str) -> (r: Option<Adc>)
        ensures
            r is Some <==> name@ == "ADC1"@,
            r matches Some(a) ==> a.wf() && a.cr1 == 0 && a.cr2 == 0 && a.smpr1 == 0 && a.smpr2 == 0
                && a.sqr1 == 0 && a.sqr2 == 0 && a.sqr3 == 0 && a.sr == 0 && a.sequence_index == 0,
    {
        if str_eq(name, "ADC1") {
            Some(Self::for_test())
        } else {
            None
        }
    }

    pub fn millivolts_to_counts(millivolts: i32) -> (c: u32)
        ensures
            c == spec_millivolts_to_counts(millivolts),
            c <= 4095,
    {
        let clamped: u32 = if millivolts < 0 {
            0
        } else if millivolts > 3300 {
            3300
        } else {
            millivolts as u32
        };
        assert(clamped * 4095 <= 3300 * 4095) by (nonlinear_arith)
            requires
                clamped <= 3300,
        ;
        assert(clamped * 4095 / 3300 <= 4095) by (nonlinear_arith)
            requires
                clamped <= 3300,
        ;
        (clamped * 4095) / 3300
    }

    pub fn channel_pin(channel: u32) -> (p: Pin)
        requires
            channel < 16,
        ensures
            p == spec_channel_pin(channel as int),
    {
        if channel < 8 {
            Pin { port: 0, number: channel as u8 }
        } else if channel < 10 {
            Pin { port: 1, number: (channel - 8) as u8 }
        } else {
            Pin { port: 2, number: (channel - 10) as u8 }
        }
    }

    pub fn num_channels(&self) -> (n: u32)
        ensures
            n == self.spec_num_channels(),
            1 <= n <= 16,
    {
        let x = self.sqr1;
        assert((x >> 20u32) & 0xF <= 15) by (bit_vector);
        let n = ((self.sqr1 >> 20u32) & 0xF) + 1;
        if n < 16 {
            n
        } else {
            16
        }
    }

    pub fn channel_at(&self, n: u32) -> (c: u32)
        requires
            n < 16,
        ensures
            c == self.spec_channel_at(n),
    {
        if n < 6 {
            (self.sqr3 >> (n * 5)) & 0x1F
        } else if n < 12 {
            (self.sqr2 >> ((n - 6) * 5)) & 0x1F
        } else {
            (self.sqr1 >> ((n - 12) * 5)) & 0x1F
        }
    }

    fn channel_millivolts(ecu: Option<&EcuIo>, channel: u32) -> (mv: i32)
        requires
            ecu matches Some(e) ==> e.wf(),
        ensures
            mv == Self::spec_channel_millivolts(
                match ecu {
                    Some(e) => Some(*e),
                    None => None,
                },
                channel,
            ),
    {
        if channel < 16 {
            match ecu {
                Some(e) => e.adc_millivolts(Self::channel_pin(channel)),
                None => 0,
            }
        } else {
            0
        }
    }

    /// Converts the channel at the current sequence position and moves on.
    pub fn next_conversion_value(&mut self, ecu: Option<&EcuIo>) -> (v: u32)
        requires
            old(self).wf(),
            ecu matches Some(e) ==> e.wf(),
        ensures
            final(self).wf(),
            v == old(self).spec_conversion(
                match ecu {
                    Some(e) => Some(*e),
                    None => None,
                },
            ),
            *final(self) == old(self).spec_after_conversion(),
    {
        let n = self.num_channels();
        let channel = self.channel_at(self.sequence_index % n);
        self.sequence_index = (self.sequence_index % n + 1) % n;
        Self::millivolts_to_counts(Self::channel_millivolts(ecu, channel))
    }

    /// A register read; reading DR performs a conversion.
    pub fn register_read(&mut self, offset: u32, ecu: Option<&EcuIo>) -> (v: u32)
        requires
            old(self).wf(),
            ecu matches Some(e) ==> e.wf(),
        ensures
            final(self).wf(),
            v == old(self).spec_read_value(
                offset,
                match ecu {
                    Some(e) => Some(*e),
                    None => None,
                },
            ),
            *final(self) == if offset == ADC_DR {
                old(self).spec_after_conversion()
            } else {
                *old(self)
            },
    {
        if offset == ADC_SR {
            self.sr
        } else if offset == ADC_CR1 {
            self.cr1
        } else if offset == ADC_CR2 {
            self.cr2
        } else if offset == ADC_SMPR1 {
            self.smpr1
        } else if offset == ADC_SMPR2 {
            self.smpr2
        } else if offset == ADC_SQR1 {
            self.sqr1
        } else if offset == ADC_SQR2 {
            self.sqr2
        } else if offset == ADC_SQR3 {
            self.sqr3
        } else if offset == ADC_DR {
            self.next_conversion_value(ecu)
        } else {
            0
        }
    }

    /// A register write; CR2.SWSTART restarts the sequence.
    pub fn register_write(&mut self, offset: u32, value: u32)
        requires
            old(self).wf(),
        ensures
            final(self).wf(),
            *final(self) == old(self).spec_write(offset, value),
    {
        if offset == ADC_SR {
            self.sr = value;
        } else if offset == ADC_CR1 {
            self.cr1 = value;
        } else if offset == ADC_CR2 {
            if value & CR2_SWSTART != 0 {
                self.sequence_index = 0;
            }
            self.cr2 = value;
        } else if offset == ADC_SMPR1 {
            self.smpr1 = value;
        } else if offset == ADC_SMPR2 {
            self.smpr2 = value;
        } else if offset == ADC_SQR1 {
            self.sqr1 = value;
        } else if offset == ADC_SQR2 {
            self.sqr2 = value;
        } else if offset == ADC_SQR3 {
            self.sqr3 = value;
        }
    }

    /// A DMA read of `size` bytes. From DR, each halfword is one conversion
    /// (low byte first) and an odd last byte is not produced; from any other
    /// register, every byte is the register's low byte.
    pub fn dma_read_bytes(&mut self, offset: u32, size: usize, ecu: Option<&EcuIo>) -> (r: Vec<
        u8,
    >)
        requires
            old(self).wf(),
            ecu matches Some(e) ==> e.wf(),
        ensures
            final(self).wf(),
            offset != ADC_DR ==> r@ == Seq::new(
                size as nat,
                |i: int| old(self).spec_read_value(offset, None) as u8,
            ) && *final(self) == *old(self),
            offset == ADC_DR ==> r@ == spec_halfword_bytes(
                old(self).spec_conversion_run(
                    match ecu {
                        Some(e) => Some(*e),
                        None => None,
                    },
                    (size / 2) as nat,
                ).0,
            ) && *final(self) == old(self).spec_conversion_run(
                match ecu {
                    Some(e) => Some(*e),
                    None => None,
                },
                (size / 2) as nat,
            ).1,
    {
        let ghost e = match ecu {
            Some(x) => Some(*x),
            None => None,
        };
        let mut v: Vec<u8> = Vec::new();
        if offset != ADC_DR {
            let mut i: usize = 0;
            while i < size
                invariant
                    i <= size,
                    offset != ADC_DR,
                    self.wf(),
                    *self == *old(self),
                    v@ == Seq::new(i as nat, |j: int| old(self).spec_read_value(offset, None) as u8),
                decreases size - i,
            {
                let x = self.register_read(offset, None);
                v.push(x as u8);
                assert(v@ =~= Seq::new(
                    (i + 1) as nat,
                    |j: int| old(self).spec_read_value(offset, None) as u8,
                ));
                i += 1;
            }
            return v;
        }
        let mut remaining = size;
        while remaining >= 2
            invariant
                remaining <= size,
                self.wf(),
                ecu matches Some(x) ==> x.wf(),
                e == match ecu {
                    Some(x) => Some(*x),
                    None => None,
                },
                (size - remaining) % 2 == 0,
                v@ == spec_halfword_bytes(
                    old(self).spec_conversion_run(e, ((size - remaining) / 2) as nat).0,
                ),
                *self == old(self).spec_conversion_run(e, ((size - remaining) / 2) as nat).1,
            decreases remaining,
        {
            let ghost k = ((size - remaining) / 2) as nat;
            let ghost vals = old(self).spec_conversion_run(e, k).0;
            let value = self.next_conversion_value(ecu);
            v.push((value & 0xFF) as u8);
            v.push(((value >> 8u32) & 0xFF) as u8);
            remaining -= 2;
            proof {
                assert(((size - remaining) / 2) as nat == k + 1);
                let vals2 = old(self).spec_conversion_run(e, k + 1).0;
                assert(vals2 == vals.push(value));
                assert(v@ =~= spec_halfword_bytes(vals2));
            }
        }
        assert(((size - remaining) / 2) as nat == (size / 2) as nat);
        v
    }
}

/// Conversion values as DMA delivers them: each as a halfword, low byte
/// first.
pub open spec fn spec_halfword_bytes(vals: Seq<u32>) -> Seq<u8> {
    Seq::new(
        2 * vals.len(),
        |i: int|
            if i % 2 == 0 {
                (vals[i / 2] & 0xFF) as u8
            } else {
                ((vals[i / 2] >> 8u32) & 0xFF) as u8
            },
    )
}

/// After `len` conversions over a sequence of `len` channels, the
/// sequence is back at its first position.
pub proof fn law_adc_sequence_wraps(a: Adc)
    requires
        a.wf(),
        a.sequence_index < a.spec_num_channels(),
    ensures
        a.spec_after_conversion().sequence_index == (a.sequence_index + 1) % (a.spec_num_channels() as int),
{
    let n = a.spec_num_channels();
    let i = a.sequence_index;
    assert(i % n == i) by (nonlinear_arith)
        requires
            0 <= i < n,
    ;
}

} // verus!
