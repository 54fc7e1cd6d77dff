use vstd::prelude::*;
use std::collections::VecDeque;
use crate::bytes::{copy_range, first_index, keep_last, lemma_first_index, position, push_capped_deque, push_capped_vec};
use crate::name_map::NameMap;
use crate::peripherals::exti::{spec_irq_for_line, Exti};
use crate::peripherals::gpio::{spec_parse_pin, Pin};
use crate::peripherals::nvic::{irq_bit, Nvic};
use crate::text::{
    chars_of, decode_utf8_lossy, digits_value, lead, parse_i32, spec_parse_i32, spec_trim, substring,
    trail, trim, utf8_lossy,
};

verus! {

#[derive(Clone, Copy, Debug, PartialEq, Eq, Structural)]
pub enum EcuIoPinDirection {
    Input,
    Output,
}

#[derive(Clone, Debug)]
pub struct EcuIoPinConfig {
    pub name: String,
    pub pin: String,
    pub direction: EcuIoPinDirection,
}

#[derive(Clone, Debug)]
pub struct EcuIoAdcChannelConfig {
    pub name: String,
    pub pin: String,
}

#[derive(Clone, Debug)]
pub struct EcuIoTriggerWheelConfig {
    /// Inbound `name=value` signal that sets the wheel's RPM.
    pub signal: String,
    /// Input pin signal whose level the wheel drives.
    pub pin_signal: String,
    pub teeth: u32,
    pub missing: u32,
}

#[derive(Clone, Debug)]
pub struct EcuIoConfig {
    pub listen: String,
    pub pins: Vec<EcuIoPinConfig>,
    pub adc_channels: Vec<EcuIoAdcChannelConfig>,
    pub trigger_wheel: Option<EcuIoTriggerWheelConfig>,
}

} // verus!

verus! {

/// Cap on the receive buffer and the outgoing queue.
pub const MAX_BUFFERED_BYTES: usize = 65536;

/// What became of one received line.
#[derive(Clone, Copy, Debug, PartialEq, Eq, Structural)]
pub enum LineOutcome {
    /// `name=value` for a configured name: the value is stored.
    Stored,
    /// `name=value` for a name that is not configured: ignored.
    UnknownName,
    /// The value is not a 32-bit integer: ignored.
    MalformedValue,
    /// No `=` in the line: ignored.
    MalformedLine,
}

/// Index of the first `c` in `s`, or -1.
pub open spec fn first_char_index(s: Seq<char>, c: char) -> int
    decreases s.len(),
{
    if s.len() == 0 {
        -1
    } else if s[0] == c {
        0
    } else {
        let r = first_char_index(s.skip(1), c);
        if r < 0 {
            -1
        } else {
            r + 1
        }
    }
}

/// The effect of one line on the stored values.
pub open spec fn spec_handle_line(
    values: Map<Seq<char>, i32>,
    known: Set<Seq<char>>,
    line: Seq<char>,
) -> (Map<Seq<char>, i32>, LineOutcome) {
    let k = first_char_index(line, '=');
    if k < 0 {
        (values, LineOutcome::MalformedLine)
    } else {
        let name = spec_trim(line.take(k));
        match spec_parse_i32(spec_trim(line.skip(k + 1))) {
            None => (values, LineOutcome::MalformedValue),
            Some(v) => if known.contains(name) {
                (values.insert(name, v), LineOutcome::Stored)
            } else {
                (values, LineOutcome::UnknownName)
            },
        }
    }
}

/// The values after handling every complete line of `buf`, and the bytes
/// of the incomplete line that remain.
pub open spec fn spec_process_lines(
    values: Map<Seq<char>, i32>,
    known: Set<Seq<char>>,
    buf: Seq<u8>,
) -> (Map<Seq<char>, i32>, Seq<u8>)
    decreases buf.len(),
{
    let k = first_index(buf, 10u8);
    if k < 0 || k >= buf.len() {
        (values, buf)
    } else {
        let line = spec_trim(utf8_lossy(buf.take(k)));
        let next = if line.len() == 0 {
            values
        } else {
            spec_handle_line(values, known, line).0
        };
        spec_process_lines(next, known, buf.skip(k + 1))
    }
}

/// The state that delivering digital input edges works on.
pub struct EdgeState {
    pub exti: Exti,
    pub pending: u128,
    pub last: Map<Seq<char>, bool>,
}

/// One input pin's turn: when its level differs from the last level seen,
/// the edge goes to EXTI (which may raise its line's interrupt) and the new
/// level is remembered.
pub open spec fn spec_edge_step(
    st: EdgeState,
    values: Map<Seq<char>, i32>,
    pin: Pin,
    name: Seq<char>,
) -> EdgeState {
    let level = values.contains_key(name) && values[name] != 0;
    let previous = st.last.contains_key(name) && st.last[name];
    if level == previous {
        st
    } else {
        let fires = st.exti.spec_line_fires(pin.port, pin.number, level);
        EdgeState {
            exti: if fires {
                Exti { pr: st.exti.pr | (1u32 << pin.number as u32), ..st.exti }
            } else {
                st.exti
            },
            pending: if fires {
                st.pending | (1u128 << irq_bit(spec_irq_for_line(pin.number)))
            } else {
                st.pending
            },
            last: st.last.insert(name, level),
        }
    }
}

pub open spec fn spec_edges(
    st: EdgeState,
    values: Map<Seq<char>, i32>,
    pins: Seq<(Pin, String)>,
    n: int,
) -> EdgeState
    decreases n,
{
    if n <= 0 {
        st
    } else {
        spec_edge_step(spec_edges(st, values, pins, n - 1), values, pins[n - 1].0, pins[n - 1].1@)
    }
}

/// The ADC table of a harness: each channel whose pin parses, with its
/// name, in configuration order.
pub open spec fn spec_adc_table(chans: Seq<EcuIoAdcChannelConfig>) -> Seq<(Pin, String)>
    decreases chans.len(),
{
    if chans.len() == 0 {
        Seq::empty()
    } else {
        let prev = spec_adc_table(chans.drop_last());
        match spec_parse_pin(chans.last().pin@) {
            Some(p) => prev.push((p, chans.last().name)),
            None => prev,
        }
    }
}

/// The digital-input table of a harness: each input pin whose pin name
/// parses, with its signal name, in configuration order.
pub open spec fn spec_input_table(pins: Seq<EcuIoPinConfig>) -> Seq<(Pin, String)>
    decreases pins.len(),
{
    if pins.len() == 0 {
        Seq::empty()
    } else {
        let prev = spec_input_table(pins.drop_last());
        let c = pins.last();
        if c.direction == EcuIoPinDirection::Input {
            match spec_parse_pin(c.pin@) {
                Some(p) => prev.push((p, c.name)),
                None => prev,
            }
        } else {
            prev
        }
    }
}

/// ECU signal harness: named pin levels and ADC millivolts fed by a host
/// over a `name=value` line protocol, and firmware output levels reported
/// back. The sockets (or the embedded link) belong to the caller; this
/// holds the protocol state.
pub struct EcuIo {
    pub config: EcuIoConfig,
    /// Outputs go to an in-process link rather than a TCP client.
    pub embedded: bool,
    pub client_connected: bool,
    pub recv_buffer: Vec<u8>,
    pub outgoing: VecDeque<u8>,
    pub values: NameMap<i32>,
    pub adc_channels: Vec<(Pin, String)>,
    pub digital_input_pins: Vec<(Pin, String)>,
    pub last_digital_levels: NameMap<bool>,
    /// Every configured pin, ADC channel and trigger signal name.
    pub known_names: NameMap<bool>,
}

impl EcuIo {
    pub open spec fn wf(self) -> bool {
        &&& self.values.wf()
        &&& self.last_digital_levels.wf()
        &&& self.known_names.wf()
        &&& self.outgoing@.len() <= MAX_BUFFERED_BYTES
    }

    pub open spec fn known(self) -> Set<Seq<char>> {
        self.known_names.view().dom()
    }

    /// ADC millivolts of `pin`: the value of the first channel on that pin,
    /// 0 when it has none or no value yet, clamped to 0-3300.
    pub open spec fn spec_adc_millivolts(self, pin: Pin) -> i32 {
        let raw = adc_raw(self.adc_channels@, self.values.view(), pin);
        if raw < 0 {
            0
        } else if raw > 3300 {
            3300
        } else {
            raw
        }
    }

    pub open spec fn spec_digital_level(self, name: Seq<char>) -> bool {
        self.values.view().contains_key(name) && self.values.view()[name] != 0
    }

    fn add_known(known: &mut NameMap<bool>, name: &String)
        requires
            old(known).wf(),
        ensures
            final(known).wf(),
            final(known).view().dom() == old(known).view().dom().insert(name@),
    {
        known.insert(name.as_str(), true);
    }

    /// A harness for `config`. Pins whose names do not parse are left out
    /// of the ADC and digital-input tables.
    pub fn new(config: EcuIoConfig, embedded: bool) -> (e: EcuIo)
        ensures
            e.wf(),
            e.embedded == embedded,
            !e.client_connected,
            e.recv_buffer@.len() == 0,
            e.outgoing@.len() == 0,
            e.values.view() == Map::<Seq<char>, i32>::empty(),
            e.last_digital_levels.view() == Map::<Seq<char>, bool>::empty(),
            e.adc_channels@ == spec_adc_table(config.adc_channels@),
            e.digital_input_pins@ == spec_input_table(config.pins@),
            forall|i: int| 0 <= i < config.pins@.len() ==> e.known().contains(
                #[trigger] config.pins@[i].name@,
            ),
            forall|i: int| 0 <= i < config.adc_channels@.len() ==> e.known().contains(
                #[trigger] config.adc_channels@[i].name@,
            ),
            config.trigger_wheel matches Some(w) ==> e.known().contains(w.signal@),
            forall|k: Seq<char>| #[trigger] e.known().contains(k) ==> (exists|i: int|
                0 <= i < config.pins@.len() && config.pins@[i].name@ == k) || (exists|i: int|
                0 <= i < config.adc_channels@.len() && config.adc_channels@[i].name@ == k) || (
            config.trigger_wheel matches Some(w) && w.signal@ == k),
    {
        let mut adc_channels: Vec<(Pin, String)> = Vec::new();
        let mut digital_input_pins: Vec<(Pin, String)> = Vec::new();
        let mut known: NameMap<bool> = NameMap::new();
        let mut i: usize = 0;
        while i < config.pins.len()
            invariant
                i <= config.pins@.len(),
                known.wf(),
                forall|j: int| 0 <= j < i ==> known.view().dom().contains(
                    #[trigger] config.pins@[j].name@,
                ),
                forall|k: Seq<char>| #[trigger] known.view().dom().contains(k) ==> exists|j: int|
                    0 <= j < i && config.pins@[j].name@ == k,
                digital_input_pins@ == spec_input_table(config.pins@.take(i as int)),
            decreases config.pins@.len() - i,
        {
            assert(config.pins@.take(i as int + 1).drop_last() =~= config.pins@.take(i as int));
            let p = &config.pins[i];
            if p.direction == EcuIoPinDirection::Input {
                if let Some(pin) = Pin::from_str(p.pin.as_str()) {
                    digital_input_pins.push((pin, p.name.clone()));
                }
            }
            Self::add_known(&mut known, &p.name);
            i += 1;
        }
        let ghost after_pins = known.view().dom();
        assert(config.pins@.take(i as int) =~= config.pins@);
        let mut j: usize = 0;
        while j < config.adc_channels.len()
            invariant
                j <= config.adc_channels@.len(),
                known.wf(),
                forall|x: int| 0 <= x < config.pins@.len() ==> known.view().dom().contains(
                    #[trigger] config.pins@[x].name@,
                ),
                forall|x: int| 0 <= x < j ==> known.view().dom().contains(
                    #[trigger] config.adc_channels@[x].name@,
                ),
                forall|k: Seq<char>| #[trigger] known.view().dom().contains(k) ==> (exists|x: int|
                    0 <= x < config.pins@.len() && config.pins@[x].name@ == k) || (exists|x: int|
                    0 <= x < j && config.adc_channels@[x].name@ == k),
                adc_channels@ == spec_adc_table(config.adc_channels@.take(j as int)),
                digital_input_pins@ == spec_input_table(config.pins@),
            decreases config.adc_channels@.len() - j,
        {
            assert(config.adc_channels@.take(j as int + 1).drop_last() =~= config.adc_channels@.take(
                j as int,
            ));
            let c = &config.adc_channels[j];
            if let Some(pin) = Pin::from_str(c.pin.as_str()) {
                adc_channels.push((pin, c.name.clone()));
            }
            Self::add_known(&mut known, &c.name);
            j += 1;
        }
        assert(config.adc_channels@.take(j as int) =~= config.adc_channels@);
        if let Some(w) = &config.trigger_wheel {
            Self::add_known(&mut known, &w.signal);
        }
        EcuIo {
            config,
            embedded,
            client_connected: false,
            recv_buffer: Vec::new(),
            outgoing: VecDeque::new(),
            values: NameMap::new(),
            adc_channels,
            digital_input_pins,
            last_digital_levels: NameMap::new(),
            known_names: known,
        }
    }

    /// The stored value of `name`.
    pub fn value(&self, name: &str) -> (r: Option<i32>)
        requires
            self.wf(),
        ensures
            r == (if self.values.view().contains_key(name@) {
                Some(self.values.view()[name@])
            } else {
                None::<i32>
            }),
    {
        self.values.get(name)
    }

    /// Stores a value for a configured name; other names are ignored.
    /// Returns whether the value was stored.
    pub fn set_value(&mut self, name: &str, value: i32) -> (stored: bool)
        requires
            old(self).wf(),
        ensures
            final(self).wf(),
            stored == old(self).known().contains(name@),
            final(self).values.view() == if stored {
                old(self).values.view().insert(name@, value)
            } else {
                old(self).values.view()
            },
            final(self).known_names == old(self).known_names,
            final(self).outgoing@ == old(self).outgoing@,
            final(self).recv_buffer@ == old(self).recv_buffer@,
            final(self).last_digital_levels == old(self).last_digital_levels,
            final(self).client_connected == old(self).client_connected,
            final(self).embedded == old(self).embedded,
    {
        if !self.known_names.contains(name) {
            return false;
        }
        self.values.insert(name, value);
        true
    }

    /// Stores a value whatever its name (used for the trigger wheel's pin
    /// signal).
    pub fn store_value(&mut self, name: &str, value: i32)
        requires
            old(self).wf(),
        ensures
            final(self).wf(),
            final(self).values.view() == old(self).values.view().insert(name@, value),
            final(self).known_names == old(self).known_names,
            final(self).outgoing@ == old(self).outgoing@,
            final(self).recv_buffer@ == old(self).recv_buffer@,
            final(self).last_digital_levels == old(self).last_digital_levels,
            final(self).client_connected == old(self).client_connected,
    {
        self.values.insert(name, value);
    }

    pub fn adc_millivolts(&self, pin: Pin) -> (mv: i32)
        requires
            self.wf(),
        ensures
            mv == self.spec_adc_millivolts(pin),
            0 <= mv <= 3300,
    {
        let mut i: usize = 0;
        let mut raw: i32 = 0;
        assert(self.adc_channels@.skip(0) =~= self.adc_channels@);
        while i < self.adc_channels.len()
            invariant_except_break
                raw == 0,
            invariant
                i <= self.adc_channels@.len(),
                self.values.wf(),
                adc_raw(self.adc_channels@, self.values.view(), pin) == adc_raw(
                    self.adc_channels@.skip(i as int),
                    self.values.view(),
                    pin,
                ),
            ensures
                raw == adc_raw(self.adc_channels@, self.values.view(), pin),
            decreases self.adc_channels@.len() - i,
        {
            proof {
                let rest = self.adc_channels@.skip(i as int);
                assert(rest.skip(1) =~= self.adc_channels@.skip(i + 1));
                assert(rest[0] == self.adc_channels@[i as int]);
            }
            if self.adc_channels[i].0 == pin {
                raw = match self.values.get(self.adc_channels[i].1.as_str()) {
                    Some(v) => v,
                    None => 0,
                };
                break;
            }
            i += 1;
        }
        if raw < 0 {
            0
        } else if raw > 3300 {
            3300
        } else {
            raw
        }
    }

    pub fn digital_level(&self, name: &str) -> (r: bool)
        requires
            self.wf(),
        ensures
            r == self.spec_digital_level(name@),
    {
        match self.values.get(name) {
            Some(v) => v != 0,
            None => false,
        }
    }

    /// Delivers the level changes of the digital inputs since the last
    /// call: each changed input goes to EXTI as a rising or falling edge,
    /// and a line that fires leaves its interrupt pending.
    pub fn check_digital_edges(&mut self, exti: &mut Exti, nvic: &mut Nvic)
        requires
            old(self).wf(),
        ensures
            final(self).wf(),
            ({
                let st = spec_edges(
                    EdgeState {
                        exti: *old(exti),
                        pending: old(nvic).pending,
                        last: old(self).last_digital_levels.view(),
                    },
                    old(self).values.view(),
                    old(self).digital_input_pins@,
                    old(self).digital_input_pins@.len() as int,
                );
                &&& *final(exti) == st.exti
                &&& final(nvic).pending == st.pending
                &&& final(self).last_digital_levels.view() == st.last
            }),
            final(nvic).same_except_pending(*old(nvic)),
            final(self).values == old(self).values,
            final(self).known_names == old(self).known_names,
            final(self).digital_input_pins == old(self).digital_input_pins,
            final(self).outgoing@ == old(self).outgoing@,
            final(self).client_connected == old(self).client_connected,
            forall|j: int|
                0 <= j < final(self).digital_input_pins@.len() ==> seen_level(
                    final(self).last_digital_levels.view(),
                    #[trigger] final(self).digital_input_pins@[j].1@,
                ) == current_level(final(self).values.view(), final(self).digital_input_pins@[j].1@),
    {
        let ghost st0 = EdgeState {
            exti: *exti,
            pending: nvic.pending,
            last: self.last_digital_levels.view(),
        };
        let ghost n0 = *nvic;
        let mut i: usize = 0;
        while i < self.digital_input_pins.len()
            invariant
                i <= self.digital_input_pins@.len(),
                self.wf(),
                self.values == old(self).values,
                self.known_names == old(self).known_names,
                self.digital_input_pins == old(self).digital_input_pins,
                self.outgoing@ == old(self).outgoing@,
                self.client_connected == old(self).client_connected,
                nvic.same_except_pending(n0),
                ({
                    let st = spec_edges(
                        st0,
                        self.values.view(),
                        self.digital_input_pins@,
                        i as int,
                    );
                    &&& *exti == st.exti
                    &&& nvic.pending == st.pending
                    &&& self.last_digital_levels.view() == st.last
                }),
            decreases self.digital_input_pins@.len() - i,
        {
            let pin = self.digital_input_pins[i].0;
            let level = match self.values.get(self.digital_input_pins[i].1.as_str()) {
                Some(v) => v != 0,
                None => false,
            };
            let previous = match self.last_digital_levels.get(
                self.digital_input_pins[i].1.as_str(),
            ) {
                Some(l) => l,
                None => false,
            };
            if level != previous {
                if let Some(irq) = exti.raise_line_if_configured(pin.port(), pin.number(), level) {
                    nvic.set_intr_pending(irq);
                }
                let name = self.digital_input_pins[i].1.clone();
                self.last_digital_levels.insert(name.as_str(), level);
            }
            i += 1;
        }
        proof {
            law_edges_remember_current_levels(
                st0,
                self.values.view(),
                self.digital_input_pins@,
                self.digital_input_pins@.len() as int,
            );
        }
    }

    /// Records a firmware output level. On a change, the level is returned
    /// for an embedded link to publish or, with a TCP client attached,
    /// queued as a `name=level` line; an unchanged level does nothing.
    pub fn report_output(&mut self, name: &str, level: bool) -> (publish: Option<i32>)
        requires
            old(self).wf(),
        ensures
            final(self).wf(),
            ({
                let new_value: i32 = if level { 1 } else { 0 };
                let changed = !(old(self).values.view().contains_key(name@) && old(
                    self,
                ).values.view()[name@] == new_value);
                &&& final(self).values.view() == old(self).values.view().insert(name@, new_value)
                &&& publish == (if changed && old(self).embedded {
                    Some(new_value)
                } else {
                    None::<i32>
                })
                &&& final(self).outgoing@ == if changed && !old(self).embedded && old(
                    self,
                ).client_connected {
                    keep_last(
                        old(self).outgoing@ + output_line(name@, new_value),
                        MAX_BUFFERED_BYTES as int,
                    )
                } else {
                    old(self).outgoing@
                }
            }),
            final(self).known_names == old(self).known_names,
            final(self).embedded == old(self).embedded,
            final(self).client_connected == old(self).client_connected,
            final(self).last_digital_levels == old(self).last_digital_levels,
            final(self).recv_buffer@ == old(self).recv_buffer@,
    {
        let new_value: i32 = if level { 1 } else { 0 };
        let changed = match self.values.get(name) {
            Some(v) => v != new_value,
            None => true,
        };
        self.values.insert(name, new_value);
        if changed && self.embedded {
            return Some(new_value);
        }
        if changed && self.client_connected {
            let line = Self::line_bytes(name, new_value);
            push_capped_deque(&mut self.outgoing, line.as_slice(), MAX_BUFFERED_BYTES);
        }
        None
    }

    fn line_bytes(name: &str, value: i32) -> (r: Vec<u8>)
        requires
            value == 0 || value == 1,
        ensures
            r@ == output_line(name@, value),
    {
        let b = name.as_bytes();
        let mut r = copy_range(b, 0, b.len());
        assert(b@.subrange(0, b@.len() as int) =~= b@);
        r.push(61u8);
        r.push(if value == 1 { 49u8 } else { 48u8 });
        r.push(10u8);
        r
    }

    /// Handles one line of the protocol.
    pub fn handle_line(&mut self, line: &str) -> (outcome: LineOutcome)
        requires
            old(self).wf(),
        ensures
            final(self).wf(),
            (final(self).values.view(), outcome) == spec_handle_line(
                old(self).values.view(),
                old(self).known(),
                line@,
            ),
            final(self).known_names == old(self).known_names,
            final(self).outgoing@ == old(self).outgoing@,
            final(self).recv_buffer@ == old(self).recv_buffer@,
            final(self).last_digital_levels == old(self).last_digital_levels,
            final(self).client_connected == old(self).client_connected,
            final(self).embedded == old(self).embedded,
    {
        let chars = chars_of(line);
        let k = match char_position(&chars, '=') {
            Some(k) => k,
            None => return LineOutcome::MalformedLine,
        };
        let name = trim(substring(line, 0, k).as_str());
        let value_text = trim(substring(line, k + 1, chars.len()).as_str());
        assert(line@.subrange(0, k as int) =~= line@.take(k as int));
        assert(line@.subrange(k + 1, line@.len() as int) =~= line@.skip(k + 1));
        let value_chars = chars_of(value_text.as_str());
        match parse_i32(&value_chars) {
            None => LineOutcome::MalformedValue,
            Some(v) => {
                if self.set_value(name.as_str(), v) {
                    LineOutcome::Stored
                } else {
                    LineOutcome::UnknownName
                }
            },
        }
    }

    /// Handles every complete line in the receive buffer, keeping the
    /// bytes of an incomplete last line.
    pub fn process_complete_lines(&mut self)
        requires
            old(self).wf(),
        ensures
            final(self).wf(),
            (final(self).values.view(), final(self).recv_buffer@) == spec_process_lines(
                old(self).values.view(),
                old(self).known(),
                old(self).recv_buffer@,
            ),
            final(self).known_names == old(self).known_names,
            final(self).outgoing@ == old(self).outgoing@,
            final(self).last_digital_levels == old(self).last_digital_levels,
            final(self).client_connected == old(self).client_connected,
            final(self).embedded == old(self).embedded,
    {
        loop
            invariant
                self.wf(),
                spec_process_lines(self.values.view(), self.known(), self.recv_buffer@)
                    == spec_process_lines(
                    old(self).values.view(),
                    old(self).known(),
                    old(self).recv_buffer@,
                ),
                self.known_names == old(self).known_names,
                self.outgoing@ == old(self).outgoing@,
                self.last_digital_levels == old(self).last_digital_levels,
                self.client_connected == old(self).client_connected,
                self.embedded == old(self).embedded,
            ensures
                self.wf(),
                (self.values.view(), self.recv_buffer@) == spec_process_lines(
                    old(self).values.view(),
                    old(self).known(),
                    old(self).recv_buffer@,
                ),
                self.known_names == old(self).known_names,
                self.outgoing@ == old(self).outgoing@,
                self.last_digital_levels == old(self).last_digital_levels,
                self.client_connected == old(self).client_connected,
                self.embedded == old(self).embedded,
            decreases self.recv_buffer@.len(),
        {
            let pos = match position(&self.recv_buffer, 10u8) {
                Some(p) => p,
                None => {
                    return;
                },
            };
            let n = self.recv_buffer.len();
            assert(pos < n);
            let next: usize = pos + 1;
            let line_bytes = copy_range(self.recv_buffer.as_slice(), 0, pos);
            let rest = copy_range(self.recv_buffer.as_slice(), next, n);
            assert(line_bytes@ =~= self.recv_buffer@.take(pos as int));
            assert(rest@ =~= self.recv_buffer@.skip(pos + 1));
            self.recv_buffer = rest;
            let text = decode_utf8_lossy(line_bytes.as_slice());
            let line = trim(text.as_str());
            let chars = chars_of(line.as_str());
            if chars.len() > 0 {
                self.handle_line(line.as_str());
            }
        }
    }

    /// Takes received bytes: appends them to the receive buffer (capped)
    /// and handles the complete lines.
    pub fn receive(&mut self, bytes: &[u8])
        requires
            old(self).wf(),
        ensures
            final(self).wf(),
            (final(self).values.view(), final(self).recv_buffer@) == spec_process_lines(
                old(self).values.view(),
                old(self).known(),
                keep_last(old(self).recv_buffer@ + bytes@, MAX_BUFFERED_BYTES as int),
            ),
            final(self).known_names == old(self).known_names,
            final(self).outgoing@ == old(self).outgoing@,
            final(self).client_connected == old(self).client_connected,
    {
        push_capped_vec(&mut self.recv_buffer, bytes, MAX_BUFFERED_BYTES);
        self.process_complete_lines();
    }

    /// A client attached or went away.
    pub fn set_client_connected(&mut self, connected: bool)
        requires
            old(self).wf(),
        ensures
            final(self).wf(),
            final(self).client_connected == connected,
            final(self).values == old(self).values,
            final(self).outgoing@ == old(self).outgoing@,
            final(self).known_names == old(self).known_names,
    {
        self.client_connected = connected;
    }

    /// A client asks to connect: it is taken unless one is connected
    /// already, in which case it is refused.
    pub fn accept_client(&mut self) -> (accepted: bool)
        requires
            old(self).wf(),
        ensures
            final(self).wf(),
            accepted == !old(self).client_connected,
            final(self).client_connected,
            final(self).values == old(self).values,
            final(self).outgoing@ == old(self).outgoing@,
            final(self).known_names == old(self).known_names,
    {
        if self.client_connected {
            return false;
        }
        self.set_client_connected(true);
        true
    }

    /// Drops the first `count` queued outgoing bytes once they are sent.
    pub fn consume_outgoing(&mut self, count: usize)
        requires
            old(self).wf(),
        ensures
            final(self).wf(),
            final(self).outgoing@ == old(self).outgoing@.skip(
                if count as int > old(self).outgoing@.len() {
                    old(self).outgoing@.len() as int
                } else {
                    count as int
                },
            ),
            final(self).values == old(self).values,
            final(self).client_connected == old(self).client_connected,
            final(self).known_names == old(self).known_names,
    {
        let mut i: usize = 0;
        let ghost q0 = self.outgoing@;
        while i < count && self.outgoing.len() > 0
            invariant
                self.wf(),
                i <= count,
                i <= q0.len(),
                self.outgoing@ == q0.skip(i as int),
                self.values == old(self).values,
                self.client_connected == old(self).client_connected,
                self.known_names == old(self).known_names,
            decreases count - i,
        {
            self.outgoing.pop_front();
            i += 1;
        }
    }
}

/// The raw value of the first ADC channel on `pin`.
pub open spec fn adc_raw(channels: Seq<(Pin, String)>, values: Map<Seq<char>, i32>, pin: Pin) -> i32
    decreases channels.len(),
{
    if channels.len() == 0 {
        0
    } else if channels[0].0 == pin {
        if values.contains_key(channels[0].1@) {
            values[channels[0].1@]
        } else {
            0
        }
    } else {
        adc_raw(channels.skip(1), values, pin)
    }
}

/// The bytes of the line that reports `value` for `name`.
pub open spec fn output_line(name: Seq<char>, value: i32) -> Seq<u8> {
    vstd::utf8::encode_utf8(name) + seq![61u8, if value == 1 { 49u8 } else { 48u8 }, 10u8]
}

/// Position of the first `c` in `s`.
pub fn char_position(s: &Vec<char>, c: char) -> (r: Option<usize>)
    ensures
        r matches Some(i) ==> i as int == first_char_index(s@, c) && i < s@.len(),
        r is None ==> first_char_index(s@, c) < 0,
{
    proof {
        lemma_first_char_index(s@, c);
    }
    let mut i: usize = 0;
    while i < s.len()
        invariant
            i <= s@.len(),
            forall|j: int| 0 <= j < i ==> s@[j] != c,
            -1 <= first_char_index(s@, c) < s@.len(),
            first_char_index(s@, c) >= 0 ==> s@[first_char_index(s@, c)] == c,
            forall|j: int|
                0 <= j < s@.len() && (first_char_index(s@, c) < 0 || j < first_char_index(s@, c))
                    ==> s@[j] != c,
        decreases s@.len() - i,
    {
        if s[i] == c {
            return Some(i);
        }
        i += 1;
    }
    None
}

pub proof fn lemma_first_char_index(s: Seq<char>, c: char)
    ensures
        -1 <= first_char_index(s, c) < s.len(),
        first_char_index(s, c) >= 0 ==> s[first_char_index(s, c)] == c,
        forall|i: int|
            0 <= i < s.len() && (first_char_index(s, c) < 0 || i < first_char_index(s, c)) ==> s[i]
                != c,
    decreases s.len(),
{
    if s.len() > 0 && s[0] != c {
        lemma_first_char_index(s.skip(1), c);
        assert forall|i: int|
            0 <= i < s.len() && (first_char_index(s, c) < 0 || i < first_char_index(s, c)) implies s[i]
            != c by {
            if i > 0 {
                assert(s[i] == s.skip(1)[i - 1]);
            }
        }
    }
}

/// The line the bridge sends for an output level (`name=0` or `name=1`,
/// without its newline) is read back by the line protocol as that level
/// for that name, when the name is configured, carries no `=` and no
/// surrounding whitespace.
pub proof fn law_output_line_is_read_back(
    values: Map<Seq<char>, i32>,
    known: Set<Seq<char>>,
    name: Seq<char>,
    value: i32,
)
    requires
        value == 0 || value == 1,
        known.contains(name),
        !name.contains('='),
        spec_trim(name) == name,
    ensures
        spec_handle_line(
            values,
            known,
            name + seq!['=', if value == 1 { '1' } else { '0' }],
        ) == (values.insert(name, value), LineOutcome::Stored),
{
    let d = if value == 1 { '1' } else { '0' };
    let line = name + seq!['=', d];
    let k = name.len() as int;
    lemma_first_char_index(line, '=');
    let r = first_char_index(line, '=');
    assert(line[k] == '=');
    assert forall|i: int| 0 <= i < k implies line[i] != '=' by {
        assert(line[i] == name[i]);
    }
    assert(r == k);
    assert(line.take(k) =~= name);
    let tail = line.skip(k + 1);
    assert(tail =~= seq![d]);
    assert(lead(tail, 0) == 0);
    assert(trail(tail, 1, 0) == 1);
    assert(spec_trim(tail) =~= tail);
    assert(tail.drop_last() =~= Seq::<char>::empty());
    assert(digits_value(Seq::<char>::empty()) == 0);
    assert(tail.last() == d);
    assert(digits_value(tail) == value);
}

/// The level of `name` that edge delivery last saw (low when never seen).
pub open spec fn seen_level(last: Map<Seq<char>, bool>, name: Seq<char>) -> bool {
    last.contains_key(name) && last[name]
}

/// The current level of the input `name`: high when its value is nonzero.
pub open spec fn current_level(values: Map<Seq<char>, i32>, name: Seq<char>) -> bool {
    values.contains_key(name) && values[name] != 0
}

/// Once the edges of the first `n` inputs are delivered, each of them is
/// remembered at its current level, whether or not its line fired, so the
/// next change of level is an edge again; any other name keeps the level
/// it had.
pub proof fn law_edges_remember_current_levels(
    st: EdgeState,
    values: Map<Seq<char>, i32>,
    pins: Seq<(Pin, String)>,
    n: int,
)
    requires
        0 <= n <= pins.len(),
    ensures
        forall|j: int|
            0 <= j < n ==> seen_level(spec_edges(st, values, pins, n).last, #[trigger] pins[j].1@)
                == current_level(values, pins[j].1@),
        forall|name: Seq<char>|
            (forall|j: int| 0 <= j < n ==> #[trigger] pins[j].1@ != name) ==> seen_level(
                spec_edges(st, values, pins, n).last,
                name,
            ) == seen_level(st.last, name),
    decreases n,
{
    if n > 0 {
        law_edges_remember_current_levels(st, values, pins, n - 1);
        let prev = spec_edges(st, values, pins, n - 1);
        let name = pins[n - 1].1@;
        let next = spec_edges(st, values, pins, n);
        assert(next == spec_edge_step(prev, values, pins[n - 1].0, name));
        assert forall|j: int| 0 <= j < n implies seen_level(next.last, #[trigger] pins[j].1@)
            == current_level(values, pins[j].1@) by {
            if pins[j].1@ != name {
                assert(j < n - 1);
            }
        }
        assert forall|other: Seq<char>|
            (forall|j: int| 0 <= j < n ==> #[trigger] pins[j].1@ != other) implies seen_level(
            next.last,
            other,
        ) == seen_level(st.last, other) by {
            assert(pins[n - 1].1@ != other);
            assert forall|j: int| 0 <= j < n - 1 implies #[trigger] pins[j].1@ != other by {
                assert(pins[j].1@ != other);
            }
        }
    }
}

} // verus!

