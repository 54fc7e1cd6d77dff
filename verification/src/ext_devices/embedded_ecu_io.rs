use vstd::prelude::*;
use std::collections::VecDeque;
use crate::name_map::NameMap;

verus! {

/// Inputs kept while the firmware has not taken them; the oldest go first.
pub const MAX_PENDING_INPUTS: usize = 1024;
/// Output changes kept while the host has not taken them; the oldest go
/// first.
pub const MAX_PENDING_OUTPUT_EVENTS: usize = 8192;

/// A change of a named output, numbered in the order it was published.
#[derive(Clone, Debug, PartialEq, Eq)]
pub struct EmbeddedOutputEvent {
    pub sequence: u64,
    pub instruction_count: u64,
    pub name: String,
    pub previous_value: Option<i32>,
    pub value: i32,
}

/// Named signal values exchanged between a host program and the emulated
/// firmware without a socket: inputs queued for the firmware, the latest
/// value of each output, and the changes of the outputs in order.
#[derive(Debug)]
pub struct EmbeddedEcuIoLink {
    pub device_present: bool,
    pub pending_inputs: VecDeque<(String, i32)>,
    pub outputs: NameMap<i32>,
    pub output_events: VecDeque<EmbeddedOutputEvent>,
    pub next_output_sequence: u64,
}

impl EmbeddedEcuIoLink {
    pub open spec fn wf(self) -> bool {
        &&& self.outputs.wf()
        &&& self.pending_inputs@.len() <= MAX_PENDING_INPUTS
        &&& self.output_events@.len() <= MAX_PENDING_OUTPUT_EVENTS
    }

    pub fn new() -> (l: EmbeddedEcuIoLink)
        ensures
            l.wf(),
            !l.device_present,
            l.pending_inputs@.len() == 0,
            l.outputs@ == Map::<Seq<char>, i32>::empty(),
            l.output_events@.len() == 0,
            l.next_output_sequence == 0,
    {
        EmbeddedEcuIoLink {
            device_present: false,
            pending_inputs: VecDeque::new(),
            outputs: NameMap::new(),
            output_events: VecDeque::new(),
            next_output_sequence: 0,
        }
    }

    /// Queues an input for the firmware, dropping the oldest one when the
    /// queue is full.
    pub fn set_input(&mut self, name: &str, value: i32)
        requires
            old(self).wf(),
        ensures
            final(self).wf(),
            final(self).pending_inputs@.len() > 0,
            final(self).pending_inputs@.last().0@ == name@,
            final(self).pending_inputs@.last().1 == value,
            final(self).pending_inputs@.drop_last() == if old(self).pending_inputs@.len()
                == MAX_PENDING_INPUTS {
                old(self).pending_inputs@.skip(1)
            } else {
                old(self).pending_inputs@
            },
            final(self).device_present == old(self).device_present,
            final(self).outputs@ == old(self).outputs@,
            final(self).output_events@ == old(self).output_events@,
            final(self).next_output_sequence == old(self).next_output_sequence,
    {
        if self.pending_inputs.len() == MAX_PENDING_INPUTS {
            self.pending_inputs.pop_front();
        }
        let ghost before = self.pending_inputs@;
        self.pending_inputs.push_back((name.to_owned(), value));
        assert(self.pending_inputs@.drop_last() =~= before);
    }

    /// The latest value of each output.
    pub fn outputs(&self) -> (m: &NameMap<i32>)
        ensures
            *m == self.outputs,
    {
        &self.outputs
    }

    /// Takes every output change not taken yet, oldest first.
    pub fn take_output_events(&mut self) -> (events: Vec<EmbeddedOutputEvent>)
        requires
            old(self).wf(),
        ensures
            final(self).wf(),
            events@ == old(self).output_events@,
            final(self).output_events@.len() == 0,
            final(self).device_present == old(self).device_present,
            final(self).pending_inputs@ == old(self).pending_inputs@,
            final(self).outputs@ == old(self).outputs@,
            final(self).next_output_sequence == old(self).next_output_sequence,
    {
        let mut events: Vec<EmbeddedOutputEvent> = Vec::new();
        while self.output_events.len() > 0
            invariant
                self.wf(),
                events@ + self.output_events@ == old(self).output_events@,
                self.device_present == old(self).device_present,
                self.pending_inputs@ == old(self).pending_inputs@,
                self.outputs@ == old(self).outputs@,
                self.next_output_sequence == old(self).next_output_sequence,
            decreases self.output_events@.len(),
        {
            let ghost q = self.output_events@;
            match self.output_events.pop_front() {
                Some(e) => {
                    events.push(e);
                    assert(events@ + self.output_events@ =~= old(self).output_events@) by {
                        assert(q =~= seq![q[0]] + q.skip(1));
                    }
                },
                None => {},
            }
        }
        assert(events@ + self.output_events@ =~= events@);
        events
    }

    pub fn device_present(&self) -> (r: bool)
        ensures
            r == self.device_present,
    {
        self.device_present
    }

    /// The firmware's device appeared.
    pub fn attach_device(&mut self)
        requires
            old(self).wf(),
        ensures
            final(self).wf(),
            final(self).device_present,
            final(self).pending_inputs@ == old(self).pending_inputs@,
            final(self).outputs@ == old(self).outputs@,
            final(self).output_events@ == old(self).output_events@,
            final(self).next_output_sequence == old(self).next_output_sequence,
    {
        self.device_present = true;
    }

    /// The firmware's device went away: inputs, outputs and changes are
    /// dropped.
    pub fn detach_device(&mut self)
        requires
            old(self).wf(),
        ensures
            final(self).wf(),
            !final(self).device_present,
            final(self).pending_inputs@.len() == 0,
            final(self).outputs@ == Map::<Seq<char>, i32>::empty(),
            final(self).output_events@.len() == 0,
            final(self).next_output_sequence == old(self).next_output_sequence,
    {
        self.device_present = false;
        self.pending_inputs.clear();
        self.outputs.clear();
        self.output_events.clear();
    }

    /// Takes every queued input, oldest first.
    pub fn take_inputs(&mut self) -> (inputs: Vec<(String, i32)>)
        requires
            old(self).wf(),
        ensures
            final(self).wf(),
            inputs@ == old(self).pending_inputs@,
            final(self).pending_inputs@.len() == 0,
            final(self).device_present == old(self).device_present,
            final(self).outputs@ == old(self).outputs@,
            final(self).output_events@ == old(self).output_events@,
            final(self).next_output_sequence == old(self).next_output_sequence,
    {
        let mut inputs: Vec<(String, i32)> = Vec::new();
        while self.pending_inputs.len() > 0
            invariant
                self.wf(),
                inputs@ + self.pending_inputs@ == old(self).pending_inputs@,
                self.device_present == old(self).device_present,
                self.outputs@ == old(self).outputs@,
                self.output_events@ == old(self).output_events@,
                self.next_output_sequence == old(self).next_output_sequence,
            decreases self.pending_inputs@.len(),
        {
            let ghost q = self.pending_inputs@;
            match self.pending_inputs.pop_front() {
                Some(e) => {
                    inputs.push(e);
                    assert(inputs@ + self.pending_inputs@ =~= old(self).pending_inputs@) by {
                        assert(q =~= seq![q[0]] + q.skip(1));
                    }
                },
                None => {},
            }
        }
        assert(inputs@ + self.pending_inputs@ =~= inputs@);
        inputs
    }

    /// Records the firmware's value of an output at instruction count
    /// `instruction_count`. A change is also queued as an event, numbered
    /// in order (the numbers wrap), the oldest event going when the queue
    /// is full.
    pub fn publish_output(&mut self, name: &str, value: i32, instruction_count: u64)
        requires
            old(self).wf(),
        ensures
            final(self).wf(),
            final(self).outputs@ == old(self).outputs@.insert(name@, value),
            final(self).device_present == old(self).device_present,
            final(self).pending_inputs@ == old(self).pending_inputs@,
            ({
                let previous = if old(self).outputs@.contains_key(name@) {
                    Some(old(self).outputs@[name@])
                } else {
                    None::<i32>
                };
                if previous == Some(value) {
                    &&& final(self).output_events@ == old(self).output_events@
                    &&& final(self).next_output_sequence == old(self).next_output_sequence
                } else {
                    let e = final(self).output_events@.last();
                    &&& final(self).output_events@.len() > 0
                    &&& final(self).output_events@.drop_last() == if old(self).output_events@.len()
                        == MAX_PENDING_OUTPUT_EVENTS {
                        old(self).output_events@.skip(1)
                    } else {
                        old(self).output_events@
                    }
                    &&& e.sequence == old(self).next_output_sequence
                    &&& e.instruction_count == instruction_count
                    &&& e.name@ == name@
                    &&& e.previous_value == previous
                    &&& e.value == value
                    &&& final(self).next_output_sequence == if old(self).next_output_sequence
                        == u64::MAX {
                        0
                    } else {
                        (old(self).next_output_sequence + 1) as u64
                    }
                }
            }),
    {
        let previous_value = self.outputs.insert(name, value);
        match previous_value {
            Some(p) => {
                if p == value {
                    return;
                }
            },
            None => {},
        }
        if self.output_events.len() == MAX_PENDING_OUTPUT_EVENTS {
            self.output_events.pop_front();
        }
        let sequence = self.next_output_sequence;
        self.next_output_sequence = self.next_output_sequence.wrapping_add(1);
        let ghost before = self.output_events@;
        self.output_events.push_back(
            EmbeddedOutputEvent {
                sequence,
                instruction_count,
                name: name.to_owned(),
                previous_value,
                value,
            },
        );
        assert(self.output_events@.drop_last() =~= before);
    }

    /// The latest value of output `name`.
    pub fn output_value(&self, name: &str) -> (r: Option<i32>)
        requires
            self.wf(),
        ensures
            r == (if self.outputs@.contains_key(name@) {
                Some(self.outputs@[name@])
            } else {
                None::<i32>
            }),
    {
        self.outputs.get(name)
    }
}

} // verus!
