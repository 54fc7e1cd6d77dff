use vstd::prelude::*;
use crate::text::{chars_of, parse_digits_from, spec_parse_digits};

verus! {

/// A GPIO pin: port index (A = 0) and pin number within the port.
#[derive(Clone, Copy, Debug, PartialEq, Eq, Structural)]
pub struct Pin {
    pub port: u8,
    pub number: u8,
}

/// The pin a name such as `PC6` stands for: `P`, a port letter `A` to `K`,
/// then a pin number from 0 to 15.
pub open spec fn spec_parse_pin(s: Seq<char>) -> Option<Pin> {
    if s.len() >= 3 && s[0] == 'P' && 'A' <= s[1] && s[1] <= 'K' {
        match spec_parse_digits(s.skip(2), 15) {
            Some(n) => Some(Pin { port: (s[1] as int - 'A' as int) as u8, number: n as u8 }),
            None => None,
        }
    } else {
        None
    }
}

impl Pin {
    pub fn from_str(name: &str) -> (r: Option<Pin>)
        ensures
            r == spec_parse_pin(name@),
    {
        let s = chars_of(name);
        if s.len() >= 3 && s[0] == 'P' && 'A' <= s[1] && s[1] <= 'K' {
            match parse_digits_from(&s, 2, 15) {
                Some(n) => Some(Pin { port: (s[1] as u32 - 'A' as u32) as u8, number: n as u8 }),
                None => None,
            }
        } else {
            None
        }
    }

    pub fn port(&self) -> (p: u8)
        ensures
            p == self.port,
    {
        self.port
    }

    pub fn number(&self) -> (n: u8)
        ensures
            n == self.number,
    {
        self.number
    }
}

} // verus!
