//! The bodies of the two telemetry responses, as ASCII text.
//!
//! The step counter is answered as a decimal number, `5`.  The history is
//! answered as a bracketed list of `0` and `1`, oldest first, `[1,1,0]`.

use crate::decimal::decimal;
use crate::decimal::decimal_text;
use crate::telemetry::TelemetrySnapshot;
use vstd::prelude::*;

verus! {

/// The digit that stands for an outcome.
pub open spec fn bit_digit(bit: bool) -> u8 {
    if bit {
        0x31
    } else {
        0x30
    }
}

/// The digits of `bits` in order, with a comma between neighbours.
pub open spec fn bit_items(bits: Seq<bool>) -> Seq<u8>
    decreases bits.len(),
{
    if bits.len() == 0 {
        Seq::empty()
    } else if bits.len() == 1 {
        seq![bit_digit(bits[0])]
    } else {
        bit_items(bits.drop_last()).push(0x2c).push(bit_digit(bits.last()))
    }
}

/// The list of `bits`: an opening bracket, the digits with commas between
/// them, and a closing bracket.
pub open spec fn bit_list(bits: Seq<bool>) -> Seq<u8> {
    seq![0x5bu8] + bit_items(bits) + seq![0x5du8]
}

/// The paths the telemetry server answers.
#[derive(Clone, Copy, Debug, PartialEq, Eq, Structural)]
pub enum TelemetryRoute {
    /// The step counter.
    Step,
    /// The recent outcomes.
    Bits,
}

impl TelemetryRoute {
    /// The request path of the route.
    pub open spec fn path_spec(self) -> Seq<char> {
        match self {
            TelemetryRoute::Step => "/step"@,
            TelemetryRoute::Bits => "/bits"@,
        }
    }

    /// The request path of the route.
    pub fn path(self) -> (path: &'static str)
        ensures
            path@ == self.path_spec(),
    {
        match self {
            TelemetryRoute::Step => "/step",
            TelemetryRoute::Bits => "/bits",
        }
    }

    /// The body that answers the route for the given snapshot.
    pub open spec fn body_spec(self, snapshot: TelemetrySnapshot) -> Seq<u8> {
        match self {
            TelemetryRoute::Step => decimal(snapshot.step as nat),
            TelemetryRoute::Bits => bit_list(snapshot.bits@),
        }
    }

    /// The body that answers the route for the given snapshot.
    pub fn body(self, snapshot: &TelemetrySnapshot) -> (body: Vec<u8>)
        ensures
            body@ == self.body_spec(*snapshot),
    {
        match self {
            TelemetryRoute::Step => step_body(snapshot.step),
            TelemetryRoute::Bits => bits_body(snapshot.bits.as_slice()),
        }
    }
}

/// The body that answers a request for the step counter.
pub fn step_body(step: u64) -> (body: Vec<u8>)
    ensures
        body@ == decimal(step as nat),
{
    decimal_text(step)
}

/// The body that answers a request for the recent outcomes.
pub fn bits_body(bits: &[bool]) -> (body: Vec<u8>)
    ensures
        body@ == bit_list(bits@),
{
    let mut body: Vec<u8> = Vec::new();
    body.push(0x5b);
    let mut i: usize = 0;
    while i < bits.len()
        invariant
            i <= bits@.len(),
            body@ == seq![0x5bu8] + bit_items(bits@.subrange(0, i as int)),
        decreases bits@.len() - i,
    {
        let ghost before = bits@.subrange(0, i as int);
        let ghost after = bits@.subrange(0, i + 1);
        let digit: u8 = if bits[i] {
            0x31
        } else {
            0x30
        };
        proof {
            assert(after.drop_last() =~= before);
            assert(after.last() == bits@[i as int]);
        }
        if i > 0 {
            body.push(0x2c);
            assert(body@ =~= seq![0x5bu8] + bit_items(before).push(0x2c));
        }
        body.push(digit);
        assert(body@ =~= seq![0x5bu8] + bit_items(after));
        i = i + 1;
    }
    assert(bits@.subrange(0, bits@.len() as int) =~= bits@);
    body.push(0x5d);
    assert(body@ =~= bit_list(bits@));
    body
}

} // verus!
