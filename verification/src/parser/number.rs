use crate::parser::ast::Reject;
use crate::parser::lexer::advances;
use crate::parser::text::Source;
use vstd::prelude::*;

verus! {

/// What reading a number at the start of a text gives.
#[derive(Debug, PartialEq, Eq, Clone, Copy)]
pub enum NumberScan {
    /// A number: how many bytes are left behind it, and its binary64 bit
    /// pattern.
    Number { rest: usize, bits: u64 },
    /// The text does not begin with a number.
    Absent,
    /// The text begins with a number that breaks off inside its exponent.
    Malformed,
}

/// What `nom::number::complete::double` makes of a text.
pub uninterp spec fn double_scan(input: Seq<u8>) -> NumberScan;

/// Calls `nom::number::complete::double` on bytes.
///
/// Claimed of it: the outcome depends on the bytes alone; where it reads a
/// number it consumes at least one byte, and the last byte it consumes is
/// ASCII (a digit, a point, or a letter of `nan` or `inf`). Its recoverable
/// error is reported as `Absent`, its unrecoverable one as `Malformed`.
#[verifier::external_body]
fn scan_double(input: &[u8]) -> (r: NumberScan)
    ensures
        r == double_scan(input@),
        r matches NumberScan::Number { rest, .. } ==> rest < input@.len() && input@[input@.len()
            - rest - 1] < 128,
{
    match nom::number::complete::double::<&[u8], nom::error::Error<&[u8]>>(input) {
        Ok((rest, value)) => NumberScan::Number { rest: rest.len(), bits: value.to_bits() },
        Err(nom::Err::Failure(_)) => NumberScan::Malformed,
        Err(nom::Err::Error(_)) => NumberScan::Absent,
        Err(nom::Err::Incomplete(_)) => NumberScan::Absent,
    }
}

/// The number written at `i`: its bit pattern and where it ends.
pub open spec fn number(s: Seq<u8>, i: int) -> Result<(u64, int), Reject> {
    match double_scan(s.subrange(i, s.len() as int)) {
        NumberScan::Number { rest, bits } => Ok((bits, s.len() - rest)),
        NumberScan::Absent => Err(Reject::Error),
        NumberScan::Malformed => Err(Reject::Failure),
    }
}

/// Reads a number at `i`.
pub fn take_number(src: &Source, i: usize) -> (r: Result<(u64, usize), Reject>)
    requires
        i <= src@.len(),
    ensures
        match r {
            Ok((bits, j)) => number(src@, i as int) == Ok::<(u64, int), Reject>((bits, j as int))
                && advances(src@, i as int, j as int),
            Err(e) => number(src@, i as int) == Err::<(u64, int), Reject>(e),
        },
{
    let (_, tail) = src.bytes.split_at(i);
    assert(tail@ == src@.subrange(i as int, src@.len() as int));
    match scan_double(tail) {
        NumberScan::Number { rest, bits } => {
            let j = src.len() - rest;
            assert(tail@[tail@.len() - rest - 1] == src@[j - 1]);
            Ok((bits, j))
        },
        NumberScan::Absent => Err(Reject::Error),
        NumberScan::Malformed => Err(Reject::Failure),
    }
}

} // verus!
