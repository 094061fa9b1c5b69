//! The grammar of metric names: `[a-zA-Z_][a-zA-Z0-9_]*`, over bytes.

use crate::error::UnexpectedParse;
use vstd::prelude::*;

verus! {

/// A byte that may start a name: an ASCII letter or `_`.
pub open spec fn is_name_start(b: u8) -> bool {
    ||| 0x41 <= b <= 0x5a
    ||| 0x61 <= b <= 0x7a
    ||| b == 0x5f
}

/// A byte that may follow in a name: an ASCII letter, an ASCII digit or `_`.
pub open spec fn is_name_part(b: u8) -> bool {
    ||| is_name_start(b)
    ||| 0x30 <= b <= 0x39
}

/// A name of the grammar: at least one byte, the first a letter or `_`, the
/// others letters, digits or `_`.
pub open spec fn is_metric_name(name: Seq<u8>) -> bool {
    &&& name.len() > 0
    &&& is_name_start(name[0])
    &&& forall|i: int| 1 <= i < name.len() ==> is_name_part(#[trigger] name[i])
}

/// What the scan of a name gives: the end of input where the name is empty,
/// an unexpected byte where it is not of the grammar.
pub open spec fn name_verdict(name: Seq<u8>) -> Result<(), UnexpectedParse> {
    if name.len() == 0 {
        Err(UnexpectedParse::Eoi)
    } else if is_metric_name(name) {
        Ok(())
    } else {
        Err(UnexpectedParse::Unexpected)
    }
}

fn name_start(b: u8) -> (r: bool)
    ensures
        r == is_name_start(b),
{
    (0x41 <= b && b <= 0x5a) || (0x61 <= b && b <= 0x7a) || b == 0x5f
}

fn name_part(b: u8) -> (r: bool)
    ensures
        r == is_name_part(b),
{
    name_start(b) || (0x30 <= b && b <= 0x39)
}

/// Scans `name` against the grammar.
pub fn parse_name(name: &[u8]) -> (r: Result<(), UnexpectedParse>)
    ensures
        r == name_verdict(name@),
{
    if name.len() == 0 {
        return Err(UnexpectedParse::Eoi);
    }
    if !name_start(name[0]) {
        return Err(UnexpectedParse::Unexpected);
    }
    let mut i: usize = 1;
    while i < name.len()
        invariant
            1 <= i <= name@.len(),
            name@.len() == name.len(),
            forall|j: int| 1 <= j < i ==> is_name_part(#[trigger] name@[j]),
        decreases name.len() - i,
    {
        if !name_part(name[i]) {
            return Err(UnexpectedParse::Unexpected);
        }
        i = i + 1;
    }
    Ok(())
}

} // verus!
