//! Text and byte-string members: borrowed from the input where they were
//! decoded, owned where they were built in memory.

use std::borrow::Cow;
use vstd::prelude::*;
use vstd::slice::slice_to_vec;
use vstd::utf8::{decode_utf8, encode_utf8, encode_utf8_decode_utf8, valid_utf8};

verus! {

/// `core::str::from_utf8`: the bytes as text where they are valid UTF-8,
/// and `None` where they are not. The text's characters are those that the
/// bytes encode.
#[verifier::external_body]
fn str_from_utf8<'a>(bytes: &'a [u8]) -> (r: Option<&'a str>)
    ensures
        match r {
            Some(s) => valid_utf8(bytes@) && encode_utf8(s@) == bytes@,
            None => !valid_utf8(bytes@),
        },
{
    match core::str::from_utf8(bytes) {
        Ok(s) => Some(s),
        Err(_) => None,
    }
}

/// The text that `bytes` encode, borrowed from them, or `None` where they
/// are not valid UTF-8.
pub fn text_of<'a>(bytes: &'a [u8]) -> (r: Option<Cow<'a, str>>)
    ensures
        match r {
            Some(s) => valid_utf8(bytes@) && s@ == decode_utf8(bytes@),
            None => !valid_utf8(bytes@),
        },
{
    match str_from_utf8(bytes) {
        Some(s) => {
            proof {
                encode_utf8_decode_utf8(s@);
            }
            Some(Cow::Borrowed(s))
        },
        None => None,
    }
}

/// The UTF-8 bytes of a text member.
pub fn text_bytes<'b>(text: &'b Cow<'_, str>) -> (r: &'b [u8])
    ensures
        r@ == encode_utf8(text@),
{
    match text {
        Cow::Borrowed(s) => s.as_bytes(),
        Cow::Owned(s) => s.as_str().as_bytes(),
    }
}

/// A text member as a string slice.
pub fn text_str<'b>(text: &'b Cow<'_, str>) -> (r: &'b str)
    ensures
        r@ == text@,
{
    match text {
        Cow::Borrowed(s) => s,
        Cow::Owned(s) => s.as_str(),
    }
}

/// The bytes of a byte-string member.
pub fn run_bytes<'b>(run: &'b Cow<'_, [u8]>) -> (r: &'b [u8])
    ensures
        r@ == run@,
{
    match run {
        Cow::Borrowed(s) => s,
        Cow::Owned(v) => v.as_slice(),
    }
}

/// A copy of a text member: borrowed where the member is borrowed, owned
/// where it is owned.
pub fn copy_of_text<'a>(text: &Cow<'a, str>) -> (r: Cow<'a, str>)
    ensures
        r@ == text@,
{
    match text {
        Cow::Borrowed(s) => Cow::Borrowed(*s),
        Cow::Owned(s) => Cow::Owned(s.clone()),
    }
}

/// A copy of a byte-string member: borrowed where the member is borrowed,
/// owned where it is owned.
pub fn copy_of_run<'a>(run: &Cow<'a, [u8]>) -> (r: Cow<'a, [u8]>)
    ensures
        r@ == run@,
{
    match run {
        Cow::Borrowed(s) => Cow::Borrowed(*s),
        Cow::Owned(v) => Cow::Owned(slice_to_vec(v.as_slice())),
    }
}

/// An empty text member.
pub fn empty_text<'a>() -> (r: Cow<'a, str>)
    ensures
        r@ == Seq::<char>::empty(),
{
    Cow::Owned(String::new())
}

/// An empty byte-string member.
pub fn empty_run<'a>() -> (r: Cow<'a, [u8]>)
    ensures
        r@ == Seq::<u8>::empty(),
{
    Cow::Owned(Vec::new())
}

} // verus!
