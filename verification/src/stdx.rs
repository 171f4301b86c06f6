//! Contracts for the parts of the standard library that the crate calls and
//! that come without a specification of their own. Nothing here is proved.

use std::collections::VecDeque;

use vstd::prelude::*;
#[allow(unused_imports)]
use vstd::utf8::{decode_utf8, valid_utf8};

verus! {

/// The characters with the Unicode property `White_Space`.
pub open spec fn white_space(c: char) -> bool {
    let u = c as u32;
    ||| 0x09 <= u <= 0x0d
    ||| u == 0x20
    ||| u == 0x85
    ||| u == 0xa0
    ||| u == 0x1680
    ||| 0x2000 <= u <= 0x200a
    ||| u == 0x2028
    ||| u == 0x2029
    ||| u == 0x202f
    ||| u == 0x205f
    ||| u == 0x3000
}

/// [`char::is_whitespace`] says whether a character has the Unicode property
/// `White_Space`.
pub assume_specification[ char::is_whitespace ](c: char) -> (b: bool)
    ensures
        b == white_space(c),
;

/// [`String::push`] appends one character.
pub assume_specification[ String::push ](s: &mut String, ch: char)
    ensures
        final(s)@ == old(s)@.push(ch),
;

/// Why bytes are not UTF-8; only carried.
#[verifier::external_type_specification]
#[verifier::external_body]
pub struct ExUtf8Error(std::str::Utf8Error);

/// [`std::str::from_utf8`] succeeds on well-formed UTF-8 and on nothing else,
/// and the string it gives is the decoding of the bytes.
pub assume_specification[ std::str::from_utf8 ](v: &[u8]) -> (res: Result<
    &str,
    std::str::Utf8Error,
>)
    ensures
        res is Ok <==> valid_utf8(v@),
        res matches Ok(s) ==> s@ == decode_utf8(v@),
;

/// What [`String::from_utf8_lossy`] makes of `bytes`.
pub uninterp spec fn lossy_text(bytes: Seq<u8>) -> Seq<char>;

/// [`String::from_utf8_lossy`] is a function of the bytes, and on well-formed
/// UTF-8 it is the decoding. Where it puts replacement characters on other
/// input is not stated.
#[verifier::external_body]
pub(crate) fn utf8_lossy(bytes: &[u8]) -> (s: String)
    ensures
        s@ == lossy_text(bytes@),
        valid_utf8(bytes@) ==> s@ == decode_utf8(bytes@),
{
    String::from_utf8_lossy(bytes).into_owned()
}

/// [`VecDeque::get_mut`]: a mutable reference to the item at `i`, where there
/// is one. Only that item can change through it.
#[verifier::external_body]
pub(crate) fn deque_get_mut<T>(v: &mut VecDeque<T>, i: usize) -> (r: Option<&mut T>)
    ensures
        i < old(v)@.len() ==> {
            &&& r is Some
            &&& *r->0 == old(v)@[i as int]
            &&& final(v)@ == old(v)@.update(i as int, *final(r->0))
        },
        i >= old(v)@.len() ==> r is None && final(v)@ == old(v)@,
{
    v.get_mut(i)
}

} // verus!
