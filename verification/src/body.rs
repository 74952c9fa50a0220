//! The text body: storage for the character sequence a buffer owns.
//!
//! Storage is delegated to `ropey::Rope`, which keeps the text as a balanced
//! tree with logarithmic-cost edits and constant-cost length queries. Verus
//! does not look inside a rope, so this module gives the rope's contents a
//! name, `rope_chars`, and states over that name what each rope operation
//! does, exactly as the rope's own source shows. Everything else in the
//! crate is proved from these contracts.
//!
//! The rope is built without its optional line-break features, so a line
//! break is a newline character and nothing else; the contracts below state
//! line queries in terms of the newline-based model of [`crate::lines`].

use vstd::prelude::*;

use crate::lines::{line_count, line_of, line_start};

verus! {

#[verifier::external_type_specification]
#[verifier::external_body]
pub struct ExRope(ropey::Rope);

/// The sequence of characters a rope holds.
pub uninterp spec fn rope_chars(r: ropey::Rope) -> Seq<char>;

/// Relies on ropey::Rope::new: an empty rope holds no characters.
#[verifier::external_body]
pub(crate) fn rope_new() -> (r: ropey::Rope)
    ensures
        rope_chars(r) == Seq::<char>::empty(),
{
    ropey::Rope::new()
}

/// Relies on ropey::Rope::from_str: the rope holds the string's characters.
#[verifier::external_body]
pub(crate) fn rope_from_str(s: &str) -> (r: ropey::Rope)
    ensures
        rope_chars(r) == s@,
{
    ropey::Rope::from_str(s)
}

/// Relies on ropey::Rope::len_chars: the total number of characters.
#[verifier::external_body]
pub(crate) fn rope_len_chars(r: &ropey::Rope) -> (n: usize)
    ensures
        n as nat == rope_chars(*r).len(),
{
    r.len_chars()
}

/// Relies on ropey::Rope::len_lines: one more than the number of line
/// breaks, where a line break is a newline character alone (the rope is
/// built without its optional line-break features).
#[verifier::external_body]
pub(crate) fn rope_len_lines(r: &ropey::Rope) -> (n: usize)
    ensures
        n as int == line_count(rope_chars(*r)),
{
    r.len_lines()
}

/// Relies on ropey::Rope::line_to_char: the index of the first character of
/// the given line; asking for the line one past the last yields the
/// one-past-the-end character index.
#[verifier::external_body]
pub(crate) fn rope_line_to_char(r: &ropey::Rope, line: usize) -> (n: usize)
    requires
        line as int <= line_count(rope_chars(*r)),
    ensures
        n as int == line_start(rope_chars(*r), line as int),
{
    r.line_to_char(line)
}

/// Relies on ropey::Rope::char_to_line: the number of line breaks before
/// the given index; the one-past-the-end index belongs to the last line.
#[verifier::external_body]
pub(crate) fn rope_char_to_line(r: &ropey::Rope, i: usize) -> (l: usize)
    requires
        i as nat <= rope_chars(*r).len(),
    ensures
        l as int == line_of(rope_chars(*r), i as int),
{
    r.char_to_line(i)
}

/// Relies on ropey::Rope::slice: the characters of the half-open range.
#[verifier::external_body]
pub(crate) fn rope_slice_string(r: &ropey::Rope, from: usize, to: usize) -> (s: String)
    requires
        from <= to,
        to as nat <= rope_chars(*r).len(),
    ensures
        s@ == rope_chars(*r).subrange(from as int, to as int),
{
    String::from(r.slice(from..to))
}

/// Relies on ropey::Rope::remove: the characters of the half-open range are
/// taken out and the rest keep their order.
#[verifier::external_body]
pub(crate) fn rope_remove(r: &mut ropey::Rope, from: usize, to: usize)
    requires
        from <= to,
        to as nat <= rope_chars(*old(r)).len(),
    ensures
        rope_chars(*final (r)) == rope_chars(*old(r)).take(from as int) + rope_chars(
            *old(r),
        ).skip(to as int),
{
    r.remove(from..to)
}

/// Relies on ropey::Rope::insert: the string's characters appear at the
/// given index and the rest keep their order.
#[verifier::external_body]
pub(crate) fn rope_insert(r: &mut ropey::Rope, at: usize, s: &str)
    requires
        at as nat <= rope_chars(*old(r)).len(),
    ensures
        rope_chars(*final (r)) == rope_chars(*old(r)).take(at as int) + s@ + rope_chars(
            *old(r),
        ).skip(at as int),
{
    r.insert(at, s)
}

/// Relies on core::str::from_utf8: the bytes view as a string exactly when
/// they are valid UTF-8, and the string's characters are their decoding.
#[verifier::external_body]
pub(crate) fn utf8_to_str(bytes: &[u8]) -> (r: Option<&str>)
    ensures
        (r matches Some(s) ==> s@ == vstd::utf8::decode_utf8(bytes@)),
        (r is Some <==> vstd::utf8::valid_utf8(bytes@)),
{
    core::str::from_utf8(bytes).ok()
}

} // verus!
