//! What the lexer relies on from the text buffers it fills: std's `String`
//! and the `ascii` crate's `AsciiString`.
use vstd::prelude::*;

verus! {

/// Relies on `String::push`: the character is appended at the end.
pub assume_specification[ std::string::String::push ](s: &mut std::string::String, ch: char)
    ensures
        final(s)@ == old(s)@.push(ch),
;

/// Declares `ascii::AsciiString`, the buffer that holds an identifier's text.
#[verifier::external_type_specification]
#[verifier::external_body]
pub struct ExAsciiString(ascii::AsciiString);

/// The characters that an `AsciiString` holds, in order.
pub uninterp spec fn ascii_chars(s: ascii::AsciiString) -> Seq<char>;

/// Relies on `AsciiString::new`: a new buffer holds no character.
pub assume_specification[ ascii::AsciiString::new ]() -> (r: ascii::AsciiString)
    ensures
        ascii_chars(r) == Seq::<char>::empty(),
;

/// Relies on `AsciiChar::new` and `AsciiString::push`: an ASCII character is
/// appended at the end (`AsciiChar::new` panics on any other, hence the
/// precondition).
#[verifier::external_body]
pub(crate) fn push_ascii(s: &mut ascii::AsciiString, c: char)
    requires
        (c as u32) < 128,
    ensures
        ascii_chars(*final(s)) == ascii_chars(*old(s)).push(c),
{
    s.push(ascii::AsciiChar::new(c))
}

} // verus!
