//! The terminal clipboard escape: builds the OSC 52 sequence that asks the
//! terminal to place text on the system clipboard. Writing the sequence out,
//! and the command-based fallbacks, are the caller's concern.
use vstd::prelude::*;

use crate::strutil::append_chars;
use crate::strutil::push_char;
use crate::strutil::str_chars;

verus! {

/// The standard base64 encoding of a text's bytes.
pub uninterp spec fn b64_standard(s: Seq<char>) -> Seq<char>;

/// Relies on base64's `STANDARD` engine `encode`: the encoding depends on the
/// input bytes alone, and an empty input encodes to an empty string.
#[verifier::external_body]
fn base64_encode(text: &str) -> (r: String)
    ensures
        r@ == b64_standard(text@),
        text@.len() == 0 ==> r@.len() == 0,
{
    base64::Engine::encode(&base64::engine::general_purpose::STANDARD, text.as_bytes())
}

/// The OSC 52 sequence for the text: `ESC ] 5 2 ; c ;`, the base64 payload,
/// then `BEL`.
pub fn osc52_sequence(text: &str) -> (r: String)
    ensures
        r@ == seq!['\u{1b}', ']', '5', '2', ';', 'c', ';'] + b64_standard(text@) + seq![
            '\u{7}',
        ],
{
    let mut out = String::new();
    push_char(&mut out, '\u{1b}');
    push_char(&mut out, ']');
    push_char(&mut out, '5');
    push_char(&mut out, '2');
    push_char(&mut out, ';');
    push_char(&mut out, 'c');
    push_char(&mut out, ';');
    let enc = base64_encode(text);
    let ec = str_chars(enc.as_str());
    append_chars(&mut out, &ec);
    push_char(&mut out, '\u{7}');
    proof {
        assert(out@ =~= seq!['\u{1b}', ']', '5', '2', ';', 'c', ';'] + b64_standard(text@)
            + seq!['\u{7}']);
    }
    out
}

} // verus!
