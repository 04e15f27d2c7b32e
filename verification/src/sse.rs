//! The framing of server-sent events: lines, the `data: ` prefix, and the
//! `[DONE]` marker.

use crate::text::{to_chars, trim, trimmed_is};
use vstd::prelude::*;

verus! {

/// The byte that ends a line.
pub const LINE_FEED: u8 = 0x0A;

/// The bytes of the prefix `data: `.
pub open spec fn data_prefix() -> Seq<u8> {
    seq![0x64u8, 0x61u8, 0x74u8, 0x61u8, 0x3Au8, 0x20u8]
}

/// The payload of an event line: what follows the prefix `data: `. A line
/// without the prefix is no event.
pub open spec fn spec_payload_of(line: Seq<u8>) -> Option<Seq<u8>> {
    if line.len() >= 6 && line.take(6) == data_prefix() {
        Some(line.skip(6))
    } else {
        None
    }
}

/// Whether a payload is the marker `[DONE]`, white space around it aside.
pub open spec fn spec_is_done_marker(text: Seq<char>) -> bool {
    trim(text) == "[DONE]"@
}

/// What `String::from_utf8_lossy` makes of a sequence of bytes that is not
/// UTF-8: the text, with the replacement character in place of each part
/// that cannot be decoded.
pub uninterp spec fn utf8_lossy(bytes: Seq<u8>) -> Seq<char>;

/// The text of a sequence of bytes: the text that they encode where they
/// are UTF-8, and otherwise the text with replacement characters.
pub open spec fn decoded(bytes: Seq<u8>) -> Seq<char> {
    if vstd::utf8::valid_utf8(bytes) {
        vstd::utf8::decode_utf8(bytes)
    } else {
        utf8_lossy(bytes)
    }
}

/// Calls `String::from_utf8_lossy` and takes the text as a `String`. For
/// bytes that are UTF-8 the result is the text that they encode; for any
/// other bytes it is the text named by [`utf8_lossy`].
#[verifier::external_body]
pub(crate) fn decode_lossy(bytes: &[u8]) -> (r: String)
    ensures
        vstd::utf8::valid_utf8(bytes@) ==> r@ == vstd::utf8::decode_utf8(bytes@),
        !vstd::utf8::valid_utf8(bytes@) ==> r@ == utf8_lossy(bytes@),
{
    String::from_utf8_lossy(bytes).into_owned()
}

/// The bytes of the marker `[DONE]`.
pub open spec fn done_bytes() -> Seq<u8> {
    seq![0x5Bu8, 0x44u8, 0x4Fu8, 0x4Eu8, 0x45u8, 0x5Du8]
}

/// The bytes of the marker are read as the marker.
pub proof fn lemma_done_bytes_are_the_marker()
    ensures
        spec_payload_of(data_prefix() + done_bytes()) == Some(done_bytes()),
        decoded(done_bytes()) == "[DONE]"@,
        spec_is_done_marker(decoded(done_bytes())),
{
    reveal_strlit("[DONE]");
    let word = "[DONE]"@;
    let line = data_prefix() + done_bytes();
    assert(line.take(6) =~= data_prefix());
    assert(line.skip(6) =~= done_bytes());
    assert(vstd::utf8::is_ascii_chars(word));
    vstd::utf8::is_ascii_chars_encode_utf8(word);
    assert(vstd::utf8::encode_utf8(word) =~= done_bytes());
    vstd::utf8::encode_utf8_valid_utf8(word);
    vstd::utf8::encode_utf8_decode_utf8(word);
    assert(crate::text::trim_start(word) == word);
    assert(crate::text::trim_end(word) == word);
}

/// The bytes of a sequence of chunks, one after the other.
pub open spec fn joined(chunks: Seq<Seq<u8>>) -> Seq<u8>
    decreases chunks.len(),
{
    if chunks.len() == 0 {
        Seq::empty()
    } else {
        joined(chunks.drop_last()) + chunks.last()
    }
}

/// The payload of an event line, as [`spec_payload_of`] says.
pub fn payload_of(line: &[u8]) -> (r: Option<&[u8]>)
    ensures
        match r {
            Some(p) => spec_payload_of(line@) == Some(p@),
            None => spec_payload_of(line@) is None,
        },
{
    if line.len() < 6 {
        return None;
    }
    if line[0] == 0x64 && line[1] == 0x61 && line[2] == 0x74 && line[3] == 0x61 && line[4] == 0x3A
        && line[5] == 0x20 {
        assert(line@.take(6) =~= data_prefix());
        let rest = vstd::slice::slice_subrange(line, 6, line.len());
        assert(rest@ =~= line@.skip(6));
        Some(rest)
    } else {
        assert(line@.take(6)[0] == line@[0]);
        assert(line@.take(6)[1] == line@[1]);
        assert(line@.take(6)[2] == line@[2]);
        assert(line@.take(6)[3] == line@[3]);
        assert(line@.take(6)[4] == line@[4]);
        assert(line@.take(6)[5] == line@[5]);
        None
    }
}

/// Whether a payload is the marker `[DONE]`, as [`spec_is_done_marker`] says.
pub fn is_done_marker(text: &str) -> (r: bool)
    ensures
        r == spec_is_done_marker(text@),
{
    let chars = to_chars(text);
    let word = to_chars("[DONE]");
    trimmed_is(chars.as_slice(), word.as_slice())
}

} // verus!
