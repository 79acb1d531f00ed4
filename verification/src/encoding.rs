//! Base64 text, as the `base64` crate writes and reads it with its standard
//! alphabet and padding.

use vstd::prelude::*;
use vstd::utf8::{encode_utf8, is_ascii_chars, is_ascii_chars_encode_utf8};
use crate::text::DOT;

verus! {

/// The text that `base64::encode` gives for `bytes`.
pub uninterp spec fn base64_text(bytes: Seq<u8>) -> Seq<char>;

/// What `base64::decode` gives for the bytes `input`: the decoded bytes, or
/// `None` where it reports an error.
pub uninterp spec fn base64_decoded(input: Seq<u8>) -> Option<Seq<u8>>;

/// A character of the standard base64 alphabet, or the padding sign.
pub open spec fn is_base64_char(c: char) -> bool {
    ||| 'A' <= c <= 'Z'
    ||| 'a' <= c <= 'z'
    ||| '0' <= c <= '9'
    ||| c == '+'
    ||| c == '/'
    ||| c == '='
}

/// Every character of `text` is one that base64 writes.
pub open spec fn is_base64_text(text: Seq<char>) -> bool {
    forall|i: int| 0 <= i < text.len() ==> is_base64_char(#[trigger] text[i])
}

/// The number of padding signs that end the text of `len` bytes.
pub open spec fn padding_len(len: nat) -> nat {
    ((3 - len % 3) % 3) as nat
}

/// `text` is the base64 text of `bytes` in every respect that the crate
/// fixes: four characters of the alphabet for every three bytes, padding
/// signs at the end of the last group and nowhere else, and `decode` reads
/// the bytes back from it.
pub open spec fn is_base64_of(text: Seq<char>, bytes: Seq<u8>) -> bool {
    &&& text == base64_text(bytes)
    &&& text.len() == 4 * ((bytes.len() + 2) / 3)
    &&& is_base64_text(text)
    &&& forall|i: int|
        0 <= i < text.len() ==> ((#[trigger] text[i]) == '=') == (i >= text.len() - padding_len(
            bytes.len(),
        ))
    &&& base64_decoded(encode_utf8(text)) == Some(bytes)
}

/// The longest input that `encode` takes: beyond it the length of the text
/// would not fit the machine's word.
pub open spec fn encodable(len: nat) -> bool {
    len <= usize::MAX / 2
}

#[verifier::external_type_specification]
#[verifier::external_body]
pub struct ExDecodeError(base64::DecodeError);

/// Calls `base64::encode`. The crate writes four characters of its standard
/// alphabet for every three bytes, fills the last group up with `=`, which
/// is no character of the alphabet, and reads what it wrote back as the
/// same bytes with its own `decode`.
#[verifier::external_body]
pub(crate) fn encode_base64(bytes: &[u8]) -> (text: String)
    requires
        encodable(bytes@.len()),
    ensures
        text@ == base64_text(bytes@),
        is_base64_of(text@, bytes@),
{
    base64::encode(bytes)
}

/// Calls `base64::decode` on the bytes of a text. The crate counts the
/// chunks of eight bytes of its input, rounding up, which takes a length
/// that leaves room for seven more.
#[verifier::external_body]
pub(crate) fn decode_base64(input: &[u8]) -> (r: Result<Vec<u8>, base64::DecodeError>)
    requires
        input@.len() + 7 <= usize::MAX,
    ensures
        match r {
            Ok(bytes) => base64_decoded(input@) == Some(bytes@),
            Err(_) => base64_decoded(input@) is None,
        },
{
    base64::decode(input)
}

/// The bytes of a text of base64 characters are its characters, and none
/// of them is a dot.
pub proof fn lemma_base64_bytes(text: Seq<char>)
    requires
        is_base64_text(text),
    ensures
        is_ascii_chars(text),
        encode_utf8(text).len() == text.len(),
        forall|i: int| 0 <= i < text.len() ==> #[trigger] encode_utf8(text)[i] == text[i] as u8,
        forall|i: int| 0 <= i < text.len() ==> #[trigger] encode_utf8(text)[i] != DOT,
{
    assert forall|i: int| 0 <= i < text.len() implies '\0' <= #[trigger] text[i] <= '\u{7f}' by {
        assert(is_base64_char(text[i]));
    }
    is_ascii_chars_encode_utf8(text);
    assert forall|i: int| 0 <= i < text.len() implies #[trigger] encode_utf8(text)[i] != DOT by {
        assert(is_base64_char(text[i]));
        assert(encode_utf8(text)[i] == text[i] as u8);
    }
}

/// What `decode` makes of a text: the bytes that it writes in base64, or
/// `None` where it is no base64 or too long for this machine to take.
pub open spec fn decoded_text(text: Seq<char>) -> Option<Seq<u8>> {
    if encode_utf8(text).len() + 7 <= usize::MAX {
        base64_decoded(encode_utf8(text))
    } else {
        None
    }
}

/// The bytes that a text writes in base64, as a settings file or a
/// command line gives a key.
pub fn decode(text: &str) -> (r: Option<Vec<u8>>)
    ensures
        match r {
            Some(bytes) => decoded_text(text@) == Some(bytes@),
            None => decoded_text(text@) is None,
        },
{
    let input = text.as_bytes();
    if input.len() > usize::MAX - 7 {
        return None;
    }
    match decode_base64(input) {
        Ok(bytes) => Some(bytes),
        Err(_) => None,
    }
}

/// The base64 text of `bytes`, which `decode` reads back. `None` where the
/// bytes are too many for the text to have a length.
pub fn encode(bytes: &[u8]) -> (r: Option<String>)
    ensures
        match r {
            Some(text) => {
                &&& encodable(bytes@.len())
                &&& is_base64_of(text@, bytes@)
                &&& decoded_text(text@) == Some(bytes@)
            },
            None => !encodable(bytes@.len()),
        },
{
    if bytes.len() > usize::MAX / 2 {
        return None;
    }
    let text = encode_base64(bytes);
    proof {
        lemma_base64_bytes(text@);
    }
    Some(text)
}

} // verus!
