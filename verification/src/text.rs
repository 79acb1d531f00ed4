//! Facts about the UTF-8 bytes of a text that the token format rests on: a
//! text is encoded piece by piece, and only the dot is encoded as the dot's
//! byte.

use vstd::prelude::*;
use vstd::utf8::{
    char_is_scalar, encode_scalar, encode_utf8, has_width_1_encoding, has_width_2_encoding,
    has_width_3_encoding,
};

verus! {

/// The ASCII dot, as a byte.
pub const DOT: u8 = 0x2e;

/// The encoding of two texts in a row is the two encodings in a row.
pub proof fn lemma_encode_concat(a: Seq<char>, b: Seq<char>)
    ensures
        encode_utf8(a + b) == encode_utf8(a) + encode_utf8(b),
    decreases a.len(),
{
    if a.len() == 0 {
        assert(a + b =~= b);
        assert(encode_utf8(a) =~= Seq::<u8>::empty());
        assert(encode_utf8(a) + encode_utf8(b) =~= encode_utf8(b));
    } else {
        assert((a + b).drop_first() =~= a.drop_first() + b);
        assert((a + b)[0] == a[0]);
        lemma_encode_concat(a.drop_first(), b);
        assert(encode_utf8(a + b) =~= encode_utf8(a) + encode_utf8(b));
    }
}

/// The encoding of the one-character text `.` is the one byte `DOT`.
pub proof fn lemma_encode_dot()
    ensures
        encode_utf8(seq!['.']) == seq![DOT],
{
    let dot = seq!['.'];
    assert(dot.drop_first() =~= Seq::<char>::empty());
    assert(encode_utf8(dot.drop_first()) =~= Seq::<u8>::empty());
    let c: u32 = '.' as u32;
    assert(c == 0x2e);
    assert((c & 0x7F) as u8 == 0x2eu8) by (bit_vector)
        requires
            c == 0x2e,
    ;
    assert(encode_utf8(dot) =~= seq![DOT]);
}

/// No byte of the encoding of a character other than the dot is `DOT`.
pub proof fn lemma_scalar_without_dot(c: char)
    requires
        c != '.',
    ensures
        forall|i: int|
            0 <= i < encode_scalar(c as u32).len() ==> #[trigger] encode_scalar(c as u32)[i]
                != DOT,
{
    char_is_scalar(c);
    let s: u32 = c as u32;
    assert(s != 0x2e);
    if has_width_1_encoding(s) {
        assert((s & 0x7F) as u8 != 0x2eu8) by (bit_vector)
            requires
                s <= 0x7F,
                s != 0x2e,
        ;
    } else if has_width_2_encoding(s) {
        assert((0xC0u8 | (((s >> 6) & 0x1F) as u8)) != 0x2eu8) by (bit_vector);
        assert((0x80u8 | ((s & 0x3F) as u8)) != 0x2eu8) by (bit_vector);
    } else if has_width_3_encoding(s) {
        assert((0xE0u8 | (((s >> 12) & 0x0F) as u8)) != 0x2eu8) by (bit_vector);
        assert((0x80u8 | (((s >> 6) & 0x3F) as u8)) != 0x2eu8) by (bit_vector);
        assert((0x80u8 | ((s & 0x3F) as u8)) != 0x2eu8) by (bit_vector);
    } else {
        assert((0xF0u8 | (((s >> 18) & 0x7) as u8)) != 0x2eu8) by (bit_vector);
        assert((0x80u8 | (((s >> 12) & 0x3F) as u8)) != 0x2eu8) by (bit_vector);
        assert((0x80u8 | (((s >> 6) & 0x3F) as u8)) != 0x2eu8) by (bit_vector);
        assert((0x80u8 | ((s & 0x3F) as u8)) != 0x2eu8) by (bit_vector);
    }
}

/// A text without a dot has no `DOT` among its bytes.
pub proof fn lemma_bytes_without_dot(text: Seq<char>)
    requires
        !text.contains('.'),
    ensures
        forall|i: int| 0 <= i < encode_utf8(text).len() ==> #[trigger] encode_utf8(text)[i] != DOT,
    decreases text.len(),
{
    if text.len() > 0 {
        let rest = text.drop_first();
        assert(text[0] != '.');
        assert forall|i: int| 0 <= i < rest.len() implies rest[i] != '.' by {
            assert(rest[i] == text[i + 1]);
        }
        lemma_scalar_without_dot(text[0]);
        lemma_bytes_without_dot(rest);
        let head = encode_scalar(text[0] as u32);
        assert forall|i: int| 0 <= i < encode_utf8(text).len() implies #[trigger] encode_utf8(
            text,
        )[i] != DOT by {
            if i < head.len() {
                assert(encode_utf8(text)[i] == head[i]);
            } else {
                assert(encode_utf8(text)[i] == encode_utf8(rest)[i - head.len()]);
            }
        }
    }
}

} // verus!
