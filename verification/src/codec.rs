//! The wire form of a session token and of the text that is sealed in it.
//!
//! A token is `base64(nonce) "." base64(sealed)`, where `sealed` is the
//! session key, a dot and the client's address, sealed under the server key
//! with that nonce. Base64 writes no dot, so the first dot of a token parts
//! the nonce from the rest and the token tells its own framing. The address
//! is bound by being part of the sealed text, not as associated data.
//!
//! The model is stated on bytes: a text stands for its UTF-8 encoding.

use vstd::prelude::*;
use vstd::slice::slice_subrange;
use vstd::string::StringExecFns;
use vstd::utf8::{
    decode_utf8, encode_utf8, encode_utf8_decode_utf8, encode_utf8_valid_utf8,
    is_ascii_chars_encode_utf8, valid_utf8,
};
use crate::bytes::{find_first, find_last, same_bytes, utf8_text};
use crate::cipher::{opened_bytes, sealed_bytes, NONCE_LEN, TAG_LEN};
use crate::encoding::{
    base64_decoded, base64_text, decode_base64, encodable, encode_base64, is_base64_char,
    is_base64_text, lemma_base64_bytes,
};
use crate::text::{lemma_bytes_without_dot, lemma_encode_concat, lemma_encode_dot, DOT};

verus! {

/// The text that is sealed for a session key and a client address.
pub open spec fn plaintext(key: Seq<char>, addr: Seq<char>) -> Seq<u8> {
    encode_utf8(key) + seq![DOT] + encode_utf8(addr)
}

/// The session key that an opened plaintext yields for a client at `addr`:
/// the plaintext is split at its last dot, what follows the dot has to be
/// the address exactly, and what precedes it is the key.
pub open spec fn bound_key(plain: Seq<u8>, addr: Seq<char>) -> Option<Seq<char>> {
    match plain.index_of_last(DOT) {
        Some(dot) => {
            let leading = plain.subrange(0, dot);
            let trailing = plain.subrange(dot + 1, plain.len() as int);
            if trailing == encode_utf8(addr) && valid_utf8(leading) {
                Some(decode_utf8(leading))
            } else {
                None
            }
        },
        None => None,
    }
}

/// The two fields of a token: what stands before its first dot, and what
/// stands after it.
pub open spec fn unframed(token: Seq<u8>) -> Option<(Seq<u8>, Seq<u8>)> {
    match token.index_of_first(DOT) {
        Some(dot) => Some((token.subrange(0, dot), token.subrange(dot + 1, token.len() as int))),
        None => None,
    }
}

/// A token short enough for this machine to take apart.
pub open spec fn token_fits(token: Seq<u8>) -> bool {
    token.len() + 7 <= usize::MAX
}

/// The nonce and the sealed bytes that a token carries, or `None` where its
/// framing is malformed, a field is not base64 or the nonce has the wrong
/// length.
pub open spec fn token_fields(token: Seq<u8>) -> Option<(Seq<u8>, Seq<u8>)> {
    if !token_fits(token) {
        None
    } else {
        match unframed(token) {
            Some((nonce_text, sealed_text)) => match (
                base64_decoded(nonce_text),
                base64_decoded(sealed_text),
            ) {
                (Some(nonce), Some(sealed)) => if nonce.len() == NONCE_LEN {
                    Some((nonce, sealed))
                } else {
                    None
                },
                _ => None,
            },
            None => None,
        }
    }
}

/// The plaintext that a token opens to under the server key `secret`, or
/// `None` where the token is malformed or the cipher refuses it.
pub open spec fn opened_token(secret: Seq<u8>, token: Seq<u8>) -> Option<Seq<u8>> {
    match token_fields(token) {
        Some((nonce, sealed)) => opened_bytes(secret, nonce, sealed),
        None => None,
    }
}

/// The session key that `token` carries for a client at `addr`, under the
/// server key `secret`.
pub open spec fn decoded_key(secret: Seq<u8>, token: Seq<char>, addr: Seq<char>) -> Option<
    Seq<char>,
> {
    match opened_token(secret, encode_utf8(token)) {
        Some(plain) => bound_key(plain, addr),
        None => None,
    }
}

/// The token that carries `nonce` and `sealed`.
pub open spec fn framed_text(nonce: Seq<u8>, sealed: Seq<u8>) -> Seq<char> {
    base64_text(nonce) + seq!['.'] + base64_text(sealed)
}

/// Length of the base64 text of a nonce: 16 characters, none of them
/// padding.
pub const NONCE_TEXT_LEN: usize = 16;

/// The shape of a token that carries `sealed_len` sealed bytes: the 16
/// characters of the nonce without padding, a dot, and the base64 text of
/// the sealed bytes. Every character is a letter, a digit, `+`, `/`, `=` or
/// the dot, and the dot at index 16 is the only one.
pub open spec fn is_token_text(token: Seq<char>, sealed_len: nat) -> bool {
    &&& token.len() == NONCE_TEXT_LEN + 1 + 4 * ((sealed_len + 2) / 3)
    &&& token[NONCE_TEXT_LEN as int] == '.'
    &&& forall|i: int|
        0 <= i < NONCE_TEXT_LEN ==> is_base64_char(#[trigger] token[i]) && token[i] != '='
    &&& forall|i: int| NONCE_TEXT_LEN < i < token.len() ==> is_base64_char(#[trigger] token[i])
    &&& forall|i: int| 0 <= i < token.len() ==> ((#[trigger] token[i]) == '.') == (i
        == NONCE_TEXT_LEN)
}

/// `token` is the token for `key` and `addr` that is sealed under `secret`
/// with `nonce`: the cipher seals the text for the two to the text's
/// length and a tag of 16 bytes, which open to the text again; the token
/// frames the nonce and what was sealed, and has a token's shape.
pub open spec fn sealed_token(
    secret: Seq<u8>,
    nonce: Seq<u8>,
    key: Seq<char>,
    addr: Seq<char>,
    token: Seq<char>,
) -> bool {
    &&& nonce.len() == NONCE_LEN
    &&& sealed_bytes(secret, nonce, plaintext(key, addr)) matches Some(sealed)
    &&& sealed.len() == plaintext(key, addr).len() + TAG_LEN
    &&& opened_bytes(secret, nonce, sealed) == Some(plaintext(key, addr))
    &&& token == framed_text(nonce, sealed)
    &&& is_token_text(token, sealed.len())
    &&& token_fields(encode_utf8(token)) == Some((nonce, sealed))
}

/// The token for a session key and an address, sealed under `secret` with
/// `nonce`, or `None` where there is none: the cipher does not seal the
/// text, or what it gives is more than a token can carry.
pub open spec fn token_text(secret: Seq<u8>, nonce: Seq<u8>, key: Seq<char>, addr: Seq<char>) -> Option<
    Seq<char>,
> {
    match sealed_bytes(secret, nonce, plaintext(key, addr)) {
        Some(sealed) => if encodable(sealed.len()) {
            Some(framed_text(nonce, sealed))
        } else {
            None
        },
        None => None,
    }
}

/// Builds the text to seal for `key` and `addr`.
pub fn plain_text(key: &str, addr: &str) -> (plain: Vec<u8>)
    ensures
        plain@ == plaintext(key@, addr@),
{
    let mut plain: Vec<u8> = Vec::new();
    plain.extend_from_slice(key.as_bytes());
    plain.push(DOT);
    plain.extend_from_slice(addr.as_bytes());
    assert(plain@ =~= plaintext(key@, addr@));
    plain
}

/// Takes a token apart at its first dot.
pub fn unframe(token: &[u8]) -> (r: Option<(&[u8], &[u8])>)
    ensures
        match r {
            Some((nonce_text, sealed_text)) => unframed(token@) == Some(
                (nonce_text@, sealed_text@),
            ),
            None => unframed(token@) is None,
        },
{
    match find_first(token, DOT) {
        Some(dot) => {
            let len: usize = token.len();
            proof {
                token@.index_of_first_ensures(DOT);
            }
            let nonce_text = slice_subrange(token, 0, dot);
            let sealed_text = slice_subrange(token, dot + 1, len);
            Some((nonce_text, sealed_text))
        },
        None => None,
    }
}

/// Reads the session key out of an opened plaintext, for a client at `addr`.
pub fn bind(plain: &[u8], addr: &str) -> (r: Option<String>)
    ensures
        match r {
            Some(key) => bound_key(plain@, addr@) == Some(key@),
            None => bound_key(plain@, addr@) is None,
        },
{
    match find_last(plain, DOT) {
        Some(dot) => {
            let len: usize = plain.len();
            proof {
                plain@.index_of_last_ensures(DOT);
            }
            let leading = slice_subrange(plain, 0, dot);
            let trailing = slice_subrange(plain, dot + 1, len);
            if same_bytes(trailing, addr.as_bytes()) {
                utf8_text(vstd::slice::slice_to_vec(leading))
            } else {
                None
            }
        },
        None => None,
    }
}

/// A token of two base64 texts parted by a dot comes apart into the same
/// two texts.
pub proof fn lemma_unframe_framed(nonce_text: Seq<char>, sealed_text: Seq<char>)
    requires
        is_base64_text(nonce_text),
        is_base64_text(sealed_text),
    ensures
        encode_utf8(nonce_text + seq!['.'] + sealed_text).len() == nonce_text.len() + 1
            + sealed_text.len(),
        unframed(encode_utf8(nonce_text + seq!['.'] + sealed_text)) == Some(
            (encode_utf8(nonce_text), encode_utf8(sealed_text)),
        ),
{
    let token = nonce_text + seq!['.'] + sealed_text;
    let n = nonce_text.len() as int;
    lemma_base64_bytes(nonce_text);
    lemma_base64_bytes(sealed_text);
    assert forall|i: int| 0 <= i < token.len() implies '\0' <= #[trigger] token[i]
        <= '\u{7f}' by {
        if i < n {
            assert(token[i] == nonce_text[i]);
            assert(is_base64_char(nonce_text[i]));
        } else if i > n {
            assert(token[i] == sealed_text[i - n - 1]);
            assert(is_base64_char(sealed_text[i - n - 1]));
        }
    }
    is_ascii_chars_encode_utf8(token);
    let bytes = encode_utf8(token);
    assert(bytes[n] == DOT) by {
        assert(token[n] == '.');
        assert(bytes[n] == token[n] as u8);
    }
    assert forall|i: int| 0 <= i < n implies bytes[i] != DOT by {
        assert(token[i] == nonce_text[i]);
        assert(bytes[i] == token[i] as u8);
        assert(encode_utf8(nonce_text)[i] == nonce_text[i] as u8);
    }
    bytes.index_of_first_ensures(DOT);
    assert(bytes.index_of_first(DOT) == Some(n));
    assert(bytes.subrange(0, n) =~= encode_utf8(nonce_text)) by {
        assert forall|i: int| 0 <= i < n implies bytes.subrange(0, n)[i] == encode_utf8(
            nonce_text,
        )[i] by {
            assert(token[i] == nonce_text[i]);
            assert(bytes[i] == token[i] as u8);
        }
    }
    assert(bytes.subrange(n + 1, bytes.len() as int) =~= encode_utf8(sealed_text)) by {
        assert forall|i: int| 0 <= i < sealed_text.len() implies bytes.subrange(
            n + 1,
            bytes.len() as int,
        )[i] == encode_utf8(sealed_text)[i] by {
            assert(token[n + 1 + i] == sealed_text[i]);
            assert(bytes[n + 1 + i] == token[n + 1 + i] as u8);
        }
    }
}

/// Writes a nonce and the sealed bytes as a token, from which `parse` reads
/// the same two back. `None` where the sealed bytes are too many for their
/// base64 text to have a length.
pub fn frame(nonce: &[u8; 12], sealed: &[u8]) -> (r: Option<String>)
    ensures
        match r {
            Some(token) => {
                &&& encodable(sealed@.len())
                &&& token@ == framed_text(nonce@, sealed@)
                &&& is_token_text(token@, sealed@.len())
                &&& token_fields(encode_utf8(token@)) == Some((nonce@, sealed@))
            },
            None => !encodable(sealed@.len()),
        },
{
    if sealed.len() > usize::MAX / 2 {
        return None;
    }
    let nonce_text = encode_base64(nonce.as_slice());
    let sealed_text = encode_base64(sealed);
    let token = nonce_text.clone().concat(".").concat(sealed_text.as_str());
    proof {
        reveal_strlit(".");
        assert(token@ =~= nonce_text@ + seq!['.'] + sealed_text@);
        lemma_unframe_framed(nonce_text@, sealed_text@);
        assert(is_token_text(token@, sealed@.len())) by {
            assert(nonce_text@.len() == 16);
            assert forall|i: int| 0 <= i < 16 implies is_base64_char(#[trigger] token@[i])
                && token@[i] != '=' by {
                assert(token@[i] == nonce_text@[i]);
                assert(is_base64_char(nonce_text@[i]));
            }
            assert forall|i: int| 16 < i < token@.len() implies is_base64_char(
                #[trigger] token@[i],
            ) by {
                assert(token@[i] == sealed_text@[i - 17]);
                assert(is_base64_char(sealed_text@[i - 17]));
            }
            assert forall|i: int| 0 <= i < token@.len() implies ((#[trigger] token@[i]) == '.')
                == (i == 16) by {
                if i < 16 {
                    assert(token@[i] == nonce_text@[i]);
                    assert(is_base64_char(nonce_text@[i]));
                } else if i > 16 {
                    assert(token@[i] == sealed_text@[i - 17]);
                    assert(is_base64_char(sealed_text@[i - 17]));
                }
            }
        }
    }
    Some(token)
}

/// Reads the nonce and the sealed bytes out of a token.
pub fn parse(token: &str) -> (r: Option<(Vec<u8>, Vec<u8>)>)
    ensures
        match r {
            Some((nonce, sealed)) => token_fields(encode_utf8(token@)) == Some((nonce@, sealed@)),
            None => token_fields(encode_utf8(token@)) is None,
        },
{
    let bytes = token.as_bytes();
    if bytes.len() > usize::MAX - 7 {
        return None;
    }
    let (nonce_text, sealed_text) = match unframe(bytes) {
        Some(fields) => fields,
        None => {
            return None;
        },
    };
    proof {
        bytes@.index_of_first_ensures(DOT);
    }
    let sealed = match decode_base64(sealed_text) {
        Ok(sealed) => sealed,
        Err(_) => {
            return None;
        },
    };
    let nonce = match decode_base64(nonce_text) {
        Ok(nonce) => nonce,
        Err(_) => {
            return None;
        },
    };
    if nonce.len() != NONCE_LEN {
        return None;
    }
    Some((nonce, sealed))
}

/// The same reading as `bound_key`, on text: the sealed text is split at
/// its last dot, what follows has to be the address, what precedes is the
/// key.
pub open spec fn bound_text(text: Seq<char>, addr: Seq<char>) -> Option<Seq<char>> {
    match text.index_of_last('.') {
        Some(dot) => if text.subrange(dot + 1, text.len() as int) == addr {
            Some(text.subrange(0, dot))
        } else {
            None
        },
        None => None,
    }
}

/// `token` opens, under `secret`, to the text that is sealed for `key` and
/// `addr`: it was issued for them.
pub open spec fn issued_for(
    secret: Seq<u8>,
    token: Seq<char>,
    key: Seq<char>,
    addr: Seq<char>,
) -> bool {
    opened_token(secret, encode_utf8(token)) == Some(plaintext(key, addr))
}

/// `segment` is what follows the last dot of `addr`, and `addr` has a dot.
pub open spec fn is_last_segment(addr: Seq<char>, segment: Seq<char>) -> bool {
    match addr.index_of_last('.') {
        Some(dot) => addr.subrange(dot + 1, addr.len() as int) == segment,
        None => false,
    }
}

/// Reading the key out of the bytes of a text is reading it out of the
/// text.
pub proof fn lemma_bound_key_of_text(text: Seq<char>, addr: Seq<char>)
    ensures
        bound_key(encode_utf8(text), addr) == bound_text(text, addr),
{
    let bytes = encode_utf8(text);
    text.index_of_last_ensures('.');
    bytes.index_of_last_ensures(DOT);
    match text.index_of_last('.') {
        None => {
            lemma_bytes_without_dot(text);
            if bytes.contains(DOT) {
                let i = choose|i: int| 0 <= i < bytes.len() && bytes[i] == DOT;
                assert(bytes[i] != DOT);
            }
        },
        Some(dot) => {
            let before = text.subrange(0, dot);
            let after = text.subrange(dot + 1, text.len() as int);
            assert(text =~= before + seq!['.'] + after);
            lemma_encode_concat(before + seq!['.'], after);
            lemma_encode_concat(before, seq!['.']);
            lemma_encode_dot();
            assert(bytes == encode_utf8(before) + seq![DOT] + encode_utf8(after));
            assert(!after.contains('.')) by {
                if after.contains('.') {
                    let i = choose|i: int| 0 <= i < after.len() && after[i] == '.';
                    assert(text[dot + 1 + i] == '.');
                }
            }
            lemma_bytes_without_dot(after);
            let at = encode_utf8(before).len() as int;
            assert(bytes[at] == DOT);
            assert forall|j: int| at < j < bytes.len() implies bytes[j] != DOT by {
                assert(bytes[j] == encode_utf8(after)[j - at - 1]);
            }
            assert(bytes.index_of_last(DOT) == Some(at));
            assert(bytes.subrange(0, at) =~= encode_utf8(before));
            assert(bytes.subrange(at + 1, bytes.len() as int) =~= encode_utf8(after));
            encode_utf8_valid_utf8(before);
            encode_utf8_decode_utf8(before);
            encode_utf8_decode_utf8(after);
            encode_utf8_decode_utf8(addr);
        },
    }
}

/// The text that is sealed for a key and an address is the bytes of the
/// key, a dot and the address, written in a row.
pub proof fn lemma_plaintext_of_text(key: Seq<char>, addr: Seq<char>)
    ensures
        plaintext(key, addr) == encode_utf8(key + seq!['.'] + addr),
{
    lemma_encode_concat(key + seq!['.'], addr);
    lemma_encode_concat(key, seq!['.']);
    lemma_encode_dot();
}

/// Round trip: a token that was issued for `key` and `addr` decodes, for a
/// client at `addr`, to `key`. This holds of every address that has no dot
/// in it; with a dot, the split at the last dot falls inside the address.
pub proof fn lemma_round_trip(secret: Seq<u8>, token: Seq<char>, key: Seq<char>, addr: Seq<char>)
    requires
        issued_for(secret, token, key, addr),
        !addr.contains('.'),
    ensures
        decoded_key(secret, token, addr) == Some(key),
{
    let text = key + seq!['.'] + addr;
    lemma_plaintext_of_text(key, addr);
    lemma_bound_key_of_text(text, addr);
    text.index_of_last_ensures('.');
    let at = key.len() as int;
    assert(text[at] == '.');
    assert forall|j: int| at < j < text.len() implies text[j] != '.' by {
        assert(text[j] == addr[j - at - 1]);
    }
    assert(text.index_of_last('.') == Some(at));
    assert(text.subrange(at + 1, text.len() as int) =~= addr);
    assert(text.subrange(0, at) =~= key);
}

/// Address binding: a token that was issued to the address `addr` decodes
/// to nothing for a client at any `other` address. The one exception is an
/// `other` that is the part of `addr` after its last dot.
pub proof fn lemma_address_binding(
    secret: Seq<u8>,
    token: Seq<char>,
    key: Seq<char>,
    addr: Seq<char>,
    other: Seq<char>,
)
    requires
        issued_for(secret, token, key, addr),
        other != addr,
        !is_last_segment(addr, other),
    ensures
        decoded_key(secret, token, other) is None,
{
    let text = key + seq!['.'] + addr;
    lemma_plaintext_of_text(key, addr);
    lemma_bound_key_of_text(text, other);
    text.index_of_last_ensures('.');
    addr.index_of_last_ensures('.');
    let at = key.len() as int;
    assert(text[at] == '.');
    let dot = text.index_of_last('.').unwrap();
    let tail = text.subrange(dot + 1, text.len() as int);
    match addr.index_of_last('.') {
        None => {
            assert forall|j: int| at < j < text.len() implies text[j] != '.' by {
                assert(text[j] == addr[j - at - 1]);
            }
            assert(dot == at);
            assert(tail =~= addr);
        },
        Some(inner) => {
            assert(text[at + 1 + inner] == '.');
            assert forall|j: int| at + 1 + inner < j < text.len() implies text[j] != '.' by {
                assert(text[j] == addr[j - at - 1]);
            }
            assert(dot == at + 1 + inner);
            assert(tail =~= addr.subrange(inner + 1, addr.len() as int));
        },
    }
}

} // verus!
