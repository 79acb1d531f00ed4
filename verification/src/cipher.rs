//! Authenticated encryption under one 256-bit key: AES-256-GCM as the `ring`
//! crate provides it, with a 96-bit nonce, a 128-bit tag and no associated
//! data. The address a token is bound to travels inside the sealed text.

use vstd::prelude::*;

verus! {

/// Length of the key, in bytes.
pub const KEY_LEN: usize = 32;

/// Length of a nonce, in bytes.
pub const NONCE_LEN: usize = 12;

/// Length of the tag that sealing appends, in bytes.
pub const TAG_LEN: usize = 16;

/// The ciphertext and tag that sealing `plain` under `key` with `nonce`
/// yields, or `None` where the cipher refuses the key or the length of the
/// text.
pub uninterp spec fn sealed_bytes(key: Seq<u8>, nonce: Seq<u8>, plain: Seq<u8>) -> Option<
    Seq<u8>,
>;

/// The plaintext that opening `sealed` under `key` with `nonce` yields, or
/// `None` where the key, the nonce or the tag is refused.
pub uninterp spec fn opened_bytes(key: Seq<u8>, nonce: Seq<u8>, sealed: Seq<u8>) -> Option<
    Seq<u8>,
>;

#[verifier::external_type_specification]
#[verifier::external_body]
pub struct ExUnspecified(ring::error::Unspecified);

/// Makes an AES-256-GCM key of `key` with `ring::aead::UnboundKey::new` and
/// `LessSafeKey::new`, a nonce with `Nonce::try_assume_unique_for_key`, and
/// calls `LessSafeKey::seal_in_place_append_tag` with empty associated data on
/// a copy of `plain`. Whether the call succeeds and what it gives are a
/// function of the three arguments: the key schedule and the limit on the
/// length look at nothing else. What it gives is the ciphertext, as long as
/// `plain`, followed by the tag; and opening it with the same key and nonce
/// gives `plain` back.
#[verifier::external_body]
pub(crate) fn seal(key: &[u8], nonce: &[u8], plain: &[u8]) -> (r: Result<
    Vec<u8>,
    ring::error::Unspecified,
>)
    requires
        key@.len() == KEY_LEN,
        nonce@.len() == NONCE_LEN,
    ensures
        match r {
            Ok(sealed) => {
                &&& sealed_bytes(key@, nonce@, plain@) == Some(sealed@)
                &&& sealed@.len() == plain@.len() + TAG_LEN
                &&& opened_bytes(key@, nonce@, sealed@) == Some(plain@)
            },
            Err(_) => sealed_bytes(key@, nonce@, plain@) is None,
        },
{
    let unbound = ring::aead::UnboundKey::new(&ring::aead::AES_256_GCM, key)?;
    let nonce = ring::aead::Nonce::try_assume_unique_for_key(nonce)?;
    let mut in_out = plain.to_vec();
    ring::aead::LessSafeKey::new(unbound).seal_in_place_append_tag(
        nonce,
        ring::aead::Aad::empty(),
        &mut in_out,
    )?;
    Ok(in_out)
}

/// Makes the key and the nonce as `seal` does and calls
/// `LessSafeKey::open_in_place` with empty associated data on a copy of
/// `sealed`. The call fails closed: it returns the whole plaintext, which is
/// shorter than `sealed` by the tag, or an error.
#[verifier::external_body]
pub(crate) fn open(key: &[u8], nonce: &[u8], sealed: &[u8]) -> (r: Result<
    Vec<u8>,
    ring::error::Unspecified,
>)
    requires
        key@.len() == KEY_LEN,
        nonce@.len() == NONCE_LEN,
    ensures
        match r {
            Ok(plain) => opened_bytes(key@, nonce@, sealed@) == Some(plain@) && plain@.len()
                + TAG_LEN == sealed@.len(),
            Err(_) => opened_bytes(key@, nonce@, sealed@) is None,
        },
{
    let unbound = ring::aead::UnboundKey::new(&ring::aead::AES_256_GCM, key)?;
    let nonce = ring::aead::Nonce::try_assume_unique_for_key(nonce)?;
    let mut in_out = sealed.to_vec();
    let plain = ring::aead::LessSafeKey::new(unbound).open_in_place(
        nonce,
        ring::aead::Aad::empty(),
        &mut in_out,
    )?;
    Ok(plain.to_vec())
}

} // verus!
