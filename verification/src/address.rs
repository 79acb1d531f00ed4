//! The text of a client's address, as a token is bound to it: the eight
//! groups of an IPv6 address in hexadecimal, parted by colons, with no
//! shortening. An IPv4 address is written as the IPv6 address that it maps
//! to. There is no dot in such a text, so the dot that parts the session
//! key from the address in a sealed text is always the last one.

use vstd::prelude::*;
use crate::bytes::{ascii_chars, ascii_text, is_ascii_bytes, lemma_ascii_bytes};
use crate::codec::{decoded_key, issued_for, lemma_address_binding, lemma_round_trip};
use crate::text::DOT;

verus! {

/// The byte that parts the groups: a colon.
pub const COLON: u8 = 0x3a;

/// The hexadecimal digit of `d`, in lower case.
pub open spec fn hex_digit(d: nat) -> u8 {
    if d < 10 {
        (0x30 + d) as u8
    } else {
        (0x57 + d) as u8
    }
}

/// The hexadecimal digits of `n`, most significant first, without leading
/// zeros.
pub open spec fn hex_bytes(n: nat) -> Seq<u8>
    decreases n,
{
    if n < 16 {
        seq![hex_digit(n)]
    } else {
        hex_bytes(n / 16).push(hex_digit(n % 16))
    }
}

/// The groups in hexadecimal, parted by colons.
pub open spec fn address_bytes(groups: Seq<u16>) -> Seq<u8>
    decreases groups.len(),
{
    if groups.len() == 0 {
        Seq::empty()
    } else if groups.len() == 1 {
        hex_bytes(groups[0] as nat)
    } else {
        address_bytes(groups.drop_last()) + seq![COLON] + hex_bytes(groups.last() as nat)
    }
}

/// The text of an address of the given groups.
pub open spec fn address_chars(groups: Seq<u16>) -> Seq<char> {
    ascii_chars(address_bytes(groups))
}

/// A byte of an address: a digit, a letter from `a` to `f`, or a colon.
pub open spec fn is_address_byte(byte: u8) -> bool {
    ||| 0x30 <= byte <= 0x39
    ||| 0x61 <= byte <= 0x66
    ||| byte == COLON
}

/// The digits of a number are bytes of an address.
pub proof fn lemma_hex_bytes(n: nat)
    ensures
        hex_bytes(n).len() > 0,
        forall|i: int| 0 <= i < hex_bytes(n).len() ==> is_address_byte(#[trigger] hex_bytes(n)[i]),
    decreases n,
{
    if n >= 16 {
        lemma_hex_bytes(n / 16);
        let head = hex_bytes(n / 16);
        let all = hex_bytes(n);
        assert forall|i: int| 0 <= i < all.len() implies is_address_byte(#[trigger] all[i]) by {
            if i < head.len() {
                assert(all[i] == head[i]);
            }
        }
    }
}

/// The bytes of an address are bytes of an address.
pub proof fn lemma_address_bytes(groups: Seq<u16>)
    ensures
        forall|i: int|
            0 <= i < address_bytes(groups).len() ==> is_address_byte(
                #[trigger] address_bytes(groups)[i],
            ),
    decreases groups.len(),
{
    if groups.len() == 1 {
        lemma_hex_bytes(groups[0] as nat);
    } else if groups.len() > 1 {
        lemma_address_bytes(groups.drop_last());
        lemma_hex_bytes(groups.last() as nat);
        let head = address_bytes(groups.drop_last());
        let tail = hex_bytes(groups.last() as nat);
        let all = address_bytes(groups);
        assert(all == head + seq![COLON] + tail);
        assert forall|i: int| 0 <= i < all.len() implies is_address_byte(#[trigger] all[i]) by {
            if i < head.len() {
                assert(all[i] == head[i]);
            } else if i == head.len() {
                assert(all[i] == COLON);
            } else {
                assert(all[i] == tail[i - head.len() - 1]);
            }
        }
    }
}

/// The text of an address has no dot, and is ASCII.
pub proof fn lemma_address_without_dot(groups: Seq<u16>)
    ensures
        is_ascii_bytes(address_bytes(groups)),
        !address_chars(groups).contains('.'),
{
    lemma_address_bytes(groups);
    let bytes = address_bytes(groups);
    assert forall|i: int| 0 <= i < bytes.len() implies #[trigger] bytes[i] < 128 by {
        assert(is_address_byte(bytes[i]));
    }
    let chars = address_chars(groups);
    if chars.contains('.') {
        let i = choose|i: int| 0 <= i < chars.len() && chars[i] == '.';
        assert(is_address_byte(bytes[i]));
        assert(chars[i] == bytes[i] as char);
        assert(bytes[i] != DOT);
    }
}

/// Round trip: a token that was issued for `key` and the address of the
/// given groups decodes, for a client at that address, to `key`.
pub proof fn lemma_address_round_trip(
    secret: Seq<u8>,
    token: Seq<char>,
    key: Seq<char>,
    groups: Seq<u16>,
)
    requires
        issued_for(secret, token, key, address_chars(groups)),
    ensures
        decoded_key(secret, token, address_chars(groups)) == Some(key),
{
    lemma_address_without_dot(groups);
    lemma_round_trip(secret, token, key, address_chars(groups));
}

/// Address binding: a token that was issued to the address of the given
/// groups decodes to nothing for a client at an address that is written
/// otherwise.
pub proof fn lemma_address_bound(
    secret: Seq<u8>,
    token: Seq<char>,
    key: Seq<char>,
    groups: Seq<u16>,
    other: Seq<char>,
)
    requires
        issued_for(secret, token, key, address_chars(groups)),
        other != address_chars(groups),
    ensures
        decoded_key(secret, token, other) is None,
{
    lemma_address_without_dot(groups);
    address_chars(groups).index_of_last_ensures('.');
    lemma_address_binding(secret, token, key, address_chars(groups), other);
}

/// The number that a row of hexadecimal digits writes.
pub open spec fn hex_value(digits: Seq<u8>) -> nat
    decreases digits.len(),
{
    if digits.len() == 0 {
        0
    } else {
        hex_value(digits.drop_last()) * 16 + if digits.last() <= 0x39 {
            (digits.last() - 0x30) as nat
        } else {
            (digits.last() - 0x57) as nat
        }
    }
}

/// The digits of a number write the number, and none of them is a colon.
pub proof fn lemma_hex_value(n: nat)
    ensures
        hex_value(hex_bytes(n)) == n,
        forall|i: int| 0 <= i < hex_bytes(n).len() ==> #[trigger] hex_bytes(n)[i] != COLON,
    decreases n,
{
    if n < 16 {
        assert(hex_bytes(n).drop_last() =~= Seq::<u8>::empty());
        assert(hex_value(hex_bytes(n).drop_last()) == 0);
    } else {
        lemma_hex_value(n / 16);
        assert(hex_bytes(n).drop_last() =~= hex_bytes(n / 16));
        let head = hex_bytes(n / 16);
        let all = hex_bytes(n);
        assert forall|i: int| 0 <= i < all.len() implies #[trigger] all[i] != COLON by {
            if i < head.len() {
                assert(all[i] == head[i]);
            }
        }
    }
}

/// Two rows of groups of one length that are written alike are the same
/// groups.
pub proof fn lemma_address_bytes_differ(a: Seq<u16>, b: Seq<u16>)
    requires
        a.len() == b.len(),
        address_bytes(a) == address_bytes(b),
    ensures
        a == b,
    decreases a.len(),
{
    if a.len() == 0 {
        assert(a =~= b);
    } else if a.len() == 1 {
        lemma_hex_value(a[0] as nat);
        lemma_hex_value(b[0] as nat);
        assert(a[0] == b[0]);
        assert(a =~= b);
    } else {
        let all = address_bytes(a);
        let head_a = address_bytes(a.drop_last());
        let head_b = address_bytes(b.drop_last());
        let tail_a = hex_bytes(a.last() as nat);
        let tail_b = hex_bytes(b.last() as nat);
        lemma_hex_value(a.last() as nat);
        lemma_hex_value(b.last() as nat);
        lemma_hex_bytes(a.last() as nat);
        lemma_hex_bytes(b.last() as nat);
        assert(all == head_a + seq![COLON] + tail_a);
        assert(all == head_b + seq![COLON] + tail_b);
        if head_a.len() < head_b.len() {
            assert(all[head_b.len() as int] == COLON);
            assert(all[head_b.len() as int] == tail_a[head_b.len() - head_a.len() - 1]);
        } else if head_b.len() < head_a.len() {
            assert(all[head_a.len() as int] == COLON);
            assert(all[head_a.len() as int] == tail_b[head_a.len() - head_b.len() - 1]);
        }
        assert(head_a =~= all.subrange(0, head_a.len() as int));
        assert(head_b =~= all.subrange(0, head_b.len() as int));
        assert(tail_a =~= all.subrange(head_a.len() as int + 1, all.len() as int));
        assert(tail_b =~= all.subrange(head_b.len() as int + 1, all.len() as int));
        assert(a.last() == b.last());
        lemma_address_bytes_differ(a.drop_last(), b.drop_last());
        assert(a =~= a.drop_last().push(a.last()));
        assert(b =~= b.drop_last().push(b.last()));
    }
}

/// Address binding, on addresses: a token that was issued to one address
/// decodes to nothing for a client at any other.
pub proof fn lemma_other_address(
    secret: Seq<u8>,
    token: Seq<char>,
    key: Seq<char>,
    groups: Seq<u16>,
    other: Seq<u16>,
)
    requires
        issued_for(secret, token, key, address_chars(groups)),
        groups.len() == other.len(),
        groups != other,
    ensures
        decoded_key(secret, token, address_chars(other)) is None,
{
    lemma_address_without_dot(groups);
    lemma_address_without_dot(other);
    lemma_ascii_bytes(address_bytes(groups));
    lemma_ascii_bytes(address_bytes(other));
    if address_chars(groups) == address_chars(other) {
        assert(address_bytes(groups) == address_bytes(other));
        lemma_address_bytes_differ(groups, other);
    }
    lemma_address_bound(secret, token, key, groups, address_chars(other));
}

fn push_hex(n: u16, out: &mut Vec<u8>)
    ensures
        final(out)@ == old(out)@ + hex_bytes(n as nat),
    decreases n,
{
    if n >= 16 {
        push_hex(n / 16, out);
    }
    let digit: u8 = (n % 16) as u8;
    if digit < 10 {
        out.push(0x30 + digit);
    } else {
        out.push(0x57 + digit);
    }
    assert(final(out)@ =~= old(out)@ + hex_bytes(n as nat)) by {
        if n >= 16 {
            assert(old(out)@ + hex_bytes((n / 16) as nat).push(hex_digit((n % 16) as nat)) =~= (
            old(out)@ + hex_bytes((n / 16) as nat)).push(hex_digit((n % 16) as nat)));
        }
    }
}

/// Writes the address of the given eight groups.
pub fn address_text(groups: &[u16; 8]) -> (text: String)
    ensures
        text@ == address_chars(groups@),
        !text@.contains('.'),
{
    let mut bytes: Vec<u8> = Vec::new();
    let mut i: usize = 0;
    while i < 8
        invariant
            i <= 8,
            groups@.len() == 8,
            bytes@ == address_bytes(groups@.subrange(0, i as int)),
        decreases 8 - i,
    {
        let ghost upto = groups@.subrange(0, i + 1);
        proof {
            assert(upto.drop_last() =~= groups@.subrange(0, i as int));
            assert(upto.last() == groups@[i as int]);
            if i == 0 {
                assert(upto[0] == groups@[0]);
            }
        }
        let ghost before = bytes@;
        if i > 0 {
            bytes.push(COLON);
        }
        push_hex(groups[i], &mut bytes);
        assert(bytes@ =~= address_bytes(upto)) by {
            if i > 0 {
                assert(bytes@ =~= before + seq![COLON] + hex_bytes(groups@[i as int] as nat));
            } else {
                assert(before =~= Seq::<u8>::empty());
                assert(bytes@ =~= hex_bytes(groups@[0] as nat));
            }
        }
        i += 1;
    }
    proof {
        assert(groups@.subrange(0, 8) =~= groups@);
        lemma_address_without_dot(groups@);
        lemma_ascii_bytes(address_bytes(groups@));
    }
    ascii_text(bytes)
}

} // verus!
