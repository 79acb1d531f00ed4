//! Whole numbers as decimal text, the way cache keys and hash fields carry
//! them: written without sign or leading zeros, read with an optional `+`
//! and any number of leading zeros.

use vstd::prelude::*;
use vstd::utf8::encode_utf8;
use crate::bytes::{ascii_chars, ascii_text, is_ascii_bytes, lemma_ascii_bytes};

verus! {

/// The byte of the digit `0`.
pub const ZERO: u8 = 0x30;

/// The byte of the sign `+`.
pub const PLUS: u8 = 0x2b;

/// The decimal digits of `n`, as bytes, most significant first.
pub open spec fn decimal_bytes(n: nat) -> Seq<u8>
    decreases n,
{
    if n < 10 {
        seq![(ZERO + n) as u8]
    } else {
        decimal_bytes(n / 10).push((ZERO + n % 10) as u8)
    }
}

/// The decimal text of `n`.
pub open spec fn decimal(n: nat) -> Seq<char> {
    ascii_chars(decimal_bytes(n))
}

/// Every byte is a decimal digit.
pub open spec fn is_digits(bytes: Seq<u8>) -> bool {
    forall|i: int| 0 <= i < bytes.len() ==> ZERO <= #[trigger] bytes[i] <= ZERO + 9
}

/// The number that a row of decimal digits writes.
pub open spec fn digits_value(digits: Seq<u8>) -> nat
    decreases digits.len(),
{
    if digits.len() == 0 {
        0
    } else {
        digits_value(digits.drop_last()) * 10 + (digits.last() - ZERO) as nat
    }
}

/// The number that a text writes, as `u64`: an optional `+`, then one or
/// more decimal digits whose value fits. Anything else is no number.
pub open spec fn parsed_u64(text: Seq<u8>) -> Option<u64> {
    let digits = if text.len() > 0 && text[0] == PLUS {
        text.drop_first()
    } else {
        text
    };
    if digits.len() > 0 && is_digits(digits) && digits_value(digits) <= u64::MAX {
        Some(digits_value(digits) as u64)
    } else {
        None
    }
}

/// The digits of a number are digits, at least one, and write the number.
pub proof fn lemma_decimal_bytes(n: nat)
    ensures
        decimal_bytes(n).len() > 0,
        is_digits(decimal_bytes(n)),
        is_ascii_bytes(decimal_bytes(n)),
        digits_value(decimal_bytes(n)) == n,
        decimal_bytes(n)[0] != PLUS,
    decreases n,
{
    if n < 10 {
        let d = decimal_bytes(n);
        assert(d.drop_last() =~= Seq::<u8>::empty());
        assert(digits_value(d.drop_last()) == 0);
    } else {
        lemma_decimal_bytes(n / 10);
        let d = decimal_bytes(n);
        assert(d.drop_last() =~= decimal_bytes(n / 10));
        assert(d[0] == decimal_bytes(n / 10)[0]);
    }
}

/// A row of digits writes no less than any of its beginnings does.
pub proof fn lemma_digits_value_grows(digits: Seq<u8>, upto: int)
    requires
        0 <= upto <= digits.len(),
        is_digits(digits),
    ensures
        digits_value(digits.subrange(0, upto)) <= digits_value(digits),
    decreases digits.len() - upto,
{
    if upto == digits.len() {
        assert(digits.subrange(0, upto) =~= digits);
    } else {
        lemma_digits_value_grows(digits, upto + 1);
        let longer = digits.subrange(0, upto + 1);
        assert(longer.drop_last() =~= digits.subrange(0, upto));
    }
}

/// Reading what was written gives the number back.
pub proof fn lemma_parse_decimal(n: u64)
    ensures
        parsed_u64(encode_utf8(decimal(n as nat))) == Some(n),
{
    lemma_decimal_bytes(n as nat);
    lemma_ascii_bytes(decimal_bytes(n as nat));
}

fn push_decimal(n: u64, out: &mut Vec<u8>)
    ensures
        final(out)@ == old(out)@ + decimal_bytes(n as nat),
    decreases n,
{
    if n >= 10 {
        push_decimal(n / 10, out);
    }
    let digit: u8 = (n % 10) as u8;
    out.push(ZERO + digit);
    assert(final(out)@ =~= old(out)@ + decimal_bytes(n as nat)) by {
        if n >= 10 {
            assert(old(out)@ + decimal_bytes((n / 10) as nat).push((ZERO + n % 10) as u8) =~= (
            old(out)@ + decimal_bytes((n / 10) as nat)).push((ZERO + n % 10) as u8));
        }
    }
}

/// Writes `n` as decimal text.
pub fn decimal_text(n: u64) -> (text: String)
    ensures
        text@ == decimal(n as nat),
{
    let mut bytes: Vec<u8> = Vec::new();
    push_decimal(n, &mut bytes);
    proof {
        lemma_decimal_bytes(n as nat);
        assert(bytes@ =~= decimal_bytes(n as nat));
    }
    ascii_text(bytes)
}

/// Reads a `u64` out of a text.
pub fn parse_u64(text: &str) -> (r: Option<u64>)
    ensures
        r == parsed_u64(encode_utf8(text@)),
{
    let bytes = text.as_bytes();
    let len: usize = bytes.len();
    let start: usize = if len > 0 && bytes[0] == PLUS {
        1
    } else {
        0
    };
    if start == len {
        return None;
    }
    let ghost digits = bytes@.subrange(start as int, len as int);
    proof {
        if start == 1 {
            assert(digits =~= bytes@.drop_first());
        } else {
            assert(digits =~= bytes@);
        }
    }
    let mut value: u64 = 0;
    let mut i: usize = start;
    while i < len
        invariant
            start <= i <= len,
            start < len,
            len == bytes@.len(),
            bytes@ == encode_utf8(text@),
            digits.len() == len - start,
            digits == if bytes@.len() > 0 && bytes@[0] == PLUS {
                bytes@.drop_first()
            } else {
                bytes@
            },
            forall|j: int| 0 <= j < digits.len() ==> digits[j] == bytes@[start + j],
            is_digits(digits.subrange(0, i - start)),
            value == digits_value(digits.subrange(0, i - start)),
        decreases len - i,
    {
        let byte: u8 = bytes[i];
        let ghost longer = digits.subrange(0, i - start + 1);
        proof {
            assert(longer.drop_last() =~= digits.subrange(0, i - start));
            assert(longer.last() == digits[i - start]);
        }
        if byte < ZERO || byte > ZERO + 9 {
            proof {
                assert(digits[i - start] == byte);
            }
            return None;
        }
        assert(is_digits(longer)) by {
            assert forall|j: int| 0 <= j < longer.len() implies ZERO <= #[trigger] longer[j]
                <= ZERO + 9 by {
                if j < i - start {
                    assert(longer[j] == digits.subrange(0, i - start)[j]);
                }
            }
        }
        let next = match value.checked_mul(10) {
            Some(tens) => tens.checked_add((byte - ZERO) as u64),
            None => None,
        };
        match next {
            Some(sum) => {
                value = sum;
            },
            None => {
                proof {
                    assert(digits_value(longer) > u64::MAX);
                    if is_digits(digits) {
                        lemma_digits_value_grows(digits, i - start + 1);
                    }
                }
                return None;
            },
        }
        i += 1;
    }
    proof {
        assert(digits.subrange(0, len - start) =~= digits);
    }
    Some(value)
}

} // verus!
