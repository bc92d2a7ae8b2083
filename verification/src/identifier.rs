//! Client identifiers: their decimal form in the relay path and their
//! eight-byte form in the handshake.

use vstd::prelude::*;

verus! {

/// Why a path segment names no identifier: it is empty, holds something
/// other than decimal digits after an optional `+`, or names a number that
/// does not fit in 64 bits.
#[derive(Clone, Copy, Debug, PartialEq, Eq)]
pub struct IdentifierParseError;

/// Whether `b` is an ASCII decimal digit.
pub open spec fn is_digit(b: u8) -> bool {
    48 <= b <= 57
}

/// Whether every byte of `text` is a decimal digit.
pub open spec fn all_digits(text: Seq<u8>) -> bool {
    forall|i: int| 0 <= i < text.len() ==> is_digit(#[trigger] text[i])
}

/// The number that a run of decimal digits denotes.
pub open spec fn decimal_value(digits: Seq<u8>) -> nat
    decreases digits.len(),
{
    if digits.len() == 0 {
        0
    } else {
        decimal_value(digits.drop_last()) * 10 + (digits.last() - 48) as nat
    }
}

/// The digits of `text`: all of it but one leading `+`.
pub open spec fn digits_of(text: Seq<u8>) -> Seq<u8> {
    if text.len() > 0 && text[0] == 43 {
        text.drop_first()
    } else {
        text
    }
}

/// The identifier that `text` names, if it names one: an optional `+`,
/// then one or more decimal digits whose value fits in 64 bits.
pub open spec fn identifier_of(text: Seq<u8>) -> Option<u64> {
    let digits = digits_of(text);
    if digits.len() > 0 && all_digits(digits) && decimal_value(digits) <= u64::MAX {
        Some(decimal_value(digits) as u64)
    } else {
        None
    }
}

/// The number that `bytes` denote when read most significant byte first.
pub open spec fn big_endian_value(bytes: Seq<u8>) -> nat
    decreases bytes.len(),
{
    if bytes.len() == 0 {
        0
    } else {
        big_endian_value(bytes.drop_last()) * 256 + bytes.last() as nat
    }
}

/// Byte sequences of one length that denote one number are the same: a
/// peer reads from the eight bytes of a handshake the identifier that
/// was written, and no other.
pub proof fn big_endian_value_is_unique(left: Seq<u8>, right: Seq<u8>)
    requires
        left.len() == right.len(),
        big_endian_value(left) == big_endian_value(right),
    ensures
        left == right,
    decreases left.len(),
{
    if left.len() > 0 {
        assert(left.last() == right.last() && big_endian_value(left.drop_last())
            == big_endian_value(right.drop_last())) by {
            let high_left = big_endian_value(left.drop_last());
            let high_right = big_endian_value(right.drop_last());
            assert(high_left * 256 + left.last() == high_right * 256 + right.last());
            if high_left < high_right {
                assert(high_left * 256 + 256 <= high_right * 256) by (nonlinear_arith)
                    requires
                        high_left < high_right,
                ;
            } else if high_right < high_left {
                assert(high_right * 256 + 256 <= high_left * 256) by (nonlinear_arith)
                    requires
                        high_right < high_left,
                ;
            }
        }
        big_endian_value_is_unique(left.drop_last(), right.drop_last());
        assert(left == left.drop_last().push(left.last()));
        assert(right == right.drop_last().push(right.last()));
    } else {
        assert(left == right);
    }
}

/// A run of digits is worth at least as much as any of its prefixes.
proof fn lemma_decimal_prefix(digits: Seq<u8>, n: int)
    requires
        0 <= n <= digits.len(),
    ensures
        decimal_value(digits.take(n)) <= decimal_value(digits),
    decreases digits.len() - n,
{
    if n == digits.len() {
        assert(digits.take(n) == digits);
    } else {
        lemma_decimal_prefix(digits, n + 1);
        assert(digits.take(n + 1).drop_last() == digits.take(n));
    }
}

/// Reads the identifier that the trailing segment of a relay path names.
pub fn parse_identifier(text: &[u8]) -> (result: Result<u64, IdentifierParseError>)
    ensures
        match result {
            Ok(id) => identifier_of(text@) == Some(id),
            Err(_) => identifier_of(text@) is None,
        },
{
    let start: usize = if text.len() > 0 && text[0] == 43 { 1 } else { 0 };
    if start == text.len() {
        return Err(IdentifierParseError);
    }
    let ghost digits = digits_of(text@);
    assert(digits == text@.skip(start as int));
    let mut value: u64 = 0;
    let mut i: usize = start;
    while i < text.len()
        invariant
            start <= i <= text.len(),
            digits == digits_of(text@),
            digits == text@.skip(start as int),
            all_digits(digits.take(i - start)),
            value == decimal_value(digits.take(i - start)),
        decreases text.len() - i,
    {
        let b: u8 = text[i];
        let ghost seen = digits.take(i - start);
        let ghost next = digits.take(i - start + 1);
        assert(next.drop_last() == seen);
        assert(next.last() == b);
        if b < 48 || b > 57 {
            assert(!is_digit(digits[i - start]));
            return Err(IdentifierParseError);
        }
        let digit: u64 = (b - 48) as u64;
        if value > (u64::MAX - digit) / 10 {
            proof {
                lemma_decimal_prefix(digits, i - start + 1);
            }
            return Err(IdentifierParseError);
        }
        value = value * 10 + digit;
        i += 1;
        assert forall|k: int| 0 <= k < next.len() implies is_digit(#[trigger] next[k]) by {
            if k < seen.len() {
                assert(next[k] == seen[k]);
            }
        }
    }
    assert(digits.take(i - start) == digits);
    Ok(value)
}

/// The eight bytes that announce `id` to a peer: the identifier in
/// big-endian order.
pub fn identifier_bytes(id: u64) -> (bytes: Vec<u8>)
    ensures
        bytes@.len() == 8,
        big_endian_value(bytes@) == id,
{
    assert(forall|x: u64| #[trigger] (x & 0xff) < 256) by (bit_vector);
    let b0: u8 = ((id >> 56) & 0xff) as u8;
    let b1: u8 = ((id >> 48) & 0xff) as u8;
    let b2: u8 = ((id >> 40) & 0xff) as u8;
    let b3: u8 = ((id >> 32) & 0xff) as u8;
    let b4: u8 = ((id >> 24) & 0xff) as u8;
    let b5: u8 = ((id >> 16) & 0xff) as u8;
    let b6: u8 = ((id >> 8) & 0xff) as u8;
    let b7: u8 = (id & 0xff) as u8;
    let mut bytes: Vec<u8> = Vec::with_capacity(8);
    bytes.push(b0);
    bytes.push(b1);
    bytes.push(b2);
    bytes.push(b3);
    bytes.push(b4);
    bytes.push(b5);
    bytes.push(b6);
    bytes.push(b7);
    proof {
        assert(id == ((id >> 56) & 0xff) * 0x100_0000_0000_0000 + ((id >> 48) & 0xff)
            * 0x1_0000_0000_0000 + ((id >> 40) & 0xff) * 0x100_0000_0000 + ((id >> 32) & 0xff)
            * 0x1_0000_0000 + ((id >> 24) & 0xff) * 0x100_0000 + ((id >> 16) & 0xff) * 0x1_0000
            + ((id >> 8) & 0xff) * 0x100 + (id & 0xff)) by (bit_vector);
        let s = bytes@;
        let s7 = s.drop_last();
        let s6 = s7.drop_last();
        let s5 = s6.drop_last();
        let s4 = s5.drop_last();
        let s3 = s4.drop_last();
        let s2 = s3.drop_last();
        let s1 = s2.drop_last();
        let s0 = s1.drop_last();
        assert(big_endian_value(s0) == 0);
        assert(big_endian_value(s1) == b0);
        assert(big_endian_value(s2) == b0 * 256 + b1);
        assert(big_endian_value(s3) == big_endian_value(s2) * 256 + b2);
        assert(big_endian_value(s4) == big_endian_value(s3) * 256 + b3);
        assert(big_endian_value(s5) == big_endian_value(s4) * 256 + b4);
        assert(big_endian_value(s6) == big_endian_value(s5) * 256 + b5);
        assert(big_endian_value(s7) == big_endian_value(s6) * 256 + b6);
        assert(big_endian_value(s) == big_endian_value(s7) * 256 + b7);
    }
    bytes
}

} // verus!
