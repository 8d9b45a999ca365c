//! ASCII decimal integers: the digits the serializer writes and the values the
//! field accessors read back.

use vstd::prelude::*;

verus! {

pub open spec fn is_digit(b: u8) -> bool {
    48 <= b <= 57
}

pub open spec fn all_digits(s: Seq<u8>) -> bool {
    forall|i: int| 0 <= i < s.len() ==> is_digit(#[trigger] s[i])
}

/// The exact value of a string of decimal digits.
pub open spec fn dec_value(s: Seq<u8>) -> nat
    decreases s.len(),
{
    if s.len() == 0 {
        0
    } else {
        dec_value(s.drop_last()) * 10 + (s.last() - 48) as nat
    }
}

/// The value accumulated by `acc = acc * 10 + (b - '0')` in wrapping 64-bit arithmetic.
pub open spec fn dec_value_u64(s: Seq<u8>) -> u64
    decreases s.len(),
{
    if s.len() == 0 {
        0
    } else {
        dec_value_u64(s.drop_last()).wrapping_mul(10).wrapping_add(s.last().wrapping_sub(48) as u64)
    }
}

/// The value accumulated by `acc = acc * 10 + (b - '0')` in wrapping 32-bit arithmetic.
pub open spec fn dec_value_u32(s: Seq<u8>) -> u32
    decreases s.len(),
{
    if s.len() == 0 {
        0
    } else {
        dec_value_u32(s.drop_last()).wrapping_mul(10).wrapping_add(s.last().wrapping_sub(48) as u32)
    }
}

/// The value accumulated by `acc = acc * 10 + (b - '0')` in wrapping word-size arithmetic.
pub open spec fn dec_value_usize(s: Seq<u8>) -> usize
    decreases s.len(),
{
    if s.len() == 0 {
        0
    } else {
        dec_value_usize(s.drop_last()).wrapping_mul(10).wrapping_add(
            s.last().wrapping_sub(48) as usize,
        )
    }
}

/// The shortest decimal representation of `v`.
pub open spec fn dec_digits(v: nat) -> Seq<u8>
    decreases v,
{
    if v < 10 {
        seq![(48 + v) as u8]
    } else {
        dec_digits(v / 10) + seq![(48 + v % 10) as u8]
    }
}

/// The decimal representation of a signed value: a '-' before the magnitude when negative.
pub open spec fn signed_digits(v: i64) -> Seq<u8> {
    if v < 0 {
        seq![45u8] + dec_digits((0 - v) as nat)
    } else {
        dec_digits(v as nat)
    }
}

/// `parse_u64`'s result: `None` unless the input is a non-empty run of digits.
pub open spec fn spec_parse_u64(s: Seq<u8>) -> Option<u64> {
    if s.len() == 0 || !all_digits(s) {
        None
    } else {
        Some(dec_value_u64(s))
    }
}

/// `parse_i64`'s result: an optional leading '-' followed by digits (possibly none).
pub open spec fn spec_parse_i64(s: Seq<u8>) -> Option<i64> {
    if s.len() == 0 {
        None
    } else {
        let negative = s[0] == 45u8;
        let rest = if negative {
            s.skip(1)
        } else {
            s
        };
        if !all_digits(rest) {
            None
        } else {
            let v = dec_value_u64(rest) as i64;
            Some(
                if negative {
                    0i64.wrapping_sub(v)
                } else {
                    v
                },
            )
        }
    }
}

/// Parse a u64 from ASCII digits without allocation.
pub fn parse_u64(bytes: &[u8]) -> (r: Option<u64>)
    ensures
        r == spec_parse_u64(bytes@),
{
    let len = bytes.len();
    if len == 0 {
        return None;
    }
    let mut result: u64 = 0;
    let mut i: usize = 0;
    while i < len
        invariant
            len == bytes@.len(),
            i <= len,
            all_digits(bytes@.take(i as int)),
            result == dec_value_u64(bytes@.take(i as int)),
        decreases len - i,
    {
        let b = bytes[i];
        assert(bytes@.take(i + 1).drop_last() =~= bytes@.take(i as int));
        if b < 48 || b > 57 {
            assert(!is_digit(bytes@[i as int]));
            return None;
        }
        result = result.wrapping_mul(10).wrapping_add(b.wrapping_sub(48) as u64);
        i = i + 1;
    }
    assert(bytes@.take(len as int) =~= bytes@);
    Some(result)
}

/// Parse an i64 (optional leading '-') from ASCII digits without allocation.
pub fn parse_i64(bytes: &[u8]) -> (r: Option<i64>)
    ensures
        r == spec_parse_i64(bytes@),
{
    let len = bytes.len();
    if len == 0 {
        return None;
    }
    let negative = bytes[0] == 45;
    let start: usize = if negative {
        1
    } else {
        0
    };
    let ghost rest = bytes@.skip(start as int);
    assert(rest =~= (if negative {
        bytes@.skip(1)
    } else {
        bytes@
    }));
    let mut result: u64 = 0;
    let mut i: usize = start;
    while i < len
        invariant
            len == bytes@.len(),
            start <= i <= len,
            len > 0,
            negative == (bytes@[0] == 45u8),
            rest == bytes@.skip(start as int),
            rest =~= (if negative {
                bytes@.skip(1)
            } else {
                bytes@
            }),
            all_digits(rest.take(i - start)),
            result == dec_value_u64(rest.take(i - start)),
        decreases len - i,
    {
        let b = bytes[i];
        assert(rest.take(i + 1 - start).drop_last() =~= rest.take(i - start));
        assert(rest[i - start] == b);
        if b < 48 || b > 57 {
            assert(!is_digit(rest[i - start]));
            assert(!all_digits(rest));
            assert(bytes@.len() != 0);
            assert(bytes@[0] == 45u8 <==> negative);
            assert(spec_parse_i64(bytes@) is None);
            return None;
        }
        result = result.wrapping_mul(10).wrapping_add(b.wrapping_sub(48) as u64);
        i = i + 1;
    }
    assert(rest.take(len - start) =~= rest);
    if negative {
        proof {
            assert(bytes@ == seq![45u8] + rest);
        }
        assert(rest =~= bytes@.skip(1));
        Some(0i64.wrapping_sub(result as i64))
    } else {
        assert(rest =~= bytes@);
        Some(result as i64)
    }
}

/// The digits of `dec_digits` are digits, and reading them back gives the value.
pub proof fn lemma_dec_digits_roundtrip(v: nat)
    ensures
        all_digits(dec_digits(v)),
        dec_value(dec_digits(v)) == v,
        dec_digits(v).len() >= 1,
        dec_digits(v)[0] != 45u8,
    decreases v,
{
    if v >= 10 {
        lemma_dec_digits_roundtrip(v / 10);
        let s = dec_digits(v);
        let p = dec_digits(v / 10);
        assert(s.drop_last() =~= p);
        assert(s[0] == p[0]);
        assert(s.last() == (48 + v % 10) as u8);
        assert(dec_value(s) == dec_value(p) * 10 + v % 10);
        assert(v == (v / 10) * 10 + v % 10);
        assert forall|i: int| 0 <= i < s.len() implies is_digit(#[trigger] s[i]) by {
            if i < s.len() - 1 {
                assert(s[i] == p[i]);
            }
        }
    } else {
        let s = dec_digits(v);
        assert(s.drop_last() =~= Seq::<u8>::empty());
        assert(dec_value(s.drop_last()) == 0);
        assert(s.last() == (48 + v) as u8);
    }
}

/// When the exact value fits in 64 bits, wrapping accumulation gives the exact value.
pub proof fn lemma_dec_value_u64_exact(s: Seq<u8>)
    requires
        all_digits(s),
        dec_value(s) <= u64::MAX,
    ensures
        dec_value_u64(s) == dec_value(s),
    decreases s.len(),
{
    if s.len() > 0 {
        assert(is_digit(s[s.len() - 1]));
        assert forall|i: int| 0 <= i < s.drop_last().len() implies is_digit(
            #[trigger] s.drop_last()[i],
        ) by {
            assert(is_digit(s[i]));
        }
        lemma_dec_value_u64_exact(s.drop_last());
    }
}

/// When the exact value fits in 32 bits, wrapping accumulation gives the exact value.
pub proof fn lemma_dec_value_u32_exact(s: Seq<u8>)
    requires
        all_digits(s),
        dec_value(s) <= u32::MAX,
    ensures
        dec_value_u32(s) == dec_value(s),
    decreases s.len(),
{
    if s.len() > 0 {
        assert(is_digit(s[s.len() - 1]));
        assert forall|i: int| 0 <= i < s.drop_last().len() implies is_digit(
            #[trigger] s.drop_last()[i],
        ) by {
            assert(is_digit(s[i]));
        }
        lemma_dec_value_u32_exact(s.drop_last());
    }
}

/// When the exact value fits in a word, wrapping accumulation gives the exact value.
pub proof fn lemma_dec_value_usize_exact(s: Seq<u8>)
    requires
        all_digits(s),
        dec_value(s) <= usize::MAX,
    ensures
        dec_value_usize(s) == dec_value(s),
    decreases s.len(),
{
    if s.len() > 0 {
        assert(is_digit(s[s.len() - 1]));
        assert forall|i: int| 0 <= i < s.drop_last().len() implies is_digit(
            #[trigger] s.drop_last()[i],
        ) by {
            assert(is_digit(s[i]));
        }
        lemma_dec_value_usize_exact(s.drop_last());
        let p = dec_value(s.drop_last());
        let d = (s.last() - 48) as nat;
        assert(dec_value(s) == p * 10 + d);
        assert(p * 10 <= usize::MAX);
        vstd::arithmetic::div_mod::lemma_small_mod(p * 10, (usize::MAX - usize::MIN + 1) as nat);
        assert((p as usize).wrapping_mul(10) == p * 10);
        assert(((p * 10) as usize).wrapping_add(d as usize) == p * 10 + d);
    }
}

/// Reading back the digits of an unsigned value gives the value.
pub proof fn lemma_parse_u64_of_digits(v: u64)
    ensures
        spec_parse_u64(dec_digits(v as nat)) == Some(v),
{
    lemma_dec_digits_roundtrip(v as nat);
    lemma_dec_value_u64_exact(dec_digits(v as nat));
}

/// Reading back the digits of a signed value gives the value.
pub proof fn lemma_parse_i64_of_digits(v: i64)
    ensures
        spec_parse_i64(signed_digits(v)) == Some(v),
{
    if v < 0 {
        let m: nat = (0 - v) as nat;
        lemma_dec_digits_roundtrip(m);
        lemma_dec_value_u64_exact(dec_digits(m));
        let s = signed_digits(v);
        assert(s.skip(1) =~= dec_digits(m));
        let w = m as u64;
        if v == i64::MIN {
            assert(w == 0x8000_0000_0000_0000u64);
            assert((0x8000_0000_0000_0000u64 as i64) == i64::MIN) by (bit_vector);
        } else {
            assert(w < 0x8000_0000_0000_0000u64);
        }
    } else {
        lemma_dec_digits_roundtrip(v as nat);
        lemma_dec_value_u64_exact(dec_digits(v as nat));
    }
}

} // verus!
