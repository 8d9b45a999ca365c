//! FIX checksum: the sum of all bytes modulo 256, written as three ASCII digits.

use vstd::prelude::*;

verus! {

/// Sum of all bytes of `s`, as a mathematical integer.
pub open spec fn byte_sum(s: Seq<u8>) -> nat
    decreases s.len(),
{
    if s.len() == 0 {
        0
    } else {
        byte_sum(s.drop_last()) + s.last() as nat
    }
}

/// The FIX checksum of `s`: its byte sum modulo 256.
pub open spec fn spec_checksum(s: Seq<u8>) -> u8 {
    (byte_sum(s) % 256) as u8
}

/// The three ASCII digits that encode a checksum value, most significant first.
pub open spec fn checksum_digits(c: u8) -> Seq<u8> {
    seq![(48 + c / 100) as u8, (48 + (c / 10) % 10) as u8, (48 + c % 10) as u8]
}

/// Byte sum distributes over concatenation.
pub proof fn lemma_byte_sum_concat(a: Seq<u8>, b: Seq<u8>)
    ensures
        byte_sum(a + b) == byte_sum(a) + byte_sum(b),
    decreases b.len(),
{
    if b.len() == 0 {
        assert(a + b =~= a);
    } else {
        lemma_byte_sum_concat(a, b.drop_last());
        assert((a + b).drop_last() =~= a + b.drop_last());
    }
}

/// Compute the FIX checksum over a byte slice.
pub fn compute(data: &[u8]) -> (cs: u8)
    ensures
        cs == spec_checksum(data@),
{
    let len = data.len();
    let mut sum: u8 = 0;
    let mut i: usize = 0;
    while i < len
        invariant
            len == data@.len(),
            i <= len,
            sum == byte_sum(data@.take(i as int)) % 256,
        decreases len - i,
    {
        assert(data@.take(i + 1).drop_last() =~= data@.take(i as int));
        sum = sum.wrapping_add(data[i]);
        i = i + 1;
    }
    assert(data@.take(len as int) =~= data@);
    sum
}

/// Format a checksum as a 3-character zero-padded decimal into `buf`.
pub fn format(checksum: u8, buf: &mut [u8; 3])
    ensures
        final(buf)@ == checksum_digits(checksum),
{
    buf[0] = 48 + (checksum / 100);
    buf[1] = 48 + ((checksum / 10) % 10);
    buf[2] = 48 + (checksum % 10);
    assert(buf@ =~= checksum_digits(checksum));
}

/// `b[i..i+4]` is SOH followed by "10=".
pub open spec fn trailer_at(b: Seq<u8>, i: int) -> bool {
    &&& 0 <= i
    &&& i + 3 < b.len()
    &&& b[i] == 1u8
    &&& b[i + 1] == 49u8
    &&& b[i + 2] == 48u8
    &&& b[i + 3] == 61u8
}

/// The largest `i` in `0..=hi` at which `trailer_at(b, i)` holds, if any.
pub open spec fn last_trailer_from(b: Seq<u8>, hi: int) -> Option<int>
    decreases hi + 1,
{
    if hi < 0 {
        None
    } else if trailer_at(b, hi) {
        Some(hi)
    } else {
        last_trailer_from(b, hi - 1)
    }
}

/// `b` is an ASCII decimal digit.
pub open spec fn is_ascii_digit(b: u8) -> bool {
    48 <= b <= 57
}

/// The checksum stated by three bytes: their value as three ASCII decimal digits, when they
/// are digits and the value is at most 255; `None` otherwise.
pub open spec fn stated_checksum(d0: u8, d1: u8, d2: u8) -> Option<u8> {
    if is_ascii_digit(d0) && is_ascii_digit(d1) && is_ascii_digit(d2) {
        let v = (d0 - 48) * 100 + (d1 - 48) * 10 + (d2 - 48);
        if v <= 255 {
            Some(v as u8)
        } else {
            None
        }
    } else {
        None
    }
}

/// Where the checksum field ("10=") starts in `msg`: one past the last SOH that precedes
/// "10=", or 0 when there is none but the message itself begins with "10=".
pub open spec fn checksum_field_start(msg: Seq<u8>) -> Option<int> {
    match last_trailer_from(msg, msg.len() - 5) {
        Some(i) => Some(i + 1),
        None => if msg[0] == 49u8 && msg[1] == 48u8 && msg[2] == 61u8 {
            Some(0)
        } else {
            None
        },
    }
}

/// Whether the checksum stated in the trailer of `msg` (three ASCII digits, at most 255)
/// matches the bytes before it.
pub open spec fn spec_validate(msg: Seq<u8>) -> bool {
    if msg.len() < 7 {
        false
    } else {
        match checksum_field_start(msg) {
            None => false,
            Some(start) => {
                let cs = start + 3;
                if cs + 3 > msg.len() {
                    false
                } else {
                    stated_checksum(msg[cs], msg[cs + 1], msg[cs + 2]) == Some(
                        spec_checksum(msg.take(start)),
                    )
                }
            },
        }
    }
}

/// Validate the checksum of a complete FIX message (including the `10=xxx|` trailer).
/// The checksum covers every byte before the "10=" tag.
pub fn validate(msg: &[u8]) -> (ok: bool)
    ensures
        ok == spec_validate(msg@),
{
    let len = msg.len();
    if len < 7 {
        return false;
    }
    let mut i: usize = len - 4;
    let mut found: Option<usize> = None;
    while i > 0
        invariant_except_break
            len == msg@.len(),
            len >= 7,
            i <= len - 4,
            found is None,
            last_trailer_from(msg@, len - 5) == last_trailer_from(msg@, i - 1),
        ensures
            found matches Some(j) ==> last_trailer_from(msg@, len - 5) == Some(j as int) && j
                <= len - 5,
            found is None ==> last_trailer_from(msg@, len - 5) is None,
        decreases i,
    {
        let j = i - 1;
        if msg[j] == 1 && msg[j + 1] == 49 && msg[j + 2] == 48 && msg[j + 3] == 61 {
            found = Some(j);
            break;
        }
        i = j;
    }
    let checksum_start: usize = match found {
        Some(j) => j + 1,
        None => {
            if msg[0] == 49 && msg[1] == 48 && msg[2] == 61 {
                0
            } else {
                return false;
            }
        },
    };
    assert(checksum_start <= len - 4);
    let computed = compute(&msg[0..checksum_start]);
    let cs_offset = checksum_start + 3;
    if cs_offset > len - 3 {
        return false;
    }
    let b0 = msg[cs_offset];
    let b1 = msg[cs_offset + 1];
    let b2 = msg[cs_offset + 2];
    if b0 < 48 || b0 > 57 || b1 < 48 || b1 > 57 || b2 < 48 || b2 > 57 {
        return false;
    }
    let stated: u32 = (b0 - 48) as u32 * 100 + (b1 - 48) as u32 * 10 + (b2 - 48) as u32;
    if stated > 255 {
        return false;
    }
    computed as u32 == stated
}

} // verus!
