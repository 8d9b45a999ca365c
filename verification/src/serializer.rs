//! FIX message serializer: writes tag=value fields straight into a caller's buffer,
//! then fills in BodyLength and appends the CheckSum trailer.

use vstd::prelude::*;
use crate::checksum::{self, checksum_digits, spec_checksum};
use crate::decimal::{dec_digits, signed_digits};
use crate::tags::{self, EQUALS, SOH};

verus! {

/// `s` with the bytes from `pos` on replaced by `d` (the length of `s` is kept).
#[verifier::opaque]
pub open spec fn splice(s: Seq<u8>, pos: int, d: Seq<u8>) -> Seq<u8> {
    s.take(pos) + d + s.skip(pos + d.len())
}

/// The wire form of one field: the tag's digits, '=', the value and SOH.
pub open spec fn field_bytes(tag: u32, value: Seq<u8>) -> Seq<u8> {
    dec_digits(tag as nat) + seq![EQUALS] + value + seq![SOH]
}

/// The wire form of an unsigned integer field.
pub open spec fn u64_field_bytes(tag: u32, value: u64) -> Seq<u8> {
    field_bytes(tag, dec_digits(value as nat))
}

/// The wire form of a signed integer field.
pub open spec fn i64_field_bytes(tag: u32, value: i64) -> Seq<u8> {
    field_bytes(tag, signed_digits(value))
}

/// `n` with its `k` lowest decimal digits dropped.
pub open spec fn decimal_shift(n: nat, k: nat) -> nat
    decreases k,
{
    if k == 0 {
        n
    } else {
        decimal_shift(n, (k - 1) as nat) / 10
    }
}

/// The six lowest decimal digits of `n`, zero-padded, most significant first.
pub open spec fn pad6(n: nat) -> Seq<u8> {
    Seq::new(6, |j: int| (48 + decimal_shift(n, (5 - j) as nat) % 10) as u8)
}

/// The BodyLength field with space reserved for six digits, as `begin` writes it.
pub open spec fn reserved_body_length() -> Seq<u8> {
    seq![57u8, 61u8, 48u8, 48u8, 48u8, 48u8, 48u8, 48u8, 1u8]
}

/// The header `begin` writes: BeginString, the reserved BodyLength and MsgType.
pub open spec fn header_template(begin_string: Seq<u8>, msg_type: Seq<u8>) -> Seq<u8> {
    field_bytes(tags::BEGIN_STRING, begin_string) + reserved_body_length() + field_bytes(
        tags::MSG_TYPE,
        msg_type,
    )
}

/// The CheckSum trailer for checksum `c`.
pub open spec fn trailer(c: u8) -> Seq<u8> {
    seq![49u8, 48u8, 61u8] + checksum_digits(c) + seq![SOH]
}

/// A complete message: BeginString, BodyLength for `body`, the body, and the trailer
/// holding the checksum of everything before it.
pub open spec fn framed_message(begin_string: Seq<u8>, body: Seq<u8>) -> Seq<u8> {
    let pre = field_bytes(tags::BEGIN_STRING, begin_string) + seq![57u8, 61u8] + pad6(body.len())
        + seq![SOH] + body;
    pre + trailer(spec_checksum(pre))
}

/// What a splice keeps and what it replaces.
proof fn lemma_splice(s: Seq<u8>, pos: int, d: Seq<u8>)
    requires
        0 <= pos,
        pos + d.len() <= s.len(),
    ensures
        splice(s, pos, d).len() == s.len(),
        splice(s, pos, d).take(pos + d.len()) == s.take(pos) + d,
        splice(s, pos, d).skip(pos + d.len()) == s.skip(pos + d.len()),
        forall|i: int| 0 <= i < pos ==> #[trigger] splice(s, pos, d)[i] == s[i],
        forall|i: int| pos + d.len() <= i < s.len() ==> #[trigger] splice(s, pos, d)[i] == s[i],
{
    reveal(splice);
    assert(splice(s, pos, d).take(pos + d.len()) =~= s.take(pos) + d);
    assert(splice(s, pos, d).skip(pos + d.len()) =~= s.skip(pos + d.len()));
}

/// Splicing `a` and then `b` right after it is splicing `a + b`.
proof fn lemma_splice_append(s: Seq<u8>, pos: int, a: Seq<u8>, b: Seq<u8>)
    requires
        0 <= pos,
        pos + a.len() + b.len() <= s.len(),
    ensures
        splice(splice(s, pos, a), pos + a.len(), b) == splice(s, pos, a + b),
{
    reveal(splice);
    assert(splice(splice(s, pos, a), pos + a.len(), b) =~= splice(s, pos, a + b));
}

proof fn lemma_dec_digits_len(v: nat)
    ensures
        v >= 10 ==> dec_digits(v).len() == dec_digits(v / 10).len() + 1,
        v < 10 ==> dec_digits(v).len() == 1,
    decreases v,
{
    if v >= 10 {
        lemma_dec_digits_len(v / 10);
    }
}

/// Once the dropped digits leave nothing, dropping more leaves nothing too.
proof fn lemma_decimal_shift_zero(n: nat, k: nat, m: nat)
    requires
        decimal_shift(n, k) == 0,
        k <= m,
    ensures
        decimal_shift(n, m) == 0,
    decreases m - k,
{
    if k < m {
        lemma_decimal_shift_zero(n, k, (m - 1) as nat);
    }
}

/// What `finalize` leaves in a buffer `s` whose message body spans `body_start..pos`:
/// the body length written into the six reserved digits, then the CheckSum trailer at `pos`.
pub open spec fn finalized(s: Seq<u8>, body_start: int, pos: int) -> Seq<u8> {
    let b1 = splice(s, body_start - 7, pad6((pos - body_start) as nat));
    splice(b1, pos, trailer(spec_checksum(b1.take(pos))))
}

/// Write the low six decimal digits of `val` (all of them when fewer) into the front of
/// `buf`, returning how many were written.
fn write_u64_to_buf(val: u64, buf: &mut [u8; 6]) -> (len: usize)
    ensures
        1 <= len <= 6,
        final(buf)@.take(len as int) == pad6(val as nat).skip(6 - len),
        forall|j: int| 0 <= j < 6 - len ==> #[trigger] pad6(val as nat)[j] == 48u8,
{
    if val == 0 {
        buf[0] = 48;
        proof {
            assert forall|j: int| 0 <= j < 6 implies #[trigger] pad6(val as nat)[j] == 48u8 by {
                lemma_decimal_shift_zero(0, 0, (5 - j) as nat);
            }
            assert(buf@.take(1) =~= pad6(val as nat).skip(5));
        }
        return 1;
    }
    let mut tmp = [0u8; 6];
    let mut i: usize = 6;
    let mut v = val;
    while v > 0 && i > 0
        invariant
            i <= 6,
            v == decimal_shift(val as nat, (6 - i) as nat),
            forall|j: int| i <= j < 6 ==> #[trigger] tmp@[j] == pad6(val as nat)[j],
            i < 6 || v == val,
            val > 0,
        decreases i,
    {
        i = i - 1;
        tmp[i] = 48 + (v % 10) as u8;
        v = v / 10;
    }
    proof {
        if v == 0 {
            assert forall|j: int| 0 <= j < i implies #[trigger] pad6(val as nat)[j] == 48u8 by {
                lemma_decimal_shift_zero(val as nat, (6 - i) as nat, (5 - j) as nat);
            }
        }
    }
    let len = 6 - i;
    let mut k: usize = 0;
    while k < len
        invariant
            len == 6 - i,
            i <= 6,
            k <= len,
            forall|j: int| i <= j < 6 ==> #[trigger] tmp@[j] == pad6(val as nat)[j],
            forall|j: int| 0 <= j < k ==> #[trigger] buf@[j] == pad6(val as nat)[i + j],
        decreases len - k,
    {
        buf[k] = tmp[i + k];
        k = k + 1;
    }
    assert(buf@.take(len as int) =~= pad6(val as nat).skip(6 - len));
    len
}

/// FIX message serializer. Writes into a caller-provided buffer, which every method
/// takes as an argument; the serializer keeps the write position and where the body began.
pub struct FixSerializer {
    pos: usize,
    body_start: usize,
}

impl FixSerializer {
    /// The current write position.
    pub closed spec fn written(&self) -> usize {
        self.pos
    }

    /// Where the message body (everything after BodyLength) begins.
    pub closed spec fn body_offset(&self) -> usize {
        self.body_start
    }

    /// A serializer positioned at the start of the buffer.
    pub fn new() -> (s: Self)
        ensures
            s.written() == 0,
            s.body_offset() == 0,
    {
        FixSerializer { pos: 0, body_start: 0 }
    }

    fn write_byte(&mut self, buf: &mut [u8], b: u8)
        requires
            old(self).pos < old(buf)@.len(),
        ensures
            final(self).pos == old(self).pos + 1,
            final(self).body_start == old(self).body_start,
            final(buf)@.len() == old(buf)@.len(),
            final(buf)@ == splice(old(buf)@, old(self).pos as int, seq![b]),
            final(buf)@.len() == old(buf)@.len(),
    {
        buf[self.pos] = b;
        reveal(splice);
        assert(buf@ =~= splice(old(buf)@, old(self).pos as int, seq![b]));
        self.pos = self.pos + 1;
    }

    fn write_bytes(&mut self, buf: &mut [u8], data: &[u8])
        requires
            old(self).pos + data@.len() <= old(buf)@.len(),
        ensures
            final(self).pos == old(self).pos + data@.len(),
            final(self).body_start == old(self).body_start,
            final(buf)@.len() == old(buf)@.len(),
            final(buf)@ == splice(old(buf)@, old(self).pos as int, data@),
    {
        let n = data.len();
        let blen = buf.len();
        let start = self.pos;
        let mut i: usize = 0;
        proof {
            reveal(splice);
            assert(splice(old(buf)@, start as int, data@.take(0)) =~= old(buf)@);
        }
        while i < n
            invariant
                n == data@.len(),
                i <= n,
                blen == buf@.len(),
                blen == old(buf)@.len(),
                start == old(self).pos,
                start + n <= blen,
                self.pos == start + i,
                self.body_start == old(self).body_start,
                buf@ == splice(old(buf)@, start as int, data@.take(i as int)),
            decreases n - i,
        {
            proof {
                lemma_splice_append(old(buf)@, start as int, data@.take(i as int), seq![data@[i as int]]);
                assert(data@.take(i as int) + seq![data@[i as int]] =~= data@.take(i + 1));
            }
            self.write_byte(buf, data[i]);
            i = i + 1;
        }
        assert(data@.take(n as int) =~= data@);
    }

    fn write_u64(&mut self, buf: &mut [u8], val: u64)
        requires
            old(self).pos + dec_digits(val as nat).len() <= old(buf)@.len(),
        ensures
            final(self).pos == old(self).pos + dec_digits(val as nat).len(),
            final(self).body_start == old(self).body_start,
            final(buf)@.len() == old(buf)@.len(),
            final(buf)@ == splice(old(buf)@, old(self).pos as int, dec_digits(val as nat)),
        decreases val,
    {
        proof {
            lemma_dec_digits_len(val as nat);
        }
        if val < 10 {
            self.write_byte(buf, 48 + val as u8);
        } else {
            proof {
                lemma_splice_append(
                    old(buf)@,
                    old(self).pos as int,
                    dec_digits((val / 10) as nat),
                    seq![(48 + val % 10) as u8],
                );
                assert(dec_digits(val as nat) =~= dec_digits((val / 10) as nat) + seq![
                    (48 + val % 10) as u8,
                ]);
            }
            self.write_u64(buf, val / 10);
            self.write_byte(buf, 48 + (val % 10) as u8);
        }
    }

    fn write_u32(&mut self, buf: &mut [u8], val: u32)
        requires
            old(self).pos + dec_digits(val as nat).len() <= old(buf)@.len(),
        ensures
            final(self).pos == old(self).pos + dec_digits(val as nat).len(),
            final(self).body_start == old(self).body_start,
            final(buf)@.len() == old(buf)@.len(),
            final(buf)@ == splice(old(buf)@, old(self).pos as int, dec_digits(val as nat)),
        decreases val,
    {
        proof {
            lemma_dec_digits_len(val as nat);
        }
        if val < 10 {
            self.write_byte(buf, 48 + val as u8);
        } else {
            proof {
                lemma_splice_append(
                    old(buf)@,
                    old(self).pos as int,
                    dec_digits((val / 10) as nat),
                    seq![(48 + val % 10) as u8],
                );
                assert(dec_digits(val as nat) =~= dec_digits((val / 10) as nat) + seq![
                    (48 + val % 10) as u8,
                ]);
            }
            self.write_u32(buf, val / 10);
            self.write_byte(buf, 48 + (val % 10) as u8);
        }
    }

    fn write_i64(&mut self, buf: &mut [u8], val: i64)
        requires
            old(self).pos + signed_digits(val).len() <= old(buf)@.len(),
        ensures
            final(self).pos == old(self).pos + signed_digits(val).len(),
            final(self).body_start == old(self).body_start,
            final(buf)@.len() == old(buf)@.len(),
            final(buf)@ == splice(old(buf)@, old(self).pos as int, signed_digits(val)),
    {
        if val < 0 {
            let mag: u64 = if val == i64::MIN {
                9223372036854775808u64
            } else {
                (-val) as u64
            };
            proof {
                lemma_splice_append(old(buf)@, old(self).pos as int, seq![45u8], dec_digits(mag as nat));
            }
            self.write_byte(buf, 45);
            self.write_u64(buf, mag);
        } else {
            self.write_u64(buf, val as u64);
        }
    }

    fn write_tag(&mut self, buf: &mut [u8], tag: u32)
        requires
            old(self).pos + dec_digits(tag as nat).len() + 1 <= old(buf)@.len(),
        ensures
            final(self).pos == old(self).pos + dec_digits(tag as nat).len() + 1,
            final(self).body_start == old(self).body_start,
            final(buf)@.len() == old(buf)@.len(),
            final(buf)@ == splice(old(buf)@, old(self).pos as int, dec_digits(tag as nat) + seq![EQUALS]),
    {
        proof {
            lemma_splice_append(old(buf)@, old(self).pos as int, dec_digits(tag as nat), seq![EQUALS]);
        }
        self.write_u32(buf, tag);
        self.write_byte(buf, EQUALS);
    }

    fn write_tag_value(&mut self, buf: &mut [u8], tag: u32, value: &[u8])
        requires
            old(self).pos + field_bytes(tag, value@).len() <= old(buf)@.len(),
        ensures
            final(self).pos == old(self).pos + field_bytes(tag, value@).len(),
            final(self).body_start == old(self).body_start,
            final(buf)@.len() == old(buf)@.len(),
            final(buf)@ == splice(old(buf)@, old(self).pos as int, field_bytes(tag, value@)),
    {
        let ghost d = dec_digits(tag as nat) + seq![EQUALS];
        proof {
            lemma_splice_append(old(buf)@, old(self).pos as int, d, value@);
            lemma_splice_append(old(buf)@, old(self).pos as int, d + value@, seq![SOH]);
        }
        self.write_tag(buf, tag);
        self.write_bytes(buf, value);
        self.write_byte(buf, SOH);
    }

    /// Begin a message: BeginString, BodyLength with six digits reserved (filled in by
    /// `finalize`), and MsgType. The body starts right after the reserved BodyLength.
    pub fn begin(&mut self, buf: &mut [u8], begin_string: &[u8], msg_type: &[u8]) -> (r: &mut Self)
        requires
            old(self).written() + header_template(begin_string@, msg_type@).len() <= old(buf)@.len(),
        ensures
            r.written() == old(self).written() + header_template(begin_string@, msg_type@).len(),
            r.body_offset() == old(self).written() + field_bytes(tags::BEGIN_STRING, begin_string@).len() + 9,
            final(buf)@ == splice(old(buf)@, old(self).written() as int, header_template(begin_string@, msg_type@)),
            final(buf)@.take(r.written() as int) == old(buf)@.take(old(self).written() as int) + header_template(begin_string@, msg_type@),
            forall|i: int| r.written() <= i < old(buf)@.len() ==> #[trigger] final(buf)@[i] == old(buf)@[i],
            *final(self) == *final(r),
            final(buf)@.len() == old(buf)@.len(),
    {
        let ghost p0 = self.pos as int;
        let ghost f8 = field_bytes(tags::BEGIN_STRING, begin_string@);
        proof {
            lemma_splice_append(old(buf)@, p0, f8, reserved_body_length());
            lemma_splice_append(old(buf)@, p0, f8 + reserved_body_length(), field_bytes(tags::MSG_TYPE, msg_type@));
        }
        self.write_tag_value(buf, tags::BEGIN_STRING, begin_string);
        let reserved: [u8; 9] = [57, 61, 48, 48, 48, 48, 48, 48, SOH];
        assert(reserved@ =~= reserved_body_length());
        self.write_bytes(buf, reserved.as_slice());
        self.body_start = self.pos;
        self.write_tag_value(buf, tags::MSG_TYPE, msg_type);
        proof {
            lemma_splice(old(buf)@, p0, header_template(begin_string@, msg_type@));
        }
        self
    }

    /// Add a string field `tag=value`.
    pub fn add_str(&mut self, buf: &mut [u8], tag: u32, value: &[u8]) -> (r: &mut Self)
        requires
            old(self).written() + field_bytes(tag, value@).len() <= old(buf)@.len(),
        ensures
            r.written() == old(self).written() + field_bytes(tag, value@).len(),
            r.body_offset() == old(self).body_offset(),
            final(buf)@ == splice(old(buf)@, old(self).written() as int, field_bytes(tag, value@)),
            final(buf)@.take(r.written() as int) == old(buf)@.take(old(self).written() as int) + field_bytes(tag, value@),
            forall|i: int| r.written() <= i < old(buf)@.len() ==> #[trigger] final(buf)@[i] == old(buf)@[i],
            *final(self) == *final(r),
            final(buf)@.len() == old(buf)@.len(),
    {
        proof {
            lemma_splice(old(buf)@, self.pos as int, field_bytes(tag, value@));
        }
        self.write_tag_value(buf, tag, value);
        self
    }

    /// Add a signed integer field.
    pub fn add_int(&mut self, buf: &mut [u8], tag: u32, value: i64) -> (r: &mut Self)
        requires
            old(self).written() + i64_field_bytes(tag, value).len() <= old(buf)@.len(),
        ensures
            r.written() == old(self).written() + i64_field_bytes(tag, value).len(),
            r.body_offset() == old(self).body_offset(),
            final(buf)@ == splice(old(buf)@, old(self).written() as int, i64_field_bytes(tag, value)),
            final(buf)@.take(r.written() as int) == old(buf)@.take(old(self).written() as int) + i64_field_bytes(tag, value),
            forall|i: int| r.written() <= i < old(buf)@.len() ==> #[trigger] final(buf)@[i] == old(buf)@[i],
            *final(self) == *final(r),
            final(buf)@.len() == old(buf)@.len(),
    {
        let ghost d = dec_digits(tag as nat) + seq![EQUALS];
        proof {
            lemma_splice_append(old(buf)@, self.pos as int, d, signed_digits(value));
            lemma_splice_append(old(buf)@, self.pos as int, d + signed_digits(value), seq![SOH]);
            lemma_splice(old(buf)@, self.pos as int, i64_field_bytes(tag, value));
        }
        self.write_tag(buf, tag);
        self.write_i64(buf, value);
        self.write_byte(buf, SOH);
        self
    }

    /// Add an unsigned integer field.
    pub fn add_u64(&mut self, buf: &mut [u8], tag: u32, value: u64) -> (r: &mut Self)
        requires
            old(self).written() + u64_field_bytes(tag, value).len() <= old(buf)@.len(),
        ensures
            r.written() == old(self).written() + u64_field_bytes(tag, value).len(),
            r.body_offset() == old(self).body_offset(),
            final(buf)@ == splice(old(buf)@, old(self).written() as int, u64_field_bytes(tag, value)),
            final(buf)@.take(r.written() as int) == old(buf)@.take(old(self).written() as int) + u64_field_bytes(tag, value),
            forall|i: int| r.written() <= i < old(buf)@.len() ==> #[trigger] final(buf)@[i] == old(buf)@[i],
            *final(self) == *final(r),
            final(buf)@.len() == old(buf)@.len(),
    {
        let ghost d = dec_digits(tag as nat) + seq![EQUALS];
        proof {
            lemma_splice_append(old(buf)@, self.pos as int, d, dec_digits(value as nat));
            lemma_splice_append(old(buf)@, self.pos as int, d + dec_digits(value as nat), seq![SOH]);
            lemma_splice(old(buf)@, self.pos as int, u64_field_bytes(tag, value));
        }
        self.write_tag(buf, tag);
        self.write_u64(buf, value);
        self.write_byte(buf, SOH);
        self
    }

    /// Finish the message: write the body length (its six low digits, zero-padded) into
    /// the reserved BodyLength, then append `10=XXX` with the checksum of every byte
    /// before it. Returns the total length.
    pub fn finalize(&mut self, buf: &mut [u8]) -> (n: usize)
        requires
            7 <= old(self).body_offset() <= old(self).written(),
            old(self).written() + 7 <= old(buf)@.len(),
        ensures
            n == old(self).written() + 7,
            final(self).written() == n,
            final(self).body_offset() == old(self).body_offset(),
            final(buf)@.len() == old(buf)@.len(),
            final(buf)@ == finalized(old(buf)@, old(self).body_offset() as int, old(self).written() as int),
    {
        let body_end = self.pos;
        let body_length = body_end - self.body_start;
        let bl_start = self.body_start - 7;
        let mut bl_buf = [0u8; 6];
        let bl_len = write_u64_to_buf(body_length as u64, &mut bl_buf);
        let bl_offset = bl_start + (6 - bl_len);
        let ghost b0 = buf@;
        let blen = buf.len();
        let mut i: usize = 0;
        while i < 6
            invariant
                i <= 6,
                bl_start + 6 < buf@.len(),
                buf@.len() == b0.len(),
                forall|j: int| 0 <= j < bl_start ==> #[trigger] buf@[j] == b0[j],
                forall|j: int| bl_start + 6 <= j < buf@.len() ==> #[trigger] buf@[j] == b0[j],
                forall|j: int| bl_start <= j < bl_start + i ==> #[trigger] buf@[j] == 48u8,
            decreases 6 - i,
        {
            buf[bl_start + i] = 48;
            i = i + 1;
        }
        let mut k: usize = 0;
        while k < bl_len
            invariant
                1 <= bl_len <= 6,
                bl_offset == bl_start + (6 - bl_len),
                k <= bl_len,
                blen == buf@.len(),
                bl_start + 6 < buf@.len(),
                buf@.len() == b0.len(),
                bl_buf@.take(bl_len as int) == pad6(body_length as nat).skip(6 - bl_len),
                forall|j: int| 0 <= j < bl_start ==> #[trigger] buf@[j] == b0[j],
                forall|j: int| bl_start + 6 <= j < buf@.len() ==> #[trigger] buf@[j] == b0[j],
                forall|j: int| bl_start <= j < bl_offset ==> #[trigger] buf@[j] == 48u8,
                forall|j: int| bl_offset + k <= j < bl_start + 6 ==> #[trigger] buf@[j] == 48u8,
                forall|j: int| 0 <= j < k ==> #[trigger] buf@[bl_offset + j] == bl_buf@[j],
            decreases bl_len - k,
        {
            buf[bl_offset + k] = bl_buf[k];
            k = k + 1;
        }
        let ghost b1 = splice(b0, bl_start as int, pad6(body_length as nat));
        reveal(splice);
        assert forall|j: int| 0 <= j < buf@.len() implies #[trigger] buf@[j] == b1[j] by {
            if bl_start <= j < bl_start + 6 {
                let jj = j - bl_start;
                if jj >= 6 - bl_len {
                    let q = jj - (6 - bl_len);
                    assert(bl_buf@.take(bl_len as int)[q] == bl_buf@[q]);
                    assert(buf@[bl_offset + q] == bl_buf@[q]);
                    assert(pad6(body_length as nat).skip(6 - bl_len)[q] == pad6(body_length as nat)[jj]);
                }
                assert(b1[j] == pad6(body_length as nat)[jj]);
            }
        }
        assert(buf@ =~= b1);
        let cs = checksum::compute(&buf[0..body_end]);
        let mut cs_buf = [0u8; 3];
        checksum::format(cs, &mut cs_buf);
        let tr: [u8; 7] = [49, 48, 61, cs_buf[0], cs_buf[1], cs_buf[2], SOH];
        assert(tr@ =~= trailer(cs));
        self.write_bytes(buf, tr.as_slice());
        self.pos
    }

    /// The bytes serialized so far.
    pub fn as_bytes<'b>(&self, buf: &'b [u8]) -> (r: &'b [u8])
        requires
            self.written() <= buf@.len(),
        ensures
            r@ == buf@.take(self.written() as int),
    {
        &buf[0..self.pos]
    }

    /// Current write position.
    pub fn position(&self) -> (p: usize)
        ensures
            p == self.written(),
    {
        self.pos
    }
}

/// A buffer holding BeginString, the reserved BodyLength and then `body` is, after
/// `finalize`, the framed message for that body.
proof fn lemma_finalized_frames(s: Seq<u8>, begin_string: Seq<u8>, body: Seq<u8>)
    requires
        s.take((field_bytes(tags::BEGIN_STRING, begin_string).len() + 9 + body.len()) as int) == field_bytes(
            tags::BEGIN_STRING,
            begin_string,
        ) + reserved_body_length() + body,
        field_bytes(tags::BEGIN_STRING, begin_string).len() + 9 + body.len() + 7 <= s.len(),
    ensures
        ({
            let bs: int = field_bytes(tags::BEGIN_STRING, begin_string).len() + 9int;
            let p: int = bs + body.len();
            &&& finalized(s, bs, p).take(p + 7) == framed_message(begin_string, body)
            &&& finalized(s, bs, p).skip(p + 7) == s.skip(p + 7)
            &&& finalized(s, bs, p).len() == s.len()
        }),
{
    let f8 = field_bytes(tags::BEGIN_STRING, begin_string);
    let bs: int = f8.len() + 9int;
    let p: int = bs + body.len();
    let b1 = splice(s, bs - 7, pad6(body.len()));
    reveal(splice);
    let pre = f8 + seq![57u8, 61u8] + pad6(body.len()) + seq![SOH] + body;
    lemma_splice(s, bs - 7, pad6(body.len()));
    assert forall|j: int| 0 <= j < p implies #[trigger] b1[j] == pre[j] by {
        assert(s.take(p)[j] == s[j]);
        if j < f8.len() {
            assert(pre[j] == f8[j]);
        } else if j < f8.len() + 2 {
        } else if j < bs - 1 {
        } else if j < bs {
        } else {
            assert(pre[j] == body[j - bs]);
        }
    }
    assert(b1.take(p) =~= pre);
    lemma_splice(b1, p, trailer(spec_checksum(pre)));
}

/// SenderCompID, TargetCompID, MsgSeqNum and SendingTime, in that order, as every
/// built message carries them right after MsgType.
pub open spec fn session_fields(sender: Seq<u8>, target: Seq<u8>, seq_num: u64, sending_time: Seq<u8>) -> Seq<u8> {
    field_bytes(tags::SENDER_COMP_ID, sender) + field_bytes(tags::TARGET_COMP_ID, target)
        + u64_field_bytes(tags::MSG_SEQ_NUM, seq_num) + field_bytes(tags::SENDING_TIME, sending_time)
}

impl FixSerializer {
    fn add_session_fields(
        &mut self,
        buf: &mut [u8],
        sender: &[u8],
        target: &[u8],
        seq_num: u64,
        sending_time: &[u8],
    )
        requires
            old(self).written() + session_fields(sender@, target@, seq_num, sending_time@).len()
                <= old(buf)@.len(),
        ensures
            final(self).written() == old(self).written() + session_fields(sender@, target@, seq_num, sending_time@).len(),
            final(self).body_offset() == old(self).body_offset(),
            final(buf)@.take(final(self).written() as int) == old(buf)@.take(old(self).written() as int)
                + session_fields(sender@, target@, seq_num, sending_time@),
            forall|i: int| final(self).written() <= i < old(buf)@.len() ==> #[trigger] final(buf)@[i] == old(buf)@[i],
            final(buf)@.len() == old(buf)@.len(),
    {
        self.add_str(buf, tags::SENDER_COMP_ID, sender);
        self.add_str(buf, tags::TARGET_COMP_ID, target);
        self.add_u64(buf, tags::MSG_SEQ_NUM, seq_num);
        self.add_str(buf, tags::SENDING_TIME, sending_time);
        assert(buf@.take(self.written() as int) =~= old(buf)@.take(old(self).written() as int)
            + session_fields(sender@, target@, seq_num, sending_time@));
    }
}

/// The message body (MsgType onward) of a Heartbeat.
pub open spec fn heartbeat_body(sender: Seq<u8>, target: Seq<u8>, seq_num: u64, sending_time: Seq<u8>) -> Seq<u8> {
    field_bytes(tags::MSG_TYPE, seq![48u8]) + (session_fields(sender, target, seq_num, sending_time))
}

/// Build a Heartbeat into `buf`, returning its length.
#[verifier::rlimit(60)]
pub fn build_heartbeat(
    buf: &mut [u8],
    begin_string: &[u8],
    sender: &[u8],
    target: &[u8],
    seq_num: u64,
    sending_time: &[u8],
) -> (n: usize)
    requires
        framed_message(begin_string@, heartbeat_body(sender@, target@, seq_num, sending_time@)).len()
            <= old(buf)@.len(),
    ensures
        n == framed_message(begin_string@, heartbeat_body(sender@, target@, seq_num, sending_time@)).len(),
        final(buf)@.take(n as int) == framed_message(
            begin_string@,
            heartbeat_body(sender@, target@, seq_num, sending_time@),
        ),
        final(buf)@.skip(n as int) == old(buf)@.skip(n as int),
        final(buf)@.len() == old(buf)@.len(),
{
    let ghost body = heartbeat_body(sender@, target@, seq_num, sending_time@);
    let mt: [u8; 1] = [48];
    let mut ser = FixSerializer::new();
    ser.begin(buf, begin_string, mt.as_slice());
    ser.add_session_fields(buf, sender, target, seq_num, sending_time);
    proof {
        assert(buf@.take(ser.written() as int) =~= field_bytes(tags::BEGIN_STRING, begin_string@)
            + reserved_body_length() + body);
        lemma_finalized_frames(buf@, begin_string@, body);
    }
    let ghost before = buf@;
    let n = ser.finalize(buf);
    assert(before.skip(n as int) =~= old(buf)@.skip(n as int));
    n
}

/// The message body (MsgType onward) of a Logout.
pub open spec fn logout_body(sender: Seq<u8>, target: Seq<u8>, seq_num: u64, sending_time: Seq<u8>) -> Seq<u8> {
    field_bytes(tags::MSG_TYPE, seq![53u8]) + (session_fields(sender, target, seq_num, sending_time))
}

/// Build a Logout into `buf`, returning its length.
#[verifier::rlimit(60)]
pub fn build_logout(
    buf: &mut [u8],
    begin_string: &[u8],
    sender: &[u8],
    target: &[u8],
    seq_num: u64,
    sending_time: &[u8],
) -> (n: usize)
    requires
        framed_message(begin_string@, logout_body(sender@, target@, seq_num, sending_time@)).len()
            <= old(buf)@.len(),
    ensures
        n == framed_message(begin_string@, logout_body(sender@, target@, seq_num, sending_time@)).len(),
        final(buf)@.take(n as int) == framed_message(
            begin_string@,
            logout_body(sender@, target@, seq_num, sending_time@),
        ),
        final(buf)@.skip(n as int) == old(buf)@.skip(n as int),
        final(buf)@.len() == old(buf)@.len(),
{
    let ghost body = logout_body(sender@, target@, seq_num, sending_time@);
    let mt: [u8; 1] = [53];
    let mut ser = FixSerializer::new();
    ser.begin(buf, begin_string, mt.as_slice());
    ser.add_session_fields(buf, sender, target, seq_num, sending_time);
    proof {
        assert(buf@.take(ser.written() as int) =~= field_bytes(tags::BEGIN_STRING, begin_string@)
            + reserved_body_length() + body);
        lemma_finalized_frames(buf@, begin_string@, body);
    }
    let ghost before = buf@;
    let n = ser.finalize(buf);
    assert(before.skip(n as int) =~= old(buf)@.skip(n as int));
    n
}

/// The message body of a Logon.
pub open spec fn logon_body(
    sender: Seq<u8>,
    target: Seq<u8>,
    seq_num: u64,
    sending_time: Seq<u8>,
    heartbeat_interval: i64,
) -> Seq<u8> {
    field_bytes(tags::MSG_TYPE, seq![65u8]) + (session_fields(sender, target, seq_num, sending_time))
        + i64_field_bytes(tags::ENCRYPT_METHOD, 0) + i64_field_bytes(tags::HEARTBT_INT, heartbeat_interval)
}

/// Build a Logon (EncryptMethod 0) into `buf`, returning its length.
#[verifier::rlimit(60)]
pub fn build_logon(
    buf: &mut [u8],
    begin_string: &[u8],
    sender: &[u8],
    target: &[u8],
    seq_num: u64,
    sending_time: &[u8],
    heartbeat_interval: i64,
) -> (n: usize)
    requires
        framed_message(
            begin_string@,
            logon_body(sender@, target@, seq_num, sending_time@, heartbeat_interval),
        ).len() <= old(buf)@.len(),
    ensures
        n == framed_message(
            begin_string@,
            logon_body(sender@, target@, seq_num, sending_time@, heartbeat_interval),
        ).len(),
        final(buf)@.take(n as int) == framed_message(
            begin_string@,
            logon_body(sender@, target@, seq_num, sending_time@, heartbeat_interval),
        ),
        final(buf)@.skip(n as int) == old(buf)@.skip(n as int),
        final(buf)@.len() == old(buf)@.len(),
{
    let ghost body = logon_body(sender@, target@, seq_num, sending_time@, heartbeat_interval);
    let mt: [u8; 1] = [65];
    let mut ser = FixSerializer::new();
    ser.begin(buf, begin_string, mt.as_slice());
    ser.add_session_fields(buf, sender, target, seq_num, sending_time);
    ser.add_int(buf, tags::ENCRYPT_METHOD, 0);
    ser.add_int(buf, tags::HEARTBT_INT, heartbeat_interval);
    proof {
        assert(buf@.take(ser.written() as int) =~= field_bytes(tags::BEGIN_STRING, begin_string@)
            + reserved_body_length() + body);
        lemma_finalized_frames(buf@, begin_string@, body);
    }
    let ghost before = buf@;
    let n = ser.finalize(buf);
    assert(before.skip(n as int) =~= old(buf)@.skip(n as int));
    n
}

/// The order fields of a NewOrderSingle: ClOrdID, Symbol, Side, OrderQty, OrdType and
/// Price.
pub open spec fn order_fields(
    cl_ord_id: Seq<u8>,
    symbol: Seq<u8>,
    side: u8,
    qty: i64,
    ord_type: u8,
    price: Seq<u8>,
) -> Seq<u8> {
    field_bytes(tags::CL_ORD_ID, cl_ord_id) + field_bytes(tags::SYMBOL, symbol) + field_bytes(
        tags::SIDE,
        seq![side],
    ) + i64_field_bytes(tags::ORDER_QTY, qty) + field_bytes(tags::ORD_TYPE, seq![ord_type])
        + field_bytes(tags::PRICE, price)
}

impl FixSerializer {
    fn add_order_fields(
        &mut self,
        buf: &mut [u8],
        cl_ord_id: &[u8],
        symbol: &[u8],
        side: u8,
        qty: i64,
        ord_type: u8,
        price: &[u8],
    )
        requires
            old(self).written() + order_fields(cl_ord_id@, symbol@, side, qty, ord_type, price@).len()
                <= old(buf)@.len(),
        ensures
            final(self).written() == old(self).written() + order_fields(cl_ord_id@, symbol@, side, qty, ord_type, price@).len(),
            final(self).body_offset() == old(self).body_offset(),
            final(buf)@.take(final(self).written() as int) == old(buf)@.take(old(self).written() as int)
                + order_fields(cl_ord_id@, symbol@, side, qty, ord_type, price@),
            forall|i: int| final(self).written() <= i < old(buf)@.len() ==> #[trigger] final(buf)@[i] == old(buf)@[i],
            final(buf)@.len() == old(buf)@.len(),
    {
        let side_v: [u8; 1] = [side];
        let ord_type_v: [u8; 1] = [ord_type];
        assert(side_v@ =~= seq![side]);
        assert(ord_type_v@ =~= seq![ord_type]);
        self.add_str(buf, tags::CL_ORD_ID, cl_ord_id);
        self.add_str(buf, tags::SYMBOL, symbol);
        self.add_str(buf, tags::SIDE, side_v.as_slice());
        self.add_int(buf, tags::ORDER_QTY, qty);
        self.add_str(buf, tags::ORD_TYPE, ord_type_v.as_slice());
        self.add_str(buf, tags::PRICE, price);
        assert(buf@.take(self.written() as int) =~= old(buf)@.take(old(self).written() as int)
            + order_fields(cl_ord_id@, symbol@, side, qty, ord_type, price@));
    }
}

/// The message body of a NewOrderSingle (HandlInst 1, TransactTime = SendingTime).
pub open spec fn new_order_single_body(
    sender: Seq<u8>,
    target: Seq<u8>,
    seq_num: u64,
    sending_time: Seq<u8>,
    cl_ord_id: Seq<u8>,
    symbol: Seq<u8>,
    side: u8,
    qty: i64,
    ord_type: u8,
    price: Seq<u8>,
) -> Seq<u8> {
    field_bytes(tags::MSG_TYPE, seq![68u8]) + (session_fields(sender, target, seq_num, sending_time))
        + order_fields(cl_ord_id, symbol, side, qty, ord_type, price) + field_bytes(
        tags::TRANSACT_TIME,
        sending_time,
    ) + field_bytes(tags::HANDL_INST, seq![49u8])
}

/// Build a NewOrderSingle into `buf`, returning its length.
#[verifier::rlimit(60)]
pub fn build_new_order_single(
    buf: &mut [u8],
    begin_string: &[u8],
    sender: &[u8],
    target: &[u8],
    seq_num: u64,
    sending_time: &[u8],
    cl_ord_id: &[u8],
    symbol: &[u8],
    side: u8,
    qty: i64,
    ord_type: u8,
    price: &[u8],
) -> (n: usize)
    requires
        framed_message(
            begin_string@,
            new_order_single_body(
                sender@,
                target@,
                seq_num,
                sending_time@,
                cl_ord_id@,
                symbol@,
                side,
                qty,
                ord_type,
                price@,
            ),
        ).len() <= old(buf)@.len(),
    ensures
        n == framed_message(
            begin_string@,
            new_order_single_body(
                sender@,
                target@,
                seq_num,
                sending_time@,
                cl_ord_id@,
                symbol@,
                side,
                qty,
                ord_type,
                price@,
            ),
        ).len(),
        final(buf)@.take(n as int) == framed_message(
            begin_string@,
            new_order_single_body(
                sender@,
                target@,
                seq_num,
                sending_time@,
                cl_ord_id@,
                symbol@,
                side,
                qty,
                ord_type,
                price@,
            ),
        ),
        final(buf)@.skip(n as int) == old(buf)@.skip(n as int),
        final(buf)@.len() == old(buf)@.len(),
{
    let ghost body = new_order_single_body(
        sender@,
        target@,
        seq_num,
        sending_time@,
        cl_ord_id@,
        symbol@,
        side,
        qty,
        ord_type,
        price@,
    );
    let mt: [u8; 1] = [68];
    let handl_inst: [u8; 1] = [49];
    let mut ser = FixSerializer::new();
    ser.begin(buf, begin_string, mt.as_slice());
    ser.add_session_fields(buf, sender, target, seq_num, sending_time);
    ser.add_order_fields(buf, cl_ord_id, symbol, side, qty, ord_type, price);
    ser.add_str(buf, tags::TRANSACT_TIME, sending_time);
    ser.add_str(buf, tags::HANDL_INST, handl_inst.as_slice());
    proof {
        assert(handl_inst@ =~= seq![49u8]);
        assert(buf@.take(ser.written() as int) =~= field_bytes(tags::BEGIN_STRING, begin_string@)
            + reserved_body_length() + body);
        lemma_finalized_frames(buf@, begin_string@, body);
    }
    let ghost before = buf@;
    let n = ser.finalize(buf);
    assert(before.skip(n as int) =~= old(buf)@.skip(n as int));
    n
}

/// The identifying fields of an ExecutionReport: OrderID, ExecID, ClOrdID, ExecType,
/// OrdStatus, Symbol and Side.
pub open spec fn execution_id_fields(
    order_id: Seq<u8>,
    exec_id: Seq<u8>,
    cl_ord_id: Seq<u8>,
    exec_type: u8,
    ord_status: u8,
    symbol: Seq<u8>,
    side: u8,
) -> Seq<u8> {
    field_bytes(tags::ORDER_ID, order_id) + field_bytes(tags::EXEC_ID, exec_id) + field_bytes(
        tags::CL_ORD_ID,
        cl_ord_id,
    ) + field_bytes(tags::EXEC_TYPE, seq![exec_type]) + field_bytes(tags::ORD_STATUS, seq![ord_status])
        + field_bytes(tags::SYMBOL, symbol) + field_bytes(tags::SIDE, seq![side])
}

/// The quantity and price fields of an ExecutionReport: OrderQty, LastQty, LastPx,
/// LeavesQty, CumQty and AvgPx.
pub open spec fn execution_fill_fields(
    ord_qty: i64,
    last_qty: i64,
    last_px: Seq<u8>,
    leaves_qty: i64,
    cum_qty: i64,
    avg_px: Seq<u8>,
) -> Seq<u8> {
    i64_field_bytes(tags::ORDER_QTY, ord_qty) + i64_field_bytes(tags::LAST_QTY, last_qty)
        + field_bytes(tags::LAST_PX, last_px) + i64_field_bytes(tags::LEAVES_QTY, leaves_qty)
        + i64_field_bytes(tags::CUM_QTY, cum_qty) + field_bytes(tags::AVG_PX, avg_px)
}

impl FixSerializer {
    fn add_execution_id_fields(
        &mut self,
        buf: &mut [u8],
        order_id: &[u8],
        exec_id: &[u8],
        cl_ord_id: &[u8],
        exec_type: u8,
        ord_status: u8,
        symbol: &[u8],
        side: u8,
    )
        requires
            old(self).written() + execution_id_fields(order_id@, exec_id@, cl_ord_id@, exec_type, ord_status, symbol@, side).len()
                <= old(buf)@.len(),
        ensures
            final(self).written() == old(self).written() + execution_id_fields(order_id@, exec_id@, cl_ord_id@, exec_type, ord_status, symbol@, side).len(),
            final(self).body_offset() == old(self).body_offset(),
            final(buf)@.take(final(self).written() as int) == old(buf)@.take(old(self).written() as int)
                + execution_id_fields(order_id@, exec_id@, cl_ord_id@, exec_type, ord_status, symbol@, side),
            forall|i: int| final(self).written() <= i < old(buf)@.len() ==> #[trigger] final(buf)@[i] == old(buf)@[i],
            final(buf)@.len() == old(buf)@.len(),
    {
        let exec_type_v: [u8; 1] = [exec_type];
        let ord_status_v: [u8; 1] = [ord_status];
        let side_v: [u8; 1] = [side];
        assert(exec_type_v@ =~= seq![exec_type]);
        assert(ord_status_v@ =~= seq![ord_status]);
        assert(side_v@ =~= seq![side]);
        self.add_str(buf, tags::ORDER_ID, order_id);
        self.add_str(buf, tags::EXEC_ID, exec_id);
        self.add_str(buf, tags::CL_ORD_ID, cl_ord_id);
        self.add_str(buf, tags::EXEC_TYPE, exec_type_v.as_slice());
        self.add_str(buf, tags::ORD_STATUS, ord_status_v.as_slice());
        self.add_str(buf, tags::SYMBOL, symbol);
        self.add_str(buf, tags::SIDE, side_v.as_slice());
        assert(buf@.take(self.written() as int) =~= old(buf)@.take(old(self).written() as int)
            + execution_id_fields(order_id@, exec_id@, cl_ord_id@, exec_type, ord_status, symbol@, side));
    }

    fn add_execution_fill_fields(
        &mut self,
        buf: &mut [u8],
        ord_qty: i64,
        last_qty: i64,
        last_px: &[u8],
        leaves_qty: i64,
        cum_qty: i64,
        avg_px: &[u8],
    )
        requires
            old(self).written() + execution_fill_fields(ord_qty, last_qty, last_px@, leaves_qty, cum_qty, avg_px@).len()
                <= old(buf)@.len(),
        ensures
            final(self).written() == old(self).written() + execution_fill_fields(ord_qty, last_qty, last_px@, leaves_qty, cum_qty, avg_px@).len(),
            final(self).body_offset() == old(self).body_offset(),
            final(buf)@.take(final(self).written() as int) == old(buf)@.take(old(self).written() as int)
                + execution_fill_fields(ord_qty, last_qty, last_px@, leaves_qty, cum_qty, avg_px@),
            forall|i: int| final(self).written() <= i < old(buf)@.len() ==> #[trigger] final(buf)@[i] == old(buf)@[i],
            final(buf)@.len() == old(buf)@.len(),
    {
        self.add_int(buf, tags::ORDER_QTY, ord_qty);
        self.add_int(buf, tags::LAST_QTY, last_qty);
        self.add_str(buf, tags::LAST_PX, last_px);
        self.add_int(buf, tags::LEAVES_QTY, leaves_qty);
        self.add_int(buf, tags::CUM_QTY, cum_qty);
        self.add_str(buf, tags::AVG_PX, avg_px);
        assert(buf@.take(self.written() as int) =~= old(buf)@.take(old(self).written() as int)
            + execution_fill_fields(ord_qty, last_qty, last_px@, leaves_qty, cum_qty, avg_px@));
    }
}

/// The message body of an ExecutionReport (TransactTime = SendingTime).
pub open spec fn execution_report_body(
    sender: Seq<u8>,
    target: Seq<u8>,
    seq_num: u64,
    sending_time: Seq<u8>,
    order_id: Seq<u8>,
    exec_id: Seq<u8>,
    cl_ord_id: Seq<u8>,
    symbol: Seq<u8>,
    side: u8,
    ord_qty: i64,
    last_qty: i64,
    last_px: Seq<u8>,
    leaves_qty: i64,
    cum_qty: i64,
    avg_px: Seq<u8>,
    exec_type: u8,
    ord_status: u8,
) -> Seq<u8> {
    field_bytes(tags::MSG_TYPE, seq![56u8]) + (session_fields(sender, target, seq_num, sending_time))
        + execution_id_fields(order_id, exec_id, cl_ord_id, exec_type, ord_status, symbol, side)
        + execution_fill_fields(ord_qty, last_qty, last_px, leaves_qty, cum_qty, avg_px)
        + field_bytes(tags::TRANSACT_TIME, sending_time)
}

/// Build an ExecutionReport into `buf`, returning its length.
#[verifier::rlimit(100)]
pub fn build_execution_report(
    buf: &mut [u8],
    begin_string: &[u8],
    sender: &[u8],
    target: &[u8],
    seq_num: u64,
    sending_time: &[u8],
    order_id: &[u8],
    exec_id: &[u8],
    cl_ord_id: &[u8],
    symbol: &[u8],
    side: u8,
    ord_qty: i64,
    last_qty: i64,
    last_px: &[u8],
    leaves_qty: i64,
    cum_qty: i64,
    avg_px: &[u8],
    exec_type: u8,
    ord_status: u8,
) -> (n: usize)
    requires
        framed_message(begin_string@, execution_report_body(sender@, target@, seq_num, sending_time@, order_id@, exec_id@, cl_ord_id@, symbol@, side, ord_qty, last_qty, last_px@, leaves_qty, cum_qty, avg_px@, exec_type, ord_status)).len() <= old(buf)@.len(),
    ensures
        n == framed_message(begin_string@, execution_report_body(sender@, target@, seq_num, sending_time@, order_id@, exec_id@, cl_ord_id@, symbol@, side, ord_qty, last_qty, last_px@, leaves_qty, cum_qty, avg_px@, exec_type, ord_status)).len(),
        final(buf)@.take(n as int) == framed_message(begin_string@, execution_report_body(sender@, target@, seq_num, sending_time@, order_id@, exec_id@, cl_ord_id@, symbol@, side, ord_qty, last_qty, last_px@, leaves_qty, cum_qty, avg_px@, exec_type, ord_status)),
        final(buf)@.skip(n as int) == old(buf)@.skip(n as int),
        final(buf)@.len() == old(buf)@.len(),
{
    let ghost body = execution_report_body(sender@, target@, seq_num, sending_time@, order_id@, exec_id@, cl_ord_id@, symbol@, side, ord_qty, last_qty, last_px@, leaves_qty, cum_qty, avg_px@, exec_type, ord_status);
    let mt: [u8; 1] = [56];
    let mut ser = FixSerializer::new();
    ser.begin(buf, begin_string, mt.as_slice());
    ser.add_session_fields(buf, sender, target, seq_num, sending_time);
    ser.add_execution_id_fields(buf, order_id, exec_id, cl_ord_id, exec_type, ord_status, symbol, side);
    ser.add_execution_fill_fields(buf, ord_qty, last_qty, last_px, leaves_qty, cum_qty, avg_px);
    ser.add_str(buf, tags::TRANSACT_TIME, sending_time);
    proof {
        assert(buf@.take(ser.written() as int) =~= field_bytes(tags::BEGIN_STRING, begin_string@)
            + reserved_body_length() + body);
        lemma_finalized_frames(buf@, begin_string@, body);
    }
    let ghost before = buf@;
    let n = ser.finalize(buf);
    assert(before.skip(n as int) =~= old(buf)@.skip(n as int));
    n
}

} // verus!
