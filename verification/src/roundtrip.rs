//! What the parser reads back from what the serializer writes.

use vstd::prelude::*;
use crate::checksum::{
    checksum_digits, checksum_field_start, last_trailer_from, spec_checksum, spec_validate,
    stated_checksum, trailer_at,
};
use crate::decimal::{
    all_digits, dec_digits, dec_value, is_digit,
    lemma_dec_digits_roundtrip, lemma_dec_value_u32_exact, lemma_dec_value_usize_exact,
};
use crate::parser::{
    FixParser, ParseError, body_start_of, boundary_at, entry_of, recorded, checksum_tag_start, first_boundary, read_field,
    scan_fields, scan_to, stated_body_length_of, structural_error,
};
use crate::serializer::{
    decimal_shift, execution_fill_fields, execution_id_fields, execution_report_body, field_bytes,
    framed_message, heartbeat_body, logon_body, logout_body, new_order_single_body, order_fields,
    pad6, session_fields, trailer,
};
use crate::decimal::signed_digits;
use crate::tags::{self, EQUALS, SOH};
use crate::message::{MAX_FIELDS, first_entry_index, lookup_value};

verus! {

/// Fields written one after the other, each as `tag=value<SOH>`.
pub open spec fn fields_bytes(fs: Seq<(u32, Seq<u8>)>) -> Seq<u8>
    decreases fs.len(),
{
    if fs.len() == 0 {
        Seq::empty()
    } else {
        field_bytes(fs[0].0, fs[0].1) + fields_bytes(fs.skip(1))
    }
}

/// `s` holds no SOH byte.
pub open spec fn soh_free(s: Seq<u8>) -> bool {
    forall|i: int| 0 <= i < s.len() ==> s[i] != SOH
}

/// What each field read from `buf` holds: its tag and its value's bytes.
pub open spec fn field_values(buf: Seq<u8>, fields: Seq<(u32, int, int)>) -> Seq<(u32, Seq<u8>)> {
    fields.map_values(|f: (u32, int, int)| (f.0, buf.subrange(f.1, f.1 + f.2)))
}

proof fn lemma_scan_to_exact(buf: Seq<u8>, p: int, q: int, needle: u8)
    requires
        0 <= p <= q < buf.len(),
        buf[q] == needle,
        forall|i: int| p <= i < q ==> buf[i] != needle,
    ensures
        scan_to(buf, p, needle) == q,
    decreases q - p,
{
    if p < q {
        lemma_scan_to_exact(buf, p + 1, q, needle);
    }
}

/// A field written at `p` is read back at `p`: its tag, and its value right after '='.
proof fn lemma_read_field_bytes(buf: Seq<u8>, p: int, t: u32, v: Seq<u8>)
    requires
        0 <= p,
        p + field_bytes(t, v).len() <= buf.len(),
        buf.subrange(p, p + field_bytes(t, v).len()) == field_bytes(t, v),
        soh_free(v),
    ensures
        read_field(buf, p) == Ok::<(u32, int, int), ParseError>(
            (t, p + dec_digits(t as nat).len() + 1, v.len() as int),
        ),
{
    let d = dec_digits(t as nat);
    let fb = field_bytes(t, v);
    let e = p + d.len();
    lemma_dec_digits_roundtrip(t as nat);
    lemma_dec_value_u32_exact(d);
    assert forall|i: int| 0 <= i < fb.len() implies buf[p + i] == #[trigger] fb[i] by {
        assert(buf.subrange(p, p + fb.len())[i] == buf[p + i]);
    }
    assert forall|i: int| p <= i < e implies buf[i] != EQUALS by {
        assert(buf[i] == fb[i - p]);
        assert(fb[i - p] == d[i - p]);
        assert(is_digit(d[i - p]));
    }
    assert(buf[e] == fb[d.len() as int]);
    lemma_scan_to_exact(buf, p, e, EQUALS);
    assert(buf.subrange(p, e) =~= d);
    let ve = e + 1 + v.len();
    assert forall|i: int| e + 1 <= i < ve implies buf[i] != SOH by {
        assert(buf[i] == fb[i - p]);
        assert(fb[i - p] == v[i - e - 1]);
    }
    assert(buf[ve] == fb[ve - p]);
    lemma_scan_to_exact(buf, e + 1, ve, SOH);
}

/// A window of a window is a window.
proof fn lemma_window(buf: Seq<u8>, p: int, w: Seq<u8>, a: int, b: int)
    requires
        0 <= p,
        p + w.len() <= buf.len(),
        buf.subrange(p, p + w.len()) == w,
        0 <= a <= b <= w.len(),
    ensures
        buf.subrange(p + a, p + b) == w.subrange(a, b),
{
    assert forall|i: int| 0 <= i < b - a implies #[trigger] buf.subrange(p + a, p + b)[i]
        == w.subrange(a, b)[i] by {
        assert(buf.subrange(p, p + w.len())[a + i] == buf[p + a + i]);
    }
    assert(buf.subrange(p + a, p + b) =~= w.subrange(a, b));
}

/// A list of fields ending with the CheckSum field is read back field by field.
proof fn lemma_scan_field_list(buf: Seq<u8>, p: int, k: nat, all: Seq<(u32, Seq<u8>)>)
    requires
        all.len() >= 1,
        all.last().0 == tags::CHECKSUM,
        forall|i: int| 0 <= i < all.len() - 1 ==> (#[trigger] all[i]).0 != tags::CHECKSUM,
        forall|i: int| 0 <= i < all.len() ==> soh_free((#[trigger] all[i]).1),
        forall|i: int| 0 <= i < all.len() ==> structural_error((k + i) as nat, (#[trigger] all[i]).0) is None,
        0 <= p,
        p + fields_bytes(all).len() <= buf.len(),
        buf.subrange(p, p + fields_bytes(all).len()) == fields_bytes(all),
    ensures
        scan_fields(buf, p, k) matches Ok(r) && r.1 == p + fields_bytes(all).len() && field_values(
            buf,
            r.0,
        ) == all && r.0.len() == all.len() && (forall|i: int|
            0 <= i < all.len() ==> (#[trigger] r.0[i]).2 == all[i].1.len() && r.0[i].1 + r.0[i].2 + 1
                == p + fields_bytes(all.take(i + 1)).len() && p <= r.0[i].1),
    decreases all.len(),
{
    let t = all[0].0;
    let v = all[0].1;
    let fb0 = field_bytes(t, v);
    let rest = all.skip(1);
    let whole = fields_bytes(all);
    assert(whole == fb0 + fields_bytes(rest));
    lemma_window(buf, p, whole, 0, fb0.len() as int);
    assert(whole.subrange(0, fb0.len() as int) =~= fb0);
    assert(soh_free(all[0].1));
    lemma_read_field_bytes(buf, p, t, v);
    let d = dec_digits(t as nat);
    let f: (u32, int, int) = (t, p + d.len() + 1, v.len() as int);
    assert(structural_error((k + 0) as nat, all[0].0) is None);
    let vs = p + d.len() + 1;
    let a: int = d.len() + 1int;
    let b: int = a + v.len();
    lemma_window(buf, p, fb0, a, b);
    assert(fb0.subrange(a, b) =~= v);
    assert(buf.subrange(f.1, f.1 + f.2) == v);
    if all.len() == 1 {
        assert(rest =~= Seq::<(u32, Seq<u8>)>::empty());
        assert(whole =~= fb0);
        let r = scan_fields(buf, p, k);
        assert(r == Ok::<(Seq<(u32, int, int)>, int), ParseError>((seq![f], p + fb0.len())));
        assert(field_values(buf, seq![f]) =~= all);
        assert(all.take(1) =~= all);
    } else {
        assert(t != tags::CHECKSUM);
        let p2 = p + fb0.len();
        lemma_window(buf, p, whole, fb0.len() as int, whole.len() as int);
        assert(whole.subrange(fb0.len() as int, whole.len() as int) =~= fields_bytes(rest));
        assert forall|i: int| 0 <= i < rest.len() - 1 implies (#[trigger] rest[i]).0 != tags::CHECKSUM by {
            assert(rest[i] == all[i + 1]);
        }
        assert forall|i: int| 0 <= i < rest.len() implies soh_free((#[trigger] rest[i]).1) by {
            assert(rest[i] == all[i + 1]);
        }
        assert forall|i: int| 0 <= i < rest.len() implies structural_error(
            (k + 1 + i) as nat,
            (#[trigger] rest[i]).0,
        ) is None by {
            assert(rest[i] == all[i + 1]);
            assert(structural_error((k + (i + 1)) as nat, all[i + 1].0) is None);
        }
        lemma_scan_field_list(buf, p2, k + 1, rest);
        let r2 = scan_fields(buf, p2, k + 1);
        let x = r2->Ok_0;
        assert(scan_fields(buf, p, k) == Ok::<(Seq<(u32, int, int)>, int), ParseError>((seq![f] + x.0, x.1)));
        assert(field_values(buf, seq![f] + x.0) =~= seq![all[0]] + field_values(buf, x.0));
        assert(seq![all[0]] + rest =~= all);
        let r = seq![f] + x.0;
        assert forall|i: int| 0 <= i < all.len() implies (#[trigger] r[i]).2 == all[i].1.len() && r[i].1
            + r[i].2 + 1 == p + fields_bytes(all.take(i + 1)).len() && p <= r[i].1 by {
            if i == 0 {
                assert(all.take(1).skip(1) =~= Seq::<(u32, Seq<u8>)>::empty());
                assert(fields_bytes(all.take(1)) == fb0 + fields_bytes(all.take(1).skip(1)));
            } else {
                assert(r[i] == x.0[i - 1]);
                assert(rest[i - 1] == all[i]);
                assert(all.take(i + 1).skip(1) =~= rest.take(i));
                assert(all.take(i + 1)[0] == all[0]);
                assert(fields_bytes(all.take(i + 1)) == fb0 + fields_bytes(all.take(i + 1).skip(1)));
            }
        }
    }
}

proof fn lemma_fields_bytes_concat(a: Seq<(u32, Seq<u8>)>, b: Seq<(u32, Seq<u8>)>)
    ensures
        fields_bytes(a + b) == fields_bytes(a) + fields_bytes(b),
    decreases a.len(),
{
    if a.len() == 0 {
        assert(a + b =~= b);
        assert(fields_bytes(a) + fields_bytes(b) =~= fields_bytes(b));
    } else {
        lemma_fields_bytes_concat(a.skip(1), b);
        assert((a + b).skip(1) =~= a.skip(1) + b);
        assert((a + b)[0] == a[0]);
        assert(fields_bytes(a + b) =~= fields_bytes(a) + fields_bytes(b));
    }
}

/// The six BodyLength digits are digits.
proof fn lemma_pad6_digits(n: nat)
    ensures
        all_digits(pad6(n)),
        soh_free(pad6(n)),
        pad6(n).len() == 6,
{
    assert forall|i: int| 0 <= i < 6 implies is_digit(#[trigger] pad6(n)[i]) by {}
}

/// The six BodyLength digits read back as the body length, when it is below a million.
proof fn lemma_pad6_value(n: nat)
    requires
        n < 1000000,
    ensures
        dec_value(pad6(n)) == n,
{
    let s = pad6(n);
    let q1 = decimal_shift(n, 1);
    let q2 = decimal_shift(n, 2);
    let q3 = decimal_shift(n, 3);
    let q4 = decimal_shift(n, 4);
    let q5 = decimal_shift(n, 5);
    assert(decimal_shift(n, 0) == n);
    assert(q1 == n / 10);
    assert(q2 == q1 / 10);
    assert(q3 == q2 / 10);
    assert(q4 == q3 / 10);
    assert(q5 == q4 / 10);
    assert(q5 < 10);
    assert(s[0] == (48 + q5 % 10) as u8);
    assert(s[1] == (48 + q4 % 10) as u8);
    assert(s[2] == (48 + q3 % 10) as u8);
    assert(s[3] == (48 + q2 % 10) as u8);
    assert(s[4] == (48 + q1 % 10) as u8);
    assert(s[5] == (48 + n % 10) as u8);
    assert(s.take(0) =~= Seq::<u8>::empty());
    assert(s.take(1).drop_last() =~= s.take(0));
    assert(s.take(2).drop_last() =~= s.take(1));
    assert(s.take(3).drop_last() =~= s.take(2));
    assert(s.take(4).drop_last() =~= s.take(3));
    assert(s.take(5).drop_last() =~= s.take(4));
    assert(s.take(6).drop_last() =~= s.take(5));
    assert(dec_value(s.take(0)) == 0);
    assert(s.take(1).last() == s[0]);
    assert(s.take(2).last() == s[1]);
    assert(s.take(3).last() == s[2]);
    assert(s.take(4).last() == s[3]);
    assert(s.take(5).last() == s[4]);
    assert(s.take(6).last() == s[5]);
    assert(dec_value(s.take(1)) == q5);
    assert(dec_value(s.take(2)) == q4);
    assert(dec_value(s.take(3)) == q3);
    assert(dec_value(s.take(4)) == q2);
    assert(dec_value(s.take(5)) == q1);
    assert(dec_value(s.take(6)) == n);
    assert(s.take(6) =~= s);
}

/// The three CheckSum digits read back as the checksum.
proof fn lemma_checksum_digits(c: u8)
    ensures
        stated_checksum(checksum_digits(c)[0], checksum_digits(c)[1], checksum_digits(c)[2]) == Some(c),
        soh_free(checksum_digits(c)),
        checksum_digits(c).len() == 3,
{
    let d = checksum_digits(c);
    assert(d[0] == (48 + c / 100) as u8);
    assert(d[1] == (48 + (c / 10) % 10) as u8);
    assert(d[2] == (48 + c % 10) as u8);
    assert(c / 100 <= 2);
    assert((c / 100) * 100 + ((c / 10) % 10) * 10 + c % 10 == c) by (nonlinear_arith);
}

/// The fields of a framed message: BeginString, BodyLength (six digits), the body's
/// fields, CheckSum.
pub open spec fn framed_fields(begin_string: Seq<u8>, fs: Seq<(u32, Seq<u8>)>) -> Seq<(u32, Seq<u8>)> {
    let body = fields_bytes(fs);
    let msg = framed_message(begin_string, body);
    seq![(tags::BEGIN_STRING, begin_string), (tags::BODY_LENGTH, pad6(body.len()))] + fs + seq![
        (tags::CHECKSUM, checksum_digits(spec_checksum(msg.take(msg.len() - 7)))),
    ]
}

/// A framed message is its fields written out.
proof fn lemma_framed_is_fields(begin_string: Seq<u8>, fs: Seq<(u32, Seq<u8>)>)
    ensures
        framed_message(begin_string, fields_bytes(fs)) == fields_bytes(framed_fields(begin_string, fs)),
        ({
            let msg = framed_message(begin_string, fields_bytes(fs));
            msg.take(msg.len() - 7) == field_bytes(tags::BEGIN_STRING, begin_string) + seq![57u8, 61u8]
                + pad6(fields_bytes(fs).len()) + seq![SOH] + fields_bytes(fs)
        }),
{
    let body = fields_bytes(fs);
    let n = body.len();
    let msg = framed_message(begin_string, body);
    let f8 = field_bytes(tags::BEGIN_STRING, begin_string);
    let pre = f8 + seq![57u8, 61u8] + pad6(n) + seq![SOH] + body;
    let c = spec_checksum(pre);
    let cd = checksum_digits(c);
    let head = seq![(tags::BEGIN_STRING, begin_string), (tags::BODY_LENGTH, pad6(n))];
    let last = seq![(tags::CHECKSUM, cd)];
    reveal_with_fuel(dec_digits, 2);
    assert(dec_digits(9) =~= seq![57u8]);
    assert(dec_digits(10) =~= seq![49u8, 48u8]);
    assert(msg.take(msg.len() - 7) =~= pre);
    lemma_fields_bytes_concat(head, fs);
    lemma_fields_bytes_concat(head + fs, last);
    let empty = Seq::<(u32, Seq<u8>)>::empty();
    assert(fields_bytes(empty) =~= Seq::<u8>::empty());
    assert(last.skip(1) =~= empty);
    assert(fields_bytes(last) =~= field_bytes(tags::CHECKSUM, cd));
    assert(head.skip(1).skip(1) =~= empty);
    assert(fields_bytes(head.skip(1)) =~= field_bytes(tags::BODY_LENGTH, pad6(n)));
    assert(fields_bytes(head) =~= f8 + field_bytes(tags::BODY_LENGTH, pad6(n)));
    assert(field_bytes(tags::CHECKSUM, cd) =~= trailer(c));
    assert(msg =~= fields_bytes(head + fs + last));
}

/// The CheckSum field of a framed message is found where it was written, and the
/// checksum it states is that of the bytes before it.
proof fn lemma_framed_trailer(begin_string: Seq<u8>, fs: Seq<(u32, Seq<u8>)>)
    requires
        fs.len() >= 1,
    ensures
        ({
            let msg = framed_message(begin_string, fields_bytes(fs));
            &&& msg.len() >= field_bytes(tags::BEGIN_STRING, begin_string).len() + 9 + 3 + 7
            &&& checksum_tag_start(msg, msg.len() as int) == msg.len() - 7
            &&& spec_validate(msg)
        }),
{
    let body = fields_bytes(fs);
    let n = body.len();
    let msg = framed_message(begin_string, body);
    let f8 = field_bytes(tags::BEGIN_STRING, begin_string);
    let pre = f8 + seq![57u8, 61u8] + pad6(n) + seq![SOH] + body;
    let c = spec_checksum(pre);
    let cd = checksum_digits(c);
    lemma_checksum_digits(c);
    let len = msg.len() as int;
    assert(body.len() >= 3) by {
        assert(body == field_bytes(fs[0].0, fs[0].1) + fields_bytes(fs.skip(1)));
        lemma_dec_digits_roundtrip(fs[0].0 as nat);
    }
    lemma_fields_bytes_last(fs);
    assert(msg[len - 8] == body[body.len() - 1]);
    assert(msg[len - 7] == 49u8);
    assert(msg[len - 6] == 48u8);
    assert(msg[len - 5] == 61u8);
    reveal_with_fuel(last_trailer_from, 4);
    assert(trailer_at(msg, len - 8));
    assert(last_trailer_from(msg, len - 5) == Some(len - 8));
    assert(checksum_field_start(msg) == Some(len - 7));
    assert(msg.take(len - 7) =~= pre);
    assert(msg[len - 4] == cd[0] && msg[len - 3] == cd[1] && msg[len - 2] == cd[2]);
}

/// A message framed the way `FixSerializer` frames it (BeginString, BodyLength, a
/// non-empty body of fields, CheckSum) passes checksum validation.
pub proof fn lemma_framed_checksum_valid(begin_string: Seq<u8>, fs: Seq<(u32, Seq<u8>)>)
    requires
        fs.len() >= 1,
    ensures
        spec_validate(framed_message(begin_string, fields_bytes(fs))),
{
    lemma_framed_trailer(begin_string, fs);
}

/// Serialize-then-parse: a message framed the way `FixSerializer` frames it (BeginString,
/// six-digit BodyLength, a body of fields starting with MsgType, CheckSum) is parsed in
/// full, and reading it back yields exactly the fields that were written, in order:
/// BeginString, BodyLength, every body field, and CheckSum. This holds when no value holds
/// an SOH byte, no body field uses the CheckSum tag, the message fits the parser's size
/// limit, and (when BodyLength is validated) the body is shorter than a million bytes.
pub proof fn lemma_parse_framed_message(
    parser: FixParser,
    begin_string: Seq<u8>,
    fs: Seq<(u32, Seq<u8>)>,
)
    requires
        fs.len() >= 1,
        fs[0].0 == tags::MSG_TYPE,
        soh_free(begin_string),
        forall|i: int| 0 <= i < fs.len() ==> soh_free((#[trigger] fs[i]).1) && fs[i].0 != tags::CHECKSUM,
        framed_message(begin_string, fields_bytes(fs)).len() <= parser.max_size(),
        parser.checks_body_length() ==> fields_bytes(fs).len() < 1000000,
    ensures
        ({
            let msg = framed_message(begin_string, fields_bytes(fs));
            &&& parser.spec_parse(msg) matches Ok(scan)
            &&& scan.1 == msg.len()
            &&& field_values(msg, scan.0) == framed_fields(begin_string, fs)
            &&& scan.0.len() == framed_fields(begin_string, fs).len()
            &&& forall|i: int| 0 <= i < scan.0.len() ==> 0 <= (#[trigger] scan.0[i]).1 && scan.0[i].1 + scan.0[i].2 < msg.len()
                && scan.0[i].2 == framed_fields(begin_string, fs)[i].1.len()
        }),
{
    let body = fields_bytes(fs);
    let n = body.len();
    let msg = framed_message(begin_string, body);
    let all = framed_fields(begin_string, fs);
    let f8 = field_bytes(tags::BEGIN_STRING, begin_string);
    lemma_framed_is_fields(begin_string, fs);
    lemma_framed_trailer(begin_string, fs);
    lemma_pad6_digits(n);
    lemma_checksum_digits(spec_checksum(msg.take(msg.len() - 7)));
    assert forall|i: int| 0 <= i < all.len() - 1 implies (#[trigger] all[i]).0 != tags::CHECKSUM by {
        if i >= 2 {
            assert(all[i] == fs[i - 2]);
        }
    }
    assert forall|i: int| 0 <= i < all.len() implies soh_free((#[trigger] all[i]).1) by {
        if 2 <= i < all.len() - 1 {
            assert(all[i] == fs[i - 2]);
        }
    }
    assert forall|i: int| 0 <= i < all.len() implies structural_error((0 + i) as nat, (#[trigger] all[i]).0)
        is None by {
        if i == 2 {
            assert(all[2] == fs[0]);
        }
    }
    assert(msg.subrange(0, msg.len() as int) =~= msg);
    lemma_scan_field_list(msg, 0, 0, all);
    let scan = scan_fields(msg, 0, 0)->Ok_0;
    assert forall|i: int| 0 <= i < scan.0.len() implies 0 <= (#[trigger] scan.0[i]).1 && scan.0[i].1 + scan.0[i].2
        < msg.len() && scan.0[i].2 == all[i].1.len() by {
        assert(all.take(i + 1) + all.skip(i + 1) =~= all);
        lemma_fields_bytes_concat(all.take(i + 1), all.skip(i + 1));
    }
    let head = seq![(tags::BEGIN_STRING, begin_string), (tags::BODY_LENGTH, pad6(n))];
    let empty = Seq::<(u32, Seq<u8>)>::empty();
    assert(all.take(2) =~= head);
    assert(fields_bytes(empty) =~= Seq::<u8>::empty());
    assert(head.skip(1).skip(1) =~= empty);
    assert(fields_bytes(head.skip(1)) =~= field_bytes(tags::BODY_LENGTH, pad6(n)));
    reveal_with_fuel(dec_digits, 2);
    assert(fields_bytes(head).len() == f8.len() + 9);
    assert(body_start_of(scan.0) == f8.len() + 9);
    if parser.checks_body_length() {
        assert(field_values(msg, scan.0)[1] == all[1]);
        assert(msg.subrange(scan.0[1].1, scan.0[1].1 + scan.0[1].2) == pad6(n));
        lemma_pad6_value(n);
        lemma_dec_value_usize_exact(pad6(n));
        assert(stated_body_length_of(msg, scan.0) == n);
    }
    assert(msg.take(msg.len() as int) =~= msg);
}

/// The last byte of a non-empty list of fields is the SOH that ends the last field.
proof fn lemma_fields_bytes_last(fs: Seq<(u32, Seq<u8>)>)
    requires
        fs.len() >= 1,
    ensures
        fields_bytes(fs).len() >= 1,
        fields_bytes(fs)[fields_bytes(fs).len() - 1] == SOH,
    decreases fs.len(),
{
    let fb = field_bytes(fs[0].0, fs[0].1);
    assert(fb[fb.len() - 1] == SOH);
    if fs.len() > 1 {
        lemma_fields_bytes_last(fs.skip(1));
        let tail = fields_bytes(fs.skip(1));
        assert(fields_bytes(fs) == fb + tail);
        assert(fields_bytes(fs)[fields_bytes(fs).len() - 1] == tail[tail.len() - 1]);
    } else {
        assert(fs.skip(1) =~= Seq::<(u32, Seq<u8>)>::empty());
        assert(fields_bytes(Seq::<(u32, Seq<u8>)>::empty()) =~= Seq::<u8>::empty());
        assert(fields_bytes(fs) =~= fb);
    }
}

/// The fields of a Heartbeat body, as `build_heartbeat` writes them.
pub open spec fn heartbeat_fields(
    sender: Seq<u8>,
    target: Seq<u8>,
    seq_num: u64,
    sending_time: Seq<u8>,
) -> Seq<(u32, Seq<u8>)> {
    seq![
        (tags::MSG_TYPE, seq![48u8]),
        (tags::SENDER_COMP_ID, sender),
        (tags::TARGET_COMP_ID, target),
        (tags::MSG_SEQ_NUM, dec_digits(seq_num as nat)),
        (tags::SENDING_TIME, sending_time),
    ]
}

/// The fields of a Logon body, as `build_logon` writes them.
pub open spec fn logon_fields(
    sender: Seq<u8>,
    target: Seq<u8>,
    seq_num: u64,
    sending_time: Seq<u8>,
    heartbeat_interval: i64,
) -> Seq<(u32, Seq<u8>)> {
    seq![
        (tags::MSG_TYPE, seq![65u8]),
        (tags::SENDER_COMP_ID, sender),
        (tags::TARGET_COMP_ID, target),
        (tags::MSG_SEQ_NUM, dec_digits(seq_num as nat)),
        (tags::SENDING_TIME, sending_time),
        (tags::ENCRYPT_METHOD, signed_digits(0)),
        (tags::HEARTBT_INT, signed_digits(heartbeat_interval)),
    ]
}

/// Writing a list of fields one by one is writing each of them in turn.
proof fn lemma_fields_bytes_unfold(fs: Seq<(u32, Seq<u8>)>)
    requires
        fs.len() >= 1,
    ensures
        fields_bytes(fs) == field_bytes(fs[0].0, fs[0].1) + fields_bytes(fs.skip(1)),
{
}

/// `build_heartbeat` writes the fields `heartbeat_fields` lists.
pub proof fn lemma_heartbeat_body_fields(
    sender: Seq<u8>,
    target: Seq<u8>,
    seq_num: u64,
    sending_time: Seq<u8>,
)
    ensures
        heartbeat_body(sender, target, seq_num, sending_time) == fields_bytes(
            heartbeat_fields(sender, target, seq_num, sending_time),
        ),
{
    let fs = heartbeat_fields(sender, target, seq_num, sending_time);
    let empty = Seq::<(u32, Seq<u8>)>::empty();
    assert(fields_bytes(empty) =~= Seq::<u8>::empty());
    assert(fs.skip(1).skip(1).skip(1).skip(1).skip(1) =~= empty);
    lemma_fields_bytes_unfold(fs.skip(1).skip(1).skip(1).skip(1));
    lemma_fields_bytes_unfold(fs.skip(1).skip(1).skip(1));
    lemma_fields_bytes_unfold(fs.skip(1).skip(1));
    lemma_fields_bytes_unfold(fs.skip(1));
    lemma_fields_bytes_unfold(fs);
    assert(heartbeat_body(sender, target, seq_num, sending_time) =~= fields_bytes(fs));
}

/// `build_logon` writes the fields `logon_fields` lists.
pub proof fn lemma_logon_body_fields(
    sender: Seq<u8>,
    target: Seq<u8>,
    seq_num: u64,
    sending_time: Seq<u8>,
    heartbeat_interval: i64,
)
    ensures
        logon_body(sender, target, seq_num, sending_time, heartbeat_interval) == fields_bytes(
            logon_fields(sender, target, seq_num, sending_time, heartbeat_interval),
        ),
{
    let fs = logon_fields(sender, target, seq_num, sending_time, heartbeat_interval);
    let empty = Seq::<(u32, Seq<u8>)>::empty();
    assert(fields_bytes(empty) =~= Seq::<u8>::empty());
    assert(fs.skip(1).skip(1).skip(1).skip(1).skip(1).skip(1).skip(1) =~= empty);
    lemma_fields_bytes_unfold(fs.skip(1).skip(1).skip(1).skip(1).skip(1).skip(1));
    lemma_fields_bytes_unfold(fs.skip(1).skip(1).skip(1).skip(1).skip(1));
    lemma_fields_bytes_unfold(fs.skip(1).skip(1).skip(1).skip(1));
    lemma_fields_bytes_unfold(fs.skip(1).skip(1).skip(1));
    lemma_fields_bytes_unfold(fs.skip(1).skip(1));
    lemma_fields_bytes_unfold(fs.skip(1));
    lemma_fields_bytes_unfold(fs);
    assert(logon_body(sender, target, seq_num, sending_time, heartbeat_interval) =~= fields_bytes(fs));
}

/// SenderCompID, TargetCompID, MsgSeqNum and SendingTime as a list of fields.
pub open spec fn session_field_list(
    sender: Seq<u8>,
    target: Seq<u8>,
    seq_num: u64,
    sending_time: Seq<u8>,
) -> Seq<(u32, Seq<u8>)> {
    seq![
        (tags::SENDER_COMP_ID, sender),
        (tags::TARGET_COMP_ID, target),
        (tags::MSG_SEQ_NUM, dec_digits(seq_num as nat)),
        (tags::SENDING_TIME, sending_time),
    ]
}

/// The fields of a Logout body, as `build_logout` writes them.
pub open spec fn logout_fields(
    sender: Seq<u8>,
    target: Seq<u8>,
    seq_num: u64,
    sending_time: Seq<u8>,
) -> Seq<(u32, Seq<u8>)> {
    seq![(tags::MSG_TYPE, seq![53u8])] + session_field_list(sender, target, seq_num, sending_time)
}

/// ClOrdID, Symbol, Side, OrderQty, OrdType and Price as a list of fields.
pub open spec fn order_field_list(
    cl_ord_id: Seq<u8>,
    symbol: Seq<u8>,
    side: u8,
    qty: i64,
    ord_type: u8,
    price: Seq<u8>,
) -> Seq<(u32, Seq<u8>)> {
    seq![
        (tags::CL_ORD_ID, cl_ord_id),
        (tags::SYMBOL, symbol),
        (tags::SIDE, seq![side]),
        (tags::ORDER_QTY, signed_digits(qty)),
        (tags::ORD_TYPE, seq![ord_type]),
        (tags::PRICE, price),
    ]
}

/// The fields of a NewOrderSingle body, as `build_new_order_single` writes them.
pub open spec fn new_order_single_fields(
    sender: Seq<u8>,
    target: Seq<u8>,
    seq_num: u64,
    sending_time: Seq<u8>,
    cl_ord_id: Seq<u8>,
    symbol: Seq<u8>,
    side: u8,
    qty: i64,
    ord_type: u8,
    price: Seq<u8>,
) -> Seq<(u32, Seq<u8>)> {
    seq![(tags::MSG_TYPE, seq![68u8])] + session_field_list(sender, target, seq_num, sending_time)
        + order_field_list(cl_ord_id, symbol, side, qty, ord_type, price) + seq![
        (tags::TRANSACT_TIME, sending_time),
        (tags::HANDL_INST, seq![49u8]),
    ]
}

/// OrderID, ExecID, ClOrdID, ExecType, OrdStatus, Symbol and Side as a list of fields.
pub open spec fn execution_id_field_list(
    order_id: Seq<u8>,
    exec_id: Seq<u8>,
    cl_ord_id: Seq<u8>,
    exec_type: u8,
    ord_status: u8,
    symbol: Seq<u8>,
    side: u8,
) -> Seq<(u32, Seq<u8>)> {
    seq![
        (tags::ORDER_ID, order_id),
        (tags::EXEC_ID, exec_id),
        (tags::CL_ORD_ID, cl_ord_id),
        (tags::EXEC_TYPE, seq![exec_type]),
        (tags::ORD_STATUS, seq![ord_status]),
        (tags::SYMBOL, symbol),
        (tags::SIDE, seq![side]),
    ]
}

/// OrderQty, LastQty, LastPx, LeavesQty, CumQty and AvgPx as a list of fields.
pub open spec fn execution_fill_field_list(
    ord_qty: i64,
    last_qty: i64,
    last_px: Seq<u8>,
    leaves_qty: i64,
    cum_qty: i64,
    avg_px: Seq<u8>,
) -> Seq<(u32, Seq<u8>)> {
    seq![
        (tags::ORDER_QTY, signed_digits(ord_qty)),
        (tags::LAST_QTY, signed_digits(last_qty)),
        (tags::LAST_PX, last_px),
        (tags::LEAVES_QTY, signed_digits(leaves_qty)),
        (tags::CUM_QTY, signed_digits(cum_qty)),
        (tags::AVG_PX, avg_px),
    ]
}

/// The fields of an ExecutionReport body, as `build_execution_report` writes them.
pub open spec fn execution_report_fields(
    sender: Seq<u8>,
    target: Seq<u8>,
    seq_num: u64,
    sending_time: Seq<u8>,
    order_id: Seq<u8>,
    exec_id: Seq<u8>,
    cl_ord_id: Seq<u8>,
    symbol: Seq<u8>,
    side: u8,
    ord_qty: i64,
    last_qty: i64,
    last_px: Seq<u8>,
    leaves_qty: i64,
    cum_qty: i64,
    avg_px: Seq<u8>,
    exec_type: u8,
    ord_status: u8,
) -> Seq<(u32, Seq<u8>)> {
    seq![(tags::MSG_TYPE, seq![56u8])] + session_field_list(sender, target, seq_num, sending_time)
        + execution_id_field_list(order_id, exec_id, cl_ord_id, exec_type, ord_status, symbol, side)
        + execution_fill_field_list(ord_qty, last_qty, last_px, leaves_qty, cum_qty, avg_px) + seq![
        (tags::TRANSACT_TIME, sending_time),
    ]
}

/// A list of fields written out is its first field, then the rest.
proof fn lemma_fields_bytes_cons(f: (u32, Seq<u8>), rest: Seq<(u32, Seq<u8>)>)
    ensures
        fields_bytes(seq![f] + rest) == field_bytes(f.0, f.1) + fields_bytes(rest),
{
    let fs = seq![f] + rest;
    assert(fs.skip(1) =~= rest);
    assert(fs[0] == f);
}

/// One field written as a list is that field's bytes.
proof fn lemma_fields_bytes_one(f: (u32, Seq<u8>))
    ensures
        fields_bytes(seq![f]) == field_bytes(f.0, f.1),
{
    let empty = Seq::<(u32, Seq<u8>)>::empty();
    assert(seq![f] =~= seq![f] + empty);
    lemma_fields_bytes_cons(f, empty);
    assert(fields_bytes(empty) =~= Seq::<u8>::empty());
    assert(field_bytes(f.0, f.1) + Seq::<u8>::empty() =~= field_bytes(f.0, f.1));
}

/// The session fields, written as a list, are the bytes `session_fields` gives.
proof fn lemma_session_list(sender: Seq<u8>, target: Seq<u8>, seq_num: u64, sending_time: Seq<u8>)
    ensures
        fields_bytes(session_field_list(sender, target, seq_num, sending_time)) == session_fields(
            sender,
            target,
            seq_num,
            sending_time,
        ),
{
    let fs = session_field_list(sender, target, seq_num, sending_time);
    assert(fs =~= seq![fs[0]] + (seq![fs[1]] + (seq![fs[2]] + seq![fs[3]])));
    lemma_fields_bytes_one(fs[3]);
    lemma_fields_bytes_cons(fs[2], seq![fs[3]]);
    lemma_fields_bytes_cons(fs[1], seq![fs[2]] + seq![fs[3]]);
    lemma_fields_bytes_cons(fs[0], seq![fs[1]] + (seq![fs[2]] + seq![fs[3]]));
    assert(fields_bytes(fs) =~= session_fields(sender, target, seq_num, sending_time));
}

/// The order fields, written as a list, are the bytes `order_fields` gives.
proof fn lemma_order_list(
    cl_ord_id: Seq<u8>,
    symbol: Seq<u8>,
    side: u8,
    qty: i64,
    ord_type: u8,
    price: Seq<u8>,
)
    ensures
        fields_bytes(order_field_list(cl_ord_id, symbol, side, qty, ord_type, price)) == order_fields(
            cl_ord_id,
            symbol,
            side,
            qty,
            ord_type,
            price,
        ),
{
    let fs = order_field_list(cl_ord_id, symbol, side, qty, ord_type, price);
    let t5 = seq![fs[5]];
    let t4 = seq![fs[4]] + t5;
    let t3 = seq![fs[3]] + t4;
    let t2 = seq![fs[2]] + t3;
    let t1 = seq![fs[1]] + t2;
    assert(fs =~= seq![fs[0]] + t1);
    lemma_fields_bytes_one(fs[5]);
    lemma_fields_bytes_cons(fs[4], t5);
    lemma_fields_bytes_cons(fs[3], t4);
    lemma_fields_bytes_cons(fs[2], t3);
    lemma_fields_bytes_cons(fs[1], t2);
    lemma_fields_bytes_cons(fs[0], t1);
    assert(fields_bytes(fs) =~= order_fields(cl_ord_id, symbol, side, qty, ord_type, price));
}

/// The identifying fields of an ExecutionReport, written as a list.
proof fn lemma_execution_id_list(
    order_id: Seq<u8>,
    exec_id: Seq<u8>,
    cl_ord_id: Seq<u8>,
    exec_type: u8,
    ord_status: u8,
    symbol: Seq<u8>,
    side: u8,
)
    ensures
        fields_bytes(execution_id_field_list(order_id, exec_id, cl_ord_id, exec_type, ord_status, symbol, side))
            == execution_id_fields(order_id, exec_id, cl_ord_id, exec_type, ord_status, symbol, side),
{
    let fs = execution_id_field_list(order_id, exec_id, cl_ord_id, exec_type, ord_status, symbol, side);
    let t6 = seq![fs[6]];
    let t5 = seq![fs[5]] + t6;
    let t4 = seq![fs[4]] + t5;
    let t3 = seq![fs[3]] + t4;
    let t2 = seq![fs[2]] + t3;
    let t1 = seq![fs[1]] + t2;
    assert(fs =~= seq![fs[0]] + t1);
    lemma_fields_bytes_one(fs[6]);
    lemma_fields_bytes_cons(fs[5], t6);
    lemma_fields_bytes_cons(fs[4], t5);
    lemma_fields_bytes_cons(fs[3], t4);
    lemma_fields_bytes_cons(fs[2], t3);
    lemma_fields_bytes_cons(fs[1], t2);
    lemma_fields_bytes_cons(fs[0], t1);
    assert(fields_bytes(fs) =~= execution_id_fields(
        order_id,
        exec_id,
        cl_ord_id,
        exec_type,
        ord_status,
        symbol,
        side,
    ));
}

/// The quantity and price fields of an ExecutionReport, written as a list.
proof fn lemma_execution_fill_list(
    ord_qty: i64,
    last_qty: i64,
    last_px: Seq<u8>,
    leaves_qty: i64,
    cum_qty: i64,
    avg_px: Seq<u8>,
)
    ensures
        fields_bytes(execution_fill_field_list(ord_qty, last_qty, last_px, leaves_qty, cum_qty, avg_px))
            == execution_fill_fields(ord_qty, last_qty, last_px, leaves_qty, cum_qty, avg_px),
{
    let fs = execution_fill_field_list(ord_qty, last_qty, last_px, leaves_qty, cum_qty, avg_px);
    let t5 = seq![fs[5]];
    let t4 = seq![fs[4]] + t5;
    let t3 = seq![fs[3]] + t4;
    let t2 = seq![fs[2]] + t3;
    let t1 = seq![fs[1]] + t2;
    assert(fs =~= seq![fs[0]] + t1);
    lemma_fields_bytes_one(fs[5]);
    lemma_fields_bytes_cons(fs[4], t5);
    lemma_fields_bytes_cons(fs[3], t4);
    lemma_fields_bytes_cons(fs[2], t3);
    lemma_fields_bytes_cons(fs[1], t2);
    lemma_fields_bytes_cons(fs[0], t1);
    assert(fields_bytes(fs) =~= execution_fill_fields(
        ord_qty,
        last_qty,
        last_px,
        leaves_qty,
        cum_qty,
        avg_px,
    ));
}

/// `build_logout` writes the fields `logout_fields` lists.
pub proof fn lemma_logout_body_fields(
    sender: Seq<u8>,
    target: Seq<u8>,
    seq_num: u64,
    sending_time: Seq<u8>,
)
    ensures
        logout_body(sender, target, seq_num, sending_time) == fields_bytes(
            logout_fields(sender, target, seq_num, sending_time),
        ),
{
    let s = session_field_list(sender, target, seq_num, sending_time);
    lemma_session_list(sender, target, seq_num, sending_time);
    lemma_fields_bytes_cons((tags::MSG_TYPE, seq![53u8]), s);
}

/// `build_new_order_single` writes the fields `new_order_single_fields` lists.
pub proof fn lemma_new_order_single_body_fields(
    sender: Seq<u8>,
    target: Seq<u8>,
    seq_num: u64,
    sending_time: Seq<u8>,
    cl_ord_id: Seq<u8>,
    symbol: Seq<u8>,
    side: u8,
    qty: i64,
    ord_type: u8,
    price: Seq<u8>,
)
    ensures
        new_order_single_body(
            sender,
            target,
            seq_num,
            sending_time,
            cl_ord_id,
            symbol,
            side,
            qty,
            ord_type,
            price,
        ) == fields_bytes(
            new_order_single_fields(
                sender,
                target,
                seq_num,
                sending_time,
                cl_ord_id,
                symbol,
                side,
                qty,
                ord_type,
                price,
            ),
        ),
{
    let m = seq![(tags::MSG_TYPE, seq![68u8])];
    let s = session_field_list(sender, target, seq_num, sending_time);
    let o = order_field_list(cl_ord_id, symbol, side, qty, ord_type, price);
    let tail = seq![(tags::TRANSACT_TIME, sending_time), (tags::HANDL_INST, seq![49u8])];
    lemma_session_list(sender, target, seq_num, sending_time);
    lemma_order_list(cl_ord_id, symbol, side, qty, ord_type, price);
    lemma_fields_bytes_one((tags::MSG_TYPE, seq![68u8]));
    lemma_fields_bytes_one((tags::HANDL_INST, seq![49u8]));
    assert(tail =~= seq![(tags::TRANSACT_TIME, sending_time)] + seq![(tags::HANDL_INST, seq![49u8])]);
    lemma_fields_bytes_cons((tags::TRANSACT_TIME, sending_time), seq![(tags::HANDL_INST, seq![49u8])]);
    lemma_fields_bytes_concat(m, s);
    lemma_fields_bytes_concat(m + s, o);
    lemma_fields_bytes_concat(m + s + o, tail);
    assert(new_order_single_body(
        sender,
        target,
        seq_num,
        sending_time,
        cl_ord_id,
        symbol,
        side,
        qty,
        ord_type,
        price,
    ) =~= fields_bytes(m + s + o + tail));
}

/// `build_execution_report` writes the fields `execution_report_fields` lists.
pub proof fn lemma_execution_report_body_fields(
    sender: Seq<u8>,
    target: Seq<u8>,
    seq_num: u64,
    sending_time: Seq<u8>,
    order_id: Seq<u8>,
    exec_id: Seq<u8>,
    cl_ord_id: Seq<u8>,
    symbol: Seq<u8>,
    side: u8,
    ord_qty: i64,
    last_qty: i64,
    last_px: Seq<u8>,
    leaves_qty: i64,
    cum_qty: i64,
    avg_px: Seq<u8>,
    exec_type: u8,
    ord_status: u8,
)
    ensures
        execution_report_body(
            sender,
            target,
            seq_num,
            sending_time,
            order_id,
            exec_id,
            cl_ord_id,
            symbol,
            side,
            ord_qty,
            last_qty,
            last_px,
            leaves_qty,
            cum_qty,
            avg_px,
            exec_type,
            ord_status,
        ) == fields_bytes(
            execution_report_fields(
                sender,
                target,
                seq_num,
                sending_time,
                order_id,
                exec_id,
                cl_ord_id,
                symbol,
                side,
                ord_qty,
                last_qty,
                last_px,
                leaves_qty,
                cum_qty,
                avg_px,
                exec_type,
                ord_status,
            ),
        ),
{
    let m = seq![(tags::MSG_TYPE, seq![56u8])];
    let s = session_field_list(sender, target, seq_num, sending_time);
    let i = execution_id_field_list(order_id, exec_id, cl_ord_id, exec_type, ord_status, symbol, side);
    let f = execution_fill_field_list(ord_qty, last_qty, last_px, leaves_qty, cum_qty, avg_px);
    let tail = seq![(tags::TRANSACT_TIME, sending_time)];
    lemma_session_list(sender, target, seq_num, sending_time);
    lemma_execution_id_list(order_id, exec_id, cl_ord_id, exec_type, ord_status, symbol, side);
    lemma_execution_fill_list(ord_qty, last_qty, last_px, leaves_qty, cum_qty, avg_px);
    lemma_fields_bytes_one((tags::MSG_TYPE, seq![56u8]));
    lemma_fields_bytes_one((tags::TRANSACT_TIME, sending_time));
    lemma_fields_bytes_concat(m, s);
    lemma_fields_bytes_concat(m + s, i);
    lemma_fields_bytes_concat(m + s + i, f);
    lemma_fields_bytes_concat(m + s + i + f, tail);
    assert(execution_report_body(
        sender,
        target,
        seq_num,
        sending_time,
        order_id,
        exec_id,
        cl_ord_id,
        symbol,
        side,
        ord_qty,
        last_qty,
        last_px,
        leaves_qty,
        cum_qty,
        avg_px,
        exec_type,
        ord_status,
    ) =~= fields_bytes(m + s + i + f + tail));
}

/// With no trailer pattern from `lo` up to `hi`, the first boundary found from `lo` is the
/// first found from `hi`.
proof fn lemma_first_boundary_skip(buf: Seq<u8>, lo: int, hi: int)
    requires
        0 <= lo <= hi,
        forall|i: int| lo <= i < hi ==> !boundary_at(buf, i),
    ensures
        first_boundary(buf, lo) == first_boundary(buf, hi),
    decreases hi - lo,
{
    if lo < hi {
        lemma_first_boundary_skip(buf, lo + 1, hi);
        assert(!boundary_at(buf, lo));
        if lo + 8 > buf.len() {
            assert(first_boundary(buf, hi) is None);
        }
    }
}

/// The SOH before a field whose tag is not CheckSum does not start a trailer pattern.
proof fn lemma_not_trailer_start(buf: Seq<u8>, p: int, t: u32, v: Seq<u8>)
    requires
        1 <= p,
        p + field_bytes(t, v).len() <= buf.len(),
        buf.subrange(p, p + field_bytes(t, v).len()) == field_bytes(t, v),
        t != tags::CHECKSUM,
    ensures
        !boundary_at(buf, p - 1),
{
    let d = dec_digits(t as nat);
    let fb = field_bytes(t, v);
    lemma_dec_digits_roundtrip(t as nat);
    assert(buf[p] == fb[0]) by {
        assert(buf.subrange(p, p + fb.len())[0] == buf[p]);
    }
    assert(buf[p + 1] == fb[1]) by {
        assert(buf.subrange(p, p + fb.len())[1] == buf[p + 1]);
    }
    assert(buf[p + 2] == fb[2]) by {
        assert(buf.subrange(p, p + fb.len())[2] == buf[p + 2]);
    }
    if d.len() == 1 {
        assert(fb[1] == EQUALS);
    } else if d.len() == 2 {
        if buf[p] == 49u8 && buf[p + 1] == 48u8 {
            assert(d =~= seq![49u8, 48u8]);
            assert(d.drop_last() =~= seq![49u8]);
            assert(seq![49u8].drop_last() =~= Seq::<u8>::empty());
            assert(dec_value(Seq::<u8>::empty()) == 0);
            assert(dec_value(seq![49u8]) == 1);
            assert(dec_value(d) == 10);
        }
    } else {
        assert(is_digit(d[2]));
        assert(fb[2] == d[2]);
    }
}

/// In a list of fields written at `p`, with no SOH in any value and the CheckSum tag on no
/// field but the first and the last, no trailer pattern starts before the SOH that ends the
/// second-to-last field.
proof fn lemma_no_boundary_in_fields(buf: Seq<u8>, p: int, all: Seq<(u32, Seq<u8>)>)
    requires
        all.len() >= 1,
        0 <= p,
        p + fields_bytes(all).len() <= buf.len(),
        buf.subrange(p, p + fields_bytes(all).len()) == fields_bytes(all),
        forall|i: int| 0 <= i < all.len() ==> soh_free((#[trigger] all[i]).1),
        forall|i: int| 1 <= i < all.len() - 1 ==> (#[trigger] all[i]).0 != tags::CHECKSUM,
    ensures
        forall|i: int| p <= i < p + fields_bytes(all.drop_last()).len() - 1 ==> !boundary_at(buf, i),
    decreases all.len(),
{
    let empty = Seq::<(u32, Seq<u8>)>::empty();
    if all.len() == 1 {
        assert(all.drop_last() =~= empty);
        assert(fields_bytes(empty) =~= Seq::<u8>::empty());
    } else {
        let f0 = all[0];
        let rest = all.skip(1);
        let fb0 = field_bytes(f0.0, f0.1);
        let whole = fields_bytes(all);
        let d = dec_digits(f0.0 as nat);
        lemma_dec_digits_roundtrip(f0.0 as nat);
        assert(whole == fb0 + fields_bytes(rest));
        lemma_window(buf, p, whole, 0, fb0.len() as int);
        assert(whole.subrange(0, fb0.len() as int) =~= fb0);
        let p2 = p + fb0.len();
        lemma_window(buf, p, whole, fb0.len() as int, whole.len() as int);
        assert(whole.subrange(fb0.len() as int, whole.len() as int) =~= fields_bytes(rest));
        assert(soh_free(all[0].1));
        // Inside the first field every byte but its last is a digit, '=' or a value byte.
        assert forall|i: int| p <= i < p2 - 1 implies buf[i] != SOH by {
            assert(buf.subrange(p, p + fb0.len())[i - p] == buf[i]);
            if i - p < d.len() {
                assert(fb0[i - p] == d[i - p]);
                assert(is_digit(d[i - p]));
            } else if i - p > d.len() {
                assert(fb0[i - p] == f0.1[i - p - d.len() - 1]);
            }
        }
        // The rest of the list.
        assert forall|i: int| 0 <= i < rest.len() implies soh_free((#[trigger] rest[i]).1) by {
            assert(rest[i] == all[i + 1]);
        }
        assert forall|i: int| 1 <= i < rest.len() - 1 implies (#[trigger] rest[i]).0 != tags::CHECKSUM by {
            assert(rest[i] == all[i + 1]);
        }
        lemma_no_boundary_in_fields(buf, p2, rest);
        assert(all.drop_last() =~= seq![f0] + rest.drop_last());
        lemma_fields_bytes_cons(f0, rest.drop_last());
        // The SOH that ends the first field, when another field follows before the last.
        if rest.len() >= 2 {
            let f1 = rest[0];
            let fb1 = field_bytes(f1.0, f1.1);
            assert(f1 == all[1]);
            assert(fields_bytes(rest) == fb1 + fields_bytes(rest.skip(1)));
            lemma_window(buf, p2, fields_bytes(rest), 0, fb1.len() as int);
            assert(fields_bytes(rest).subrange(0, fb1.len() as int) =~= fb1);
            lemma_not_trailer_start(buf, p2, f1.0, f1.1);
        }
    }
}

/// Framing a stream: when a stream starts with a message framed the way `FixSerializer`
/// frames it, the first complete message that the framer finds ends exactly where that
/// message ends, whatever follows it. This holds when no value holds an SOH byte and no body
/// field uses the CheckSum tag.
pub proof fn lemma_framer_finds_framed_message(begin_string: Seq<u8>, fs: Seq<(u32, Seq<u8>)>, rest: Seq<u8>)
    requires
        fs.len() >= 1,
        soh_free(begin_string),
        forall|i: int| 0 <= i < fs.len() ==> soh_free((#[trigger] fs[i]).1) && fs[i].0 != tags::CHECKSUM,
    ensures
        first_boundary(framed_message(begin_string, fields_bytes(fs)) + rest, 0) == Some(
            framed_message(begin_string, fields_bytes(fs)).len() as int,
        ),
{
    let body = fields_bytes(fs);
    let msg = framed_message(begin_string, body);
    let buf = msg + rest;
    let all = framed_fields(begin_string, fs);
    let len = msg.len() as int;
    lemma_framed_is_fields(begin_string, fs);
    lemma_pad6_digits(body.len());
    let c = spec_checksum(msg.take(msg.len() - 7));
    lemma_checksum_digits(c);
    assert forall|i: int| 0 <= i < all.len() implies soh_free((#[trigger] all[i]).1) by {
        if 2 <= i < all.len() - 1 {
            assert(all[i] == fs[i - 2]);
        }
    }
    assert forall|i: int| 1 <= i < all.len() - 1 implies (#[trigger] all[i]).0 != tags::CHECKSUM by {
        if i >= 2 {
            assert(all[i] == fs[i - 2]);
        }
    }
    assert(buf.subrange(0, fields_bytes(all).len() as int) =~= fields_bytes(all));
    lemma_no_boundary_in_fields(buf, 0, all);
    // The fields before the CheckSum field take all but its seven bytes.
    let last = all.last();
    assert(all =~= all.drop_last() + seq![last]);
    lemma_fields_bytes_concat(all.drop_last(), seq![last]);
    lemma_fields_bytes_one(last);
    reveal_with_fuel(dec_digits, 2);
    assert(dec_digits(10) =~= seq![49u8, 48u8]);
    assert(field_bytes(last.0, last.1).len() == 7);
    assert(fields_bytes(all.drop_last()).len() == len - 7);
    // The trailer pattern starts at the SOH that ends the body.
    lemma_fields_bytes_last(fs);
    assert(msg[len - 8] == body[body.len() - 1]);
    assert(boundary_at(buf, len - 8));
    lemma_first_boundary_skip(buf, 0, len - 8);
}


/// The value of the first field with tag `tag` in a list of fields.
pub open spec fn first_value(fs: Seq<(u32, Seq<u8>)>, tag: u32) -> Option<Seq<u8>>
    decreases fs.len(),
{
    if fs.len() == 0 {
        None
    } else {
        match first_value(fs.drop_last(), tag) {
            Some(v) => Some(v),
            None => if fs.last().0 == tag {
                Some(fs.last().1)
            } else {
                None
            },
        }
    }
}

/// Looking a tag up among the entries kept of fields read from `buf` gives the value of the
/// first field with that tag, when every field is kept and its range fits the entries.
proof fn lemma_lookup_recorded(buf: Seq<u8>, fields: Seq<(u32, int, int)>, tag: u32)
    requires
        fields.len() <= MAX_FIELDS,
        forall|i: int|
            0 <= i < fields.len() ==> 0 <= (#[trigger] fields[i]).1 <= u32::MAX && 0 <= fields[i].2 <= u16::MAX,
    ensures
        recorded(fields).len() == fields.len(),
        lookup_value(buf, recorded(fields), tag) == first_value(field_values(buf, fields), tag),
    decreases fields.len(),
{
    if fields.len() > 0 {
        let prev = fields.drop_last();
        assert forall|i: int| 0 <= i < prev.len() implies 0 <= (#[trigger] prev[i]).1 <= u32::MAX && 0
            <= prev[i].2 <= u16::MAX by {
            assert(prev[i] == fields[i]);
        }
        lemma_lookup_recorded(buf, prev, tag);
        let r = recorded(fields);
        let rp = recorded(prev);
        let f = fields.last();
        assert(r == rp.push(entry_of(f)));
        assert(r.drop_last() =~= rp);
        assert(field_values(buf, fields).drop_last() =~= field_values(buf, prev));
        assert(0 <= f.1 <= u32::MAX && 0 <= f.2 <= u16::MAX);
        match first_entry_index(rp, tag) {
            Some(i) => {
                crate::message::lemma_first_entry_index(rp, tag);
                assert(r[i] == rp[i]);
            },
            None => {},
        }
    }
}

/// Serialize-then-look-up: in the view of a message framed the way `FixSerializer` frames
/// it, the value looked up for any tag is that of the first field written with the tag
/// (BeginString, BodyLength, the body's fields, CheckSum), under the conditions of
/// `lemma_parse_framed_message`, with at most `MAX_FIELDS` fields, values under 64 KiB and
/// the message under 4 GiB.
pub proof fn lemma_parse_framed_lookup(parser: FixParser, begin_string: Seq<u8>, fs: Seq<(u32, Seq<u8>)>, tag: u32)
    requires
        fs.len() >= 1,
        fs[0].0 == tags::MSG_TYPE,
        soh_free(begin_string),
        forall|i: int| 0 <= i < fs.len() ==> soh_free((#[trigger] fs[i]).1) && fs[i].0 != tags::CHECKSUM,
        framed_message(begin_string, fields_bytes(fs)).len() <= parser.max_size(),
        parser.checks_body_length() ==> fields_bytes(fs).len() < 1000000,
        fs.len() + 3 <= MAX_FIELDS,
        begin_string.len() <= u16::MAX,
        forall|i: int| 0 <= i < fs.len() ==> (#[trigger] fs[i]).1.len() <= u16::MAX,
        framed_message(begin_string, fields_bytes(fs)).len() <= u32::MAX,
    ensures
        ({
            let msg = framed_message(begin_string, fields_bytes(fs));
            &&& parser.spec_parse(msg) matches Ok(scan)
            &&& lookup_value(msg, recorded(scan.0), tag) == first_value(framed_fields(begin_string, fs), tag)
        }),
{
    let msg = framed_message(begin_string, fields_bytes(fs));
    let all = framed_fields(begin_string, fs);
    lemma_parse_framed_message(parser, begin_string, fs);
    let scan = parser.spec_parse(msg)->Ok_0;
    lemma_pad6_digits(fields_bytes(fs).len());
    assert forall|i: int| 0 <= i < scan.0.len() implies 0 <= (#[trigger] scan.0[i]).1 <= u32::MAX && 0
        <= scan.0[i].2 <= u16::MAX by {
        assert(scan.0[i].2 == all[i].1.len());
        if 2 <= i < all.len() - 1 {
            assert(all[i] == fs[i - 2]);
        }
    }
    lemma_lookup_recorded(msg, scan.0, tag);
}

} // verus!
