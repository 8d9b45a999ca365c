//! Compiling QuickFIX-style XML dictionaries into a runtime form with direct lookup
//! of fields by tag number.
//!
//! The document is scanned as UTF-8 bytes. Every position below is a byte index into
//! the document, and every extracted string is the text of a byte range of it.

use vstd::prelude::*;
use vstd::utf8::*;
use vstd::string::StringSliceAdditionalSpecFns;
use vstd::string::StringExecFns;
use crate::decimal::{all_digits, dec_value, is_digit};
use crate::message::utf8_str;
use crate::text::decimal;

verus! {

// ---------------------------------------------------------------------------
// Scanning primitives
// ---------------------------------------------------------------------------

/// A byte range `[start, end)` of the document.
pub struct Span {
    pub start: int,
    pub end: int,
}

/// `p` occurs in `s` at index `i`.
pub open spec fn occurs_at(s: Seq<u8>, p: Seq<u8>, i: int) -> bool {
    0 <= i && i + p.len() <= s.len() && s.subrange(i, i + p.len()) == p
}

/// The first index at or after `i` at which the non-empty pattern `p` occurs entirely
/// before `end`: what `find` gives on the window `[i, end)`.
pub open spec fn search(s: Seq<u8>, p: Seq<u8>, i: int, end: int) -> Option<int>
    decreases end - i,
{
    if i < 0 || p.len() == 0 || i + p.len() > end || end > s.len() {
        None
    } else if occurs_at(s, p, i) {
        Some(i)
    } else {
        search(s, p, i + 1, end)
    }
}

/// A found index lies in the window, the pattern occurs there, and nowhere before it.
pub proof fn lemma_search(s: Seq<u8>, p: Seq<u8>, i: int, end: int)
    ensures
        search(s, p, i, end) matches Some(k) ==> {
            &&& i <= k
            &&& k + p.len() <= end
            &&& end <= s.len()
            &&& p.len() > 0
            &&& occurs_at(s, p, k)
        },
        search(s, p, i, end) matches Some(k) ==> forall|j: int| i <= j < k ==> !occurs_at(s, p, j),
    decreases end - i,
{
    if i < 0 || p.len() == 0 || i + p.len() > end || end > s.len() {
    } else if occurs_at(s, p, i) {
    } else {
        lemma_search(s, p, i + 1, end);
    }
}

/// A byte pattern of one byte.
pub open spec fn one_byte(b: u8) -> Seq<u8> {
    seq![b]
}

pub open spec fn opt_index(r: Option<usize>) -> Option<int> {
    match r {
        Some(k) => Some(k as int),
        None => None,
    }
}

/// Whether `p` occurs in `s` at `i`; `i + p.len()` must lie within `s`.
fn matches_at(s: &[u8], p: &[u8], i: usize) -> (r: bool)
    requires
        i + p@.len() <= s@.len(),
    ensures
        r == occurs_at(s@, p@, i as int),
{
    let n = p.len();
    let total = s.len();
    let mut j: usize = 0;
    while j < n
        invariant
            n == p@.len(),
            total == s@.len(),
            i + n <= s@.len(),
            j <= n,
            s@.subrange(i as int, i + j) == p@.take(j as int),
        decreases n - j,
    {
        if s[i + j] != p[j] {
            assert(s@.subrange(i as int, i + n)[j as int] != p@[j as int]);
            return false;
        }
        assert(s@.subrange(i as int, i + j + 1) =~= s@.subrange(i as int, i + j).push(s@[i + j]));
        assert(p@.take(j + 1) =~= p@.take(j as int).push(p@[j as int]));
        j = j + 1;
    }
    assert(p@.take(n as int) =~= p@);
    true
}

/// The first occurrence of `p` in the window `[from, end)` of `s`.
fn find(s: &[u8], p: &[u8], from: usize, end: usize) -> (r: Option<usize>)
    requires
        from <= end <= s@.len(),
        p@.len() > 0,
    ensures
        opt_index(r) == search(s@, p@, from as int, end as int),
{
    let n = p.len();
    if n > end - from {
        return None;
    }
    let mut i: usize = from;
    while i <= end - n
        invariant
            from <= i,
            end <= s@.len(),
            n == p@.len(),
            0 < n <= end,
            search(s@, p@, from as int, end as int) == search(s@, p@, i as int, end as int),
        decreases end - i,
    {
        if matches_at(s, p, i) {
            return Some(i);
        }
        i = i + 1;
    }
    None
}

/// The first occurrence of the byte `b` in the window `[from, end)` of `s`.
fn find_byte(s: &[u8], b: u8, from: usize, end: usize) -> (r: Option<usize>)
    requires
        from <= end <= s@.len(),
    ensures
        opt_index(r) == search(s@, one_byte(b), from as int, end as int),
{
    let pat: [u8; 1] = [b];
    let p = pat.as_slice();
    assert(p@ =~= one_byte(b));
    find(s, p, from, end)
}

/// `"`
pub open spec fn quote() -> u8 {
    34u8
}

/// `>`
pub open spec fn close_angle() -> u8 {
    62u8
}

/// The value of the attribute whose pattern `p` (its name, then `="`) first occurs in the
/// tag text `[lo, hi)`: from just after the pattern to the next `"`.
pub open spec fn attr(s: Seq<u8>, p: Seq<u8>, lo: int, hi: int) -> Option<Span> {
    match search(s, p, lo, hi) {
        None => None,
        Some(st) => match search(s, one_byte(quote()), st + p.len(), hi) {
            None => None,
            Some(e) => Some(Span { start: st + p.len(), end: e }),
        },
    }
}

pub open spec fn opt_span(r: Option<(usize, usize)>) -> Option<Span> {
    match r {
        Some((a, b)) => Some(Span { start: a as int, end: b as int }),
        None => None,
    }
}

/// A cut point of the document: its ends, or a position next to an ASCII byte.
pub open spec fn ascii_cut(s: Seq<u8>, i: int) -> bool {
    &&& 0 <= i <= s.len()
    &&& (i == 0 || i == s.len() || is_leading_byte_width_1(s[i - 1]) || is_leading_byte_width_1(
        s[i],
    ))
}

/// Attribute patterns end in `"`, so an attribute value lies between two ASCII bytes.
pub open spec fn attr_pattern(p: Seq<u8>) -> bool {
    p.len() > 0 && p.last() == quote()
}

proof fn lemma_attr(s: Seq<u8>, p: Seq<u8>, lo: int, hi: int)
    requires
        attr_pattern(p),
        0 <= lo <= hi <= s.len(),
    ensures
        attr(s, p, lo, hi) matches Some(v) ==> {
            &&& lo < v.start <= v.end < hi
            &&& ascii_cut(s, v.start)
            &&& ascii_cut(s, v.end)
        },
{
    lemma_search(s, p, lo, hi);
    if let Some(st) = search(s, p, lo, hi) {
        let vs = st + p.len();
        lemma_search(s, one_byte(quote()), vs, hi);
        if let Some(e) = search(s, one_byte(quote()), vs, hi) {
            assert(s.subrange(st, st + p.len())[p.len() - 1] == s[vs - 1]);
            assert(s.subrange(e, e + 1)[0] == s[e]);
        }
    }
}

/// The range of the attribute value for pattern `p` within the tag text `[lo, hi)`.
fn extract_attr(s: &[u8], p: &[u8], lo: usize, hi: usize) -> (r: Option<(usize, usize)>)
    requires
        lo <= hi <= s@.len(),
        attr_pattern(p@),
    ensures
        opt_span(r) == attr(s@, p@, lo as int, hi as int),
        r matches Some((a, b)) ==> lo < a <= b < hi && ascii_cut(s@, a as int) && ascii_cut(
            s@,
            b as int,
        ),
{
    proof {
        lemma_attr(s@, p@, lo as int, hi as int);
        lemma_search(s@, p@, lo as int, hi as int);
    }
    match find(s, p, lo, hi) {
        None => None,
        Some(st) => {
            let vs = st + p.len();
            match find_byte(s, 34, vs, hi) {
                None => None,
                Some(e) => Some((vs, e)),
            }
        },
    }
}

// ---------------------------------------------------------------------------
// Text of a byte range
// ---------------------------------------------------------------------------

/// The text that the bytes `[sp.start, sp.end)` of the document encode.
pub open spec fn text(s: Seq<u8>, sp: Span) -> Seq<char> {
    decode_utf8(s.subrange(sp.start, sp.end))
}

/// In valid UTF-8, the byte after an ASCII byte starts a character.
proof fn lemma_after_ascii(s: Seq<u8>, i: int)
    requires
        valid_utf8(s),
        0 < i < s.len(),
        is_leading_byte_width_1(s[i - 1]),
    ensures
        !is_continuation_byte(s[i]),
    decreases s.len(),
{
    let k = length_of_first_scalar(s);
    let rest = pop_first_scalar(s);
    assert(valid_first_scalar(s));
    assert(valid_utf8(rest));
    if i - 1 < k {
        assert(i - 1 == 0);
        assert(k == 1);
        assert(rest.len() == s.len() - 1);
        assert(valid_first_scalar(rest));
        assert(rest[0] == s[i]);
    } else {
        lemma_after_ascii(rest, i - k);
        assert(rest[i - k] == s[i]);
        assert(rest[i - k - 1] == s[i - 1]);
    }
}

/// Cut points of valid UTF-8 are character boundaries.
proof fn lemma_cut_is_boundary(s: Seq<u8>, i: int)
    requires
        valid_utf8(s),
        ascii_cut(s, i),
    ensures
        is_char_boundary(s, i),
{
    is_char_boundary_start_end_of_seq(s);
    if i == 0 || i == s.len() {
    } else if is_leading_byte_width_1(s[i]) {
        is_char_boundary_iff_not_is_continuation_byte(s, i);
    } else {
        lemma_after_ascii(s, i);
        is_char_boundary_iff_not_is_continuation_byte(s, i);
    }
}

/// The bytes between two cut points of valid UTF-8 are valid UTF-8.
proof fn lemma_cut_valid(s: Seq<u8>, a: int, b: int)
    requires
        valid_utf8(s),
        a <= b,
        ascii_cut(s, a),
        ascii_cut(s, b),
    ensures
        valid_utf8(s.subrange(a, b)),
{
    lemma_cut_is_boundary(s, a);
    valid_utf8_split(s, a);
    let tail = s.subrange(a, s.len() as int);
    assert(ascii_cut(tail, b - a)) by {
        if b - a > 0 && b < s.len() {
            assert(tail[b - a - 1] == s[b - 1]);
            assert(tail[b - a] == s[b]);
        }
    }
    lemma_cut_is_boundary(tail, b - a);
    valid_utf8_split(tail, b - a);
    assert(tail.subrange(0, b - a) =~= s.subrange(a, b));
}

/// The text of the bytes `[a, b)` of a valid UTF-8 document, cut next to ASCII bytes.
fn text_of(s: &[u8], a: usize, b: usize) -> (t: String)
    requires
        valid_utf8(s@),
        a <= b <= s@.len(),
        ascii_cut(s@, a as int),
        ascii_cut(s@, b as int),
    ensures
        t@ == text(s@, Span { start: a as int, end: b as int }),
{
    let piece = vstd::slice::slice_subrange(s, a, b);
    proof {
        lemma_cut_valid(s@, a as int, b as int);
    }
    match utf8_str(piece) {
        Some(t) => {
            proof {
                encode_utf8_decode_utf8(t@);
            }
            String::from_str(t)
        },
        None => {
            proof {
                assert(false);
            }
            String::new()
        },
    }
}

/// Whether the bytes `[a, b)` of `s` are exactly `p`.
fn bytes_equal(s: &[u8], a: usize, b: usize, p: &[u8]) -> (r: bool)
    requires
        a <= b <= s@.len(),
    ensures
        r == (s@.subrange(a as int, b as int) == p@),
{
    if b - a != p.len() {
        return false;
    }
    matches_at(s, p, a)
}

// ---------------------------------------------------------------------------
// Field numbers
// ---------------------------------------------------------------------------

/// What `str::parse::<u32>` accepts: an optional `+`, then one or more decimal digits
/// whose value fits in 32 bits.
pub open spec fn spec_parse_u32(t: Seq<u8>) -> Option<u32> {
    let digits = if t.len() > 0 && t[0] == 43u8 {
        t.skip(1)
    } else {
        t
    };
    if digits.len() == 0 || !all_digits(digits) || dec_value(digits) > u32::MAX {
        None
    } else {
        Some(dec_value(digits) as u32)
    }
}

proof fn lemma_dec_value_prefix(t: Seq<u8>, i: int)
    requires
        all_digits(t),
        0 <= i <= t.len(),
    ensures
        dec_value(t.take(i)) <= dec_value(t),
    decreases t.len(),
{
    if i == t.len() {
        assert(t.take(i) =~= t);
    } else {
        let init = t.drop_last();
        assert(all_digits(init)) by {
            assert forall|j: int| 0 <= j < init.len() implies is_digit(#[trigger] init[j]) by {
                assert(init[j] == t[j]);
            }
        }
        lemma_dec_value_prefix(init, i);
        assert(init.take(i) =~= t.take(i));
    }
}

/// Parse a field number as `str::parse::<u32>` does.
fn parse_u32_text(t: &[u8]) -> (r: Option<u32>)
    ensures
        r == spec_parse_u32(t@),
{
    let n = t.len();
    let start: usize = if n > 0 && t[0] == 43 {
        1
    } else {
        0
    };
    let ghost digits = if t@.len() > 0 && t@[0] == 43u8 {
        t@.skip(1)
    } else {
        t@
    };
    assert(digits =~= t@.skip(start as int));
    if start == n {
        return None;
    }
    let mut value: u64 = 0;
    let mut i: usize = start;
    while i < n
        invariant
            n == t@.len(),
            start <= i <= n,
            digits == t@.skip(start as int),
            digits == (if t@.len() > 0 && t@[0] == 43u8 {
                t@.skip(1)
            } else {
                t@
            }),
            all_digits(digits.take(i - start)),
            value == dec_value(digits.take(i - start)),
            value <= u32::MAX,
        decreases n - i,
    {
        let b = t[i];
        let ghost k = i - start;
        assert(digits[k] == b);
        assert(digits.take(k + 1).drop_last() =~= digits.take(k));
        if b < 48 || b > 57 {
            assert(!is_digit(digits[k]));
            assert(!all_digits(digits));
            return None;
        }
        let next: u64 = value * 10 + (b - 48) as u64;
        assert(digits.take(k + 1).last() == b);
        assert(dec_value(digits.take(k + 1)) == next);
        assert(all_digits(digits.take(k + 1))) by {
            assert forall|j: int| 0 <= j < k + 1 implies is_digit(#[trigger] digits.take(k + 1)[j]) by {
                if j < k {
                    assert(digits.take(k + 1)[j] == digits.take(k)[j]);
                }
            }
        }
        if next > 4294967295 {
            proof {
                if all_digits(digits) {
                    lemma_dec_value_prefix(digits, k + 1);
                }
            }
            return None;
        }
        value = next;
        i = i + 1;
    }
    assert(digits.take(n - start) =~= digits);
    Some(value as u32)
}

// ---------------------------------------------------------------------------
// The markup the compiler looks for
// ---------------------------------------------------------------------------

/// The bytes of `<fix `.
pub open spec fn pat_fix_open() -> Seq<u8> {
    seq![60u8, 102u8, 105u8, 120u8, 32u8]
}

fn bytes_fix_open() -> (r: [u8; 5])
    ensures
        r@ == pat_fix_open(),
{
    let r: [u8; 5] = [60, 102, 105, 120, 32];
    assert(r@ =~= pat_fix_open());
    r
}

/// The bytes of `major="`.
pub open spec fn pat_major() -> Seq<u8> {
    seq![109u8, 97u8, 106u8, 111u8, 114u8, 61u8, 34u8]
}

fn bytes_major() -> (r: [u8; 7])
    ensures
        r@ == pat_major(),
{
    let r: [u8; 7] = [109, 97, 106, 111, 114, 61, 34];
    assert(r@ =~= pat_major());
    r
}

/// The bytes of `minor="`.
pub open spec fn pat_minor() -> Seq<u8> {
    seq![109u8, 105u8, 110u8, 111u8, 114u8, 61u8, 34u8]
}

fn bytes_minor() -> (r: [u8; 7])
    ensures
        r@ == pat_minor(),
{
    let r: [u8; 7] = [109, 105, 110, 111, 114, 61, 34];
    assert(r@ =~= pat_minor());
    r
}

/// The bytes of `<fields>`.
pub open spec fn pat_fields_open() -> Seq<u8> {
    seq![60u8, 102u8, 105u8, 101u8, 108u8, 100u8, 115u8, 62u8]
}

fn bytes_fields_open() -> (r: [u8; 8])
    ensures
        r@ == pat_fields_open(),
{
    let r: [u8; 8] = [60, 102, 105, 101, 108, 100, 115, 62];
    assert(r@ =~= pat_fields_open());
    r
}

/// The bytes of `</fields>`.
pub open spec fn pat_fields_close() -> Seq<u8> {
    seq![60u8, 47u8, 102u8, 105u8, 101u8, 108u8, 100u8, 115u8, 62u8]
}

fn bytes_fields_close() -> (r: [u8; 9])
    ensures
        r@ == pat_fields_close(),
{
    let r: [u8; 9] = [60, 47, 102, 105, 101, 108, 100, 115, 62];
    assert(r@ =~= pat_fields_close());
    r
}

/// The bytes of `<field `.
pub open spec fn pat_field_open() -> Seq<u8> {
    seq![60u8, 102u8, 105u8, 101u8, 108u8, 100u8, 32u8]
}

fn bytes_field_open() -> (r: [u8; 7])
    ensures
        r@ == pat_field_open(),
{
    let r: [u8; 7] = [60, 102, 105, 101, 108, 100, 32];
    assert(r@ =~= pat_field_open());
    r
}

/// The bytes of `/>`.
pub open spec fn pat_self_close() -> Seq<u8> {
    seq![47u8, 62u8]
}

fn bytes_self_close() -> (r: [u8; 2])
    ensures
        r@ == pat_self_close(),
{
    let r: [u8; 2] = [47, 62];
    assert(r@ =~= pat_self_close());
    r
}

/// The bytes of `</field>`.
pub open spec fn pat_field_close() -> Seq<u8> {
    seq![60u8, 47u8, 102u8, 105u8, 101u8, 108u8, 100u8, 62u8]
}

fn bytes_field_close() -> (r: [u8; 8])
    ensures
        r@ == pat_field_close(),
{
    let r: [u8; 8] = [60, 47, 102, 105, 101, 108, 100, 62];
    assert(r@ =~= pat_field_close());
    r
}

/// The bytes of `number="`.
pub open spec fn pat_number() -> Seq<u8> {
    seq![110u8, 117u8, 109u8, 98u8, 101u8, 114u8, 61u8, 34u8]
}

fn bytes_number() -> (r: [u8; 8])
    ensures
        r@ == pat_number(),
{
    let r: [u8; 8] = [110, 117, 109, 98, 101, 114, 61, 34];
    assert(r@ =~= pat_number());
    r
}

/// The bytes of `name="`.
pub open spec fn pat_name() -> Seq<u8> {
    seq![110u8, 97u8, 109u8, 101u8, 61u8, 34u8]
}

fn bytes_name() -> (r: [u8; 6])
    ensures
        r@ == pat_name(),
{
    let r: [u8; 6] = [110, 97, 109, 101, 61, 34];
    assert(r@ =~= pat_name());
    r
}

/// The bytes of `type="`.
pub open spec fn pat_type() -> Seq<u8> {
    seq![116u8, 121u8, 112u8, 101u8, 61u8, 34u8]
}

fn bytes_type() -> (r: [u8; 6])
    ensures
        r@ == pat_type(),
{
    let r: [u8; 6] = [116, 121, 112, 101, 61, 34];
    assert(r@ =~= pat_type());
    r
}

/// The bytes of `<value `.
pub open spec fn pat_value_open() -> Seq<u8> {
    seq![60u8, 118u8, 97u8, 108u8, 117u8, 101u8, 32u8]
}

fn bytes_value_open() -> (r: [u8; 7])
    ensures
        r@ == pat_value_open(),
{
    let r: [u8; 7] = [60, 118, 97, 108, 117, 101, 32];
    assert(r@ =~= pat_value_open());
    r
}

/// The bytes of `enum="`.
pub open spec fn pat_enum() -> Seq<u8> {
    seq![101u8, 110u8, 117u8, 109u8, 61u8, 34u8]
}

fn bytes_enum() -> (r: [u8; 6])
    ensures
        r@ == pat_enum(),
{
    let r: [u8; 6] = [101, 110, 117, 109, 61, 34];
    assert(r@ =~= pat_enum());
    r
}

/// The bytes of `description="`.
pub open spec fn pat_description() -> Seq<u8> {
    seq![100u8, 101u8, 115u8, 99u8, 114u8, 105u8, 112u8, 116u8, 105u8, 111u8, 110u8, 61u8, 34u8]
}

fn bytes_description() -> (r: [u8; 13])
    ensures
        r@ == pat_description(),
{
    let r: [u8; 13] = [100, 101, 115, 99, 114, 105, 112, 116, 105, 111, 110, 61, 34];
    assert(r@ =~= pat_description());
    r
}

/// The bytes of `<messages>`.
pub open spec fn pat_messages_open() -> Seq<u8> {
    seq![60u8, 109u8, 101u8, 115u8, 115u8, 97u8, 103u8, 101u8, 115u8, 62u8]
}

fn bytes_messages_open() -> (r: [u8; 10])
    ensures
        r@ == pat_messages_open(),
{
    let r: [u8; 10] = [60, 109, 101, 115, 115, 97, 103, 101, 115, 62];
    assert(r@ =~= pat_messages_open());
    r
}

/// The bytes of `</messages>`.
pub open spec fn pat_messages_close() -> Seq<u8> {
    seq![60u8, 47u8, 109u8, 101u8, 115u8, 115u8, 97u8, 103u8, 101u8, 115u8, 62u8]
}

fn bytes_messages_close() -> (r: [u8; 11])
    ensures
        r@ == pat_messages_close(),
{
    let r: [u8; 11] = [60, 47, 109, 101, 115, 115, 97, 103, 101, 115, 62];
    assert(r@ =~= pat_messages_close());
    r
}

/// The bytes of `<message `.
pub open spec fn pat_message_open() -> Seq<u8> {
    seq![60u8, 109u8, 101u8, 115u8, 115u8, 97u8, 103u8, 101u8, 32u8]
}

fn bytes_message_open() -> (r: [u8; 9])
    ensures
        r@ == pat_message_open(),
{
    let r: [u8; 9] = [60, 109, 101, 115, 115, 97, 103, 101, 32];
    assert(r@ =~= pat_message_open());
    r
}

/// The bytes of `msgtype="`.
pub open spec fn pat_msgtype() -> Seq<u8> {
    seq![109u8, 115u8, 103u8, 116u8, 121u8, 112u8, 101u8, 61u8, 34u8]
}

fn bytes_msgtype() -> (r: [u8; 9])
    ensures
        r@ == pat_msgtype(),
{
    let r: [u8; 9] = [109, 115, 103, 116, 121, 112, 101, 61, 34];
    assert(r@ =~= pat_msgtype());
    r
}

/// The bytes of `msgcat="`.
pub open spec fn pat_msgcat() -> Seq<u8> {
    seq![109u8, 115u8, 103u8, 99u8, 97u8, 116u8, 61u8, 34u8]
}

fn bytes_msgcat() -> (r: [u8; 8])
    ensures
        r@ == pat_msgcat(),
{
    let r: [u8; 8] = [109, 115, 103, 99, 97, 116, 61, 34];
    assert(r@ =~= pat_msgcat());
    r
}

/// The bytes of `</message>`.
pub open spec fn pat_message_close() -> Seq<u8> {
    seq![60u8, 47u8, 109u8, 101u8, 115u8, 115u8, 97u8, 103u8, 101u8, 62u8]
}

fn bytes_message_close() -> (r: [u8; 10])
    ensures
        r@ == pat_message_close(),
{
    let r: [u8; 10] = [60, 47, 109, 101, 115, 115, 97, 103, 101, 62];
    assert(r@ =~= pat_message_close());
    r
}

/// The bytes of `required="`.
pub open spec fn pat_required() -> Seq<u8> {
    seq![114u8, 101u8, 113u8, 117u8, 105u8, 114u8, 101u8, 100u8, 61u8, 34u8]
}

fn bytes_required() -> (r: [u8; 10])
    ensures
        r@ == pat_required(),
{
    let r: [u8; 10] = [114, 101, 113, 117, 105, 114, 101, 100, 61, 34];
    assert(r@ =~= pat_required());
    r
}

/// The bytes of `admin`.
pub open spec fn pat_admin() -> Seq<u8> {
    seq![97u8, 100u8, 109u8, 105u8, 110u8]
}

fn bytes_admin() -> (r: [u8; 5])
    ensures
        r@ == pat_admin(),
{
    let r: [u8; 5] = [97, 100, 109, 105, 110];
    assert(r@ =~= pat_admin());
    r
}

/// The bytes of `Y`.
pub open spec fn pat_yes() -> Seq<u8> {
    seq![89u8]
}

fn bytes_yes() -> (r: [u8; 1])
    ensures
        r@ == pat_yes(),
{
    let r: [u8; 1] = [89];
    assert(r@ =~= pat_yes());
    r
}

// ---------------------------------------------------------------------------
// What a document compiles to
// ---------------------------------------------------------------------------

/// A field definition as found in the document: its number, and the byte ranges of its
/// name, its type and its enumerated values (each an `enum` and a `description`).
pub struct FieldLayout {
    pub tag: u32,
    pub name: Span,
    pub field_type: Span,
    pub values: Seq<(Span, Span)>,
}

/// A message definition as found in the document.
pub struct MessageLayout {
    pub name: Span,
    pub msg_type: Span,
    pub admin: bool,
    pub required: Seq<u32>,
    pub optional: Seq<u32>,
}

/// A whole dictionary as found in the document.
pub struct DictLayout {
    pub major: Span,
    pub minor: Span,
    pub fields: Seq<FieldLayout>,
    pub messages: Seq<MessageLayout>,
}

/// Why a document does not compile.
pub enum DictFault {
    NoFixTag,
    UnclosedFixTag,
    MissingMajor,
    MissingMinor,
    UnclosedFields,
    MissingFieldNumber,
    InvalidFieldNumber(Span),
    MissingFieldName,
    MissingFieldType,
    UnclosedMessages,
    MissingMessageName,
    MissingMsgType,
    MissingMsgCat,
    /// An element whose closing tag comes before the end of its opening tag, so that
    /// its body cannot be taken: no document with one is accepted by `from_xml`.
    BodyBeforeTagEnd,
}

/// Prepend the items already compiled to the outcome for the rest of the document.
pub open spec fn chain<T>(done: Seq<T>, rest: Result<Seq<T>, DictFault>) -> Result<Seq<T>, DictFault> {
    match rest {
        Ok(r) => Ok(done + r),
        Err(f) => Err(f),
    }
}

/// The version attributes of the `<fix ...>` tag.
pub open spec fn spec_version(s: Seq<u8>) -> Result<(Span, Span), DictFault> {
    match search(s, pat_fix_open(), 0, s.len() as int) {
        None => Err(DictFault::NoFixTag),
        Some(fs) => match search(s, one_byte(close_angle()), fs, s.len() as int) {
            None => Err(DictFault::UnclosedFixTag),
            Some(fe) => match attr(s, pat_major(), fs, fe + 1) {
                None => Err(DictFault::MissingMajor),
                Some(ma) => match attr(s, pat_minor(), fs, fe + 1) {
                    None => Err(DictFault::MissingMinor),
                    Some(mi) => Ok((ma, mi)),
                },
            },
        },
    }
}

/// The version string: `FIX.` followed by the major and minor numbers.
pub open spec fn version_text(s: Seq<u8>, major: Span, minor: Span) -> Seq<char> {
    "FIX."@ + text(s, major) + "."@ + text(s, minor)
}

/// The enumerated values in `[pos, hi)`: each self-closing `<value .../>` tag that has
/// both an `enum` and a `description` attribute.
pub open spec fn values_from(s: Seq<u8>, hi: int, pos: int) -> Seq<(Span, Span)>
    decreases hi - pos,
{
    if pos < 0 || pos >= hi {
        seq![]
    } else {
        match search(s, pat_value_open(), pos, hi) {
            None => seq![],
            Some(ts) => match search(s, pat_self_close(), ts, hi) {
                None => seq![],
                Some(c) => {
                    let te = c + pat_self_close().len();
                    proof {
                        lemma_search(s, pat_value_open(), pos, hi);
                        lemma_search(s, pat_self_close(), ts, hi);
                    }
                    let rest = values_from(s, hi, te);
                    match (attr(s, pat_enum(), ts, te), attr(s, pat_description(), ts, te)) {
                        (Some(a), Some(d)) => seq![(a, d)] + rest,
                        _ => rest,
                    }
                },
            },
        }
    }
}

/// One step of the scan over the `<fields>` section.
pub enum FieldScan {
    /// No further field definition.
    Stop,
    /// An element without its closing tag: resume after its opening tag.
    Skip(int),
    /// A field definition: its opening tag, its body if it has one, and where the scan resumes.
    Field(Span, Option<Span>, int),
    /// A closing tag before the end of the opening tag.
    Inverted,
}

/// The next field definition at or after `pos` in the section ending at `hi`.
pub open spec fn field_scan(s: Seq<u8>, hi: int, pos: int) -> FieldScan {
    match search(s, pat_field_open(), pos, hi) {
        None => FieldScan::Stop,
        Some(ts) => {
            let sc = search(s, pat_self_close(), ts, hi);
            match search(s, one_byte(close_angle()), ts, hi) {
                None => FieldScan::Stop,
                Some(oc) => if sc is Some && sc.unwrap() < oc {
                    let te = sc.unwrap() + pat_self_close().len();
                    FieldScan::Field(Span { start: ts, end: te }, None, te)
                } else {
                    match search(s, pat_field_close(), ts, hi) {
                        None => FieldScan::Skip(oc + 1),
                        Some(ct) => if oc + 1 > ct {
                            FieldScan::Inverted
                        } else {
                            FieldScan::Field(
                                Span { start: ts, end: oc + 1 },
                                Some(Span { start: oc + 1, end: ct }),
                                ct + pat_field_close().len(),
                            )
                        },
                    }
                },
            }
        },
    }
}

/// A field scan moves forward and stays within the window it was given.
pub proof fn lemma_field_scan(s: Seq<u8>, hi: int, pos: int)
    requires
        0 <= pos <= hi <= s.len(),
    ensures
        field_scan(s, hi, pos) matches FieldScan::Skip(n) ==> pos < n <= hi,
        field_scan(s, hi, pos) matches FieldScan::Field(tag, body, n) ==> {
            &&& pos <= tag.start < tag.end <= n <= hi
            &&& body matches Some(b) ==> tag.end == b.start <= b.end < n
        },
{
    lemma_search(s, pat_field_open(), pos, hi);
    if let Some(ts) = search(s, pat_field_open(), pos, hi) {
        lemma_search(s, pat_self_close(), ts, hi);
        lemma_search(s, one_byte(close_angle()), ts, hi);
        lemma_search(s, pat_field_close(), ts, hi);
    }
}

/// A field definition from its opening tag and body.
pub open spec fn field_of(s: Seq<u8>, tag: Span, body: Option<Span>) -> Result<FieldLayout, DictFault> {
    match attr(s, pat_number(), tag.start, tag.end) {
        None => Err(DictFault::MissingFieldNumber),
        Some(nr) => match spec_parse_u32(s.subrange(nr.start, nr.end)) {
            None => Err(DictFault::InvalidFieldNumber(nr)),
            Some(t) => match attr(s, pat_name(), tag.start, tag.end) {
                None => Err(DictFault::MissingFieldName),
                Some(nm) => match attr(s, pat_type(), tag.start, tag.end) {
                    None => Err(DictFault::MissingFieldType),
                    Some(ty) => Ok(
                        FieldLayout {
                            tag: t,
                            name: nm,
                            field_type: ty,
                            values: match body {
                                None => seq![],
                                Some(b) => values_from(s, b.end, b.start),
                            },
                        },
                    ),
                },
            },
        },
    }
}

/// The field definitions from `pos` to the end `hi` of the `<fields>` section.
pub open spec fn fields_from(s: Seq<u8>, hi: int, pos: int) -> Result<Seq<FieldLayout>, DictFault>
    decreases hi - pos,
{
    if pos < 0 || pos >= hi || hi > s.len() {
        Ok(seq![])
    } else {
        proof {
            lemma_field_scan(s, hi, pos);
        }
        match field_scan(s, hi, pos) {
            FieldScan::Stop => Ok(seq![]),
            FieldScan::Inverted => Err(DictFault::BodyBeforeTagEnd),
            FieldScan::Skip(n) => fields_from(s, hi, n),
            FieldScan::Field(tag, body, n) => match field_of(s, tag, body) {
                Err(f) => Err(f),
                Ok(fl) => chain(seq![fl], fields_from(s, hi, n)),
            },
        }
    }
}

/// The field definitions of the document: none without a `<fields>` section.
pub open spec fn spec_fields(s: Seq<u8>) -> Result<Seq<FieldLayout>, DictFault> {
    match search(s, pat_fields_open(), 0, s.len() as int) {
        None => Ok(seq![]),
        Some(a) => match search(s, pat_fields_close(), a, s.len() as int) {
            None => Err(DictFault::UnclosedFields),
            Some(b) => fields_from(s, b, a),
        },
    }
}

// ---------------------------------------------------------------------------
// The compiled dictionary
// ---------------------------------------------------------------------------

/// Field definition compiled from XML.
#[derive(Debug, Clone)]
pub struct CompiledFieldDef {
    pub tag: u32,
    pub name: String,
    pub field_type: String,
    pub values: Vec<(String, String)>,
}

/// Message category as defined in QuickFIX XML dictionaries.
#[derive(Debug, Clone, Copy, PartialEq, Eq, Structural)]
pub enum MessageCategory {
    Admin,
    Application,
}

/// Message definition compiled from XML.
#[derive(Debug, Clone)]
pub struct CompiledMessageDef {
    pub msg_type: String,
    pub name: String,
    pub category: MessageCategory,
    pub required_fields: Vec<u32>,
    pub optional_fields: Vec<u32>,
}

/// Errors that can occur during dictionary compilation.
#[derive(Debug, Clone, PartialEq, Eq)]
pub enum DictError {
    ParseError(String),
    MissingAttribute(String),
    InvalidFormat(String),
}

/// The error that `from_xml` reports for fault `f` of document `s`.
pub open spec fn error_for(e: DictError, f: DictFault, s: Seq<u8>) -> bool {
    match f {
        DictFault::NoFixTag => e matches DictError::ParseError(m) && m@ == "no <fix> tag found"@,
        DictFault::UnclosedFixTag => e matches DictError::ParseError(m) && m@ == "unclosed <fix> tag"@,
        DictFault::MissingMajor => e matches DictError::MissingAttribute(m) && m@ == "major"@,
        DictFault::MissingMinor => e matches DictError::MissingAttribute(m) && m@ == "minor"@,
        DictFault::UnclosedFields => e matches DictError::ParseError(m) && m@
            == "unclosed <fields> section"@,
        DictFault::MissingFieldNumber => e matches DictError::MissingAttribute(m) && m@
            == "field number"@,
        DictFault::InvalidFieldNumber(nr) => e matches DictError::InvalidFormat(m) && m@
            == "invalid field number: "@ + text(s, nr),
        DictFault::MissingFieldName => e matches DictError::MissingAttribute(m) && m@
            == "field name"@,
        DictFault::MissingFieldType => e matches DictError::MissingAttribute(m) && m@
            == "field type"@,
        DictFault::UnclosedMessages => e matches DictError::ParseError(m) && m@
            == "unclosed <messages> section"@,
        DictFault::MissingMessageName => e matches DictError::MissingAttribute(m) && m@
            == "message name"@,
        DictFault::MissingMsgType => e matches DictError::MissingAttribute(m) && m@
            == "message msgtype"@,
        DictFault::MissingMsgCat => e matches DictError::MissingAttribute(m) && m@
            == "message msgcat"@,
        DictFault::BodyBeforeTagEnd => false,
    }
}

/// Compiled enumerated values with the texts of `spans`.
pub open spec fn values_are(v: Seq<(String, String)>, spans: Seq<(Span, Span)>, s: Seq<u8>) -> bool {
    &&& v.len() == spans.len()
    &&& forall|i: int|
        0 <= i < v.len() ==> (#[trigger] v[i]).0@ == text(s, spans[i].0) && v[i].1@ == text(
            s,
            spans[i].1,
        )
}

/// A compiled field with the number and texts that `l` gives.
pub open spec fn field_is(f: CompiledFieldDef, l: FieldLayout, s: Seq<u8>) -> bool {
    &&& f.tag == l.tag
    &&& f.name@ == text(s, l.name)
    &&& f.field_type@ == text(s, l.field_type)
    &&& values_are(f.values@, l.values, s)
}

/// Compiled fields, one for each layout, in order.
pub open spec fn fields_are(v: Seq<CompiledFieldDef>, ls: Seq<FieldLayout>, s: Seq<u8>) -> bool {
    &&& v.len() == ls.len()
    &&& forall|i: int| 0 <= i < v.len() ==> field_is(#[trigger] v[i], ls[i], s)
}

fn parse_error(m: &str) -> (e: DictError)
    ensures
        e matches DictError::ParseError(t) && t@ == m@,
{
    DictError::ParseError(String::from_str(m))
}

fn missing_attribute(m: &str) -> (e: DictError)
    ensures
        e matches DictError::MissingAttribute(t) && t@ == m@,
{
    DictError::MissingAttribute(String::from_str(m))
}

/// The FIX version named by the `<fix major=".." minor="..">` tag.
fn parse_version(s: &[u8]) -> (r: Result<String, DictError>)
    requires
        valid_utf8(s@),
    ensures
        match spec_version(s@) {
            Ok((ma, mi)) => r matches Ok(v) && v@ == version_text(s@, ma, mi),
            Err(f) => r matches Err(e) && error_for(e, f, s@),
        },
{
    let n = s.len();
    let fix_open = bytes_fix_open();
    let fs = match find(s, fix_open.as_slice(), 0, n) {
        None => return Err(parse_error("no <fix> tag found")),
        Some(x) => x,
    };
    proof {
        lemma_search(s@, pat_fix_open(), 0, n as int);
    }
    let fe = match find_byte(s, 62, fs, n) {
        None => return Err(parse_error("unclosed <fix> tag")),
        Some(x) => x,
    };
    proof {
        lemma_search(s@, one_byte(close_angle()), fs as int, n as int);
    }
    let major = bytes_major();
    let ma = match extract_attr(s, major.as_slice(), fs, fe + 1) {
        None => return Err(missing_attribute("major")),
        Some(v) => v,
    };
    let minor = bytes_minor();
    let mi = match extract_attr(s, minor.as_slice(), fs, fe + 1) {
        None => return Err(missing_attribute("minor")),
        Some(v) => v,
    };
    let major_text = text_of(s, ma.0, ma.1);
    let minor_text = text_of(s, mi.0, mi.1);
    let mut v = String::from_str("FIX.");
    v.append(major_text.as_str());
    v.append(".");
    v.append(minor_text.as_str());
    Ok(v)
}

/// The enumerated values (`enum`, `description`) of a field body `[lo, hi)`.
fn parse_enum_values(s: &[u8], lo: usize, hi: usize) -> (r: Vec<(String, String)>)
    requires
        valid_utf8(s@),
        lo <= hi <= s@.len(),
    ensures
        values_are(r@, values_from(s@, hi as int, lo as int), s@),
{
    let mut values: Vec<(String, String)> = Vec::new();
    let ghost mut done: Seq<(Span, Span)> = seq![];
    let mut pos = lo;
    while pos < hi
        invariant
            lo <= pos <= hi <= s@.len(),
            valid_utf8(s@),
            values_from(s@, hi as int, lo as int) == done + values_from(s@, hi as int, pos as int),
            values_are(values@, done, s@),
        ensures
            values_from(s@, hi as int, lo as int) == done,
            values_are(values@, done, s@),
        decreases hi - pos,
    {
        let value_open = bytes_value_open();
        let ts = match find(s, value_open.as_slice(), pos, hi) {
            None => {
                assert(done + seq![] =~= done);
                break;
            },
            Some(x) => x,
        };
        proof {
            lemma_search(s@, pat_value_open(), pos as int, hi as int);
        }
        let self_close = bytes_self_close();
        let c = match find(s, self_close.as_slice(), ts, hi) {
            None => {
                assert(done + seq![] =~= done);
                break;
            },
            Some(x) => x,
        };
        proof {
            lemma_search(s@, pat_self_close(), ts as int, hi as int);
        }
        let te = c + 2;
        let enum_pat = bytes_enum();
        let description_pat = bytes_description();
        let a = extract_attr(s, enum_pat.as_slice(), ts, te);
        let d = extract_attr(s, description_pat.as_slice(), ts, te);
        let ghost rest = values_from(s@, hi as int, te as int);
        match (a, d) {
            (Some(a), Some(d)) => {
                let e = text_of(s, a.0, a.1);
                let t = text_of(s, d.0, d.1);
                values.push((e, t));
                let ghost item = (
                    Span { start: a.0 as int, end: a.1 as int },
                    Span { start: d.0 as int, end: d.1 as int },
                );
                proof {
                    assert(done + (seq![item] + rest) =~= done.push(item) + rest);
                    done = done.push(item);
                }
            },
            _ => {},
        }
        pos = te;
    }
    values
}

/// One step of the scan over the `<fields>` section, with byte positions.
enum FieldScanAt {
    Stop,
    Skip(usize),
    Field(usize, usize, Option<(usize, usize)>, usize),
    Inverted,
}

spec fn scan_view(r: FieldScanAt) -> FieldScan {
    match r {
        FieldScanAt::Stop => FieldScan::Stop,
        FieldScanAt::Skip(n) => FieldScan::Skip(n as int),
        FieldScanAt::Field(a, b, body, n) => FieldScan::Field(
            Span { start: a as int, end: b as int },
            opt_span(body),
            n as int,
        ),
        FieldScanAt::Inverted => FieldScan::Inverted,
    }
}

fn scan_field(s: &[u8], hi: usize, pos: usize) -> (r: FieldScanAt)
    requires
        pos <= hi <= s@.len(),
    ensures
        scan_view(r) == field_scan(s@, hi as int, pos as int),
{
    let field_open = bytes_field_open();
    let ts = match find(s, field_open.as_slice(), pos, hi) {
        None => return FieldScanAt::Stop,
        Some(x) => x,
    };
    proof {
        lemma_search(s@, pat_field_open(), pos as int, hi as int);
    }
    let self_close = bytes_self_close();
    let sc = find(s, self_close.as_slice(), ts, hi);
    let oc = match find_byte(s, 62, ts, hi) {
        None => return FieldScanAt::Stop,
        Some(x) => x,
    };
    proof {
        lemma_search(s@, pat_self_close(), ts as int, hi as int);
        lemma_search(s@, one_byte(close_angle()), ts as int, hi as int);
    }
    if let Some(c) = sc {
        if c < oc {
            return FieldScanAt::Field(ts, c + 2, None, c + 2);
        }
    }
    let field_close = bytes_field_close();
    match find(s, field_close.as_slice(), ts, hi) {
        None => FieldScanAt::Skip(oc + 1),
        Some(ct) => {
            proof {
                lemma_search(s@, pat_field_close(), ts as int, hi as int);
            }
            if oc + 1 > ct {
                FieldScanAt::Inverted
            } else {
                FieldScanAt::Field(ts, oc + 1, Some((oc + 1, ct)), ct + 8)
            }
        },
    }
}

/// A field definition from its opening tag `[ts, te)` and its body, if it has one.
fn compile_field(s: &[u8], ts: usize, te: usize, body: Option<(usize, usize)>) -> (r: Result<
    CompiledFieldDef,
    DictError,
>)
    requires
        valid_utf8(s@),
        ts <= te <= s@.len(),
        body matches Some((a, b)) ==> a <= b <= s@.len(),
    ensures
        match field_of(s@, Span { start: ts as int, end: te as int }, opt_span(body)) {
            Ok(l) => r matches Ok(f) && field_is(f, l, s@),
            Err(flt) => r matches Err(e) && error_for(e, flt, s@),
        },
{
    let number = bytes_number();
    let nr = match extract_attr(s, number.as_slice(), ts, te) {
        None => return Err(missing_attribute("field number")),
        Some(v) => v,
    };
    let digits = vstd::slice::slice_subrange(s, nr.0, nr.1);
    let tag = match parse_u32_text(digits) {
        None => {
            let shown = text_of(s, nr.0, nr.1);
            let mut m = String::from_str("invalid field number: ");
            m.append(shown.as_str());
            return Err(DictError::InvalidFormat(m));
        },
        Some(t) => t,
    };
    let name_pat = bytes_name();
    let nm = match extract_attr(s, name_pat.as_slice(), ts, te) {
        None => return Err(missing_attribute("field name")),
        Some(v) => v,
    };
    let type_pat = bytes_type();
    let ty = match extract_attr(s, type_pat.as_slice(), ts, te) {
        None => return Err(missing_attribute("field type")),
        Some(v) => v,
    };
    let values = match body {
        None => Vec::new(),
        Some((a, b)) => parse_enum_values(s, a, b),
    };
    Ok(
        CompiledFieldDef {
            tag,
            name: text_of(s, nm.0, nm.1),
            field_type: text_of(s, ty.0, ty.1),
            values,
        },
    )
}

/// The field definitions of the `<fields>` section.
fn parse_fields(s: &[u8]) -> (r: Result<Vec<CompiledFieldDef>, DictError>)
    requires
        valid_utf8(s@),
        spec_fields(s@) != Err::<Seq<FieldLayout>, DictFault>(DictFault::BodyBeforeTagEnd),
    ensures
        match spec_fields(s@) {
            Ok(ls) => r matches Ok(v) && fields_are(v@, ls, s@),
            Err(f) => r matches Err(e) && error_for(e, f, s@),
        },
{
    let n = s.len();
    let fields_open = bytes_fields_open();
    let a = match find(s, fields_open.as_slice(), 0, n) {
        None => return Ok(Vec::new()),
        Some(x) => x,
    };
    proof {
        lemma_search(s@, pat_fields_open(), 0, n as int);
    }
    let fields_close = bytes_fields_close();
    let b = match find(s, fields_close.as_slice(), a, n) {
        None => return Err(parse_error("unclosed <fields> section")),
        Some(x) => x,
    };
    proof {
        lemma_search(s@, pat_fields_close(), a as int, n as int);
    }
    let mut fields: Vec<CompiledFieldDef> = Vec::new();
    let ghost mut done: Seq<FieldLayout> = seq![];
    let mut pos = a;
    while pos < b
        invariant
            a <= pos <= b <= s@.len(),
            valid_utf8(s@),
            spec_fields(s@) == fields_from(s@, b as int, a as int),
            fields_from(s@, b as int, a as int) == chain(done, fields_from(s@, b as int, pos as int)),
            fields_from(s@, b as int, a as int) != Err::<Seq<FieldLayout>, DictFault>(
                DictFault::BodyBeforeTagEnd,
            ),
            fields_are(fields@, done, s@),
        ensures
            fields_from(s@, b as int, a as int) == Ok::<Seq<FieldLayout>, DictFault>(done),
            fields_are(fields@, done, s@),
        decreases b - pos,
    {
        proof {
            lemma_field_scan(s@, b as int, pos as int);
        }
        match scan_field(s, b, pos) {
            FieldScanAt::Stop => {
                assert(done + seq![] =~= done);
                break;
            },
            FieldScanAt::Inverted => {
                assert(false);
                break;
            },
            FieldScanAt::Skip(next) => {
                pos = next;
            },
            FieldScanAt::Field(ts, te, body, next) => {
                let ghost rest = fields_from(s@, b as int, next as int);
                match compile_field(s, ts, te, body) {
                    Err(e) => {
                        let ghost flt = field_of(
                            s@,
                            Span { start: ts as int, end: te as int },
                            opt_span(body),
                        )->Err_0;
                        assert(fields_from(s@, b as int, pos as int) == Err::<Seq<FieldLayout>, DictFault>(flt));
                        assert(fields_from(s@, b as int, a as int) == Err::<Seq<FieldLayout>, DictFault>(flt));
                        return Err(e);
                    },
                    Ok(f) => {
                        let ghost l = field_of(
                            s@,
                            Span { start: ts as int, end: te as int },
                            opt_span(body),
                        )->Ok_0;
                        fields.push(f);
                        proof {
                            match rest {
                                Ok(r) => {
                                    assert(done + (seq![l] + r) =~= done.push(l) + r);
                                },
                                Err(_) => {},
                            }
                            done = done.push(l);
                        }
                        pos = next;
                    },
                }
            },
        }
    }
    Ok(fields)
}

// ---------------------------------------------------------------------------
// Messages
// ---------------------------------------------------------------------------

/// The (name, number) pairs of the field definitions, in order.
pub open spec fn name_table(s: Seq<u8>, ls: Seq<FieldLayout>) -> Seq<(Seq<char>, u32)> {
    Seq::new(ls.len(), |i: int| (text(s, ls[i].name), ls[i].tag))
}

/// The (name, number) pairs of compiled fields, in order.
pub open spec fn names_of(v: Seq<CompiledFieldDef>) -> Seq<(Seq<char>, u32)> {
    Seq::new(v.len(), |i: int| (v[i].name@, v[i].tag))
}

/// The number of the last entry named `name`: a later definition of a name wins.
pub open spec fn last_named(table: Seq<(Seq<char>, u32)>, name: Seq<char>) -> Option<u32>
    decreases table.len(),
{
    if table.len() == 0 {
        None
    } else if table.last().0 == name {
        Some(table.last().1)
    } else {
        last_named(table.drop_last(), name)
    }
}

/// The field references of a message body from `pos` to `hi`: each self-closing
/// `<field .../>` whose `name` is a defined field contributes that field's number, to the
/// required list when its `required` attribute is `Y` and to the optional list otherwise.
pub open spec fn msg_fields_from(
    s: Seq<u8>,
    names: Seq<(Seq<char>, u32)>,
    hi: int,
    pos: int,
) -> (Seq<u32>, Seq<u32>)
    decreases hi - pos,
{
    if pos < 0 || pos >= hi {
        (seq![], seq![])
    } else {
        match search(s, pat_field_open(), pos, hi) {
            None => (seq![], seq![]),
            Some(fs) => match search(s, pat_self_close(), fs, hi) {
                None => (seq![], seq![]),
                Some(c) => {
                    let fe = c + pat_self_close().len();
                    proof {
                        lemma_search(s, pat_field_open(), pos, hi);
                        lemma_search(s, pat_self_close(), fs, hi);
                    }
                    let rest = msg_fields_from(s, names, hi, fe);
                    match attr(s, pat_name(), fs, fe) {
                        None => rest,
                        Some(nm) => match last_named(names, text(s, nm)) {
                            None => rest,
                            Some(tag) => if attr(s, pat_required(), fs, fe) matches Some(rq)
                                && s.subrange(rq.start, rq.end) == pat_yes() {
                                (seq![tag] + rest.0, rest.1)
                            } else {
                                (rest.0, seq![tag] + rest.1)
                            },
                        },
                    }
                },
            },
        }
    }
}

/// One step of the scan over the `<messages>` section.
pub enum MessageScan {
    Stop,
    Fault(DictFault),
    Message(MessageLayout, int),
}

/// The next message definition at or after `pos` in the section ending at `hi`, and where
/// the scan resumes after it.
pub open spec fn message_scan(
    s: Seq<u8>,
    names: Seq<(Seq<char>, u32)>,
    hi: int,
    pos: int,
) -> MessageScan {
    match search(s, pat_message_open(), pos, hi) {
        None => MessageScan::Stop,
        Some(ms) => match search(s, one_byte(close_angle()), ms, hi) {
            None => MessageScan::Stop,
            Some(he) => match attr(s, pat_name(), ms, he + 1) {
                None => MessageScan::Fault(DictFault::MissingMessageName),
                Some(nm) => match attr(s, pat_msgtype(), ms, he + 1) {
                    None => MessageScan::Fault(DictFault::MissingMsgType),
                    Some(mt) => match attr(s, pat_msgcat(), ms, he + 1) {
                        None => MessageScan::Fault(DictFault::MissingMsgCat),
                        Some(mc) => match search(s, pat_message_close(), ms, hi) {
                            None => MessageScan::Stop,
                            Some(cl) => if he + 1 > cl {
                                MessageScan::Fault(DictFault::BodyBeforeTagEnd)
                            } else {
                                let refs = msg_fields_from(s, names, cl, he + 1);
                                MessageScan::Message(
                                    MessageLayout {
                                        name: nm,
                                        msg_type: mt,
                                        admin: s.subrange(mc.start, mc.end) == pat_admin(),
                                        required: refs.0,
                                        optional: refs.1,
                                    },
                                    cl + pat_message_close().len(),
                                )
                            },
                        },
                    },
                },
            },
        },
    }
}

/// A message scan moves forward and stays within the window it was given.
pub proof fn lemma_message_scan(s: Seq<u8>, names: Seq<(Seq<char>, u32)>, hi: int, pos: int)
    requires
        0 <= pos <= hi <= s.len(),
    ensures
        message_scan(s, names, hi, pos) matches MessageScan::Message(_, n) ==> pos < n <= hi,
{
    lemma_search(s, pat_message_open(), pos, hi);
    if let Some(ms) = search(s, pat_message_open(), pos, hi) {
        lemma_search(s, pat_message_close(), ms, hi);
    }
}

/// The message definitions from `pos` to the end `hi` of the `<messages>` section.
pub open spec fn messages_from(
    s: Seq<u8>,
    names: Seq<(Seq<char>, u32)>,
    hi: int,
    pos: int,
) -> Result<Seq<MessageLayout>, DictFault>
    decreases hi - pos,
{
    if pos < 0 || pos >= hi || hi > s.len() {
        Ok(seq![])
    } else {
        proof {
            lemma_message_scan(s, names, hi, pos);
        }
        match message_scan(s, names, hi, pos) {
            MessageScan::Stop => Ok(seq![]),
            MessageScan::Fault(f) => Err(f),
            MessageScan::Message(m, n) => chain(seq![m], messages_from(s, names, hi, n)),
        }
    }
}

/// The message definitions of the document: none without a `<messages>` section.
pub open spec fn spec_messages(s: Seq<u8>, names: Seq<(Seq<char>, u32)>) -> Result<
    Seq<MessageLayout>,
    DictFault,
> {
    match search(s, pat_messages_open(), 0, s.len() as int) {
        None => Ok(seq![]),
        Some(a) => match search(s, pat_messages_close(), a, s.len() as int) {
            None => Err(DictFault::UnclosedMessages),
            Some(b) => messages_from(s, names, b, a),
        },
    }
}

/// What the document compiles to: the version, then the fields, then the messages,
/// whose field references are resolved by the field names.
pub open spec fn spec_compile(s: Seq<u8>) -> Result<DictLayout, DictFault> {
    match spec_version(s) {
        Err(f) => Err(f),
        Ok((ma, mi)) => match spec_fields(s) {
            Err(f) => Err(f),
            Ok(fs) => match spec_messages(s, name_table(s, fs)) {
                Err(f) => Err(f),
                Ok(ms) => Ok(DictLayout { major: ma, minor: mi, fields: fs, messages: ms }),
            },
        },
    }
}

/// A compiled message with the texts, category and field lists that `l` gives.
pub open spec fn message_is(m: CompiledMessageDef, l: MessageLayout, s: Seq<u8>) -> bool {
    &&& m.msg_type@ == text(s, l.msg_type)
    &&& m.name@ == text(s, l.name)
    &&& m.category == (if l.admin {
        MessageCategory::Admin
    } else {
        MessageCategory::Application
    })
    &&& m.required_fields@ == l.required
    &&& m.optional_fields@ == l.optional
}

/// Compiled messages, one for each layout, in order.
pub open spec fn messages_are(v: Seq<CompiledMessageDef>, ls: Seq<MessageLayout>, s: Seq<u8>) -> bool {
    &&& v.len() == ls.len()
    &&& forall|i: int| 0 <= i < v.len() ==> message_is(#[trigger] v[i], ls[i], s)
}

proof fn lemma_names_of(v: Seq<CompiledFieldDef>, ls: Seq<FieldLayout>, s: Seq<u8>)
    requires
        fields_are(v, ls, s),
    ensures
        names_of(v) == name_table(s, ls),
{
    assert(names_of(v) =~= name_table(s, ls)) by {
        assert forall|i: int| 0 <= i < v.len() implies names_of(v)[i] == name_table(s, ls)[i] by {
            assert(field_is(v[i], ls[i], s));
        }
    }
}

/// The number of the last field named `name`.
fn last_named_tag(fields: &Vec<CompiledFieldDef>, name: &str) -> (r: Option<u32>)
    ensures
        r == last_named(names_of(fields@), name@),
{
    let ghost table = names_of(fields@);
    let mut found: Option<u32> = None;
    let mut i: usize = 0;
    assert(table.take(0).len() == 0);
    while i < fields.len()
        invariant
            table == names_of(fields@),
            i <= fields@.len(),
            found == last_named(table.take(i as int), name@),
        decreases fields@.len() - i,
    {
        assert(table.take(i + 1).drop_last() =~= table.take(i as int));
        assert(table.take(i + 1).last() == table[i as int]);
        if crate::text::str_equal(fields[i].name.as_str(), name) {
            found = Some(fields[i].tag);
        }
        i = i + 1;
    }
    assert(table.take(i as int) =~= table);
    found
}

/// The field references of a message body `[lo, hi)`: (required, optional).
fn parse_msg_fields(s: &[u8], fields: &Vec<CompiledFieldDef>, lo: usize, hi: usize) -> (r: (
    Vec<u32>,
    Vec<u32>,
))
    requires
        valid_utf8(s@),
        lo <= hi <= s@.len(),
    ensures
        (r.0@, r.1@) == msg_fields_from(s@, names_of(fields@), hi as int, lo as int),
{
    let ghost names = names_of(fields@);
    let mut required: Vec<u32> = Vec::new();
    let mut optional: Vec<u32> = Vec::new();
    let mut pos = lo;
    while pos < hi
        invariant
            lo <= pos <= hi <= s@.len(),
            valid_utf8(s@),
            names == names_of(fields@),
            msg_fields_from(s@, names, hi as int, lo as int) == (
                required@ + msg_fields_from(s@, names, hi as int, pos as int).0,
                optional@ + msg_fields_from(s@, names, hi as int, pos as int).1,
            ),
        ensures
            msg_fields_from(s@, names, hi as int, lo as int) == (required@, optional@),
        decreases hi - pos,
    {
        let field_open = bytes_field_open();
        let fs = match find(s, field_open.as_slice(), pos, hi) {
            None => {
                assert(required@ + seq![] =~= required@);
                assert(optional@ + seq![] =~= optional@);
                break;
            },
            Some(x) => x,
        };
        proof {
            lemma_search(s@, pat_field_open(), pos as int, hi as int);
        }
        let self_close = bytes_self_close();
        let c = match find(s, self_close.as_slice(), fs, hi) {
            None => {
                assert(required@ + seq![] =~= required@);
                assert(optional@ + seq![] =~= optional@);
                break;
            },
            Some(x) => x,
        };
        proof {
            lemma_search(s@, pat_self_close(), fs as int, hi as int);
        }
        let fe = c + 2;
        let ghost rest = msg_fields_from(s@, names, hi as int, fe as int);
        let name_pat = bytes_name();
        if let Some(nm) = extract_attr(s, name_pat.as_slice(), fs, fe) {
            let field_name = text_of(s, nm.0, nm.1);
            if let Some(tag) = last_named_tag(fields, field_name.as_str()) {
                let required_pat = bytes_required();
                let yes = bytes_yes();
                let is_required = match extract_attr(s, required_pat.as_slice(), fs, fe) {
                    Some(rq) => bytes_equal(s, rq.0, rq.1, yes.as_slice()),
                    None => false,
                };
                if is_required {
                    proof {
                        assert(required@ + (seq![tag] + rest.0) =~= required@.push(tag) + rest.0);
                    }
                    required.push(tag);
                } else {
                    proof {
                        assert(optional@ + (seq![tag] + rest.1) =~= optional@.push(tag) + rest.1);
                    }
                    optional.push(tag);
                }
            }
        }
        pos = fe;
    }
    (required, optional)
}

/// One step of the scan over the `<messages>` section, with the message compiled.
enum MessageStep {
    Stop,
    Failed(DictError),
    Found(CompiledMessageDef, usize),
}

/// The next message definition at or after `pos` in the section ending at `hi`.
fn next_message(s: &[u8], fields: &Vec<CompiledFieldDef>, hi: usize, pos: usize) -> (r: MessageStep)
    requires
        valid_utf8(s@),
        pos <= hi <= s@.len(),
        !(message_scan(s@, names_of(fields@), hi as int, pos as int) matches MessageScan::Fault(
            DictFault::BodyBeforeTagEnd,
        )),
    ensures
        match message_scan(s@, names_of(fields@), hi as int, pos as int) {
            MessageScan::Stop => r is Stop,
            MessageScan::Fault(f) => r matches MessageStep::Failed(e) && error_for(e, f, s@),
            MessageScan::Message(l, n) => r matches MessageStep::Found(m, k) && message_is(m, l, s@)
                && k == n,
        },
{
    let message_open = bytes_message_open();
    let ms = match find(s, message_open.as_slice(), pos, hi) {
        None => return MessageStep::Stop,
        Some(x) => x,
    };
    proof {
        lemma_search(s@, pat_message_open(), pos as int, hi as int);
    }
    let he = match find_byte(s, 62, ms, hi) {
        None => return MessageStep::Stop,
        Some(x) => x,
    };
    proof {
        lemma_search(s@, one_byte(close_angle()), ms as int, hi as int);
    }
    let name_pat = bytes_name();
    let nm = match extract_attr(s, name_pat.as_slice(), ms, he + 1) {
        None => return MessageStep::Failed(missing_attribute("message name")),
        Some(v) => v,
    };
    let msgtype_pat = bytes_msgtype();
    let mt = match extract_attr(s, msgtype_pat.as_slice(), ms, he + 1) {
        None => return MessageStep::Failed(missing_attribute("message msgtype")),
        Some(v) => v,
    };
    let msgcat_pat = bytes_msgcat();
    let mc = match extract_attr(s, msgcat_pat.as_slice(), ms, he + 1) {
        None => return MessageStep::Failed(missing_attribute("message msgcat")),
        Some(v) => v,
    };
    let admin = bytes_admin();
    let category = if bytes_equal(s, mc.0, mc.1, admin.as_slice()) {
        MessageCategory::Admin
    } else {
        MessageCategory::Application
    };
    let message_close = bytes_message_close();
    let cl = match find(s, message_close.as_slice(), ms, hi) {
        None => return MessageStep::Stop,
        Some(x) => x,
    };
    proof {
        lemma_search(s@, pat_message_close(), ms as int, hi as int);
    }
    let (required_fields, optional_fields) = parse_msg_fields(s, fields, he + 1, cl);
    let m = CompiledMessageDef {
        msg_type: text_of(s, mt.0, mt.1),
        name: text_of(s, nm.0, nm.1),
        category,
        required_fields,
        optional_fields,
    };
    MessageStep::Found(m, cl + 10)
}

/// The message definitions of the `<messages>` section.
fn parse_messages(s: &[u8], fields: &Vec<CompiledFieldDef>) -> (r: Result<
    Vec<CompiledMessageDef>,
    DictError,
>)
    requires
        valid_utf8(s@),
        spec_messages(s@, names_of(fields@)) != Err::<Seq<MessageLayout>, DictFault>(
            DictFault::BodyBeforeTagEnd,
        ),
    ensures
        match spec_messages(s@, names_of(fields@)) {
            Ok(ls) => r matches Ok(v) && messages_are(v@, ls, s@),
            Err(f) => r matches Err(e) && error_for(e, f, s@),
        },
{
    let ghost names = names_of(fields@);
    let n = s.len();
    let messages_open = bytes_messages_open();
    let a = match find(s, messages_open.as_slice(), 0, n) {
        None => return Ok(Vec::new()),
        Some(x) => x,
    };
    proof {
        lemma_search(s@, pat_messages_open(), 0, n as int);
    }
    let messages_close = bytes_messages_close();
    let b = match find(s, messages_close.as_slice(), a, n) {
        None => return Err(parse_error("unclosed <messages> section")),
        Some(x) => x,
    };
    proof {
        lemma_search(s@, pat_messages_close(), a as int, n as int);
    }
    let mut messages: Vec<CompiledMessageDef> = Vec::new();
    let ghost mut done: Seq<MessageLayout> = seq![];
    let mut pos = a;
    while pos < b
        invariant
            a <= pos <= b <= s@.len(),
            valid_utf8(s@),
            names == names_of(fields@),
            spec_messages(s@, names) == messages_from(s@, names, b as int, a as int),
            messages_from(s@, names, b as int, a as int) == chain(
                done,
                messages_from(s@, names, b as int, pos as int),
            ),
            messages_from(s@, names, b as int, a as int) != Err::<Seq<MessageLayout>, DictFault>(
                DictFault::BodyBeforeTagEnd,
            ),
            messages_are(messages@, done, s@),
        ensures
            messages_from(s@, names, b as int, a as int) == Ok::<Seq<MessageLayout>, DictFault>(
                done,
            ),
            messages_are(messages@, done, s@),
        decreases b - pos,
    {
        proof {
            lemma_message_scan(s@, names, b as int, pos as int);
        }
        match next_message(s, fields, b, pos) {
            MessageStep::Stop => {
                assert(done + seq![] =~= done);
                break;
            },
            MessageStep::Failed(e) => {
                return Err(e);
            },
            MessageStep::Found(m, next) => {
                let ghost l = message_scan(s@, names, b as int, pos as int)->Message_0;
                let ghost rest = messages_from(s@, names, b as int, next as int);
                messages.push(m);
                proof {
                    match rest {
                        Ok(r) => {
                            assert(done + (seq![l] + r) =~= done.push(l) + r);
                        },
                        Err(_) => {},
                    }
                    done = done.push(l);
                }
                pos = next;
            },
        }
    }
    Ok(messages)
}

// ---------------------------------------------------------------------------
// The dictionary and its lookups
// ---------------------------------------------------------------------------

/// The numbers of the compiled fields, in order.
pub open spec fn field_tags(v: Seq<CompiledFieldDef>) -> Seq<u32> {
    Seq::new(v.len(), |i: int| v[i].tag)
}

/// The index of the last entry of `tags` equal to `t`.
pub open spec fn last_with_tag(tags: Seq<u32>, t: int) -> Option<int>
    decreases tags.len(),
{
    if tags.len() == 0 {
        None
    } else if tags.last() == t {
        Some(tags.len() - 1)
    } else {
        last_with_tag(tags.drop_last(), t)
    }
}

/// `last_with_tag` finds an index holding the tag, and none when no index does.
proof fn lemma_last_with_tag(tags: Seq<u32>, t: int)
    ensures
        last_with_tag(tags, t) matches Some(i) ==> 0 <= i < tags.len() && tags[i] == t,
        (forall|j: int| 0 <= j < tags.len() ==> tags[j] != t) ==> last_with_tag(tags, t) is None,
    decreases tags.len(),
{
    if tags.len() > 0 {
        lemma_last_with_tag(tags.drop_last(), t);
    }
}

/// A direct index from tag numbers to field positions: every field number is within it,
/// and the entry for a number is the position of the last field with that number.
pub open spec fn indexes_tags(index: Seq<Option<usize>>, tags: Seq<u32>) -> bool {
    &&& forall|i: int| 0 <= i < tags.len() ==> tags[i] < index.len()
    &&& forall|t: int| 0 <= t < index.len() ==> opt_index(#[trigger] index[t]) == last_with_tag(tags, t)
}

/// The direct index of the fields by tag number.
fn build_tag_index(fields: &Vec<CompiledFieldDef>) -> (index: Vec<Option<usize>>)
    ensures
        indexes_tags(index@, field_tags(fields@)),
{
    let ghost tags = field_tags(fields@);
    let mut max_tag: u32 = 0;
    let mut i: usize = 0;
    while i < fields.len()
        invariant
            tags == field_tags(fields@),
            i <= fields@.len(),
            forall|j: int| 0 <= j < i ==> tags[j] <= max_tag,
        decreases fields@.len() - i,
    {
        if fields[i].tag > max_tag {
            max_tag = fields[i].tag;
        }
        i = i + 1;
    }
    let mut index: Vec<Option<usize>> = Vec::new();
    while index.len() <= max_tag as usize
        invariant
            index@.len() <= max_tag + 1,
            forall|t: int| 0 <= t < index@.len() ==> index@[t] is None,
        decreases max_tag + 1 - index@.len(),
    {
        index.push(None);
    }
    assert(tags.take(0).len() == 0);
    let mut k: usize = 0;
    while k < fields.len()
        invariant
            tags == field_tags(fields@),
            k <= fields@.len(),
            index@.len() == max_tag + 1,
            forall|j: int| 0 <= j < tags.len() ==> tags[j] <= max_tag,
            forall|t: int|
                0 <= t < index@.len() ==> opt_index(#[trigger] index@[t]) == last_with_tag(
                    tags.take(k as int),
                    t,
                ),
        decreases fields@.len() - k,
    {
        let tag = fields[k].tag;
        assert(tags[k as int] == tag);
        index.set(tag as usize, Some(k));
        proof {
            assert forall|t: int| 0 <= t < index@.len() implies opt_index(#[trigger] index@[t])
                == last_with_tag(tags.take(k + 1), t) by {
                assert(tags.take(k + 1).drop_last() =~= tags.take(k as int));
                assert(tags.take(k + 1).last() == tag);
            }
        }
        k = k + 1;
    }
    assert(tags.take(k as int) =~= tags);
    index
}

/// Compiled FIX dictionary with direct field lookup by tag number.
#[derive(Debug, Clone)]
pub struct CompiledDictionary {
    pub fix_version: String,
    pub fields: Vec<CompiledFieldDef>,
    pub messages: Vec<CompiledMessageDef>,
    tag_index: Vec<Option<usize>>,
}

/// A compiled dictionary with the version, fields and messages that `l` gives.
pub open spec fn dict_is(d: CompiledDictionary, l: DictLayout, s: Seq<u8>) -> bool {
    &&& d.version_view() == version_text(s, l.major, l.minor)
    &&& fields_are(d.fields_view(), l.fields, s)
    &&& messages_are(d.messages_view(), l.messages, s)
}

/// The position of the first message whose type is `t`, searching from `k`.
pub open spec fn first_message_from(ms: Seq<CompiledMessageDef>, t: Seq<char>, k: int) -> Option<int>
    decreases ms.len() - k,
{
    if k < 0 || k >= ms.len() {
        None
    } else if ms[k].msg_type@ == t {
        Some(k)
    } else {
        first_message_from(ms, t, k + 1)
    }
}

/// `first_message_from` finds a definition of the message type at or after `k`.
proof fn lemma_first_message(ms: Seq<CompiledMessageDef>, t: Seq<char>, k: int)
    ensures
        first_message_from(ms, t, k) matches Some(i) ==> k <= i < ms.len() && ms[i].msg_type@ == t,
    decreases ms.len() - k,
{
    if 0 <= k < ms.len() && ms[k].msg_type@ != t {
        lemma_first_message(ms, t, k + 1);
    }
}

/// The report of a required field that is missing.
pub open spec fn missing_text(name: Seq<char>, tag: u32) -> Seq<char> {
    "missing required field: "@ + name + " (tag "@ + crate::acceptor::dec_text(tag as u64) + ")"@
}

/// The report of a missing required field: the words `missing required field: `, the
/// name, ` (tag `, the number in decimal and `)`.
fn missing_field_report(name: &str, tag: u32) -> (r: String)
    ensures
        r@ == missing_text(name@, tag),
{
    let mut r = String::from_str("missing required field: ");
    r.append(name);
    r.append(" (tag ");
    let digits = decimal(tag as u64);
    r.append(digits.as_str());
    r.append(")");
    r
}

/// Whether `tag` is among `tags`.
fn contains_tag(tags: &[u32], tag: u32) -> (r: bool)
    ensures
        r == tags@.contains(tag),
{
    let mut i: usize = 0;
    while i < tags.len()
        invariant
            i <= tags@.len(),
            forall|j: int| 0 <= j < i ==> tags@[j] != tag,
        decreases tags@.len() - i,
    {
        if tags[i] == tag {
            return true;
        }
        i = i + 1;
    }
    false
}

impl CompiledDictionary {
    /// The version string.
    pub closed spec fn version_view(&self) -> Seq<char> {
        self.fix_version@
    }

    /// The field definitions, in document order.
    pub closed spec fn fields_view(&self) -> Seq<CompiledFieldDef> {
        self.fields@
    }

    /// The message definitions, in document order.
    pub closed spec fn messages_view(&self) -> Seq<CompiledMessageDef> {
        self.messages@
    }

    /// The direct index agrees with the fields.
    pub closed spec fn wf(&self) -> bool {
        indexes_tags(self.tag_index@, field_tags(self.fields@))
    }

    /// The position of the definition that `lookup_field` gives for `tag`: the last field
    /// with that number.
    pub open spec fn field_index(&self, tag: u32) -> Option<int> {
        last_with_tag(field_tags(self.fields_view()), tag as int)
    }

    /// The name reported for `tag`: the field's name, or `Unknown`.
    pub open spec fn name_for(&self, tag: u32) -> Seq<char> {
        match self.field_index(tag) {
            Some(i) => self.fields_view()[i].name@,
            None => "Unknown"@,
        }
    }

    /// The reports for the tags of `req` that are not in `present`, in order.
    pub open spec fn missing_reports(&self, req: Seq<u32>, present: Seq<u32>) -> Seq<Seq<char>>
        decreases req.len(),
    {
        if req.len() == 0 {
            seq![]
        } else {
            let rest = self.missing_reports(req.drop_last(), present);
            if present.contains(req.last()) {
                rest
            } else {
                rest.push(missing_text(self.name_for(req.last()), req.last()))
            }
        }
    }

    /// What `validate_message` reports for a message of type `t` with tags `present`.
    pub open spec fn validation(&self, t: Seq<char>, present: Seq<u32>) -> Seq<Seq<char>> {
        match first_message_from(self.messages_view(), t, 0) {
            None => seq!["unknown message type: "@ + t],
            Some(i) => self.missing_reports(self.messages_view()[i].required_fields@, present),
        }
    }

    /// Parse a QuickFIX-style XML dictionary string into a compiled dictionary.
    pub fn from_xml(xml: &str) -> (r: Result<Self, DictError>)
        requires
            spec_compile(xml.spec_bytes()) != Err::<DictLayout, DictFault>(
                DictFault::BodyBeforeTagEnd,
            ),
        ensures
            match spec_compile(xml.spec_bytes()) {
                Ok(l) => r matches Ok(d) && d.wf() && dict_is(d, l, xml.spec_bytes()),
                Err(f) => r matches Err(e) && error_for(e, f, xml.spec_bytes()),
            },
    {
        let s = xml.as_bytes();
        proof {
            encode_utf8_valid_utf8(xml@);
        }
        let fix_version = match parse_version(s) {
            Ok(v) => v,
            Err(e) => return Err(e),
        };
        let fields = match parse_fields(s) {
            Ok(v) => v,
            Err(e) => return Err(e),
        };
        proof {
            let ls = spec_fields(s@)->Ok_0;
            lemma_names_of(fields@, ls, s@);
        }
        let messages = match parse_messages(s, &fields) {
            Ok(v) => v,
            Err(e) => return Err(e),
        };
        let tag_index = build_tag_index(&fields);
        Ok(CompiledDictionary { fix_version, fields, messages, tag_index })
    }

    /// Direct field lookup by tag number.
    pub fn lookup_field(&self, tag: u32) -> (r: Option<&CompiledFieldDef>)
        requires
            self.wf(),
        ensures
            match self.field_index(tag) {
                None => r is None,
                Some(i) => r matches Some(f) && *f == self.fields_view()[i],
            },
    {
        proof {
            lemma_last_with_tag(field_tags(self.fields_view()), tag as int);
        }
        let idx = tag as usize;
        if idx < self.tag_index.len() {
            match self.tag_index[idx] {
                Some(i) => Some(&self.fields[i]),
                None => None,
            }
        } else {
            None
        }
    }

    /// Look up a message definition by its MsgType string.
    pub fn lookup_message(&self, msg_type: &str) -> (r: Option<&CompiledMessageDef>)
        ensures
            match first_message_from(self.messages_view(), msg_type@, 0) {
                None => r is None,
                Some(i) => r matches Some(m) && *m == self.messages_view()[i],
            },
    {
        let mut i: usize = 0;
        while i < self.messages.len()
            invariant
                i <= self.messages_view().len(),
                first_message_from(self.messages_view(), msg_type@, 0) == first_message_from(
                    self.messages_view(),
                    msg_type@,
                    i as int,
                ),
            decreases self.messages_view().len() - i,
        {
            if crate::text::str_equal(self.messages[i].msg_type.as_str(), msg_type) {
                return Some(&self.messages[i]);
            }
            i = i + 1;
        }
        None
    }

    /// Validate that all required fields for a message type are present: one report for
    /// each missing required field, or one for an unknown message type.
    pub fn validate_message(&self, msg_type: &str, present_tags: &[u32]) -> (r: Vec<String>)
        requires
            self.wf(),
        ensures
            r@.map_values(|x: String| x@) == self.validation(msg_type@, present_tags@),
    {
        proof {
            lemma_first_message(self.messages_view(), msg_type@, 0);
        }
        let msg = match self.lookup_message(msg_type) {
            Some(m) => m,
            None => {
                let mut text = String::from_str("unknown message type: ");
                text.append(msg_type);
                let mut reports: Vec<String> = Vec::new();
                reports.push(text);
                assert(reports@.map_values(|x: String| x@) =~= self.validation(
                    msg_type@,
                    present_tags@,
                ));
                return reports;
            },
        };
        let ghost req = msg.required_fields@;
        let mut reports: Vec<String> = Vec::new();
        let mut i: usize = 0;
        assert(req.take(0) =~= seq![]);
        while i < msg.required_fields.len()
            invariant
                self.wf(),
                req == msg.required_fields@,
                i <= req.len(),
                reports@.map_values(|x: String| x@) == self.missing_reports(
                    req.take(i as int),
                    present_tags@,
                ),
            decreases req.len() - i,
        {
            let tag = msg.required_fields[i];
            assert(req.take(i + 1).drop_last() =~= req.take(i as int));
            assert(req.take(i + 1).last() == tag);
            if !contains_tag(present_tags, tag) {
                let report = match self.lookup_field(tag) {
                    Some(f) => missing_field_report(f.name.as_str(), tag),
                    None => missing_field_report("Unknown", tag),
                };
                let ghost before = reports@;
                reports.push(report);
                assert(reports@.map_values(|x: String| x@) =~= before.map_values(|x: String| x@).push(
                    report@,
                ));
            }
            i = i + 1;
        }
        assert(req.take(i as int) =~= req);
        reports
    }

    /// Number of field definitions in this dictionary.
    pub fn field_count(&self) -> (n: usize)
        ensures
            n == self.fields_view().len(),
    {
        self.fields.len()
    }

    /// Number of message definitions in this dictionary.
    pub fn message_count(&self) -> (n: usize)
        ensures
            n == self.messages_view().len(),
    {
        self.messages.len()
    }
}

impl DictError {
    /// The text shown for this error.
    pub open spec fn text_of_error(&self) -> Seq<char> {
        match self {
            DictError::ParseError(s) => "parse error: "@ + s@,
            DictError::MissingAttribute(s) => "missing attribute: "@ + s@,
            DictError::InvalidFormat(s) => "invalid format: "@ + s@,
        }
    }

    /// The text shown for this error: its kind, then its detail.
    pub fn describe(&self) -> (r: String)
        ensures
            r@ == self.text_of_error(),
    {
        match self {
            DictError::ParseError(s) => {
                let mut r = String::from_str("parse error: ");
                r.append(s.as_str());
                r
            },
            DictError::MissingAttribute(s) => {
                let mut r = String::from_str("missing attribute: ");
                r.append(s.as_str());
                r
            },
            DictError::InvalidFormat(s) => {
                let mut r = String::from_str("invalid format: ");
                r.append(s.as_str());
                r
            },
        }
    }
}

/// A small FIX 4.4 dictionary: fifteen fields and three messages.
pub const TEST_DICTIONARY_XML: &'static str = r#"<fix major="4" minor="4">
  <fields>
    <field number="8" name="BeginString" type="STRING"/>
    <field number="9" name="BodyLength" type="LENGTH"/>
    <field number="10" name="CheckSum" type="STRING"/>
    <field number="11" name="ClOrdID" type="STRING"/>
    <field number="35" name="MsgType" type="STRING"/>
    <field number="38" name="OrderQty" type="QTY"/>
    <field number="40" name="OrdType" type="CHAR"/>
    <field number="44" name="Price" type="PRICE"/>
    <field number="49" name="SenderCompID" type="STRING"/>
    <field number="54" name="Side" type="CHAR">
      <value enum="1" description="BUY"/>
      <value enum="2" description="SELL"/>
    </field>
    <field number="55" name="Symbol" type="STRING"/>
    <field number="56" name="TargetCompID" type="STRING"/>
    <field number="98" name="EncryptMethod" type="INT"/>
    <field number="108" name="HeartBtInt" type="INT"/>
    <field number="112" name="TestReqID" type="STRING"/>
  </fields>
  <messages>
    <message name="Heartbeat" msgtype="0" msgcat="admin">
      <field name="TestReqID" required="N"/>
    </message>
    <message name="Logon" msgtype="A" msgcat="admin">
      <field name="EncryptMethod" required="Y"/>
      <field name="HeartBtInt" required="Y"/>
    </message>
    <message name="NewOrderSingle" msgtype="D" msgcat="app">
      <field name="ClOrdID" required="Y"/>
      <field name="Symbol" required="Y"/>
      <field name="Side" required="Y"/>
      <field name="OrderQty" required="Y"/>
      <field name="OrdType" required="Y"/>
      <field name="Price" required="N"/>
    </message>
  </messages>
</fix>"#;

} // verus!
