//! Text helpers: comparing strings by their bytes.

use vstd::prelude::*;
use vstd::utf8::encode_utf8;
use vstd::string::StringSliceAdditionalSpecFns;
use crate::acceptor::dec_text;
use crate::decimal::signed_digits;

verus! {

/// Whether two texts are equal, compared by their bytes.
pub fn str_equal(a: &str, b: &str) -> (r: bool)
    ensures
        r == (a@ == b@),
{
    let x = a.as_bytes();
    let y = b.as_bytes();
    proof {
        vstd::utf8::encode_utf8_decode_utf8(a@);
        vstd::utf8::encode_utf8_decode_utf8(b@);
    }
    if x.len() != y.len() {
        return false;
    }
    let n = x.len();
    let mut i: usize = 0;
    while i < n
        invariant
            n == x@.len(),
            n == y@.len(),
            i <= n,
            x@ == encode_utf8(a@),
            y@ == encode_utf8(b@),
            x@.take(i as int) == y@.take(i as int),
        decreases n - i,
    {
        if x[i] != y[i] {
            assert(x@[i as int] != y@[i as int]);
            return false;
        }
        assert(x@.take(i + 1) =~= x@.take(i as int).push(x@[i as int]));
        assert(y@.take(i + 1) =~= y@.take(i as int).push(y@[i as int]));
        i = i + 1;
    }
    assert(x@.take(n as int) =~= x@);
    assert(y@.take(n as int) =~= y@);
    true
}

/// The decimal text of a signed value: a `-` before the magnitude when negative.
pub open spec fn signed_text(v: i64) -> Seq<char> {
    signed_digits(v).map_values(|b: u8| b as char)
}

/// Renders `v` in decimal with `ToString`.
#[verifier::external_body]
pub(crate) fn decimal(v: u64) -> (r: String)
    ensures
        r@ == dec_text(v),
{
    v.to_string()
}

/// Renders `v` in decimal, with a leading `-` when negative, with `ToString`.
#[verifier::external_body]
pub(crate) fn signed_decimal(v: i64) -> (r: String)
    ensures
        r@ == signed_text(v),
{
    v.to_string()
}

/// Appends one character with `String::push`.
#[verifier::external_body]
pub(crate) fn push_char(out: &mut String, c: char)
    ensures
        final(out)@ == old(out)@.push(c),
{
    out.push(c);
}

} // verus!
