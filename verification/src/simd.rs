//! Delimiter scanning over FIX wire bytes: first SOH, first '=', and SOH count.

use vstd::prelude::*;
use crate::tags::{SOH, EQUALS};

verus! {

/// The index of the first occurrence of `needle` in `s`, if any.
pub open spec fn first_index_of(s: Seq<u8>, needle: u8) -> Option<int>
    decreases s.len(),
{
    if s.len() == 0 {
        None
    } else {
        match first_index_of(s.drop_last(), needle) {
            Some(i) => Some(i),
            None => if s.last() == needle {
                Some(s.len() - 1)
            } else {
                None
            },
        }
    }
}

/// The number of occurrences of `needle` in `s`.
pub open spec fn count_of(s: Seq<u8>, needle: u8) -> nat
    decreases s.len(),
{
    if s.len() == 0 {
        0
    } else {
        count_of(s.drop_last(), needle) + if s.last() == needle {
            1nat
        } else {
            0nat
        }
    }
}

/// `first_index_of` names the smallest index that holds `needle`.
pub proof fn lemma_first_index_of(s: Seq<u8>, needle: u8)
    ensures
        match first_index_of(s, needle) {
            Some(i) => 0 <= i < s.len() && s[i] == needle && forall|j: int|
                0 <= j < i ==> s[j] != needle,
            None => forall|j: int| 0 <= j < s.len() ==> s[j] != needle,
        },
    decreases s.len(),
{
    if s.len() > 0 {
        lemma_first_index_of(s.drop_last(), needle);
        assert forall|j: int| 0 <= j < s.len() - 1 implies s.drop_last()[j] == s[j] by {}
    }
}

pub fn find_byte_scalar(buf: &[u8], needle: u8) -> (r: Option<usize>)
    ensures
        r matches Some(i) ==> first_index_of(buf@, needle) == Some(i as int),
        r is None ==> first_index_of(buf@, needle) is None,
{
    let len = buf.len();
    let mut i: usize = 0;
    while i < len
        invariant
            len == buf@.len(),
            i <= len,
            first_index_of(buf@.take(i as int), needle) is None,
        decreases len - i,
    {
        assert(buf@.take(i + 1).drop_last() =~= buf@.take(i as int));
        if buf[i] == needle {
            proof {
                lemma_first_index_prefix(buf@, needle, i as int);
            }
            return Some(i);
        }
        i = i + 1;
    }
    assert(buf@.take(len as int) =~= buf@);
    None
}

proof fn lemma_first_index_prefix(s: Seq<u8>, needle: u8, i: int)
    requires
        0 <= i < s.len(),
        s[i] == needle,
        first_index_of(s.take(i), needle) is None,
    ensures
        first_index_of(s, needle) == Some(i),
    decreases s.len(),
{
    if i == s.len() - 1 {
        assert(s.drop_last() =~= s.take(i));
    } else {
        assert(s.drop_last().take(i) =~= s.take(i));
        lemma_first_index_prefix(s.drop_last(), needle, i);
    }
}

pub fn count_byte_scalar(buf: &[u8], needle: u8) -> (n: usize)
    ensures
        n == count_of(buf@, needle),
{
    let len = buf.len();
    let mut i: usize = 0;
    let mut total: usize = 0;
    while i < len
        invariant
            len == buf@.len(),
            i <= len,
            total == count_of(buf@.take(i as int), needle),
            total <= i,
        decreases len - i,
    {
        assert(buf@.take(i + 1).drop_last() =~= buf@.take(i as int));
        if buf[i] == needle {
            total = total + 1;
        }
        i = i + 1;
    }
    assert(buf@.take(len as int) =~= buf@);
    total
}

/// Find the index of the first SOH (0x01) byte in `buf`.
pub fn find_soh(buf: &[u8]) -> (r: Option<usize>)
    ensures
        r matches Some(i) ==> first_index_of(buf@, SOH) == Some(i as int),
        r is None ==> first_index_of(buf@, SOH) is None,
{
    find_byte_scalar(buf, SOH)
}

/// Count the number of SOH (0x01) delimiters in `buf`.
pub fn count_fields(buf: &[u8]) -> (n: usize)
    ensures
        n == count_of(buf@, SOH),
{
    count_byte_scalar(buf, SOH)
}

/// Find the index of the first `=` byte in `buf`.
pub fn find_equals(buf: &[u8]) -> (r: Option<usize>)
    ensures
        r matches Some(i) ==> first_index_of(buf@, EQUALS) == Some(i as int),
        r is None ==> first_index_of(buf@, EQUALS) is None,
{
    find_byte_scalar(buf, EQUALS)
}

} // verus!
