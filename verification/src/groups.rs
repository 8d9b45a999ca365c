//! Repeating groups: a NumInGroup count field followed by that many entries, each
//! starting with the group's delimiter tag; entries may hold nested groups.

use vstd::prelude::*;
use crate::decimal::{all_digits, dec_value_usize, parse_i64, spec_parse_i64};
use crate::message::{FieldEntry, entry_value, utf8_str, utf8_result_bytes};

verus! {

/// Definition of a repeating group's structure.
#[derive(Debug)]
pub struct GroupDef {
    /// The count tag (e.g. 268 for NoMDEntries).
    pub count_tag: u32,
    /// The delimiter tag: the first tag of each entry.
    pub delimiter_tag: u32,
    /// Every tag an entry may hold, the delimiter included.
    pub member_tags: Vec<u32>,
    /// Groups that may be nested in an entry.
    pub nested_groups: Vec<GroupDef>,
}

/// A parsed repeating group.
#[derive(Debug)]
pub struct RepeatingGroup<'a> {
    count_tag: u32,
    count: usize,
    entries: Vec<GroupEntry<'a>>,
}

/// One entry of a repeating group: its fields in order, and its nested groups.
#[derive(Debug)]
pub struct GroupEntry<'a> {
    fields: Vec<(u32, &'a [u8])>,
    nested: Vec<RepeatingGroup<'a>>,
}

/// A group as values: its count tag and its entries.
pub struct GroupShape {
    pub count_tag: u32,
    pub entries: Seq<EntryShape>,
}

/// An entry as values: its (tag, value) fields and its nested groups.
pub struct EntryShape {
    pub fields: Seq<(u32, Seq<u8>)>,
    pub nested: Seq<GroupShape>,
}

/// `g` holds exactly the values `s` describes.
pub open spec fn group_is(g: RepeatingGroup, s: GroupShape) -> bool
    decreases s,
{
    &&& g.spec_count_tag() == s.count_tag
    &&& g.spec_count() == s.entries.len()
    &&& g.spec_entries().len() == s.entries.len()
    &&& forall|i: int| 0 <= i < s.entries.len() ==> entry_is(#[trigger] g.spec_entries()[i], s.entries[i])
}

/// `e` holds exactly the values `s` describes.
pub open spec fn entry_is(e: GroupEntry, s: EntryShape) -> bool
    decreases s,
{
    &&& e.spec_fields().len() == s.fields.len()
    &&& forall|k: int|
        0 <= k < s.fields.len() ==> (#[trigger] e.spec_fields()[k]).0 == s.fields[k].0
            && e.spec_fields()[k].1@ == s.fields[k].1
    &&& e.spec_nested().len() == s.nested.len()
    &&& forall|j: int| 0 <= j < s.nested.len() ==> group_is(#[trigger] e.spec_nested()[j], s.nested[j])
}

/// The NumInGroup value: decimal digits accumulated in wrapping word arithmetic (an
/// empty value counts 0); nothing when a byte is not a digit.
pub open spec fn spec_count(v: Seq<u8>) -> Option<usize> {
    if all_digits(v) {
        Some(dec_value_usize(v))
    } else {
        None
    }
}

/// The first nested group definition whose count tag is `tag`.
pub open spec fn find_nested_index(defs: Seq<GroupDef>, tag: u32) -> Option<int>
    decreases defs.len(),
{
    if defs.len() == 0 {
        None
    } else {
        match find_nested_index(defs.drop_last(), tag) {
            Some(k) => Some(k),
            None => if defs.last().count_tag == tag {
                Some(defs.len() - 1)
            } else {
                None
            },
        }
    }
}

/// Parsing a group whose count field is entry `start`: nothing when there is no such
/// entry, its tag is not the count tag or its value is not a number; otherwise up to
/// `count` entries, and the index after the last field consumed.
pub open spec fn parse_group(buf: Seq<u8>, fes: Seq<FieldEntry>, start: int, def: GroupDef) -> Option<
    (GroupShape, int),
>
    decreases def, 0x1_0000_0000_0000_0000int, 0int,
{
    if start < 0 || start >= fes.len() || fes[start].tag != def.count_tag {
        None
    } else {
        match spec_count(entry_value(buf, fes[start])) {
            None => None,
            Some(count) => {
                let r = parse_entries(buf, fes, start + 1, def, count as nat);
                Some((GroupShape { count_tag: def.count_tag, entries: r.0 }, r.1))
            },
        }
    }
}

/// Up to `remaining` entries from index `idx`: each starts with the delimiter tag;
/// parsing stops at the first field that does not.
pub open spec fn parse_entries(
    buf: Seq<u8>,
    fes: Seq<FieldEntry>,
    idx: int,
    def: GroupDef,
    remaining: nat,
) -> (Seq<EntryShape>, int)
    decreases def, remaining as int, fes.len() - idx + 2,
{
    if remaining == 0 || idx < 0 || idx >= fes.len() || fes[idx].tag != def.delimiter_tag {
        (Seq::empty(), idx)
    } else {
        let first = EntryShape {
            fields: seq![(fes[idx].tag, entry_value(buf, fes[idx]))],
            nested: Seq::empty(),
        };
        let e = parse_entry_rest(buf, fes, idx + 1, def, remaining, first);
        let rest = parse_entries(buf, fes, e.1, def, (remaining - 1) as nat);
        (seq![e.0] + rest.0, rest.1)
    }
}

/// The rest of an entry from index `idx`: nested groups (by their count tags) and member
/// fields are taken in; the delimiter, a non-member field or the end closes the entry.
pub open spec fn parse_entry_rest(
    buf: Seq<u8>,
    fes: Seq<FieldEntry>,
    idx: int,
    def: GroupDef,
    remaining: nat,
    acc: EntryShape,
) -> (EntryShape, int)
    decreases def, remaining as int, fes.len() - idx,
{
    if idx < 0 || idx >= fes.len() || fes[idx].tag == def.delimiter_tag {
        (acc, idx)
    } else {
        let tag = fes[idx].tag;
        let nested = match find_nested_index(def.nested_groups@, tag) {
            Some(k) => {
                proof {
                    lemma_find_nested_index(def.nested_groups@, tag);
                }
                parse_group(buf, fes, idx, def.nested_groups@[k])
            },
            None => None,
        };
        match nested {
            Some(g) => if idx < g.1 <= fes.len() {
                parse_entry_rest(
                    buf,
                    fes,
                    g.1,
                    def,
                    remaining,
                    EntryShape { nested: acc.nested.push(g.0), ..acc },
                )
            } else {
                (acc, idx)
            },
            None => if def.member_tags@.contains(tag) {
                parse_entry_rest(
                    buf,
                    fes,
                    idx + 1,
                    def,
                    remaining,
                    EntryShape { fields: acc.fields.push((tag, entry_value(buf, fes[idx]))), ..acc },
                )
            } else {
                (acc, idx)
            },
        }
    }
}

impl GroupDef {
    /// A group definition without nested groups.
    pub fn new(count_tag: u32, delimiter_tag: u32, member_tags: Vec<u32>) -> (d: Self)
        ensures
            d.count_tag == count_tag,
            d.delimiter_tag == delimiter_tag,
            d.member_tags == member_tags,
            d.nested_groups@.len() == 0,
    {
        GroupDef { count_tag, delimiter_tag, member_tags, nested_groups: Vec::new() }
    }

    /// The definition with `nested` added to its nested groups.
    pub fn with_nested(self, nested: GroupDef) -> (d: Self)
        ensures
            d.count_tag == self.count_tag,
            d.delimiter_tag == self.delimiter_tag,
            d.member_tags == self.member_tags,
            d.nested_groups@ == self.nested_groups@.push(nested),
    {
        let mut d = self;
        d.nested_groups.push(nested);
        d
    }

    fn is_member(&self, tag: u32) -> (b: bool)
        ensures
            b == self.member_tags@.contains(tag),
    {
        let n = self.member_tags.len();
        let mut i: usize = 0;
        while i < n
            invariant
                n == self.member_tags@.len(),
                i <= n,
                forall|j: int| 0 <= j < i ==> self.member_tags@[j] != tag,
            decreases n - i,
        {
            if self.member_tags[i] == tag {
                assert(self.member_tags@[i as int] == tag);
                return true;
            }
            i = i + 1;
        }
        false
    }

    fn find_nested(&self, tag: u32) -> (r: Option<usize>)
        ensures
            match find_nested_index(self.nested_groups@, tag) {
                Some(k) => r matches Some(j) && j == k,
                None => r is None,
            },
    {
        let n = self.nested_groups.len();
        let mut i: usize = 0;
        while i < n
            invariant
                n == self.nested_groups@.len(),
                i <= n,
                find_nested_index(self.nested_groups@.take(i as int), tag) is None,
            decreases n - i,
        {
            assert(self.nested_groups@.take(i + 1).drop_last() =~= self.nested_groups@.take(i as int));
            if self.nested_groups[i].count_tag == tag {
                proof {
                    lemma_find_nested_prefix(self.nested_groups@, tag, i as int);
                }
                return Some(i);
            }
            i = i + 1;
        }
        assert(self.nested_groups@.take(n as int) =~= self.nested_groups@);
        None
    }
}

proof fn lemma_find_nested_prefix(defs: Seq<GroupDef>, tag: u32, i: int)
    requires
        0 <= i < defs.len(),
        defs[i].count_tag == tag,
        find_nested_index(defs.take(i), tag) is None,
    ensures
        find_nested_index(defs, tag) == Some(i),
    decreases defs.len(),
{
    if i == defs.len() - 1 {
        assert(defs.drop_last() =~= defs.take(i));
    } else {
        assert(defs.drop_last().take(i) =~= defs.take(i));
        lemma_find_nested_prefix(defs.drop_last(), tag, i);
    }
}

/// `find_nested_index` finds an index within the definitions.
pub proof fn lemma_find_nested_index(defs: Seq<GroupDef>, tag: u32)
    ensures
        find_nested_index(defs, tag) matches Some(k) ==> 0 <= k < defs.len(),
    decreases defs.len(),
{
    if defs.len() > 0 {
        lemma_find_nested_index(defs.drop_last(), tag);
    }
}

/// The value of a field entry.
fn field_value<'a>(buffer: &'a [u8], entry: &FieldEntry) -> (v: &'a [u8])
    requires
        entry.offset + entry.length <= buffer@.len(),
    ensures
        v@ == entry_value(buffer@, *entry),
{
    let blen = buffer.len();
    let offset = entry.offset as usize;
    let length = entry.length as usize;
    assert(offset + length <= blen);
    &buffer[offset..offset + length]
}

/// Parse a NumInGroup value.
fn parse_usize_from_buf(buffer: &[u8], entry: &FieldEntry) -> (r: Option<usize>)
    requires
        entry.offset + entry.length <= buffer@.len(),
    ensures
        r == spec_count(entry_value(buffer@, *entry)),
{
    let val = field_value(buffer, entry);
    let n = val.len();
    let mut result: usize = 0;
    let mut i: usize = 0;
    assert(val@.take(0) =~= Seq::<u8>::empty());
    while i < n
        invariant
            n == val@.len(),
            val@ == entry_value(buffer@, *entry),
            i <= n,
            all_digits(val@.take(i as int)),
            result == dec_value_usize(val@.take(i as int)),
        decreases n - i,
    {
        let b = val[i];
        if b < 48 || b > 57 {
            assert(!crate::decimal::is_digit(val@[i as int]));
            return None;
        }
        assert(val@.take(i + 1).drop_last() =~= val@.take(i as int));
        result = result.wrapping_mul(10).wrapping_add(b.wrapping_sub(48) as usize);
        i = i + 1;
    }
    assert(val@.take(n as int) =~= val@);
    Some(result)
}

/// Every entry designates bytes of `buffer`.
pub open spec fn entries_in(buffer: Seq<u8>, fes: Seq<FieldEntry>) -> bool {
    forall|i: int| 0 <= i < fes.len() ==> #[trigger] fes[i].offset + fes[i].length <= buffer.len()
}

impl<'a> RepeatingGroup<'a> {
    pub closed spec fn spec_count_tag(&self) -> u32 {
        self.count_tag
    }

    pub closed spec fn spec_count(&self) -> usize {
        self.count
    }

    pub closed spec fn spec_entries(&self) -> Seq<GroupEntry<'a>> {
        self.entries@
    }

    /// Parse the repeating group whose count field is `field_entries[start_index]`,
    /// reading values from `buffer`. Returns the group (see `parse_group`) and the index
    /// of the first field after it; `None` when that field is missing, has another tag or
    /// is not a number.
    pub fn parse(
        buffer: &'a [u8],
        field_entries: &[FieldEntry],
        start_index: usize,
        group_def: &GroupDef,
    ) -> (r: Option<(RepeatingGroup<'a>, usize)>)
        requires
            entries_in(buffer@, field_entries@),
        ensures
            match parse_group(buffer@, field_entries@, start_index as int, *group_def) {
                Some(p) => r matches Some(x) && group_is(x.0, p.0) && x.1 == p.1,
                None => r is None,
            },
            r matches Some(x) ==> start_index < x.1 <= field_entries@.len(),
        decreases *group_def, 0x1_0000_0000_0000_0000int, 0int,
    {
        if start_index >= field_entries.len() {
            return None;
        }
        let count_entry = &field_entries[start_index];
        if count_entry.tag != group_def.count_tag {
            return None;
        }
        let count = match parse_usize_from_buf(buffer, count_entry) {
            Some(c) => c,
            None => {
                return None;
            },
        };
        if count == 0 {
            let g = RepeatingGroup { count_tag: group_def.count_tag, count: 0, entries: Vec::new() };
            assert(group_is(g, GroupShape { count_tag: group_def.count_tag, entries: Seq::empty() }));
            return Some((g, start_index + 1));
        }
        let (entries, idx) = Self::parse_entries_from(
            buffer,
            field_entries,
            start_index + 1,
            group_def,
            count,
        );
        let actual_count = entries.len();
        Some((RepeatingGroup { count_tag: group_def.count_tag, count: actual_count, entries }, idx))
    }

    fn parse_entries_from(
        buffer: &'a [u8],
        field_entries: &[FieldEntry],
        start: usize,
        group_def: &GroupDef,
        count: usize,
    ) -> (r: (Vec<GroupEntry<'a>>, usize))
        requires
            entries_in(buffer@, field_entries@),
            start <= field_entries@.len(),
        ensures
            ({
                let p = parse_entries(buffer@, field_entries@, start as int, *group_def, count as nat);
                &&& r.0@.len() == p.0.len()
                &&& forall|i: int| 0 <= i < p.0.len() ==> entry_is(#[trigger] r.0@[i], p.0[i])
                &&& r.1 == p.1
            }),
            start <= r.1 <= field_entries@.len(),
        decreases *group_def, count as int, field_entries@.len() - start + 2,
    {
        let mut entries: Vec<GroupEntry<'a>> = Vec::new();
        let mut idx = start;
        let mut k: usize = 0;
        let ghost mut shapes: Seq<EntryShape> = Seq::empty();
        let ghost target = parse_entries(buffer@, field_entries@, start as int, *group_def, count as nat);
        while k < count
            invariant_except_break
                entries_in(buffer@, field_entries@),
                k <= count,
                k == 0 ==> idx == start,
                start <= idx <= field_entries@.len(),
                entries@.len() == shapes.len(),
                forall|i: int| 0 <= i < shapes.len() ==> entry_is(#[trigger] entries@[i], shapes[i]),
                target == ({
                    let rest = parse_entries(buffer@, field_entries@, idx as int, *group_def, (count - k) as nat);
                    (shapes + rest.0, rest.1)
                }),
            ensures
                start <= idx <= field_entries@.len(),
                entries@.len() == target.0.len(),
                forall|i: int| 0 <= i < target.0.len() ==> entry_is(#[trigger] entries@[i], target.0[i]),
                idx == target.1,
            decreases count - k,
        {
            if idx >= field_entries.len() || field_entries[idx].tag != group_def.delimiter_tag {
                assert(shapes + Seq::<EntryShape>::empty() =~= shapes);
                break;
            }
            let mut fields: Vec<(u32, &'a [u8])> = Vec::new();
            let nested: Vec<RepeatingGroup<'a>> = Vec::new();
            fields.push((field_entries[idx].tag, field_value(buffer, &field_entries[idx])));
            let ghost first = EntryShape {
                fields: seq![(field_entries@[idx as int].tag, entry_value(buffer@, field_entries@[idx as int]))],
                nested: Seq::empty(),
            };
            let ghost remaining = (count - k) as nat;
            let (entry, next) = Self::parse_entry_rest_from(
                buffer,
                field_entries,
                idx + 1,
                group_def,
                Ghost(remaining),
                GroupEntry { fields, nested },
                Ghost(first),
            );
            proof {
                let e = parse_entry_rest(buffer@, field_entries@, idx + 1, *group_def, remaining, first);
                let rest = parse_entries(buffer@, field_entries@, next as int, *group_def, (remaining - 1) as nat);
                assert(shapes + (seq![e.0] + rest.0) =~= shapes.push(e.0) + rest.0);
                shapes = shapes.push(e.0);
            }
            entries.push(entry);
            idx = next;
            k = k + 1;
        }
        (entries, idx)
    }

    fn parse_entry_rest_from(
        buffer: &'a [u8],
        field_entries: &[FieldEntry],
        start: usize,
        group_def: &GroupDef,
        Ghost(remaining): Ghost<nat>,
        entry: GroupEntry<'a>,
        Ghost(acc): Ghost<EntryShape>,
    ) -> (r: (GroupEntry<'a>, usize))
        requires
            entries_in(buffer@, field_entries@),
            start <= field_entries@.len(),
            entry_is(entry, acc),
        ensures
            ({
                let p = parse_entry_rest(buffer@, field_entries@, start as int, *group_def, remaining, acc);
                entry_is(r.0, p.0) && r.1 == p.1
            }),
            start <= r.1 <= field_entries@.len(),
        decreases *group_def, remaining as int, field_entries@.len() - start,
    {
        let mut entry = entry;
        let mut idx = start;
        let ghost mut acc_now = acc;
        let ghost target = parse_entry_rest(buffer@, field_entries@, start as int, *group_def, remaining, acc);
        while idx < field_entries.len()
            invariant_except_break
                entries_in(buffer@, field_entries@),
                start <= idx <= field_entries@.len(),
                entry_is(entry, acc_now),
                target == parse_entry_rest(buffer@, field_entries@, idx as int, *group_def, remaining, acc_now),
            ensures
                start <= idx <= field_entries@.len(),
                entry_is(entry, target.0),
                idx == target.1,
            decreases field_entries@.len() - idx,
        {
            let tag = field_entries[idx].tag;
            if tag == group_def.delimiter_tag {
                break;
            }
            match group_def.find_nested(tag) {
                Some(k) => {
                    proof {
                        lemma_find_nested_index(group_def.nested_groups@, tag);
                    }
                    let nested_def = &group_def.nested_groups[k];
                    assert(decreases_to!(*group_def => group_def.nested_groups@[k as int]));
                    match Self::parse(buffer, field_entries, idx, nested_def) {
                        Some((nested_group, next)) => {
                            if idx < next && next <= field_entries.len() {
                                let ghost g = parse_group(buffer@, field_entries@, idx as int, *nested_def)->Some_0;
                                let GroupEntry { fields, mut nested } = entry;
                                nested.push(nested_group);
                                entry = GroupEntry { fields, nested };
                                proof {
                                    acc_now = EntryShape { nested: acc_now.nested.push(g.0), ..acc_now };
                                }
                                idx = next;
                                continue;
                            } else {
                                break;
                            }
                        },
                        None => {},
                    }
                },
                None => {},
            }
            if group_def.is_member(tag) {
                let GroupEntry { mut fields, nested } = entry;
                fields.push((tag, field_value(buffer, &field_entries[idx])));
                entry = GroupEntry { fields, nested };
                proof {
                    acc_now = EntryShape {
                        fields: acc_now.fields.push((tag, entry_value(buffer@, field_entries@[idx as int]))),
                        ..acc_now
                    };
                }
                idx = idx + 1;
            } else {
                break;
            }
        }
        (entry, idx)
    }

    /// The number of entries.
    pub fn count(&self) -> (n: usize)
        ensures
            n == self.spec_count(),
    {
        self.count
    }

    /// The entry at `index`, if there is one.
    pub fn get_entry(&self, index: usize) -> (r: Option<&GroupEntry<'a>>)
        ensures
            index < self.spec_entries().len() ==> (r matches Some(e) && *e == self.spec_entries()[index as int]),
            index >= self.spec_entries().len() ==> r is None,
    {
        if index < self.entries.len() {
            Some(&self.entries[index])
        } else {
            None
        }
    }
}

/// The value of the first field of an entry with tag `tag`.
pub open spec fn entry_field(fields: Seq<(u32, Seq<u8>)>, tag: u32) -> Option<Seq<u8>>
    decreases fields.len(),
{
    if fields.len() == 0 {
        None
    } else if fields[0].0 == tag {
        Some(fields[0].1)
    } else {
        entry_field(fields.skip(1), tag)
    }
}

impl<'a> GroupEntry<'a> {
    pub closed spec fn spec_fields(&self) -> Seq<(u32, &'a [u8])> {
        self.fields@
    }

    pub closed spec fn spec_nested(&self) -> Seq<RepeatingGroup<'a>> {
        self.nested@
    }

    /// The fields, as values.
    pub closed spec fn field_values(&self) -> Seq<(u32, Seq<u8>)> {
        self.fields@.map_values(|f: (u32, &[u8])| (f.0, f.1@))
    }

    /// The count tags of the nested groups, in order.
    pub closed spec fn nested_tags(&self) -> Seq<u32> {
        self.nested@.map_values(|g: RepeatingGroup| g.count_tag)
    }

    /// The value of the first field with tag `tag`.
    pub fn get_field(&self, tag: u32) -> (r: Option<&'a [u8]>)
        ensures
            match entry_field(self.field_values(), tag) {
                Some(v) => r matches Some(x) && x@ == v,
                None => r is None,
            },
    {
        let n = self.fields.len();
        let mut i: usize = 0;
        assert(self.field_values().skip(0) =~= self.field_values());
        while i < n
            invariant
                n == self.fields@.len(),
                i <= n,
                entry_field(self.field_values(), tag) == entry_field(self.field_values().skip(i as int), tag),
            decreases n - i,
        {
            assert(self.field_values().skip(i as int).skip(1) =~= self.field_values().skip(i + 1));
            if self.fields[i].0 == tag {
                return Some(self.fields[i].1);
            }
            i = i + 1;
        }
        None
    }

    /// The value of the first field with tag `tag`, as text when it is valid UTF-8.
    pub fn get_field_str(&self, tag: u32) -> (r: Option<&'a str>)
        ensures
            match entry_field(self.field_values(), tag) {
                Some(v) => utf8_result_bytes(r) == (if vstd::utf8::valid_utf8(v) {
                    Some(v)
                } else {
                    None
                }),
                None => r is None,
            },
    {
        match self.get_field(tag) {
            Some(b) => utf8_str(b),
            None => None,
        }
    }

    /// The value of the first field with tag `tag`, as a signed integer.
    pub fn get_field_i64(&self, tag: u32) -> (r: Option<i64>)
        ensures
            match entry_field(self.field_values(), tag) {
                Some(v) => r == spec_parse_i64(v),
                None => r is None,
            },
    {
        match self.get_field(tag) {
            Some(b) => parse_i64(b),
            None => None,
        }
    }

    /// The first nested group with count tag `count_tag`.
    pub fn get_nested(&self, count_tag: u32) -> (r: Option<&RepeatingGroup<'a>>)
        ensures
            match self.nested_tags().index_of_first(count_tag) {
                Some(i) => r matches Some(g) && *g == self.spec_nested()[i],
                None => r is None,
            },
    {
        let n = self.nested.len();
        let mut i: usize = 0;
        while i < n
            invariant
                n == self.nested@.len(),
                i <= n,
                forall|j: int| 0 <= j < i ==> self.nested_tags()[j] != count_tag,
            decreases n - i,
        {
            if self.nested[i].count_tag == count_tag {
                proof {
                    assert(self.nested_tags()[i as int] == count_tag);
                    self.nested_tags().index_of_first_ensures(count_tag);
                }
                return Some(&self.nested[i]);
            }
            i = i + 1;
        }
        proof {
            self.nested_tags().index_of_first_ensures(count_tag);
        }
        None
    }
}

/// NoMDEntries (268): MDEntryType (269, the delimiter), MDEntryPx (270), MDEntrySize
/// (271), MDUpdateAction (279).
pub fn md_entries_group() -> (d: GroupDef)
    ensures
        d.count_tag == 268 && d.delimiter_tag == 269,
        d.member_tags@ == seq![269u32, 270, 271, 279],
        d.nested_groups@.len() == 0,
{
    GroupDef::new(268, 269, vec![269, 270, 271, 279])
}

/// NoLegs (555): LegSymbol (600, the delimiter), LegSide (624), LegQty (687).
pub fn legs_group() -> (d: GroupDef)
    ensures
        d.count_tag == 555 && d.delimiter_tag == 600,
        d.member_tags@ == seq![600u32, 624, 687],
        d.nested_groups@.len() == 0,
{
    GroupDef::new(555, 600, vec![600, 624, 687])
}

/// NoFills (1362): FillExecID (1363, the delimiter), FillPx (1364), FillQty (1365).
pub fn fills_group() -> (d: GroupDef)
    ensures
        d.count_tag == 1362 && d.delimiter_tag == 1363,
        d.member_tags@ == seq![1363u32, 1364, 1365],
        d.nested_groups@.len() == 0,
{
    GroupDef::new(1362, 1363, vec![1363, 1364, 1365])
}

} // verus!
