//! Zero-copy FIX message parser.
//!
//! Scans `tag=value<SOH>` fields, records each value as a byte range of the input in a
//! `MessageView`, checks the structural header (BeginString, BodyLength, MsgType) and
//! validates BodyLength and CheckSum.

use vstd::prelude::*;
use crate::checksum::{self, last_trailer_from, spec_validate};
use crate::decimal::{all_digits, is_digit, dec_value_u32, dec_value_usize};
use crate::message::{MessageView, FieldEntry, MAX_FIELDS};
use crate::tags::{self, EQUALS, SOH};

verus! {

/// Parse error types.
#[derive(Debug, Clone, Copy, PartialEq, Eq, Structural)]
pub enum ParseError {
    /// Buffer is too short to contain a valid FIX message.
    BufferTooShort,
    /// Missing BeginString (tag 8) as first field.
    MissingBeginString,
    /// Missing BodyLength (tag 9) as second field.
    MissingBodyLength,
    /// BodyLength value doesn't match actual content.
    InvalidBodyLength,
    /// Missing MsgType (tag 35) as third field.
    MissingMsgType,
    /// Checksum validation failed.
    InvalidChecksum,
    /// Malformed tag=value pair (missing '=' or SOH).
    MalformedField,
    /// Tag number is unparseable.
    InvalidTag,
    /// Message exceeds maximum supported size.
    MessageTooLarge,
}

/// The first index at or after `pos` holding `needle`, or `pos` itself when `pos` is
/// already at or past the end.
pub open spec fn scan_to(buf: Seq<u8>, pos: int, needle: u8) -> int
    decreases buf.len() - pos,
{
    if pos >= buf.len() {
        pos
    } else if buf[pos] == needle {
        pos
    } else {
        scan_to(buf, pos + 1, needle)
    }
}

/// `scan_to` stops at the first `needle` from `pos`, or at the end of the buffer.
pub proof fn lemma_scan_to(buf: Seq<u8>, pos: int, needle: u8)
    requires
        0 <= pos <= buf.len(),
    ensures
        pos <= scan_to(buf, pos, needle) <= buf.len(),
        scan_to(buf, pos, needle) < buf.len() ==> buf[scan_to(buf, pos, needle)] == needle,
        forall|i: int| pos <= i < scan_to(buf, pos, needle) ==> buf[i] != needle,
    decreases buf.len() - pos,
{
    if pos < buf.len() && buf[pos] != needle {
        lemma_scan_to(buf, pos + 1, needle);
    }
}

/// One field read at `pos`: its tag, where its value starts and the value's length; or
/// the error the scan stops with. A non-digit before '=' is an invalid tag; a tag or a
/// value that runs to the end of the buffer is malformed.
pub open spec fn read_field(buf: Seq<u8>, pos: int) -> Result<(u32, int, int), ParseError> {
    let e = scan_to(buf, pos, EQUALS);
    if !all_digits(buf.subrange(pos, e)) {
        Err(ParseError::InvalidTag)
    } else if e >= buf.len() {
        Err(ParseError::MalformedField)
    } else {
        let ve = scan_to(buf, e + 1, SOH);
        if ve >= buf.len() {
            Err(ParseError::MalformedField)
        } else {
            Ok((dec_value_u32(buf.subrange(pos, e)), e + 1, ve - (e + 1)))
        }
    }
}

/// The header rule for the field at position `field_num`: BeginString, then BodyLength,
/// then MsgType.
pub open spec fn structural_error(field_num: nat, tag: u32) -> Option<ParseError> {
    if field_num == 0 && tag != tags::BEGIN_STRING {
        Some(ParseError::MissingBeginString)
    } else if field_num == 1 && tag != tags::BODY_LENGTH {
        Some(ParseError::MissingBodyLength)
    } else if field_num == 2 && tag != tags::MSG_TYPE {
        Some(ParseError::MissingMsgType)
    } else {
        None
    }
}

/// Reading fields from `pos` (the `field_num`-th field of the message) up to and including
/// the CheckSum field, or to the end of the buffer: the fields read, as (tag, value start,
/// value length), and the position after the last one.
pub open spec fn scan_fields(buf: Seq<u8>, pos: int, field_num: nat) -> Result<
    (Seq<(u32, int, int)>, int),
    ParseError,
>
    decreases buf.len() - pos,
{
    if pos < 0 || pos >= buf.len() {
        Ok((Seq::empty(), pos))
    } else {
        match read_field(buf, pos) {
            Err(e) => Err(e),
            Ok(f) => match structural_error(field_num, f.0) {
                Some(e) => Err(e),
                None => {
                    if f.0 == tags::CHECKSUM {
                        Ok((seq![f], f.1 + f.2 + 1))
                    } else {
                        proof {
                            lemma_scan_to(buf, pos, EQUALS);
                            if scan_to(buf, pos, EQUALS) < buf.len() {
                                lemma_scan_to(buf, scan_to(buf, pos, EQUALS) + 1, SOH);
                            }
                        }
                        match scan_fields(buf, f.1 + f.2 + 1, field_num + 1) {
                            Err(e) => Err(e),
                            Ok(rest) => Ok((seq![f] + rest.0, rest.1)),
                        }
                    }
                },
            },
        }
    }
}

/// The fields in `done` followed by what a scan from there yields.
pub open spec fn prepend(
    done: Seq<(u32, int, int)>,
    r: Result<(Seq<(u32, int, int)>, int), ParseError>,
) -> Result<(Seq<(u32, int, int)>, int), ParseError> {
    match r {
        Ok(rest) => Ok((done + rest.0, rest.1)),
        Err(e) => Err(e),
    }
}

/// The entry a `MessageView` records for a field read as (tag, value start, length).
pub open spec fn entry_of(f: (u32, int, int)) -> FieldEntry {
    FieldEntry::spec_new(f.0, f.1 as u32, f.2 as u16)
}

/// The entries a `MessageView` keeps of the fields read: the first `MAX_FIELDS` of them.
pub open spec fn recorded(fields: Seq<(u32, int, int)>) -> Seq<FieldEntry>
    decreases fields.len(),
{
    if fields.len() == 0 {
        Seq::empty()
    } else if fields.len() > MAX_FIELDS {
        recorded(fields.drop_last())
    } else {
        recorded(fields.drop_last()).push(entry_of(fields.last()))
    }
}

/// The index of the last MsgType field among those kept, or 0 when there is none.
pub open spec fn msg_type_idx_of(fields: Seq<(u32, int, int)>) -> nat
    decreases fields.len(),
{
    if fields.len() == 0 {
        0
    } else if fields.len() <= MAX_FIELDS && fields.last().0 == tags::MSG_TYPE {
        (fields.len() - 1) as nat
    } else {
        msg_type_idx_of(fields.drop_last())
    }
}

/// Where the body begins: right after the BodyLength field, or 0 when it was not read.
pub open spec fn body_start_of(fields: Seq<(u32, int, int)>) -> int {
    if fields.len() >= 2 {
        fields[1].1 + fields[1].2 + 1
    } else {
        0
    }
}

/// The BodyLength value as the parser accumulates it (wrapping word arithmetic).
pub open spec fn stated_body_length_of(buf: Seq<u8>, fields: Seq<(u32, int, int)>) -> usize {
    if fields.len() >= 2 {
        dec_value_usize(buf.subrange(fields[1].1, fields[1].1 + fields[1].2))
    } else {
        0
    }
}

/// Where the CheckSum tag begins in the first `end` bytes: one past the last SOH that
/// precedes "10=", or 0 when there is none.
pub open spec fn checksum_tag_start(buf: Seq<u8>, end: int) -> int {
    if end < 7 {
        0
    } else {
        match last_trailer_from(buf, end - 5) {
            Some(i) => i + 1,
            None => 0,
        }
    }
}

/// A complete message ends at `i + 8`: SOH, "10=", three bytes and SOH start at `i`.
pub open spec fn boundary_at(buf: Seq<u8>, i: int) -> bool {
    &&& 0 <= i
    &&& i + 8 <= buf.len()
    &&& buf[i] == SOH
    &&& buf[i + 1] == 49u8
    &&& buf[i + 2] == 48u8
    &&& buf[i + 3] == 61u8
    &&& buf[i + 7] == SOH
}

/// The end of the first complete message at or after `i`.
pub open spec fn first_boundary(buf: Seq<u8>, i: int) -> Option<int>
    decreases buf.len() - i,
{
    if i < 0 || i + 8 > buf.len() {
        None
    } else if boundary_at(buf, i) {
        Some(i + 8)
    } else {
        first_boundary(buf, i + 1)
    }
}

/// A boundary found from `i` lies past `i` and within the buffer.
pub proof fn lemma_first_boundary_bound(buf: Seq<u8>, i: int)
    ensures
        first_boundary(buf, i) matches Some(n) ==> 0 <= i && i + 8 <= n <= buf.len(),
    decreases buf.len() - i,
{
    if i < 0 || i + 8 > buf.len() {
    } else if boundary_at(buf, i) {
    } else {
        lemma_first_boundary_bound(buf, i + 1);
    }
}

/// FIX message parser: stateless apart from its validation settings.
pub struct FixParser {
    validate_checksum: bool,
    validate_body_length: bool,
    max_message_size: usize,
}

impl FixParser {
    /// Whether checksums are validated.
    pub closed spec fn checks_checksum(&self) -> bool {
        self.validate_checksum
    }

    /// Whether BodyLength is validated.
    pub closed spec fn checks_body_length(&self) -> bool {
        self.validate_body_length
    }

    /// The largest buffer accepted.
    pub closed spec fn max_size(&self) -> usize {
        self.max_message_size
    }

    /// The outcome of parsing `buf`: the fields read and the bytes consumed, or the error.
    pub open spec fn spec_parse(&self, buf: Seq<u8>) -> Result<(Seq<(u32, int, int)>, int), ParseError> {
        if buf.len() < 20 {
            Err(ParseError::BufferTooShort)
        } else if buf.len() > self.max_size() {
            Err(ParseError::MessageTooLarge)
        } else {
            match scan_fields(buf, 0, 0) {
                Err(e) => Err(e),
                Ok(scan) => {
                    let fields = scan.0;
                    let end = scan.1;
                    let bs = body_start_of(fields);
                    let cts = checksum_tag_start(buf, end);
                    if self.checks_body_length() && bs > 0 && cts > 0 && (cts as usize).wrapping_sub(
                        bs as usize,
                    ) != stated_body_length_of(buf, fields) {
                        Err(ParseError::InvalidBodyLength)
                    } else if self.checks_checksum() && !spec_validate(buf.take(end)) {
                        Err(ParseError::InvalidChecksum)
                    } else {
                        Ok((fields, end))
                    }
                },
            }
        }
    }

    /// Parse the first FIX message in `buffer`.
    ///
    /// Returns a view whose entries are byte ranges of `buffer`, and the number of bytes
    /// consumed (up to and including the CheckSum field). The buffer may hold trailing
    /// data after the message.
    pub fn parse<'a>(&self, buffer: &'a [u8]) -> (r: Result<(MessageView<'a>, usize), ParseError>)
        ensures
            match self.spec_parse(buffer@) {
                Ok(scan) => r matches Ok((view, consumed)) && consumed == scan.1
                    && view.spec_buffer() == buffer@ && view.spec_fields() == recorded(scan.0)
                    && view.spec_msg_type_idx() == msg_type_idx_of(scan.0)
                    && view.spec_checksum_valid(),
                Err(e) => r matches Err(e2) && e2 == e,
            },
    {
        let len = buffer.len();
        if len < 20 {
            return Err(ParseError::BufferTooShort);
        }
        if len > self.max_message_size {
            return Err(ParseError::MessageTooLarge);
        }
        let mut view = MessageView::new(buffer);
        let mut pos: usize = 0;
        let mut field_num: usize = 0;
        let mut body_start: usize = 0;
        let mut stated_body_length: usize = 0;
        let mut finished = false;
        let ghost mut done: Seq<(u32, int, int)> = Seq::empty();
        assert(done + Seq::<(u32, int, int)>::empty() =~= done);
        while !finished && pos < len
            invariant
                len == buffer@.len(),
                20 <= len <= self.max_size(),
                pos <= len,
                field_num == done.len(),
                field_num <= pos,
                view.spec_buffer() == buffer@,
                view.spec_fields() == recorded(done),
                done.len() <= MAX_FIELDS ==> view.spec_fields().len() == done.len(),
                done.len() > MAX_FIELDS ==> view.spec_fields().len() == MAX_FIELDS,
                view.spec_msg_type_idx() == msg_type_idx_of(done),
                !view.spec_checksum_valid(),
                body_start == body_start_of(done),
                stated_body_length == stated_body_length_of(buffer@, done),
                finished ==> scan_fields(buffer@, 0, 0) == Ok::<(Seq<(u32, int, int)>, int), ParseError>(
                    (done, pos as int),
                ),
                !finished ==> scan_fields(buffer@, 0, 0) == prepend(
                    done,
                    scan_fields(buffer@, pos as int, field_num as nat),
                ),
            decreases len - pos,
        {
            let ghost fnum = field_num as nat;
            let ghost start = pos as int;
            let (tag, value_start, value_len) = match read_tag_value(buffer, pos) {
                Ok(f) => f,
                Err(e) => {
                    assert(read_field(buffer@, start) == Err::<(u32, int, int), ParseError>(e));
                    assert(scan_fields(buffer@, start, fnum) == Err::<(Seq<(u32, int, int)>, int), ParseError>(e));
                    assert(scan_fields(buffer@, 0, 0) == Err::<(Seq<(u32, int, int)>, int), ParseError>(e));
                    return Err(e);
                },
            };
            assert(read_field(buffer@, start) == Ok::<(u32, int, int), ParseError>((tag, value_start as int, value_len as int)));
            assert(value_start + value_len < len);
            proof {
                lemma_scan_to(buffer@, start, EQUALS);
            }
            pos = value_start + value_len + 1;
            let ghost f: (u32, int, int) = (tag, value_start as int, value_len as int);
            if field_num == 0 {
                if tag != tags::BEGIN_STRING {
                    return Err(ParseError::MissingBeginString);
                }
            } else if field_num == 1 {
                if tag != tags::BODY_LENGTH {
                    return Err(ParseError::MissingBodyLength);
                }
                stated_body_length = body_length_value(buffer, value_start, value_len);
                body_start = pos;
            } else if field_num == 2 {
                if tag != tags::MSG_TYPE {
                    return Err(ParseError::MissingMsgType);
                }
            }
            assert(structural_error(fnum, tag) is None);
            assert((value_start as u32) as int <= value_start) by (bit_vector);
            assert((value_len as u16) as int <= value_len) by (bit_vector);
            view.add_field(tag, value_start as u32, value_len as u16);
            proof {
                assert(done.push(f).drop_last() =~= done);
                if fnum >= 2 {
                    assert(done.push(f)[1] == done[1]);
                }
                if tag != tags::CHECKSUM {
                    match scan_fields(buffer@, pos as int, fnum + 1) {
                        Ok(x) => {
                            assert(done + (seq![f] + x.0) =~= done.push(f) + x.0);
                        },
                        Err(_) => {},
                    }
                } else {
                    assert(done + seq![f] =~= done.push(f));
                }
                done = done.push(f);
            }
            if tag == tags::CHECKSUM {
                finished = true;
            }
            field_num = field_num + 1;
        }
        let consumed = pos;
        proof {
            if !finished {
                assert(done + Seq::<(u32, int, int)>::empty() =~= done);
            }
        }
        if self.validate_body_length && body_start > 0 {
            let checksum_tag_start = find_checksum_tag_start(buffer, consumed);
            if checksum_tag_start > 0 {
                let actual_body_length = checksum_tag_start.wrapping_sub(body_start);
                if actual_body_length != stated_body_length {
                    return Err(ParseError::InvalidBodyLength);
                }
            }
        }
        if self.validate_checksum {
            let valid = checksum::validate(&buffer[0..consumed]);
            view.set_checksum_valid(valid);
            if !valid {
                return Err(ParseError::InvalidChecksum);
            }
        } else {
            view.set_checksum_valid(true);
        }
        Ok((view, consumed))
    }

    /// A parser with every validation enabled and a 64 KiB size limit.
    pub fn new() -> (p: Self)
        ensures
            p.checks_checksum(),
            p.checks_body_length(),
            p.max_size() == 65536,
    {
        FixParser { validate_checksum: true, validate_body_length: true, max_message_size: 65_536 }
    }

    /// A parser with validation disabled, for maximum throughput.
    pub fn new_unchecked() -> (p: Self)
        ensures
            !p.checks_checksum(),
            !p.checks_body_length(),
            p.max_size() == 65536,
    {
        FixParser { validate_checksum: false, validate_body_length: false, max_message_size: 65_536 }
    }

    /// Set whether to validate checksums.
    pub fn validate_checksum(self, validate: bool) -> (p: Self)
        ensures
            p.checks_checksum() == validate,
            p.checks_body_length() == self.checks_body_length(),
            p.max_size() == self.max_size(),
    {
        let mut p = self;
        p.validate_checksum = validate;
        p
    }

    /// Set whether to validate body length.
    pub fn validate_body_length(self, validate: bool) -> (p: Self)
        ensures
            p.checks_checksum() == self.checks_checksum(),
            p.checks_body_length() == validate,
            p.max_size() == self.max_size(),
    {
        let mut p = self;
        p.validate_body_length = validate;
        p
    }

    /// Set the maximum message size.
    pub fn max_message_size(self, size: usize) -> (p: Self)
        ensures
            p.checks_checksum() == self.checks_checksum(),
            p.checks_body_length() == self.checks_body_length(),
            p.max_size() == size,
    {
        let mut p = self;
        p.max_message_size = size;
        p
    }

    /// Find the end of the first complete message in `buffer`: the position after the
    /// first `SOH 10=xxx SOH` trailer. Useful for framing a TCP stream.
    pub fn find_message_boundary(&self, buffer: &[u8]) -> (r: Option<usize>)
        ensures
            r matches Some(n) ==> first_boundary(buffer@, 0) == Some(n as int),
            r is None ==> first_boundary(buffer@, 0) is None,
    {
        let len = buffer.len();
        if len < 7 {
            return None;
        }
        let mut i: usize = 0;
        while i < len - 7
            invariant
                len == buffer@.len(),
                len >= 7,
                i <= len - 7,
                first_boundary(buffer@, 0) == first_boundary(buffer@, i as int),
            decreases len - i,
        {
            if buffer[i] == SOH && buffer[i + 1] == 49 && buffer[i + 2] == 48 && buffer[i + 3] == 61
                && buffer[i + 7] == SOH {
                return Some(i + 8);
            }
            i = i + 1;
        }
        None
    }
}

impl Default for FixParser {
    fn default() -> (p: Self)
        ensures
            p.checks_checksum(),
            p.checks_body_length(),
            p.max_size() == 65536,
    {
        Self::new()
    }
}

/// Read the `tag=value<SOH>` field that starts at `pos`: its tag, the value's start and
/// the value's length.
fn read_tag_value(buffer: &[u8], pos: usize) -> (r: Result<(u32, usize, usize), ParseError>)
    requires
        pos < buffer@.len(),
    ensures
        match r {
            Ok(f) => read_field(buffer@, pos as int) == Ok::<(u32, int, int), ParseError>(
                (f.0, f.1 as int, f.2 as int),
            ),
            Err(e) => read_field(buffer@, pos as int) == Err::<(u32, int, int), ParseError>(e),
        },
{
    let len = buffer.len();
    let tag_start = pos;
    let mut p = pos;
    let mut tag: u32 = 0;
    proof {
        lemma_scan_to(buffer@, tag_start as int, EQUALS);
        assert(buffer@.subrange(tag_start as int, tag_start as int) =~= Seq::<u8>::empty());
    }
    while p < len && buffer[p] != EQUALS
        invariant
            len == buffer@.len(),
            tag_start == pos,
            tag_start <= p <= len,
            scan_to(buffer@, tag_start as int, EQUALS) == scan_to(buffer@, p as int, EQUALS),
            all_digits(buffer@.subrange(tag_start as int, p as int)),
            tag == dec_value_u32(buffer@.subrange(tag_start as int, p as int)),
        decreases len - p,
    {
        let b = buffer[p];
        if b < 48 || b > 57 {
            proof {
                lemma_scan_to(buffer@, p + 1, EQUALS);
                let e = scan_to(buffer@, tag_start as int, EQUALS);
                assert(p < e);
                assert(buffer@.subrange(tag_start as int, e)[p - tag_start] == b);
                assert(!is_digit(buffer@.subrange(tag_start as int, e)[p - tag_start]));
                assert(!all_digits(buffer@.subrange(tag_start as int, e)));
                assert(read_field(buffer@, tag_start as int) == Err::<(u32, int, int), ParseError>(ParseError::InvalidTag));
            }
            return Err(ParseError::InvalidTag);
        }
        assert(buffer@.subrange(tag_start as int, p + 1).drop_last() =~= buffer@.subrange(
            tag_start as int,
            p as int,
        ));
        tag = tag.wrapping_mul(10).wrapping_add((b - 48) as u32);
        p = p + 1;
    }
    if p >= len || buffer[p] != EQUALS {
        return Err(ParseError::MalformedField);
    }
    p = p + 1;
    let value_start = p;
    proof {
        lemma_scan_to(buffer@, value_start as int, SOH);
    }
    while p < len && buffer[p] != SOH
        invariant
            len == buffer@.len(),
            value_start <= p <= len,
            scan_to(buffer@, value_start as int, SOH) == scan_to(buffer@, p as int, SOH),
        decreases len - p,
    {
        p = p + 1;
    }
    if p >= len {
        return Err(ParseError::MalformedField);
    }
    Ok((tag, value_start, p - value_start))
}

/// The BodyLength value: `acc = acc * 10 + (b - '0')` over its bytes, in wrapping word
/// arithmetic.
fn body_length_value(buffer: &[u8], start: usize, len: usize) -> (v: usize)
    requires
        start + len <= buffer@.len(),
    ensures
        v == dec_value_usize(buffer@.subrange(start as int, start + len)),
{
    let blen = buffer.len();
    let mut v: usize = 0;
    let mut k: usize = start;
    let end = start + len;
    assert(buffer@.subrange(start as int, start as int) =~= Seq::<u8>::empty());
    while k < end
        invariant
            start <= k <= end,
            end <= buffer@.len(),
            v == dec_value_usize(buffer@.subrange(start as int, k as int)),
        decreases end - k,
    {
        assert(buffer@.subrange(start as int, k + 1).drop_last() =~= buffer@.subrange(
            start as int,
            k as int,
        ));
        v = v.wrapping_mul(10).wrapping_add(buffer[k].wrapping_sub(48) as usize);
        k = k + 1;
    }
    v
}

/// Find where the CheckSum tag begins within the first `end` bytes.
fn find_checksum_tag_start(buffer: &[u8], end: usize) -> (r: usize)
    requires
        end <= buffer@.len(),
    ensures
        r == checksum_tag_start(buffer@, end as int),
{
    if end < 7 {
        return 0;
    }
    let mut i: usize = end - 4;
    while i > 0
        invariant
            end <= buffer@.len(),
            end >= 7,
            i <= end - 4,
            last_trailer_from(buffer@, end - 5) == last_trailer_from(buffer@, i - 1),
        decreases i,
    {
        let j = i - 1;
        if buffer[j] == SOH && buffer[j + 1] == 49 && buffer[j + 2] == 48 && buffer[j + 3] == 61 {
            return j + 1;
        }
        i = j;
    }
    if buffer[0] == 49 && buffer[1] == 48 && buffer[2] == 61 {
        return 0;
    }
    0
}

} // verus!
