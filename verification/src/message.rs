//! Zero-copy view over a FIX message: field values are ranges of the wire buffer.

use vstd::prelude::*;
use vstd::utf8::valid_utf8;
use vstd::string::StringSliceAdditionalSpecFns;
use crate::tags;
use crate::decimal::{parse_i64, parse_u64, spec_parse_i64, spec_parse_u64};

verus! {

/// Maximum number of fields recorded for a single FIX message.
pub const MAX_FIELDS: usize = 512;

/// A single field entry: tag number and the byte range of its value in the buffer.
#[derive(Debug, Clone, Copy, Default)]
pub struct FieldEntry {
    pub tag: u32,
    pub offset: u32,
    pub length: u16,
}

impl FieldEntry {
    /// The entry for `tag` whose value occupies `length` bytes from `offset`.
    pub open spec fn spec_new(tag: u32, offset: u32, length: u16) -> FieldEntry {
        FieldEntry { tag, offset, length }
    }
}

/// Decode `bytes` as UTF-8 text.
///
/// Calls `std::str::from_utf8`; the contract states its documented behaviour: it succeeds
/// exactly on valid UTF-8 and the text it returns has the input as its encoding.
#[verifier::external_body]
pub(crate) fn utf8_str<'b>(bytes: &'b [u8]) -> (r: Option<&'b str>)
    ensures
        r is Some <==> valid_utf8(bytes@),
        r matches Some(s) ==> s.spec_bytes() == bytes@,
{
    std::str::from_utf8(bytes).ok()
}

/// The text that `utf8_str` gives for `bytes`, by its encoding.
pub open spec fn utf8_result_bytes(r: Option<&str>) -> Option<Seq<u8>> {
    match r {
        Some(s) => Some(s.spec_bytes()),
        None => None,
    }
}

/// The index of the first entry whose tag is `tag`.
pub open spec fn first_entry_index(entries: Seq<FieldEntry>, tag: u32) -> Option<int>
    decreases entries.len(),
{
    if entries.len() == 0 {
        None
    } else {
        match first_entry_index(entries.drop_last(), tag) {
            Some(i) => Some(i),
            None => if entries.last().tag == tag {
                Some(entries.len() - 1)
            } else {
                None
            },
        }
    }
}

/// The bytes of `buf` that entry `e` designates.
pub open spec fn entry_value(buf: Seq<u8>, e: FieldEntry) -> Seq<u8> {
    buf.subrange(e.offset as int, e.offset + e.length)
}

/// The value of the first field with tag `tag`, if any.
pub open spec fn lookup_value(buf: Seq<u8>, entries: Seq<FieldEntry>, tag: u32) -> Option<
    Seq<u8>,
> {
    match first_entry_index(entries, tag) {
        Some(i) => Some(entry_value(buf, entries[i])),
        None => None,
    }
}

/// `first_entry_index` finds the first entry with the tag, or tells that none has it.
pub proof fn lemma_first_entry_index(entries: Seq<FieldEntry>, tag: u32)
    ensures
        match first_entry_index(entries, tag) {
            Some(i) => 0 <= i < entries.len() && entries[i].tag == tag && forall|j: int|
                0 <= j < i ==> entries[j].tag != tag,
            None => forall|j: int| 0 <= j < entries.len() ==> entries[j].tag != tag,
        },
    decreases entries.len(),
{
    if entries.len() > 0 {
        lemma_first_entry_index(entries.drop_last(), tag);
        assert forall|j: int| 0 <= j < entries.len() - 1 implies entries.drop_last()[j]
            == entries[j] by {}
    }
}

proof fn lemma_first_entry_index_prefix(s: Seq<FieldEntry>, tag: u32, i: int)
    requires
        0 <= i < s.len(),
        s[i].tag == tag,
        first_entry_index(s.take(i), tag) is None,
    ensures
        first_entry_index(s, tag) == Some(i),
    decreases s.len(),
{
    if i == s.len() - 1 {
        assert(s.drop_last() =~= s.take(i));
    } else {
        assert(s.drop_last().take(i) =~= s.take(i));
        lemma_first_entry_index_prefix(s.drop_last(), tag, i);
    }
}

/// Zero-copy flyweight view over a FIX message buffer.
///
/// Does not own the buffer; holds up to `MAX_FIELDS` entries, each naming a byte range
/// of the buffer.
#[derive(Debug)]
pub struct MessageView<'a> {
    buffer: &'a [u8],
    fields: Vec<FieldEntry>,
    msg_type_idx: u16,
    checksum_valid: bool,
}

impl<'a> MessageView<'a> {
    /// The wire bytes this view reads.
    pub closed spec fn spec_buffer(&self) -> Seq<u8> {
        self.buffer@
    }

    /// The recorded field entries, in order.
    pub closed spec fn spec_fields(&self) -> Seq<FieldEntry> {
        self.fields@
    }

    /// The index of the most recently recorded MsgType entry (0 when none was recorded).
    pub closed spec fn spec_msg_type_idx(&self) -> nat {
        self.msg_type_idx as nat
    }

    pub closed spec fn spec_checksum_valid(&self) -> bool {
        self.checksum_valid
    }

    #[verifier::type_invariant]
    closed spec fn inv(&self) -> bool {
        &&& self.fields@.len() <= MAX_FIELDS
        &&& forall|i: int|
            0 <= i < self.fields@.len() ==> #[trigger] self.fields@[i].offset
                + self.fields@[i].length <= self.buffer@.len()
    }

    /// The value of the first field with tag `tag`.
    pub open spec fn spec_get_field(&self, tag: u32) -> Option<Seq<u8>> {
        lookup_value(self.spec_buffer(), self.spec_fields(), tag)
    }

    /// The MsgType value: the entry at the recorded index when it is a MsgType entry,
    /// otherwise the first MsgType entry.
    pub open spec fn spec_msg_type(&self) -> Option<Seq<u8>> {
        let idx = self.spec_msg_type_idx() as int;
        if idx < self.spec_fields().len() && self.spec_fields()[idx].tag == tags::MSG_TYPE {
            Some(entry_value(self.spec_buffer(), self.spec_fields()[idx]))
        } else {
            self.spec_get_field(tags::MSG_TYPE)
        }
    }

    /// Create a new empty view backed by the given buffer.
    pub fn new(buffer: &'a [u8]) -> (v: Self)
        ensures
            v.spec_buffer() == buffer@,
            v.spec_fields() == Seq::<FieldEntry>::empty(),
            v.spec_msg_type_idx() == 0,
            !v.spec_checksum_valid(),
    {
        MessageView { buffer, fields: Vec::new(), msg_type_idx: 0, checksum_valid: false }
    }

    /// Record a field entry; entries beyond `MAX_FIELDS` are dropped.
    pub fn add_field(&mut self, tag: u32, offset: u32, length: u16)
        requires
            offset + length <= old(self).spec_buffer().len(),
        ensures
            final(self).spec_buffer() == old(self).spec_buffer(),
            final(self).spec_checksum_valid() == old(self).spec_checksum_valid(),
            old(self).spec_fields().len() < MAX_FIELDS ==> {
                &&& final(self).spec_fields() == old(self).spec_fields().push(
                    FieldEntry::spec_new(tag, offset, length),
                )
                &&& final(self).spec_msg_type_idx() == if tag == tags::MSG_TYPE {
                    old(self).spec_fields().len()
                } else {
                    old(self).spec_msg_type_idx()
                }
            },
            old(self).spec_fields().len() >= MAX_FIELDS ==> {
                &&& final(self).spec_fields() == old(self).spec_fields()
                &&& final(self).spec_msg_type_idx() == old(self).spec_msg_type_idx()
            },
    {
        proof {
            use_type_invariant(&*self);
        }
        let count = self.fields.len();
        if count < MAX_FIELDS {
            let mut fields: Vec<FieldEntry> = Vec::new();
            std::mem::swap(&mut fields, &mut self.fields);
            fields.push(FieldEntry { tag, offset, length });
            self.fields = fields;
            if tag == tags::MSG_TYPE {
                self.msg_type_idx = count as u16;
            }
        }
    }

    /// Set the checksum validation result.
    pub fn set_checksum_valid(&mut self, valid: bool)
        ensures
            final(self).spec_checksum_valid() == valid,
            final(self).spec_buffer() == old(self).spec_buffer(),
            final(self).spec_fields() == old(self).spec_fields(),
            final(self).spec_msg_type_idx() == old(self).spec_msg_type_idx(),
    {
        proof {
            use_type_invariant(&*self);
        }
        self.checksum_valid = valid;
    }

    /// Whether the checksum was valid.
    pub fn is_checksum_valid(&self) -> (b: bool)
        ensures
            b == self.spec_checksum_valid(),
    {
        self.checksum_valid
    }

    /// The number of recorded fields.
    pub fn field_count(&self) -> (n: usize)
        ensures
            n == self.spec_fields().len(),
    {
        self.fields.len()
    }

    fn entry_slice(&self, i: usize) -> (r: &'a [u8])
        requires
            i < self.spec_fields().len(),
        ensures
            r@ == entry_value(self.spec_buffer(), self.spec_fields()[i as int]),
    {
        proof {
            use_type_invariant(self);
        }
        let offset = self.fields[i].offset as usize;
        let length = self.fields[i].length as usize;
        let buffer: &'a [u8] = self.buffer;
        let blen = buffer.len();
        assert(offset + length <= buffer@.len()) by {
            assert(self.fields@[i as int].offset + self.fields@[i as int].length <= self.buffer@.len());
        }
        &buffer[offset..offset + length]
    }

    /// The raw value of the first field with tag `tag`.
    pub fn get_field(&self, tag: u32) -> (r: Option<&'a [u8]>)
        ensures
            r matches Some(v) ==> self.spec_get_field(tag) == Some(v@),
            r is None ==> self.spec_get_field(tag) is None,
    {
        let n = self.fields.len();
        let mut i: usize = 0;
        while i < n
            invariant
                n == self.spec_fields().len(),
                i <= n,
                first_entry_index(self.spec_fields().take(i as int), tag) is None,
            decreases n - i,
        {
            assert(self.spec_fields().take(i + 1).drop_last() =~= self.spec_fields().take(
                i as int,
            ));
            if self.fields[i].tag == tag {
                proof {
                    lemma_first_entry_index_prefix(self.spec_fields(), tag, i as int);
                }
                return Some(self.entry_slice(i));
            }
            i = i + 1;
        }
        assert(self.spec_fields().take(n as int) =~= self.spec_fields());
        None
    }

    /// `r` is what `get_field_str(tag)` returns: the field's value as text when it is
    /// present and valid UTF-8, otherwise nothing.
    pub open spec fn str_field_is(&self, tag: u32, r: Option<&str>) -> bool {
        match self.spec_get_field(tag) {
            Some(v) => utf8_result_bytes(r) == if valid_utf8(v) {
                Some(v)
            } else {
                None::<Seq<u8>>
            },
            None => r is None,
        }
    }

    /// The value of the first field with tag `tag`, as text when it is valid UTF-8.
    pub fn get_field_str(&self, tag: u32) -> (r: Option<&'a str>)
        ensures
            self.str_field_is(tag, r),
    {
        match self.get_field(tag) {
            Some(bytes) => utf8_str(bytes),
            None => None,
        }
    }

    /// The value of the first field with tag `tag`, as a signed decimal.
    pub fn get_field_i64(&self, tag: u32) -> (r: Option<i64>)
        ensures
            r == match self.spec_get_field(tag) {
                Some(v) => spec_parse_i64(v),
                None => None,
            },
    {
        match self.get_field(tag) {
            Some(bytes) => parse_i64(bytes),
            None => None,
        }
    }

    /// The value of the first field with tag `tag`, as an unsigned decimal.
    pub fn get_field_u64(&self, tag: u32) -> (r: Option<u64>)
        ensures
            r == match self.spec_get_field(tag) {
                Some(v) => spec_parse_u64(v),
                None => None,
            },
    {
        match self.get_field(tag) {
            Some(bytes) => parse_u64(bytes),
            None => None,
        }
    }

    /// The MsgType (tag 35) value.
    pub fn msg_type(&self) -> (r: Option<&'a [u8]>)
        ensures
            r matches Some(v) ==> self.spec_msg_type() == Some(v@),
            r is None ==> self.spec_msg_type() is None,
    {
        let idx = self.msg_type_idx as usize;
        if idx < self.fields.len() && self.fields[idx].tag == tags::MSG_TYPE {
            Some(self.entry_slice(idx))
        } else {
            self.get_field(tags::MSG_TYPE)
        }
    }

    /// The MsgType as an enum variant.
    pub fn msg_type_enum(&self) -> (r: Option<MsgType>)
        ensures
            r == match self.spec_msg_type() {
                Some(v) => Some(msg_type_of(v)),
                None => None,
            },
    {
        match self.msg_type() {
            Some(bytes) => MsgType::from_bytes(bytes),
            None => None,
        }
    }

    /// The underlying buffer.
    pub fn buffer(&self) -> (r: &'a [u8])
        ensures
            r@ == self.spec_buffer(),
    {
        self.buffer
    }

    /// The recorded field entries.
    pub fn fields(&self) -> (r: &[FieldEntry])
        ensures
            r@ == self.spec_fields(),
            forall|i: int|
                0 <= i < r@.len() ==> #[trigger] r@[i].offset + r@[i].length <= self.spec_buffer().len(),
    {
        proof {
            use_type_invariant(self);
        }
        self.fields.as_slice()
    }

    /// BeginString (tag 8).
    pub fn begin_string(&self) -> (r: Option<&'a str>)
        ensures
            self.str_field_is(tags::BEGIN_STRING, r),
    {
        self.get_field_str(tags::BEGIN_STRING)
    }

    /// SenderCompID (tag 49).
    pub fn sender_comp_id(&self) -> (r: Option<&'a str>)
        ensures
            self.str_field_is(tags::SENDER_COMP_ID, r),
    {
        self.get_field_str(tags::SENDER_COMP_ID)
    }

    /// TargetCompID (tag 56).
    pub fn target_comp_id(&self) -> (r: Option<&'a str>)
        ensures
            self.str_field_is(tags::TARGET_COMP_ID, r),
    {
        self.get_field_str(tags::TARGET_COMP_ID)
    }

    /// MsgSeqNum (tag 34).
    pub fn msg_seq_num(&self) -> (r: Option<u64>)
        ensures
            r == match self.spec_get_field(tags::MSG_SEQ_NUM) {
                Some(v) => spec_parse_u64(v),
                None => None,
            },
    {
        self.get_field_u64(tags::MSG_SEQ_NUM)
    }
}

/// FIX MsgType values used for dispatch.
#[derive(Debug, Clone, Copy, PartialEq, Eq, Structural)]
pub enum MsgType {
    Heartbeat,
    TestRequest,
    ResendRequest,
    Reject,
    SequenceReset,
    Logout,
    Logon,
    NewOrderSingle,
    OrderCancelRequest,
    OrderCancelReplaceRequest,
    OrderStatusRequest,
    ExecutionReport,
    OrderCancelReject,
    MarketDataRequest,
    MarketDataSnapshot,
    MarketDataIncremental,
    QuoteRequest,
    Quote,
    TradeCaptureReport,
    Unknown,
}

/// The wire code of each message type ("?" for `Unknown`).
pub open spec fn msg_type_code(t: MsgType) -> Seq<u8> {
    match t {
        MsgType::Heartbeat => seq![48u8],
        MsgType::TestRequest => seq![49u8],
        MsgType::ResendRequest => seq![50u8],
        MsgType::Reject => seq![51u8],
        MsgType::SequenceReset => seq![52u8],
        MsgType::Logout => seq![53u8],
        MsgType::Logon => seq![65u8],
        MsgType::NewOrderSingle => seq![68u8],
        MsgType::OrderCancelRequest => seq![70u8],
        MsgType::OrderCancelReplaceRequest => seq![71u8],
        MsgType::OrderStatusRequest => seq![72u8],
        MsgType::ExecutionReport => seq![56u8],
        MsgType::OrderCancelReject => seq![57u8],
        MsgType::MarketDataRequest => seq![86u8],
        MsgType::MarketDataSnapshot => seq![87u8],
        MsgType::MarketDataIncremental => seq![88u8],
        MsgType::QuoteRequest => seq![82u8],
        MsgType::Quote => seq![83u8],
        MsgType::TradeCaptureReport => seq![65u8, 69u8],
        MsgType::Unknown => seq![63u8],
    }
}

/// The message type a one-byte wire code names.
pub open spec fn msg_type_of_byte(b: u8) -> MsgType {
    if b == 48 {
        MsgType::Heartbeat
    } else if b == 49 {
        MsgType::TestRequest
    } else if b == 50 {
        MsgType::ResendRequest
    } else if b == 51 {
        MsgType::Reject
    } else if b == 52 {
        MsgType::SequenceReset
    } else if b == 53 {
        MsgType::Logout
    } else if b == 65 {
        MsgType::Logon
    } else if b == 68 {
        MsgType::NewOrderSingle
    } else if b == 70 {
        MsgType::OrderCancelRequest
    } else if b == 71 {
        MsgType::OrderCancelReplaceRequest
    } else if b == 72 {
        MsgType::OrderStatusRequest
    } else if b == 56 {
        MsgType::ExecutionReport
    } else if b == 57 {
        MsgType::OrderCancelReject
    } else if b == 86 {
        MsgType::MarketDataRequest
    } else if b == 87 {
        MsgType::MarketDataSnapshot
    } else if b == 88 {
        MsgType::MarketDataIncremental
    } else if b == 82 {
        MsgType::QuoteRequest
    } else if b == 83 {
        MsgType::Quote
    } else {
        MsgType::Unknown
    }
}

/// The message type a wire code names; every unlisted code is `Unknown`.
pub open spec fn msg_type_of(s: Seq<u8>) -> MsgType {
    if s.len() == 1 {
        msg_type_of_byte(s[0])
    } else if s.len() == 2 && s[0] == 65u8 && s[1] == 69u8 {
        MsgType::TradeCaptureReport
    } else {
        MsgType::Unknown
    }
}

/// Whether a message type belongs to the session layer.
pub open spec fn spec_is_session_level(t: MsgType) -> bool {
    match t {
        MsgType::Heartbeat | MsgType::TestRequest | MsgType::ResendRequest | MsgType::Reject
        | MsgType::SequenceReset | MsgType::Logout | MsgType::Logon => true,
        _ => false,
    }
}

impl MsgType {
    /// The message type named by a wire code. Never `None`: unknown codes give `Unknown`.
    pub fn from_bytes(bytes: &[u8]) -> (r: Option<MsgType>)
        ensures
            r == Some(msg_type_of(bytes@)),
    {
        if bytes.len() == 1 {
            let b = bytes[0];
            let t = if b == 48 {
                MsgType::Heartbeat
            } else if b == 49 {
                MsgType::TestRequest
            } else if b == 50 {
                MsgType::ResendRequest
            } else if b == 51 {
                MsgType::Reject
            } else if b == 52 {
                MsgType::SequenceReset
            } else if b == 53 {
                MsgType::Logout
            } else if b == 65 {
                MsgType::Logon
            } else if b == 68 {
                MsgType::NewOrderSingle
            } else if b == 70 {
                MsgType::OrderCancelRequest
            } else if b == 71 {
                MsgType::OrderCancelReplaceRequest
            } else if b == 72 {
                MsgType::OrderStatusRequest
            } else if b == 56 {
                MsgType::ExecutionReport
            } else if b == 57 {
                MsgType::OrderCancelReject
            } else if b == 86 {
                MsgType::MarketDataRequest
            } else if b == 87 {
                MsgType::MarketDataSnapshot
            } else if b == 88 {
                MsgType::MarketDataIncremental
            } else if b == 82 {
                MsgType::QuoteRequest
            } else if b == 83 {
                MsgType::Quote
            } else {
                MsgType::Unknown
            };
            Some(t)
        } else if bytes.len() == 2 && bytes[0] == 65 && bytes[1] == 69 {
            Some(MsgType::TradeCaptureReport)
        } else {
            Some(MsgType::Unknown)
        }
    }

    /// The wire code of this message type.
    pub fn as_bytes(&self) -> (r: &'static [u8])
        ensures
            r@ == msg_type_code(*self),
    {
        let r: &'static [u8] = match self {
            MsgType::Heartbeat => &[48u8],
            MsgType::TestRequest => &[49u8],
            MsgType::ResendRequest => &[50u8],
            MsgType::Reject => &[51u8],
            MsgType::SequenceReset => &[52u8],
            MsgType::Logout => &[53u8],
            MsgType::Logon => &[65u8],
            MsgType::NewOrderSingle => &[68u8],
            MsgType::OrderCancelRequest => &[70u8],
            MsgType::OrderCancelReplaceRequest => &[71u8],
            MsgType::OrderStatusRequest => &[72u8],
            MsgType::ExecutionReport => &[56u8],
            MsgType::OrderCancelReject => &[57u8],
            MsgType::MarketDataRequest => &[86u8],
            MsgType::MarketDataSnapshot => &[87u8],
            MsgType::MarketDataIncremental => &[88u8],
            MsgType::QuoteRequest => &[82u8],
            MsgType::Quote => &[83u8],
            MsgType::TradeCaptureReport => &[65u8, 69u8],
            MsgType::Unknown => &[63u8],
        };
        r
    }

    /// Whether this is a session-level (administrative) message type.
    pub fn is_session_level(&self) -> (b: bool)
        ensures
            b == spec_is_session_level(*self),
    {
        match self {
            MsgType::Heartbeat | MsgType::TestRequest | MsgType::ResendRequest | MsgType::Reject
            | MsgType::SequenceReset | MsgType::Logout | MsgType::Logon => true,
            _ => false,
        }
    }

    /// Same as `is_session_level`.
    pub fn is_admin(&self) -> (b: bool)
        ensures
            b == spec_is_session_level(*self),
    {
        self.is_session_level()
    }
}

/// MsgType codes follow the FIX standard's MsgType (tag 35) table: Heartbeat "0",
/// TestRequest "1", ResendRequest "2", Reject "3", SequenceReset "4", Logout "5", Logon
/// "A", NewOrderSingle "D", OrderCancelRequest "F", OrderCancelReplaceRequest "G",
/// OrderStatusRequest "H", ExecutionReport "8", OrderCancelReject "9", MarketDataRequest
/// "V", MarketDataSnapshot "W", MarketDataIncremental "X", QuoteRequest "R", Quote "S",
/// TradeCaptureReport "AE"; and a code that names a type is read back as that type.
pub proof fn lemma_msg_type_codes(s: Seq<u8>)
    ensures
        msg_type_code(MsgType::Heartbeat) == seq!['0' as u8],
        msg_type_code(MsgType::TestRequest) == seq!['1' as u8],
        msg_type_code(MsgType::ResendRequest) == seq!['2' as u8],
        msg_type_code(MsgType::Reject) == seq!['3' as u8],
        msg_type_code(MsgType::SequenceReset) == seq!['4' as u8],
        msg_type_code(MsgType::Logout) == seq!['5' as u8],
        msg_type_code(MsgType::Logon) == seq!['A' as u8],
        msg_type_code(MsgType::NewOrderSingle) == seq!['D' as u8],
        msg_type_code(MsgType::OrderCancelRequest) == seq!['F' as u8],
        msg_type_code(MsgType::OrderCancelReplaceRequest) == seq!['G' as u8],
        msg_type_code(MsgType::OrderStatusRequest) == seq!['H' as u8],
        msg_type_code(MsgType::ExecutionReport) == seq!['8' as u8],
        msg_type_code(MsgType::OrderCancelReject) == seq!['9' as u8],
        msg_type_code(MsgType::MarketDataRequest) == seq!['V' as u8],
        msg_type_code(MsgType::MarketDataSnapshot) == seq!['W' as u8],
        msg_type_code(MsgType::MarketDataIncremental) == seq!['X' as u8],
        msg_type_code(MsgType::QuoteRequest) == seq!['R' as u8],
        msg_type_code(MsgType::Quote) == seq!['S' as u8],
        msg_type_code(MsgType::TradeCaptureReport) == seq!['A' as u8, 'E' as u8],
        msg_type_of(s) != MsgType::Unknown ==> msg_type_code(msg_type_of(s)) == s,
{
    if msg_type_of(s) != MsgType::Unknown {
        if s.len() == 1 {
            assert(s =~= seq![s[0]]);
        } else {
            assert(s =~= seq![65u8, 69u8]);
        }
    }
}

/// Reading back the wire code of any message type gives that type.
pub proof fn lemma_msg_type_roundtrip(t: MsgType)
    ensures
        msg_type_of(msg_type_code(t)) == t,
{
}

/// FIX Side (tag 54) values.
#[derive(Debug, Clone, Copy, PartialEq, Eq, Structural)]
pub enum Side {
    Buy,
    Sell,
    BuyMinus,
    SellPlus,
    SellShort,
    SellShortExempt,
    Cross,
}

/// The side named by a wire byte.
pub open spec fn side_of(b: u8) -> Option<Side> {
    if b == 49 {
        Some(Side::Buy)
    } else if b == 50 {
        Some(Side::Sell)
    } else if b == 51 {
        Some(Side::BuyMinus)
    } else if b == 52 {
        Some(Side::SellPlus)
    } else if b == 53 {
        Some(Side::SellShort)
    } else if b == 54 {
        Some(Side::SellShortExempt)
    } else if b == 56 {
        Some(Side::Cross)
    } else {
        None
    }
}

impl Side {
    pub fn from_byte(b: u8) -> (r: Option<Side>)
        ensures
            r == side_of(b),
    {
        if b == 49 {
            Some(Side::Buy)
        } else if b == 50 {
            Some(Side::Sell)
        } else if b == 51 {
            Some(Side::BuyMinus)
        } else if b == 52 {
            Some(Side::SellPlus)
        } else if b == 53 {
            Some(Side::SellShort)
        } else if b == 54 {
            Some(Side::SellShortExempt)
        } else if b == 56 {
            Some(Side::Cross)
        } else {
            None
        }
    }
}

/// FIX OrdType (tag 40) values.
#[derive(Debug, Clone, Copy, PartialEq, Eq, Structural)]
pub enum OrdType {
    Market,
    Limit,
    Stop,
    StopLimit,
}

/// The order type named by a wire byte.
pub open spec fn ord_type_of(b: u8) -> Option<OrdType> {
    if b == 49 {
        Some(OrdType::Market)
    } else if b == 50 {
        Some(OrdType::Limit)
    } else if b == 51 {
        Some(OrdType::Stop)
    } else if b == 52 {
        Some(OrdType::StopLimit)
    } else {
        None
    }
}

impl OrdType {
    pub fn from_byte(b: u8) -> (r: Option<OrdType>)
        ensures
            r == ord_type_of(b),
    {
        if b == 49 {
            Some(OrdType::Market)
        } else if b == 50 {
            Some(OrdType::Limit)
        } else if b == 51 {
            Some(OrdType::Stop)
        } else if b == 52 {
            Some(OrdType::StopLimit)
        } else {
            None
        }
    }
}


/// Side and OrdType codes follow the FIX tables (Side, tag 54: Buy "1", Sell "2", BuyMinus
/// "3", SellPlus "4", SellShort "5", SellShortExempt "6", Cross "8"; OrdType, tag 40:
/// Market "1", Limit "2", Stop "3", StopLimit "4"), and no other byte names one.
pub proof fn lemma_side_and_ord_type_codes(b: u8)
    ensures
        side_of('1' as u8) == Some(Side::Buy),
        side_of('2' as u8) == Some(Side::Sell),
        side_of('3' as u8) == Some(Side::BuyMinus),
        side_of('4' as u8) == Some(Side::SellPlus),
        side_of('5' as u8) == Some(Side::SellShort),
        side_of('6' as u8) == Some(Side::SellShortExempt),
        side_of('8' as u8) == Some(Side::Cross),
        side_of(b) is Some <==> ('1' as u8 <= b <= '6' as u8 || b == '8' as u8),
        ord_type_of('1' as u8) == Some(OrdType::Market),
        ord_type_of('2' as u8) == Some(OrdType::Limit),
        ord_type_of('3' as u8) == Some(OrdType::Stop),
        ord_type_of('4' as u8) == Some(OrdType::StopLimit),
        ord_type_of(b) is Some <==> '1' as u8 <= b <= '4' as u8,
{
}

} // verus!
