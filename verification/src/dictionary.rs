//! The FIX data dictionary: field types and the standard FIX 4.4 field definitions.

use vstd::prelude::*;

verus! {

/// Field data types as defined in the FIX specification.
#[derive(Debug, Clone, Copy, PartialEq, Eq, Structural)]
pub enum FieldType {
    Int,
    Float,
    Qty,
    Price,
    Amt,
    Char,
    String,
    Boolean,
    Data,
    UtcTimestamp,
    UtcTimeOnly,
    UtcDateOnly,
    LocalMktDate,
    MonthYear,
    MultipleValueString,
    Currency,
    Exchange,
    Country,
    NumInGroup,
    SeqNum,
    Length,
}

/// Whether a field is required or optional in a given context.
#[derive(Debug, Clone, Copy, PartialEq, Eq, Structural)]
pub enum FieldPresence {
    Required,
    Optional,
}

/// Definition of a single FIX field.
#[derive(Debug, Clone)]
pub struct FieldDef {
    pub tag: u32,
    pub name: &'static str,
    pub field_type: FieldType,
}

/// The standard FIX 4.4 field definitions (a subset), in table order.
pub open spec fn standard_field_table() -> Seq<FieldDef> {
    seq![
        FieldDef { tag: 8, name: "BeginString", field_type: FieldType::String },
        FieldDef { tag: 9, name: "BodyLength", field_type: FieldType::Length },
        FieldDef { tag: 10, name: "CheckSum", field_type: FieldType::String },
        FieldDef { tag: 11, name: "ClOrdID", field_type: FieldType::String },
        FieldDef { tag: 14, name: "CumQty", field_type: FieldType::Qty },
        FieldDef { tag: 17, name: "ExecID", field_type: FieldType::String },
        FieldDef { tag: 21, name: "HandlInst", field_type: FieldType::Char },
        FieldDef { tag: 31, name: "LastPx", field_type: FieldType::Price },
        FieldDef { tag: 32, name: "LastQty", field_type: FieldType::Qty },
        FieldDef { tag: 34, name: "MsgSeqNum", field_type: FieldType::SeqNum },
        FieldDef { tag: 35, name: "MsgType", field_type: FieldType::String },
        FieldDef { tag: 37, name: "OrderID", field_type: FieldType::String },
        FieldDef { tag: 38, name: "OrderQty", field_type: FieldType::Qty },
        FieldDef { tag: 39, name: "OrdStatus", field_type: FieldType::Char },
        FieldDef { tag: 40, name: "OrdType", field_type: FieldType::Char },
        FieldDef { tag: 44, name: "Price", field_type: FieldType::Price },
        FieldDef { tag: 49, name: "SenderCompID", field_type: FieldType::String },
        FieldDef { tag: 52, name: "SendingTime", field_type: FieldType::UtcTimestamp },
        FieldDef { tag: 54, name: "Side", field_type: FieldType::Char },
        FieldDef { tag: 55, name: "Symbol", field_type: FieldType::String },
        FieldDef { tag: 56, name: "TargetCompID", field_type: FieldType::String },
        FieldDef { tag: 59, name: "TimeInForce", field_type: FieldType::Char },
        FieldDef { tag: 60, name: "TransactTime", field_type: FieldType::UtcTimestamp },
        FieldDef { tag: 98, name: "EncryptMethod", field_type: FieldType::Int },
        FieldDef { tag: 108, name: "HeartBtInt", field_type: FieldType::Int },
        FieldDef { tag: 150, name: "ExecType", field_type: FieldType::Char },
        FieldDef { tag: 151, name: "LeavesQty", field_type: FieldType::Qty },
        FieldDef { tag: 6, name: "AvgPx", field_type: FieldType::Price },
    ]
}

/// The first definition in `defs` whose tag is `tag`.
pub open spec fn first_with_tag(defs: Seq<FieldDef>, tag: u32) -> Option<FieldDef>
    decreases defs.len(),
{
    if defs.len() == 0 {
        None
    } else if defs[0].tag == tag {
        Some(defs[0])
    } else {
        first_with_tag(defs.skip(1), tag)
    }
}

/// The standard FIX 4.4 field definitions (a subset).
pub fn standard_fields() -> (v: Vec<FieldDef>)
    ensures
        v@ == standard_field_table(),
{
    let mut v: Vec<FieldDef> = Vec::new();
    v.push(FieldDef { tag: 8, name: "BeginString", field_type: FieldType::String });
    v.push(FieldDef { tag: 9, name: "BodyLength", field_type: FieldType::Length });
    v.push(FieldDef { tag: 10, name: "CheckSum", field_type: FieldType::String });
    v.push(FieldDef { tag: 11, name: "ClOrdID", field_type: FieldType::String });
    v.push(FieldDef { tag: 14, name: "CumQty", field_type: FieldType::Qty });
    v.push(FieldDef { tag: 17, name: "ExecID", field_type: FieldType::String });
    v.push(FieldDef { tag: 21, name: "HandlInst", field_type: FieldType::Char });
    v.push(FieldDef { tag: 31, name: "LastPx", field_type: FieldType::Price });
    v.push(FieldDef { tag: 32, name: "LastQty", field_type: FieldType::Qty });
    v.push(FieldDef { tag: 34, name: "MsgSeqNum", field_type: FieldType::SeqNum });
    v.push(FieldDef { tag: 35, name: "MsgType", field_type: FieldType::String });
    v.push(FieldDef { tag: 37, name: "OrderID", field_type: FieldType::String });
    v.push(FieldDef { tag: 38, name: "OrderQty", field_type: FieldType::Qty });
    v.push(FieldDef { tag: 39, name: "OrdStatus", field_type: FieldType::Char });
    v.push(FieldDef { tag: 40, name: "OrdType", field_type: FieldType::Char });
    v.push(FieldDef { tag: 44, name: "Price", field_type: FieldType::Price });
    v.push(FieldDef { tag: 49, name: "SenderCompID", field_type: FieldType::String });
    v.push(FieldDef { tag: 52, name: "SendingTime", field_type: FieldType::UtcTimestamp });
    v.push(FieldDef { tag: 54, name: "Side", field_type: FieldType::Char });
    v.push(FieldDef { tag: 55, name: "Symbol", field_type: FieldType::String });
    v.push(FieldDef { tag: 56, name: "TargetCompID", field_type: FieldType::String });
    v.push(FieldDef { tag: 59, name: "TimeInForce", field_type: FieldType::Char });
    v.push(FieldDef { tag: 60, name: "TransactTime", field_type: FieldType::UtcTimestamp });
    v.push(FieldDef { tag: 98, name: "EncryptMethod", field_type: FieldType::Int });
    v.push(FieldDef { tag: 108, name: "HeartBtInt", field_type: FieldType::Int });
    v.push(FieldDef { tag: 150, name: "ExecType", field_type: FieldType::Char });
    v.push(FieldDef { tag: 151, name: "LeavesQty", field_type: FieldType::Qty });
    v.push(FieldDef { tag: 6, name: "AvgPx", field_type: FieldType::Price });
    assert(v@ =~= standard_field_table());
    v
}

/// Look up a standard field definition by tag number.
pub fn lookup_field(tag: u32) -> (r: Option<FieldDef>)
    ensures
        r == first_with_tag(standard_field_table(), tag),
{
    let table = standard_fields();
    let mut i: usize = 0;
    assert(table@.skip(0) =~= table@);
    while i < table.len()
        invariant
            table@ == standard_field_table(),
            i <= table@.len(),
            first_with_tag(table@, tag) == first_with_tag(table@.skip(i as int), tag),
        decreases table@.len() - i,
    {
        let entry = &table[i];
        assert(table@.skip(i as int).skip(1) =~= table@.skip(i + 1));
        if entry.tag == tag {
            return Some(FieldDef { tag: entry.tag, name: entry.name, field_type: entry.field_type });
        }
        i = i + 1;
    }
    assert(table@.skip(i as int).len() == 0);
    None
}

} // verus!
