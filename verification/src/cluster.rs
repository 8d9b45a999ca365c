//! Replicated session state for active-active high availability: a Raft-style node
//! (elections by majority vote, a log of session-state changes) and the byte encoding of
//! session states used in log entries and snapshots.

use vstd::prelude::*;
use vstd::bytes::{
    spec_u16_from_le_bytes, spec_u16_to_le_bytes, spec_u32_from_le_bytes, spec_u32_to_le_bytes,
    spec_u64_from_le_bytes, spec_u64_to_le_bytes, u16_from_le_bytes, u16_to_le_bytes,
    u32_from_le_bytes, u32_to_le_bytes, u64_from_le_bytes, u64_to_le_bytes,
};
use vstd::utf8::{decode_utf8, encode_utf8, valid_utf8};
use vstd::string::StringSliceAdditionalSpecFns;
use crate::message::utf8_str;
use crate::text::str_equal;

verus! {

/// Cluster node role.
#[derive(Debug, Clone, Copy, PartialEq, Eq, Structural)]
pub enum NodeRole {
    Leader,
    Follower,
    Candidate,
}

/// Cluster node state.
#[derive(Debug, Clone, Copy, PartialEq, Eq, Structural)]
pub enum NodeState {
    Joining,
    Active,
    Snapshotting,
    Left,
}

/// Cluster node identity.
#[derive(Debug, Clone)]
pub struct NodeId {
    pub id: u32,
    pub address: String,
    pub port: u16,
}

/// Cluster configuration.
#[derive(Debug, Clone)]
pub struct ClusterConfig {
    pub node_id: NodeId,
    pub peers: Vec<NodeId>,
    pub election_timeout_ms: u64,
    pub heartbeat_interval_ms: u64,
    pub snapshot_interval_msgs: u64,
    pub log_dir: String,
}

impl Default for ClusterConfig {
    /// Node 0 at 127.0.0.1:9000, no peers, 300 ms election timeout, 100 ms heartbeats,
    /// a snapshot every 10 000 messages, logs under /tmp/velocitas-cluster.
    fn default() -> (c: Self)
        ensures
            c.node_id.id == 0,
            c.node_id.address@ == "127.0.0.1"@,
            c.node_id.port == 9000,
            c.peers@.len() == 0,
            c.election_timeout_ms == 300,
            c.heartbeat_interval_ms == 100,
            c.snapshot_interval_msgs == 10000,
            c.log_dir@ == "/tmp/velocitas-cluster"@,
    {
        ClusterConfig {
            node_id: NodeId { id: 0, address: "127.0.0.1".to_owned(), port: 9000 },
            peers: Vec::new(),
            election_timeout_ms: 300,
            heartbeat_interval_ms: 100,
            snapshot_interval_msgs: 10_000,
            log_dir: "/tmp/velocitas-cluster".to_owned(),
        }
    }
}

/// The port of node `id` in a local cluster: 9000 plus the id, in 16-bit arithmetic.
pub open spec fn local_port(id: u32) -> u16 {
    9000u16.wrapping_add(id as u16)
}

impl ClusterConfig {
    /// A single-node cluster (it becomes leader as soon as it starts).
    pub fn single_node(id: u32) -> (c: Self)
        ensures
            c.node_id.id == id,
            c.node_id.address@ == "127.0.0.1"@,
            c.node_id.port == local_port(id),
            c.peers@.len() == 0,
            c.election_timeout_ms == 300,
            c.heartbeat_interval_ms == 100,
            c.snapshot_interval_msgs == 10000,
            c.log_dir@ == "/tmp/velocitas-cluster"@,
    {
        ClusterConfig {
            node_id: NodeId {
                id,
                address: "127.0.0.1".to_owned(),
                port: 9000u16.wrapping_add(id as u16),
            },
            peers: Vec::new(),
            election_timeout_ms: 300,
            heartbeat_interval_ms: 100,
            snapshot_interval_msgs: 10_000,
            log_dir: "/tmp/velocitas-cluster".to_owned(),
        }
    }

    /// A node of a cluster with the given peers.
    pub fn three_node(id: u32, peers: Vec<NodeId>) -> (c: Self)
        ensures
            c.node_id.id == id,
            c.node_id.address@ == "127.0.0.1"@,
            c.node_id.port == local_port(id),
            c.peers == peers,
            c.election_timeout_ms == 300,
            c.heartbeat_interval_ms == 100,
            c.snapshot_interval_msgs == 10000,
            c.log_dir@ == "/tmp/velocitas-cluster"@,
    {
        ClusterConfig {
            node_id: NodeId {
                id,
                address: "127.0.0.1".to_owned(),
                port: 9000u16.wrapping_add(id as u16),
            },
            peers,
            election_timeout_ms: 300,
            heartbeat_interval_ms: 100,
            snapshot_interval_msgs: 10_000,
            log_dir: "/tmp/velocitas-cluster".to_owned(),
        }
    }
}

/// Kinds of replicated log entries.
#[derive(Debug, Clone, Copy, PartialEq, Eq, Structural)]
pub enum LogEntryType {
    SessionStateChange,
    SequenceUpdate,
    MessageJournal,
    Configuration,
    Snapshot,
}

/// A log entry in the replicated state machine.
#[derive(Debug, Clone)]
pub struct LogEntry {
    pub term: u64,
    pub index: u64,
    pub entry_type: LogEntryType,
    pub data: Vec<u8>,
}

/// Replicated session state: what is synchronized across the cluster.
#[derive(Debug, Clone)]
pub struct ReplicatedSessionState {
    pub session_id: String,
    pub sender_comp_id: String,
    pub target_comp_id: String,
    pub outbound_seq_num: u64,
    pub inbound_seq_num: u64,
    pub state: u8,
    pub last_updated_ms: u64,
}

/// A replicated session state as values: its texts as characters.
#[verifier::ext_equal]
pub struct SessionStateView {
    pub session_id: Seq<char>,
    pub sender_comp_id: Seq<char>,
    pub target_comp_id: Seq<char>,
    pub outbound_seq_num: u64,
    pub inbound_seq_num: u64,
    pub state: u8,
    pub last_updated_ms: u64,
}

impl View for ReplicatedSessionState {
    type V = SessionStateView;

    open spec fn view(&self) -> SessionStateView {
        SessionStateView {
            session_id: self.session_id@,
            sender_comp_id: self.sender_comp_id@,
            target_comp_id: self.target_comp_id@,
            outbound_seq_num: self.outbound_seq_num,
            inbound_seq_num: self.inbound_seq_num,
            state: self.state,
            last_updated_ms: self.last_updated_ms,
        }
    }
}

/// A text as stored: its UTF-8 length as a 16-bit little-endian number (truncated to 16
/// bits), then its UTF-8 bytes.
pub open spec fn text_record(s: Seq<char>) -> Seq<u8> {
    spec_u16_to_le_bytes(encode_utf8(s).len() as u16) + encode_utf8(s)
}

/// The byte encoding of a session state: the three texts, then outbound and inbound
/// sequence numbers, the state byte and the update time, numbers little-endian.
pub open spec fn encode_state(v: SessionStateView) -> Seq<u8> {
    text_record(v.session_id) + text_record(v.sender_comp_id) + text_record(v.target_comp_id)
        + spec_u64_to_le_bytes(v.outbound_seq_num) + spec_u64_to_le_bytes(v.inbound_seq_num)
        + seq![v.state] + spec_u64_to_le_bytes(v.last_updated_ms)
}

/// Reading a text record at `off`: the text and where the next field starts; nothing when
/// the record runs past the end or is not UTF-8.
pub open spec fn read_text(data: Seq<u8>, off: int) -> Option<(Seq<char>, int)> {
    if off + 2 > data.len() {
        None
    } else {
        let len = spec_u16_from_le_bytes(data.subrange(off, off + 2)) as int;
        let start = off + 2;
        if start + len > data.len() {
            None
        } else if !valid_utf8(data.subrange(start, start + len)) {
            None
        } else {
            Some((decode_utf8(data.subrange(start, start + len)), start + len))
        }
    }
}

/// Decoding a session state from the front of `data` (bytes after it are ignored).
pub open spec fn decode_state(data: Seq<u8>) -> Option<SessionStateView> {
    match read_text(data, 0) {
        None => None,
        Some(a) => match read_text(data, a.1) {
            None => None,
            Some(b) => match read_text(data, b.1) {
                None => None,
                Some(c) => {
                    let o = c.1;
                    if o + 25 > data.len() {
                        None
                    } else {
                        Some(
                            SessionStateView {
                                session_id: a.0,
                                sender_comp_id: b.0,
                                target_comp_id: c.0,
                                outbound_seq_num: spec_u64_from_le_bytes(data.subrange(o, o + 8)),
                                inbound_seq_num: spec_u64_from_le_bytes(data.subrange(o + 8, o + 16)),
                                state: data[o + 16],
                                last_updated_ms: spec_u64_from_le_bytes(
                                    data.subrange(o + 17, o + 25),
                                ),
                            },
                        )
                    }
                },
            },
        },
    }
}

/// Append `data` to `buf`.
fn extend_bytes(buf: &mut Vec<u8>, data: &[u8])
    ensures
        final(buf)@ == old(buf)@ + data@,
{
    let n = data.len();
    let mut i: usize = 0;
    while i < n
        invariant
            n == data@.len(),
            i <= n,
            buf@ == old(buf)@ + data@.take(i as int),
        decreases n - i,
    {
        buf.push(data[i]);
        assert(data@.take(i + 1) =~= data@.take(i as int).push(data@[i as int]));
        i = i + 1;
    }
    assert(data@.take(n as int) =~= data@);
}

/// Append a text record for `s`.
fn push_text(buf: &mut Vec<u8>, s: &String)
    ensures
        final(buf)@ == old(buf)@ + text_record(s@),
{
    let bytes = s.as_str().as_bytes();
    let len = u16_to_le_bytes(bytes.len() as u16);
    extend_bytes(buf, len.as_slice());
    extend_bytes(buf, bytes);
    assert(final(buf)@ =~= old(buf)@ + text_record(s@));
}

/// Encode a session state into bytes.
pub fn encode_session_state(state: &ReplicatedSessionState) -> (buf: Vec<u8>)
    ensures
        buf@ == encode_state(state@),
{
    let mut buf: Vec<u8> = Vec::new();
    push_text(&mut buf, &state.session_id);
    push_text(&mut buf, &state.sender_comp_id);
    push_text(&mut buf, &state.target_comp_id);
    extend_bytes(&mut buf, u64_to_le_bytes(state.outbound_seq_num).as_slice());
    extend_bytes(&mut buf, u64_to_le_bytes(state.inbound_seq_num).as_slice());
    buf.push(state.state);
    extend_bytes(&mut buf, u64_to_le_bytes(state.last_updated_ms).as_slice());
    assert(buf@ =~= encode_state(state@));
    buf
}

/// Read a text record at `*offset`, advancing `*offset` past it.
fn read_str(data: &[u8], offset: &mut usize) -> (r: Option<String>)
    requires
        *old(offset) <= data@.len(),
    ensures
        match read_text(data@, *old(offset) as int) {
            Some(t) => r matches Some(s) && s@ == t.0 && *final(offset) == t.1,
            None => r is None,
        },
        *final(offset) <= data@.len(),
{
    let off = *offset;
    if data.len() - off < 2 {
        return None;
    }
    let len = u16_from_le_bytes(&data[off..off + 2]) as usize;
    let start = off + 2;
    if len > data.len() - start {
        return None;
    }
    let text = match utf8_str(&data[start..start + len]) {
        Some(t) => t,
        None => {
            return None;
        },
    };
    proof {
        vstd::utf8::encode_utf8_decode_utf8(text@);
    }
    *offset = start + len;
    Some(text.to_owned())
}

/// Decode a session state from the front of `data`.
pub fn decode_session_state(data: &[u8]) -> (r: Option<ReplicatedSessionState>)
    ensures
        match decode_state(data@) {
            Some(v) => r matches Some(s) && s@ == v,
            None => r is None,
        },
{
    let mut offset: usize = 0;
    let session_id = match read_str(data, &mut offset) {
        Some(s) => s,
        None => {
            return None;
        },
    };
    let sender_comp_id = match read_str(data, &mut offset) {
        Some(s) => s,
        None => {
            return None;
        },
    };
    let target_comp_id = match read_str(data, &mut offset) {
        Some(s) => s,
        None => {
            return None;
        },
    };
    if data.len() - offset < 8 + 8 + 1 + 8 {
        return None;
    }
    let outbound_seq_num = u64_from_le_bytes(&data[offset..offset + 8]);
    offset = offset + 8;
    let inbound_seq_num = u64_from_le_bytes(&data[offset..offset + 8]);
    offset = offset + 8;
    let state = data[offset];
    offset = offset + 1;
    let last_updated_ms = u64_from_le_bytes(&data[offset..offset + 8]);
    Some(
        ReplicatedSessionState {
            session_id,
            sender_comp_id,
            target_comp_id,
            outbound_seq_num,
            inbound_seq_num,
            state,
            last_updated_ms,
        },
    )
}

proof fn lemma_read_text_record(data: Seq<u8>, off: int, s: Seq<char>)
    requires
        0 <= off,
        off + text_record(s).len() <= data.len(),
        data.subrange(off, off + text_record(s).len()) == text_record(s),
        encode_utf8(s).len() < 0x1_0000,
    ensures
        read_text(data, off) == Some((s, off + text_record(s).len())),
{
    let e = encode_utf8(s);
    let rec = text_record(s);
    vstd::bytes::lemma_auto_spec_u16_to_from_le_bytes();
    assert(spec_u16_to_le_bytes(e.len() as u16).len() == 2);
    assert(data.subrange(off, off + 2) =~= rec.subrange(0, 2));
    assert(rec.subrange(0, 2) =~= spec_u16_to_le_bytes(e.len() as u16));
    assert(spec_u16_from_le_bytes(data.subrange(off, off + 2)) == e.len() as u16);
    assert((e.len() as u16) as int == e.len());
    assert(data.subrange(off + 2, off + 2 + e.len()) =~= rec.subrange(2, 2 + e.len() as int));
    assert(rec.subrange(2, 2 + e.len() as int) =~= e);
    vstd::utf8::encode_utf8_valid_utf8(s);
    vstd::utf8::encode_utf8_decode_utf8(s);
}

/// Decoding gives back what was encoded, whatever follows it, when each text's UTF-8
/// encoding is shorter than 64 KiB (longer ones have their length truncated to 16 bits).
pub proof fn lemma_decode_encode_state(v: SessionStateView, rest: Seq<u8>)
    requires
        encode_utf8(v.session_id).len() < 0x1_0000,
        encode_utf8(v.sender_comp_id).len() < 0x1_0000,
        encode_utf8(v.target_comp_id).len() < 0x1_0000,
    ensures
        decode_state(encode_state(v) + rest) == Some(v),
{
    let data = encode_state(v) + rest;
    let r1 = text_record(v.session_id);
    let r2 = text_record(v.sender_comp_id);
    let r3 = text_record(v.target_comp_id);
    let o1 = r1.len() as int;
    let o2 = o1 + r2.len();
    let o3 = o2 + r3.len();
    assert(data.subrange(0, o1) =~= r1);
    lemma_read_text_record(data, 0, v.session_id);
    assert(data.subrange(o1, o2) =~= r2);
    lemma_read_text_record(data, o1, v.sender_comp_id);
    assert(data.subrange(o2, o3) =~= r3);
    lemma_read_text_record(data, o2, v.target_comp_id);
    vstd::bytes::lemma_auto_spec_u64_to_from_le_bytes();
    assert(spec_u64_to_le_bytes(v.outbound_seq_num).len() == 8);
    assert(spec_u64_to_le_bytes(v.inbound_seq_num).len() == 8);
    assert(spec_u64_to_le_bytes(v.last_updated_ms).len() == 8);
    assert(data.subrange(o3, o3 + 8) =~= spec_u64_to_le_bytes(v.outbound_seq_num));
    assert(data.subrange(o3 + 8, o3 + 16) =~= spec_u64_to_le_bytes(v.inbound_seq_num));
    assert(data[o3 + 16] == v.state);
    assert(data.subrange(o3 + 17, o3 + 25) =~= spec_u64_to_le_bytes(v.last_updated_ms));
    assert(decode_state(data) =~= Some(v));
}

/// A text record cut short at the end of `data` does not read.
proof fn lemma_read_text_cut(data: Seq<u8>, off: int, s: Seq<char>)
    requires
        0 <= off <= data.len(),
        data.len() < off + text_record(s).len(),
        forall|i: int| off <= i < data.len() ==> data[i] == #[trigger] text_record(s)[i - off],
        encode_utf8(s).len() < 0x1_0000,
    ensures
        read_text(data, off) is None,
{
    let e = encode_utf8(s);
    let rec = text_record(s);
    if off + 2 <= data.len() {
        vstd::bytes::lemma_auto_spec_u16_to_from_le_bytes();
        assert(spec_u16_to_le_bytes(e.len() as u16).len() == 2);
        assert forall|i: int| 0 <= i < 2 implies data.subrange(off, off + 2)[i] == rec.subrange(0, 2)[i] by {
            assert(data[off + i] == text_record(s)[(off + i) - off]);
        }
        assert(data.subrange(off, off + 2) =~= rec.subrange(0, 2));
        assert(rec.subrange(0, 2) =~= spec_u16_to_le_bytes(e.len() as u16));
        assert((e.len() as u16) as int == e.len());
    }
}

/// No proper prefix of an encoded session state decodes (the texts' UTF-8 encodings each
/// shorter than 64 KiB).
pub proof fn lemma_decode_prefix_none(v: SessionStateView, k: int)
    requires
        encode_utf8(v.session_id).len() < 0x1_0000,
        encode_utf8(v.sender_comp_id).len() < 0x1_0000,
        encode_utf8(v.target_comp_id).len() < 0x1_0000,
        0 <= k < encode_state(v).len(),
    ensures
        decode_state(encode_state(v).take(k)) is None,
{
    let e = encode_state(v);
    let data = e.take(k);
    let r1 = text_record(v.session_id);
    let r2 = text_record(v.sender_comp_id);
    let r3 = text_record(v.target_comp_id);
    let o1 = r1.len() as int;
    let o2 = o1 + r2.len();
    let o3 = o2 + r3.len();
    vstd::bytes::lemma_auto_spec_u64_to_from_le_bytes();
    assert(spec_u64_to_le_bytes(v.outbound_seq_num).len() == 8);
    assert(spec_u64_to_le_bytes(v.inbound_seq_num).len() == 8);
    assert(spec_u64_to_le_bytes(v.last_updated_ms).len() == 8);
    assert(e.len() == o3 + 25);
    assert forall|i: int| 0 <= i < o1 implies e[i] == #[trigger] r1[i] by {}
    assert forall|i: int| o1 <= i < o2 implies e[i] == #[trigger] r2[i - o1] by {}
    assert forall|i: int| o2 <= i < o3 implies e[i] == #[trigger] r3[i - o2] by {}
    if k < o1 {
        assert forall|i: int| 0 <= i < data.len() implies data[i] == #[trigger] r1[i - 0] by {}
        lemma_read_text_cut(data, 0, v.session_id);
    } else {
        assert(data.subrange(0, o1) =~= r1);
        lemma_read_text_record(data, 0, v.session_id);
        if k < o2 {
            assert forall|i: int| o1 <= i < data.len() implies data[i] == #[trigger] r2[i - o1] by {}
            lemma_read_text_cut(data, o1, v.sender_comp_id);
        } else {
            assert(data.subrange(o1, o2) =~= r2);
            lemma_read_text_record(data, o1, v.sender_comp_id);
            if k < o3 {
                assert forall|i: int| o2 <= i < data.len() implies data[i] == #[trigger] r3[i - o2] by {}
                lemma_read_text_cut(data, o2, v.target_comp_id);
            } else {
                assert(data.subrange(o2, o3) =~= r3);
                lemma_read_text_record(data, o2, v.target_comp_id);
            }
        }
    }
}

/// The records of a snapshot: for each state, its encoding's length (32-bit
/// little-endian, truncated) and the encoding.
pub open spec fn snapshot_records(states: Seq<SessionStateView>) -> Seq<u8>
    decreases states.len(),
{
    if states.len() == 0 {
        Seq::empty()
    } else {
        spec_u32_to_le_bytes(encode_state(states[0]).len() as u32) + encode_state(states[0])
            + snapshot_records(states.skip(1))
    }
}

/// A snapshot: the number of states (32-bit little-endian, truncated), then their records.
pub open spec fn snapshot_bytes(states: Seq<SessionStateView>) -> Seq<u8> {
    spec_u32_to_le_bytes(states.len() as u32) + snapshot_records(states)
}

/// The states read from up to `remaining` records starting at `off`: reading stops at a
/// record that runs past the end; a record that does not decode is skipped.
pub open spec fn restore_from(data: Seq<u8>, off: int, remaining: nat) -> Seq<SessionStateView>
    decreases remaining,
{
    if remaining == 0 || off < 0 || off + 4 > data.len() {
        Seq::empty()
    } else {
        let len = spec_u32_from_le_bytes(data.subrange(off, off + 4)) as int;
        let start = off + 4;
        if start + len > data.len() {
            Seq::empty()
        } else {
            let rest = restore_from(data, start + len, (remaining - 1) as nat);
            match decode_state(data.subrange(start, start + len)) {
                Some(v) => seq![v] + rest,
                None => rest,
            }
        }
    }
}

/// The states a snapshot restores: none when it is shorter than its count.
pub open spec fn restored_states(data: Seq<u8>) -> Seq<SessionStateView> {
    if data.len() < 4 {
        Seq::empty()
    } else {
        restore_from(data, 4, spec_u32_from_le_bytes(data.subrange(0, 4)) as nat)
    }
}

proof fn lemma_snapshot_records_push(states: Seq<SessionStateView>, v: SessionStateView)
    ensures
        snapshot_records(states.push(v)) == snapshot_records(states) + spec_u32_to_le_bytes(
            encode_state(v).len() as u32,
        ) + encode_state(v),
    decreases states.len(),
{
    if states.len() == 0 {
        assert(states.push(v).skip(1) =~= Seq::<SessionStateView>::empty());
        assert(snapshot_records(Seq::<SessionStateView>::empty()) =~= Seq::<u8>::empty());
        assert(snapshot_records(states) =~= Seq::<u8>::empty());
        assert(snapshot_records(states.push(v)) =~= spec_u32_to_le_bytes(
            encode_state(v).len() as u32,
        ) + encode_state(v));
    } else {
        lemma_snapshot_records_push(states.skip(1), v);
        assert(states.push(v).skip(1) =~= states.skip(1).push(v));
        assert(states.push(v)[0] == states[0]);
        assert(snapshot_records(states.push(v)) =~= snapshot_records(states) + spec_u32_to_le_bytes(
            encode_state(v).len() as u32,
        ) + encode_state(v));
    }
}

/// Every text of every state is shorter than 64 KiB in UTF-8, so its length fits the
/// 16-bit length field.
pub open spec fn texts_fit(states: Seq<SessionStateView>) -> bool {
    forall|i: int|
        0 <= i < states.len() ==> {
            &&& encode_utf8((#[trigger] states[i]).session_id).len() < 0x1_0000
            &&& encode_utf8(states[i].sender_comp_id).len() < 0x1_0000
            &&& encode_utf8(states[i].target_comp_id).len() < 0x1_0000
        }
}

/// A state whose texts fit has an encoding shorter than 4 GiB.
proof fn lemma_encode_state_len(v: SessionStateView)
    requires
        encode_utf8(v.session_id).len() < 0x1_0000,
        encode_utf8(v.sender_comp_id).len() < 0x1_0000,
        encode_utf8(v.target_comp_id).len() < 0x1_0000,
    ensures
        encode_state(v).len() < 0x1_0000_0000,
{
    vstd::bytes::lemma_auto_spec_u16_to_from_le_bytes();
    vstd::bytes::lemma_auto_spec_u64_to_from_le_bytes();
    assert(spec_u16_to_le_bytes(encode_utf8(v.session_id).len() as u16).len() == 2);
    assert(spec_u16_to_le_bytes(encode_utf8(v.sender_comp_id).len() as u16).len() == 2);
    assert(spec_u16_to_le_bytes(encode_utf8(v.target_comp_id).len() as u16).len() == 2);
    assert(spec_u64_to_le_bytes(v.outbound_seq_num).len() == 8);
    assert(spec_u64_to_le_bytes(v.inbound_seq_num).len() == 8);
    assert(spec_u64_to_le_bytes(v.last_updated_ms).len() == 8);
}

#[verifier::spinoff_prover]
#[verifier::rlimit(40)]
proof fn lemma_restore_records(data: Seq<u8>, off: int, states: Seq<SessionStateView>, rest: Seq<u8>)
    requires
        0 <= off <= data.len(),
        texts_fit(states),
        data == data.take(off) + snapshot_records(states) + rest,
    ensures
        restore_from(data, off, states.len()) == states,
    decreases states.len(),
{
    if states.len() > 0 {
        let v = states[0];
        let e = encode_state(v);
        let lenb = spec_u32_to_le_bytes(e.len() as u32);
        let tail = states.skip(1);
        vstd::bytes::lemma_auto_spec_u32_to_from_le_bytes();
        assert(lenb.len() == 4);
        lemma_encode_state_len(v);
        assert(snapshot_records(states) == lenb + e + snapshot_records(tail));
        let start = off + 4;
        assert(data.subrange(off, off + 4) =~= lenb);
        assert((e.len() as u32) as int == e.len());
        assert(data.subrange(start, start + e.len()) =~= e);
        assert(e + Seq::<u8>::empty() =~= e);
        lemma_decode_encode_state(v, Seq::<u8>::empty());
        let next = start + e.len();
        assert(data.take(next) + snapshot_records(tail) + rest =~= data);
        assert forall|i: int| 0 <= i < tail.len() implies {
            &&& encode_utf8((#[trigger] tail[i]).session_id).len() < 0x1_0000
            &&& encode_utf8(tail[i].sender_comp_id).len() < 0x1_0000
            &&& encode_utf8(tail[i].target_comp_id).len() < 0x1_0000
        } by {
            assert(tail[i] == states[i + 1]);
        }
        lemma_restore_records(data, next, tail, rest);
        assert(seq![v] + tail =~= states);
    }
}

/// Snapshot then restore gives back the states, in order, when there are fewer than 2^32
/// of them and each text's UTF-8 encoding is shorter than 64 KiB.
pub proof fn lemma_restore_snapshot(states: Seq<SessionStateView>)
    requires
        states.len() < 0x1_0000_0000,
        texts_fit(states),
    ensures
        restored_states(snapshot_bytes(states)) == states,
{
    let data = snapshot_bytes(states);
    vstd::bytes::lemma_auto_spec_u32_to_from_le_bytes();
    let countb = spec_u32_to_le_bytes(states.len() as u32);
    assert(countb.len() == 4);
    assert(data.subrange(0, 4) =~= countb);
    assert(data.take(4) + snapshot_records(states) + Seq::<u8>::empty() =~= data);
    lemma_restore_records(data, 4, states, Seq::<u8>::empty());
}

/// The first state with the given session ID.
pub open spec fn find_session(states: Seq<SessionStateView>, id: Seq<char>) -> Option<int>
    decreases states.len(),
{
    if states.len() == 0 {
        None
    } else {
        match find_session(states.drop_last(), id) {
            Some(i) => Some(i),
            None => if states.last().session_id == id {
                Some(states.len() - 1)
            } else {
                None
            },
        }
    }
}

proof fn lemma_find_session(states: Seq<SessionStateView>, id: Seq<char>)
    ensures
        match find_session(states, id) {
            Some(i) => 0 <= i < states.len() && states[i].session_id == id && forall|j: int|
                0 <= j < i ==> states[j].session_id != id,
            None => forall|j: int| 0 <= j < states.len() ==> states[j].session_id != id,
        },
    decreases states.len(),
{
    if states.len() > 0 {
        lemma_find_session(states.drop_last(), id);
        assert forall|j: int| 0 <= j < states.len() - 1 implies states.drop_last()[j] == states[j] by {}
    }
}

proof fn lemma_find_session_prefix(states: Seq<SessionStateView>, id: Seq<char>, i: int)
    requires
        0 <= i < states.len(),
        states[i].session_id == id,
        find_session(states.take(i), id) is None,
    ensures
        find_session(states, id) == Some(i),
    decreases states.len(),
{
    if i == states.len() - 1 {
        assert(states.drop_last() =~= states.take(i));
    } else {
        assert(states.drop_last().take(i) =~= states.take(i));
        lemma_find_session_prefix(states.drop_last(), id, i);
    }
}

/// Applying a replicated state to the table: a state with the same session ID takes the
/// new sequence numbers, state and time (its CompIDs stay); otherwise it is added.
pub open spec fn upsert(states: Seq<SessionStateView>, v: SessionStateView) -> Seq<SessionStateView> {
    match find_session(states, v.session_id) {
        Some(i) => states.update(
            i,
            SessionStateView {
                outbound_seq_num: v.outbound_seq_num,
                inbound_seq_num: v.inbound_seq_num,
                state: v.state,
                last_updated_ms: v.last_updated_ms,
                ..states[i]
            },
        ),
        None => states.push(v),
    }
}

/// Upsert-then-lookup: after a state is upserted into a table, looking up its session
/// finds an entry for it that carries the upserted sequence numbers, state and update time
/// (an entry that was there keeps its CompIDs).
pub proof fn lemma_upsert_then_find(states: Seq<SessionStateView>, v: SessionStateView)
    ensures
        find_session(upsert(states, v), v.session_id) matches Some(i) && {
            let s = upsert(states, v)[i];
            &&& s.session_id == v.session_id
            &&& s.outbound_seq_num == v.outbound_seq_num
            &&& s.inbound_seq_num == v.inbound_seq_num
            &&& s.state == v.state
            &&& s.last_updated_ms == v.last_updated_ms
        },
{
    let id = v.session_id;
    lemma_find_session(states, id);
    match find_session(states, id) {
        Some(i) => {
            let u = upsert(states, v);
            assert(u.take(i) =~= states.take(i));
            lemma_find_session(states.take(i), id);
            if find_session(states.take(i), id) is Some {
                let k = find_session(states.take(i), id)->Some_0;
                assert(states.take(i)[k] == states[k]);
            }
            lemma_find_session_prefix(u, id, i);
        },
        None => {
            assert(upsert(states, v).drop_last() =~= states);
        },
    }
}

/// The views of a table of states.
pub open spec fn views(states: Seq<ReplicatedSessionState>) -> Seq<SessionStateView> {
    states.map_values(|s: ReplicatedSessionState| s@)
}


/// The index the next log entry gets: one past the last entry's, 1 for an empty log.
pub open spec fn next_log_index(log: Seq<LogEntry>) -> u64 {
    if log.len() == 0 {
        1
    } else {
        log.last().index.wrapping_add(1)
    }
}

/// The number of votes that wins an election among `peers + 1` nodes, with the node count
/// taken as a 32-bit number.
pub open spec fn majority(peers: nat) -> u32 {
    ((peers as u32).wrapping_add(1) / 2 + 1) as u32
}

/// Elections are won by a strict majority, and by the smallest one: among `peers + 1` nodes
/// (a count that fits 32 bits), `majority(peers)` votes are more than half of the nodes, and
/// one vote fewer is not.
pub proof fn lemma_majority_is_strict(peers: nat)
    requires
        peers + 1 <= u32::MAX,
    ensures
        2 * majority(peers) > peers + 1,
        2 * (majority(peers) - 1) <= peers + 1,
{
    assert((peers as u32).wrapping_add(1) == peers + 1);
}

/// A cluster node: consensus role and term, the replicated log and the session table.
pub struct ClusterNode {
    config: ClusterConfig,
    role: NodeRole,
    state: NodeState,
    current_term: u64,
    voted_for: Option<u32>,
    commit_index: u64,
    last_applied: u64,
    pub log: Vec<LogEntry>,
    pub session_states: Vec<ReplicatedSessionState>,
    leader_id: Option<u32>,
    votes_received: u32,
}

impl ClusterNode {
    /// The replicated log.
    pub closed spec fn spec_log(&self) -> Seq<LogEntry> {
        self.log@
    }

    /// The session table.
    pub closed spec fn spec_sessions(&self) -> Seq<ReplicatedSessionState> {
        self.session_states@
    }

    pub closed spec fn spec_config(&self) -> ClusterConfig {
        self.config
    }

    pub closed spec fn spec_role(&self) -> NodeRole {
        self.role
    }

    pub closed spec fn spec_state(&self) -> NodeState {
        self.state
    }

    pub closed spec fn spec_term(&self) -> u64 {
        self.current_term
    }

    pub closed spec fn spec_voted_for(&self) -> Option<u32> {
        self.voted_for
    }

    pub closed spec fn spec_commit_index(&self) -> u64 {
        self.commit_index
    }

    pub closed spec fn spec_last_applied(&self) -> u64 {
        self.last_applied
    }

    pub closed spec fn spec_leader_id(&self) -> Option<u32> {
        self.leader_id
    }

    pub closed spec fn spec_votes(&self) -> u32 {
        self.votes_received
    }

    /// A new node: a joining follower in term 0 with an empty log and session table.
    pub fn new(config: ClusterConfig) -> (n: Self)
        ensures
            n.spec_config() == config,
            n.spec_role() == NodeRole::Follower,
            n.spec_state() == NodeState::Joining,
            n.spec_term() == 0,
            n.spec_voted_for() is None,
            n.spec_commit_index() == 0,
            n.spec_last_applied() == 0,
            n.spec_log().len() == 0,
            n.spec_sessions().len() == 0,
            n.spec_leader_id() is None,
            n.spec_votes() == 0,
    {
        ClusterNode {
            config,
            role: NodeRole::Follower,
            state: NodeState::Joining,
            current_term: 0,
            voted_for: None,
            commit_index: 0,
            last_applied: 0,
            log: Vec::new(),
            session_states: Vec::new(),
            leader_id: None,
            votes_received: 0,
        }
    }

    /// The current role.
    pub fn role(&self) -> (r: NodeRole)
        ensures
            r == self.spec_role(),
    {
        self.role
    }

    /// The current node state.
    pub fn state(&self) -> (s: NodeState)
        ensures
            s == self.spec_state(),
    {
        self.state
    }

    /// The current term.
    pub fn current_term(&self) -> (t: u64)
        ensures
            t == self.spec_term(),
    {
        self.current_term
    }

    /// Whether this node is the leader.
    pub fn is_leader(&self) -> (b: bool)
        ensures
            b == (self.spec_role() == NodeRole::Leader),
    {
        self.role == NodeRole::Leader
    }

    /// The number of log entries.
    pub fn log_len(&self) -> (n: usize)
        ensures
            n == self.spec_log().len(),
    {
        self.log.len()
    }

    /// The commit index.
    pub fn commit_index(&self) -> (c: u64)
        ensures
            c == self.spec_commit_index(),
    {
        self.commit_index
    }

    /// Log entries past the commit index: the last entry's index minus the commit index
    /// (0 when the log is empty or fully committed).
    pub fn pending_entries(&self) -> (n: usize)
        ensures
            n == if self.spec_log().len() == 0 || self.spec_log().last().index <= self.spec_commit_index() {
                0
            } else {
                (self.spec_log().last().index - self.spec_commit_index()) as usize
            },
    {
        if self.log.len() == 0 {
            return 0;
        }
        let last_index = self.log[self.log.len() - 1].index;
        if last_index > self.commit_index {
            (last_index - self.commit_index) as usize
        } else {
            0
        }
    }

    /// Transition to Leader: this node leads, and the vote count starts over.
    pub fn become_leader(&mut self)
        ensures
            final(self).spec_role() == NodeRole::Leader,
            final(self).spec_leader_id() == Some(old(self).spec_config().node_id.id),
            final(self).spec_votes() == 0,
            final(self).spec_term() == old(self).spec_term(),
            final(self).spec_voted_for() == old(self).spec_voted_for(),
            final(self).spec_state() == old(self).spec_state(),
            final(self).spec_config() == old(self).spec_config(),
            final(self).spec_commit_index() == old(self).spec_commit_index(),
            final(self).spec_last_applied() == old(self).spec_last_applied(),
            final(self).spec_log() == old(self).spec_log(),
            final(self).spec_sessions() == old(self).spec_sessions(),
    {
        self.role = NodeRole::Leader;
        self.leader_id = Some(self.config.node_id.id);
        self.votes_received = 0;
    }

    /// Step down to Follower in `new_term` (e.g. on seeing a higher term): no vote cast,
    /// no votes held, no known leader.
    pub fn step_down(&mut self, new_term: u64)
        ensures
            final(self).spec_role() == NodeRole::Follower,
            final(self).spec_term() == new_term,
            final(self).spec_voted_for() is None,
            final(self).spec_votes() == 0,
            final(self).spec_leader_id() is None,
            final(self).spec_state() == old(self).spec_state(),
            final(self).spec_config() == old(self).spec_config(),
            final(self).spec_commit_index() == old(self).spec_commit_index(),
            final(self).spec_last_applied() == old(self).spec_last_applied(),
            final(self).spec_log() == old(self).spec_log(),
            final(self).spec_sessions() == old(self).spec_sessions(),
    {
        self.role = NodeRole::Follower;
        self.current_term = new_term;
        self.voted_for = None;
        self.votes_received = 0;
        self.leader_id = None;
    }

    /// Start an election: next term, vote for itself, become Candidate. A node without
    /// peers wins at once.
    pub fn begin_election(&mut self)
        ensures
            final(self).spec_term() == old(self).spec_term().wrapping_add(1),
            final(self).spec_voted_for() == Some(old(self).spec_config().node_id.id),
            old(self).spec_config().peers@.len() == 0 ==> {
                &&& final(self).spec_role() == NodeRole::Leader
                &&& final(self).spec_leader_id() == Some(old(self).spec_config().node_id.id)
                &&& final(self).spec_votes() == 0
            },
            old(self).spec_config().peers@.len() > 0 ==> {
                &&& final(self).spec_role() == NodeRole::Candidate
                &&& final(self).spec_leader_id() is None
                &&& final(self).spec_votes() == 1
            },
            final(self).spec_state() == old(self).spec_state(),
            final(self).spec_config() == old(self).spec_config(),
            final(self).spec_commit_index() == old(self).spec_commit_index(),
            final(self).spec_last_applied() == old(self).spec_last_applied(),
            final(self).spec_log() == old(self).spec_log(),
            final(self).spec_sessions() == old(self).spec_sessions(),
    {
        self.current_term = self.current_term.wrapping_add(1);
        self.role = NodeRole::Candidate;
        self.voted_for = Some(self.config.node_id.id);
        self.votes_received = 1;
        self.leader_id = None;
        if self.config.peers.len() == 0 {
            self.become_leader();
        }
    }

    /// Start the node: it becomes Active and begins an election.
    pub fn start(&mut self)
        ensures
            final(self).spec_state() == NodeState::Active,
            final(self).spec_term() == old(self).spec_term().wrapping_add(1),
            final(self).spec_voted_for() == Some(old(self).spec_config().node_id.id),
            final(self).spec_role() == if old(self).spec_config().peers@.len() == 0 {
                NodeRole::Leader
            } else {
                NodeRole::Candidate
            },
            final(self).spec_votes() == if old(self).spec_config().peers@.len() == 0 {
                0u32
            } else {
                1u32
            },
            final(self).spec_config() == old(self).spec_config(),
            final(self).spec_commit_index() == old(self).spec_commit_index(),
            final(self).spec_last_applied() == old(self).spec_last_applied(),
            final(self).spec_log() == old(self).spec_log(),
            final(self).spec_sessions() == old(self).spec_sessions(),
    {
        self.state = NodeState::Active;
        self.begin_election();
    }

    /// A vote response. A higher term makes the node step down to it. Otherwise a granted
    /// vote in the current term, while a Candidate, is counted, and a majority of the
    /// cluster makes the node leader. Anything else is ignored.
    pub fn receive_vote(&mut self, from_node: u32, term: u64, granted: bool)
        ensures
            term > old(self).spec_term() ==> {
                &&& final(self).spec_role() == NodeRole::Follower
                &&& final(self).spec_term() == term
                &&& final(self).spec_voted_for() is None
                &&& final(self).spec_votes() == 0
                &&& final(self).spec_leader_id() is None
            },
            term <= old(self).spec_term() && old(self).spec_role() == NodeRole::Candidate && term
                == old(self).spec_term() && granted ==> {
                let votes = old(self).spec_votes().wrapping_add(1);
                if votes >= majority(old(self).spec_config().peers@.len()) {
                    &&& final(self).spec_role() == NodeRole::Leader
                    &&& final(self).spec_leader_id() == Some(old(self).spec_config().node_id.id)
                    &&& final(self).spec_votes() == 0
                } else {
                    &&& final(self).spec_role() == NodeRole::Candidate
                    &&& final(self).spec_votes() == votes
                    &&& final(self).spec_leader_id() == old(self).spec_leader_id()
                }
            },
            term <= old(self).spec_term() && !(old(self).spec_role() == NodeRole::Candidate && term
                == old(self).spec_term() && granted) ==> {
                &&& final(self).spec_role() == old(self).spec_role()
                &&& final(self).spec_votes() == old(self).spec_votes()
                &&& final(self).spec_leader_id() == old(self).spec_leader_id()
            },
            term <= old(self).spec_term() ==> final(self).spec_term() == old(self).spec_term()
                && final(self).spec_voted_for() == old(self).spec_voted_for(),
            old(self).spec_role() != NodeRole::Leader && final(self).spec_role() == NodeRole::Leader
                && old(self).spec_config().peers@.len() + 1 <= u32::MAX ==> 2 * (old(self).spec_votes() + 1)
                > old(self).spec_config().peers@.len() + 1,
            final(self).spec_state() == old(self).spec_state(),
            final(self).spec_config() == old(self).spec_config(),
            final(self).spec_commit_index() == old(self).spec_commit_index(),
            final(self).spec_last_applied() == old(self).spec_last_applied(),
            final(self).spec_log() == old(self).spec_log(),
            final(self).spec_sessions() == old(self).spec_sessions(),
    {
        if term > self.current_term {
            self.step_down(term);
            return;
        }
        if self.role != NodeRole::Candidate || term != self.current_term {
            return;
        }
        if granted {
            proof {
                if self.config.peers@.len() + 1 <= u32::MAX {
                    lemma_majority_is_strict(self.config.peers@.len());
                }
            }
            self.votes_received = self.votes_received.wrapping_add(1);
            let cluster_size = (self.config.peers.len() as u32).wrapping_add(1);
            let majority = cluster_size / 2 + 1;
            if self.votes_received >= majority {
                self.become_leader();
            }
        }
    }

    /// Append a session-state change to the log, in the current term, at the next index.
    pub fn replicate_session_state(&mut self, state: ReplicatedSessionState)
        ensures
            final(self).spec_log().len() == old(self).spec_log().len() + 1,
            final(self).spec_log().drop_last() == old(self).spec_log(),
            final(self).spec_log().last().term == old(self).spec_term(),
            final(self).spec_log().last().index == next_log_index(old(self).spec_log()),
            final(self).spec_log().last().entry_type == LogEntryType::SessionStateChange,
            final(self).spec_log().last().data@ == encode_state(state@),
            final(self).spec_role() == old(self).spec_role(),
            final(self).spec_state() == old(self).spec_state(),
            final(self).spec_term() == old(self).spec_term(),
            final(self).spec_config() == old(self).spec_config(),
            final(self).spec_commit_index() == old(self).spec_commit_index(),
            final(self).spec_last_applied() == old(self).spec_last_applied(),
            final(self).spec_sessions() == old(self).spec_sessions(),
    {
        let index = if self.log.len() == 0 {
            1
        } else {
            self.log[self.log.len() - 1].index.wrapping_add(1)
        };
        let data = encode_session_state(&state);
        self.log.push(
            LogEntry {
                term: self.current_term,
                index,
                entry_type: LogEntryType::SessionStateChange,
                data,
            },
        );
        assert(self.spec_log().drop_last() =~= old(self).spec_log());
    }

    /// Apply a committed entry: a session-state change that decodes is upserted into the
    /// session table; the applied and commit indexes advance to the entry's index.
    pub fn apply_log_entry(&mut self, entry: &LogEntry)
        ensures
            views(final(self).spec_sessions()) == if entry.entry_type
                == LogEntryType::SessionStateChange && decode_state(entry.data@) is Some {
                upsert(views(old(self).spec_sessions()), decode_state(entry.data@)->Some_0)
            } else {
                views(old(self).spec_sessions())
            },
            final(self).spec_last_applied() == if entry.index > old(self).spec_last_applied() {
                entry.index
            } else {
                old(self).spec_last_applied()
            },
            final(self).spec_commit_index() == if entry.index > old(self).spec_commit_index() {
                entry.index
            } else {
                old(self).spec_commit_index()
            },
            final(self).spec_role() == old(self).spec_role(),
            final(self).spec_state() == old(self).spec_state(),
            final(self).spec_term() == old(self).spec_term(),
            final(self).spec_config() == old(self).spec_config(),
            final(self).spec_log() == old(self).spec_log(),
    {
        if entry.entry_type == LogEntryType::SessionStateChange {
            if let Some(state) = decode_session_state(entry.data.as_slice()) {
                let ghost old_views = views(self.spec_sessions());
                let n = self.session_states.len();
                let mut i: usize = 0;
                let mut found: Option<usize> = None;
                while i < n
                    invariant_except_break
                        n == self.spec_sessions().len(),
                        i <= n,
                        found is None,
                        find_session(views(self.spec_sessions()).take(i as int), state@.session_id) is None,
                    ensures
                        n == self.spec_sessions().len(),
                        found matches Some(j) ==> j < n && find_session(views(self.spec_sessions()), state@.session_id) == Some(j as int),
                        found is None ==> find_session(views(self.spec_sessions()).take(n as int), state@.session_id) is None,
                    decreases n - i,
                {
                    assert(views(self.spec_sessions()).take(i + 1).drop_last() =~= views(self.spec_sessions()).take(i as int));
                    if self.session_states[i].session_id == state.session_id {
                        proof {
                            lemma_find_session_prefix(views(self.spec_sessions()), state@.session_id, i as int);
                        }
                        found = Some(i);
                        break;
                    }
                    i = i + 1;
                }
                proof {
                    if found is None {
                        assert(views(self.spec_sessions()).take(n as int) =~= views(self.spec_sessions()));
                    }
                }
                match found {
                    Some(j) => {
                        let mut existing = self.session_states.remove(j);
                        existing.outbound_seq_num = state.outbound_seq_num;
                        existing.inbound_seq_num = state.inbound_seq_num;
                        existing.state = state.state;
                        existing.last_updated_ms = state.last_updated_ms;
                        self.session_states.insert(j, existing);
                        assert(views(self.spec_sessions()) =~= upsert(old_views, state@));
                    },
                    None => {
                        self.session_states.push(state);
                        assert(views(self.spec_sessions()) =~= upsert(old_views, state@));
                    },
                }
            }
        }
        if entry.index > self.last_applied {
            self.last_applied = entry.index;
        }
        if entry.index > self.commit_index {
            self.commit_index = entry.index;
        }
    }

    /// The replicated state of the first session with the given ID.
    pub fn get_session_state(&self, session_id: &str) -> (r: Option<&ReplicatedSessionState>)
        ensures
            match find_session(views(self.spec_sessions()), session_id@) {
                Some(i) => r matches Some(s) && *s == self.spec_sessions()[i],
                None => r is None,
            },
    {
        let n = self.session_states.len();
        let mut i: usize = 0;
        while i < n
            invariant
                n == self.spec_sessions().len(),
                i <= n,
                find_session(views(self.spec_sessions()).take(i as int), session_id@) is None,
            decreases n - i,
        {
            assert(views(self.spec_sessions()).take(i + 1).drop_last() =~= views(self.spec_sessions()).take(i as int));
            if str_equal(self.session_states[i].session_id.as_str(), session_id) {
                proof {
                    lemma_find_session_prefix(views(self.spec_sessions()), session_id@, i as int);
                }
                return Some(&self.session_states[i]);
            }
            i = i + 1;
        }
        assert(views(self.spec_sessions()).take(n as int) =~= views(self.spec_sessions()));
        None
    }

    /// A snapshot of the session table: the count, then each state's length and encoding.
    pub fn create_snapshot(&self) -> (buf: Vec<u8>)
        ensures
            buf@ == snapshot_bytes(views(self.spec_sessions())),
    {
        let mut buf: Vec<u8> = Vec::new();
        let count = self.session_states.len() as u32;
        extend_bytes(&mut buf, u32_to_le_bytes(count).as_slice());
        let n = self.session_states.len();
        let mut i: usize = 0;
        assert(views(self.spec_sessions()).take(0) =~= Seq::<SessionStateView>::empty());
        while i < n
            invariant
                n == self.spec_sessions().len(),
                i <= n,
                buf@ == spec_u32_to_le_bytes(n as u32) + snapshot_records(views(self.spec_sessions()).take(i as int)),
            decreases n - i,
        {
            let encoded = encode_session_state(&self.session_states[i]);
            let len = encoded.len() as u32;
            extend_bytes(&mut buf, u32_to_le_bytes(len).as_slice());
            extend_bytes(&mut buf, encoded.as_slice());
            proof {
                let vs = views(self.spec_sessions());
                assert(vs.take(i + 1) =~= vs.take(i as int).push(vs[i as int]));
                lemma_snapshot_records_push(vs.take(i as int), vs[i as int]);
            }
            i = i + 1;
        }
        assert(views(self.spec_sessions()).take(n as int) =~= views(self.spec_sessions()));
        buf
    }

    /// Replace the session table with the states a snapshot holds (see `restored_states`);
    /// the node is then Active, unless the snapshot is too short to hold its count.
    pub fn restore_snapshot(&mut self, data: &[u8])
        ensures
            views(final(self).spec_sessions()) == restored_states(data@),
            final(self).spec_state() == if data@.len() < 4 {
                old(self).spec_state()
            } else {
                NodeState::Active
            },
            final(self).spec_role() == old(self).spec_role(),
            final(self).spec_term() == old(self).spec_term(),
            final(self).spec_config() == old(self).spec_config(),
            final(self).spec_commit_index() == old(self).spec_commit_index(),
            final(self).spec_last_applied() == old(self).spec_last_applied(),
            final(self).spec_log() == old(self).spec_log(),
    {
        if data.len() < 4 {
            self.session_states.clear();
            assert(views(self.spec_sessions()) =~= Seq::<SessionStateView>::empty());
            return;
        }
        let mut states: Vec<ReplicatedSessionState> = Vec::new();
        let count = u32_from_le_bytes(&data[0..4]) as usize;
        let mut offset: usize = 4;
        let mut k: usize = 0;
        let ghost total = restored_states(data@);
        assert(views(states@) + restore_from(data@, 4, count as nat) =~= total);
        while k < count
            invariant_except_break
                k <= count,
                4 <= offset <= data@.len(),
                views(states@) + restore_from(data@, offset as int, (count - k) as nat) == total,
            ensures
                views(states@) == total,
            decreases count - k,
        {
            if data.len() - offset < 4 {
                assert(views(states@) =~= total);
                break;
            }
            let len = u32_from_le_bytes(&data[offset..offset + 4]) as usize;
            offset = offset + 4;
            if len > data.len() - offset {
                assert(views(states@) =~= total);
                break;
            }
            let ghost before = views(states@);
            match decode_session_state(&data[offset..offset + len]) {
                Some(state) => {
                    states.push(state);
                    assert(views(states@) =~= before.push(state@));
                },
                None => {},
            }
            offset = offset + len;
            k = k + 1;
            proof {
                let rest = restore_from(data@, offset as int, (count - k) as nat);
                assert(before.push(decode_state(data@.subrange(offset - len, offset as int))->Some_0) + rest
                    =~= before + (seq![decode_state(data@.subrange(offset - len, offset as int))->Some_0] + rest));
            }
        }
        self.session_states = states;
        self.state = NodeState::Active;
    }
}


/// Replicate, apply, snapshot, restore: a state replicated into the log decodes from its
/// log entry as itself; applying it to a table of states upserts it; a snapshot of the
/// resulting table restores to that same table; and looking the session up there finds the
/// replicated sequence numbers, state and update time.
pub proof fn lemma_replicate_apply_restore(states: Seq<SessionStateView>, v: SessionStateView)
    requires
        texts_fit(states),
        encode_utf8(v.session_id).len() < 0x1_0000,
        encode_utf8(v.sender_comp_id).len() < 0x1_0000,
        encode_utf8(v.target_comp_id).len() < 0x1_0000,
        states.len() + 1 < 0x1_0000_0000,
    ensures
        decode_state(encode_state(v)) == Some(v),
        restored_states(snapshot_bytes(upsert(states, v))) == upsert(states, v),
        find_session(restored_states(snapshot_bytes(upsert(states, v))), v.session_id) matches Some(i) && {
            let s = upsert(states, v)[i];
            &&& s.session_id == v.session_id
            &&& s.outbound_seq_num == v.outbound_seq_num
            &&& s.inbound_seq_num == v.inbound_seq_num
            &&& s.state == v.state
            &&& s.last_updated_ms == v.last_updated_ms
        },
{
    lemma_decode_encode_state(v, Seq::empty());
    assert(encode_state(v) + Seq::<u8>::empty() =~= encode_state(v));
    let t = upsert(states, v);
    lemma_find_session(states, v.session_id);
    assert(texts_fit(t)) by {
        assert forall|i: int| 0 <= i < t.len() implies {
            &&& encode_utf8((#[trigger] t[i]).session_id).len() < 0x1_0000
            &&& encode_utf8(t[i].sender_comp_id).len() < 0x1_0000
            &&& encode_utf8(t[i].target_comp_id).len() < 0x1_0000
        } by {
            if i < states.len() {
                assert(encode_utf8(states[i].session_id).len() < 0x1_0000);
            }
        }
    }
    lemma_restore_snapshot(t);
    lemma_upsert_then_find(states, v);
}

} // verus!
