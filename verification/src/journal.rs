//! Message journal for persistence and recovery: entries of a fixed header and the message
//! body, written one after another into a memory-mapped region used as a circular buffer,
//! with a CRC32 of each body to detect damage.

use vstd::prelude::*;
use memmap2::MmapMut;
use vstd::string::StringSliceAdditionalSpecFns;

verus! {

// ---------------------------------------------------------------------------
// Checksums and hashes
// ---------------------------------------------------------------------------

/// One bit step of the reflected CRC32 with polynomial 0xEDB88320.
pub open spec fn crc_bit(c: u32) -> u32 {
    if c & 1 != 0 {
        (c >> 1) ^ 0xEDB8_8320u32
    } else {
        c >> 1
    }
}

/// `k` bit steps.
pub open spec fn crc_bits(c: u32, k: nat) -> u32
    decreases k,
{
    if k == 0 {
        c
    } else {
        crc_bits(crc_bit(c), (k - 1) as nat)
    }
}

/// The CRC register after the bytes of `data`, starting from all ones.
pub open spec fn crc_register(data: Seq<u8>) -> u32
    decreases data.len(),
{
    if data.len() == 0 {
        0xFFFF_FFFFu32
    } else {
        crc_bits(crc_register(data.drop_last()) ^ (data.last() as u32), 8)
    }
}

/// The CRC32 (IEEE) of `data`.
pub open spec fn crc32(data: Seq<u8>) -> u32 {
    crc_register(data) ^ 0xFFFF_FFFFu32
}

/// CRC32 of a message body.
pub fn crc32_simple(data: &[u8]) -> (r: u32)
    ensures
        r == crc32(data@),
{
    let mut crc: u32 = 0xFFFF_FFFF;
    let mut i: usize = 0;
    while i < data.len()
        invariant
            i <= data@.len(),
            crc == crc_register(data@.take(i as int)),
        decreases data@.len() - i,
    {
        assert(data@.take(i + 1).drop_last() =~= data@.take(i as int));
        assert(data@.take(i + 1).last() == data@[i as int]);
        crc = crc ^ (data[i] as u32);
        let ghost start = crc;
        let mut k: u32 = 0;
        while k < 8
            invariant
                k <= 8,
                crc_bits(start, 8) == crc_bits(crc, (8 - k) as nat),
            decreases 8 - k,
        {
            if crc & 1 != 0 {
                crc = (crc >> 1) ^ 0xEDB8_8320;
            } else {
                crc = crc >> 1;
            }
            k = k + 1;
        }
        i = i + 1;
    }
    assert(data@.take(data@.len() as int) =~= data@);
    crc ^ 0xFFFF_FFFF
}

/// The FNV-1a 64-bit offset basis and prime.
pub const FNV_OFFSET: u64 = 0xcbf2_9ce4_8422_2325;

pub const FNV_PRIME: u64 = 0x0100_0000_01b3;

/// One FNV-1a step.
pub open spec fn fnv_step(h: u64, b: u8) -> u64 {
    (h ^ (b as u64)).wrapping_mul(FNV_PRIME)
}

/// FNV-1a over `s`, starting from `h`.
pub open spec fn fnv_fold(h: u64, s: Seq<u8>) -> u64
    decreases s.len(),
{
    if s.len() == 0 {
        h
    } else {
        fnv_step(fnv_fold(h, s.drop_last()), s.last())
    }
}

/// The session hash: FNV-1a over the sender, a `|`, and the target.
pub open spec fn spec_session_hash(sender: Seq<u8>, target: Seq<u8>) -> u64 {
    fnv_fold(fnv_step(fnv_fold(FNV_OFFSET, sender), 124u8), target)
}

fn fnv_over(h: u64, s: &[u8]) -> (r: u64)
    ensures
        r == fnv_fold(h, s@),
{
    let mut hash = h;
    let mut i: usize = 0;
    while i < s.len()
        invariant
            i <= s@.len(),
            hash == fnv_fold(h, s@.take(i as int)),
        decreases s@.len() - i,
    {
        assert(s@.take(i + 1).drop_last() =~= s@.take(i as int));
        assert(s@.take(i + 1).last() == s@[i as int]);
        hash = (hash ^ (s[i] as u64)).wrapping_mul(FNV_PRIME);
        i = i + 1;
    }
    assert(s@.take(s@.len() as int) =~= s@);
    hash
}

/// Compute a session hash from SenderCompID and TargetCompID.
pub fn session_hash(sender: &str, target: &str) -> (h: u64)
    ensures
        h == spec_session_hash(sender.spec_bytes(), target.spec_bytes()),
{
    let a = fnv_over(FNV_OFFSET, sender.as_bytes());
    let b = (a ^ 124u64).wrapping_mul(FNV_PRIME);
    fnv_over(b, target.as_bytes())
}

// ---------------------------------------------------------------------------
// Entry headers
// ---------------------------------------------------------------------------

/// Journal entry header.
#[derive(Debug, Clone, Copy, PartialEq, Eq, Structural)]
pub struct JournalEntryHeader {
    /// Session ID hash (for filtering during recovery).
    pub session_hash: u64,
    /// Message sequence number.
    pub seq_num: u64,
    /// Message body length in bytes.
    pub body_length: u32,
    /// CRC32 checksum of the message body.
    pub crc32: u32,
}

/// The size of an encoded header in bytes.
pub const HEADER_SIZE: usize = 24;

/// The eight little-endian bytes of `v`.
pub open spec fn le_bytes64(v: u64) -> Seq<u8> {
    Seq::new(8, |i: int| ((v >> (8 * i) as u64) & 0xff) as u8)
}

/// The four little-endian bytes of `v`.
pub open spec fn le_bytes32(v: u32) -> Seq<u8> {
    Seq::new(4, |i: int| ((v >> (8 * i) as u32) & 0xff) as u8)
}

/// The value of eight little-endian bytes.
pub open spec fn le_u64(b: Seq<u8>) -> u64 {
    (b[0] as u64) | ((b[1] as u64) << 8u64) | ((b[2] as u64) << 16u64) | ((b[3] as u64) << 24u64)
        | ((b[4] as u64) << 32u64) | ((b[5] as u64) << 40u64) | ((b[6] as u64) << 48u64) | ((
    b[7] as u64) << 56u64)
}

/// The value of four little-endian bytes.
pub open spec fn le_u32(b: Seq<u8>) -> u32 {
    (b[0] as u32) | ((b[1] as u32) << 8u32) | ((b[2] as u32) << 16u32) | ((b[3] as u32) << 24u32)
}

/// The encoded header: the hash and the sequence number in 8 bytes each, then the length
/// and the checksum in 4 bytes each, all little-endian.
pub open spec fn header_bytes(h: JournalEntryHeader) -> Seq<u8> {
    le_bytes64(h.session_hash) + le_bytes64(h.seq_num) + le_bytes32(h.body_length) + le_bytes32(
        h.crc32,
    )
}

/// The header that the 24 bytes of `b` encode.
pub open spec fn decode_header(b: Seq<u8>) -> JournalEntryHeader {
    JournalEntryHeader {
        session_hash: le_u64(b.subrange(0, 8)),
        seq_num: le_u64(b.subrange(8, 16)),
        body_length: le_u32(b.subrange(16, 20)),
        crc32: le_u32(b.subrange(20, 24)),
    }
}

proof fn lemma_le64(v: u64)
    ensures
        le_u64(le_bytes64(v)) == v,
{
    let b = le_bytes64(v);
    let b0 = b[0];
    let b1 = b[1];
    let b2 = b[2];
    let b3 = b[3];
    let b4 = b[4];
    let b5 = b[5];
    let b6 = b[6];
    let b7 = b[7];
    assert(v == (b0 as u64) | ((b1 as u64) << 8u64) | ((b2 as u64) << 16u64) | ((b3 as u64)
        << 24u64) | ((b4 as u64) << 32u64) | ((b5 as u64) << 40u64) | ((b6 as u64) << 48u64) | ((
    b7 as u64) << 56u64)) by (bit_vector)
        requires
            b0 == ((v >> 0u64) & 0xff) as u8,
            b1 == ((v >> 8u64) & 0xff) as u8,
            b2 == ((v >> 16u64) & 0xff) as u8,
            b3 == ((v >> 24u64) & 0xff) as u8,
            b4 == ((v >> 32u64) & 0xff) as u8,
            b5 == ((v >> 40u64) & 0xff) as u8,
            b6 == ((v >> 48u64) & 0xff) as u8,
            b7 == ((v >> 56u64) & 0xff) as u8,
    ;
}

proof fn lemma_le32(v: u32)
    ensures
        le_u32(le_bytes32(v)) == v,
{
    let b = le_bytes32(v);
    let b0 = b[0];
    let b1 = b[1];
    let b2 = b[2];
    let b3 = b[3];
    assert(v == (b0 as u32) | ((b1 as u32) << 8u32) | ((b2 as u32) << 16u32) | ((b3 as u32)
        << 24u32)) by (bit_vector)
        requires
            b0 == ((v >> 0u32) & 0xff) as u8,
            b1 == ((v >> 8u32) & 0xff) as u8,
            b2 == ((v >> 16u32) & 0xff) as u8,
            b3 == ((v >> 24u32) & 0xff) as u8,
    ;
}

/// Decoding an encoded header gives it back.
pub proof fn lemma_header_roundtrip(h: JournalEntryHeader)
    ensures
        header_bytes(h).len() == HEADER_SIZE,
        decode_header(header_bytes(h)) == h,
{
    let b = header_bytes(h);
    lemma_le64(h.session_hash);
    lemma_le64(h.seq_num);
    lemma_le32(h.body_length);
    lemma_le32(h.crc32);
    assert(b.subrange(0, 8) =~= le_bytes64(h.session_hash));
    assert(b.subrange(8, 16) =~= le_bytes64(h.seq_num));
    assert(b.subrange(16, 20) =~= le_bytes32(h.body_length));
    assert(b.subrange(20, 24) =~= le_bytes32(h.crc32));
}

// ---------------------------------------------------------------------------
// The mapped region
// ---------------------------------------------------------------------------

#[verifier::external_type_specification]
#[verifier::external_body]
pub struct ExMmapMut(MmapMut);

#[verifier::external_type_specification]
#[verifier::external_body]
pub struct ExIoError(std::io::Error);

/// The bytes of a writable memory map.
pub uninterp spec fn mapped_bytes(m: MmapMut) -> Seq<u8>;

/// The length of the map, read through `Deref<Target = [u8]>`.
#[verifier::external_body]
fn map_len(m: &MmapMut) -> (n: usize)
    ensures
        n == mapped_bytes(*m).len(),
{
    m.len()
}

/// The bytes of the map, read through `Deref<Target = [u8]>`.
#[verifier::external_body]
fn map_bytes(m: &MmapMut) -> (b: &[u8])
    ensures
        b@ == mapped_bytes(*m),
{
    &m[..]
}

/// Copies `data` into the map at `offset`, through `DerefMut<Target = [u8]>` and
/// `copy_from_slice`; the other bytes stay as they were.
#[verifier::external_body]
fn map_write(m: &mut MmapMut, offset: usize, data: &[u8])
    requires
        offset + data@.len() <= mapped_bytes(*old(m)).len(),
    ensures
        mapped_bytes(*final(m)) == written(mapped_bytes(*old(m)), offset as int, data@),
{
    m[offset..offset + data.len()].copy_from_slice(data);
}

/// `MmapMut::flush`: writes outstanding modifications out to the file. The bytes of the map
/// are unchanged; whether the write-out succeeds rests on the operating system, so
/// nothing is stated of the result.
#[verifier::external_body]
fn map_flush(m: &MmapMut) -> (r: Result<(), std::io::Error>) {
    m.flush()
}

/// `s` with `data` written at `offset`.
pub open spec fn written(s: Seq<u8>, offset: int, data: Seq<u8>) -> Seq<u8> {
    s.take(offset) + data + s.skip(offset + data.len())
}

/// The entry at `offset` of a region of `capacity` bytes: its header and body, when both
/// lie within the region and the body's checksum matches the header.
pub open spec fn entry_at(s: Seq<u8>, capacity: int, offset: int) -> Option<
    (JournalEntryHeader, Seq<u8>),
> {
    if offset < 0 || offset + HEADER_SIZE > capacity {
        None
    } else {
        let h = decode_header(s.subrange(offset, offset + HEADER_SIZE));
        let body_start = offset + HEADER_SIZE;
        let body_end = body_start + h.body_length;
        if body_end > capacity {
            None
        } else {
            let body = s.subrange(body_start, body_end);
            if crc32(body) != h.crc32 {
                None
            } else {
                Some((h, body))
            }
        }
    }
}

/// The header written for a message.
pub open spec fn header_for(session_hash: u64, seq_num: u64, message: Seq<u8>) -> JournalEntryHeader {
    JournalEntryHeader {
        session_hash,
        seq_num,
        body_length: message.len() as u32,
        crc32: crc32(message),
    }
}

/// The bytes of the region after an entry for `message` is written at `offset`.
pub open spec fn with_entry(s: Seq<u8>, offset: int, h: JournalEntryHeader, message: Seq<u8>) -> Seq<u8> {
    written(written(s, offset, header_bytes(h)), offset + HEADER_SIZE, message)
}

/// Where the next entry of `total` bytes goes: at the write position, or back at the start
/// when it would run past the end.
pub open spec fn append_offset(write_offset: int, capacity: int, total: int) -> int {
    if write_offset + total > capacity {
        0
    } else {
        write_offset
    }
}

/// An entry written at `offset` reads back as its header and message.
pub proof fn lemma_read_back(
    s: Seq<u8>,
    offset: int,
    session_hash: u64,
    seq_num: u64,
    message: Seq<u8>,
)
    requires
        0 <= offset,
        offset + HEADER_SIZE + message.len() <= s.len(),
        message.len() <= u32::MAX,
    ensures
        entry_at(
            with_entry(s, offset, header_for(session_hash, seq_num, message), message),
            s.len() as int,
            offset,
        ) == Some((header_for(session_hash, seq_num, message), message)),
{
    let h = header_for(session_hash, seq_num, message);
    lemma_header_roundtrip(h);
    let s1 = written(s, offset, header_bytes(h));
    let s2 = written(s1, offset + HEADER_SIZE, message);
    assert(s1.len() == s.len());
    assert(s2.len() == s.len());
    assert(s2.subrange(offset, offset + HEADER_SIZE) =~= header_bytes(h));
    assert(s2.subrange(offset + HEADER_SIZE, offset + HEADER_SIZE + message.len()) =~= message);
}

fn push_le64(out: &mut Vec<u8>, v: u64)
    ensures
        final(out)@ == old(out)@ + le_bytes64(v),
{
    let ghost start = out@;
    let mut i: u64 = 0;
    while i < 8
        invariant
            i <= 8,
            out@ == start + le_bytes64(v).take(i as int),
        decreases 8 - i,
    {
        out.push(((v >> (8 * i)) & 0xff) as u8);
        assert(le_bytes64(v).take(i + 1) =~= le_bytes64(v).take(i as int).push(
            ((v >> (8 * i) as u64) & 0xff) as u8,
        ));
        i = i + 1;
    }
    assert(le_bytes64(v).take(8) =~= le_bytes64(v));
}

fn push_le32(out: &mut Vec<u8>, v: u32)
    ensures
        final(out)@ == old(out)@ + le_bytes32(v),
{
    let ghost start = out@;
    let mut i: u32 = 0;
    while i < 4
        invariant
            i <= 4,
            out@ == start + le_bytes32(v).take(i as int),
        decreases 4 - i,
    {
        out.push(((v >> (8 * i)) & 0xff) as u8);
        assert(le_bytes32(v).take(i + 1) =~= le_bytes32(v).take(i as int).push(
            ((v >> (8 * i) as u32) & 0xff) as u8,
        ));
        i = i + 1;
    }
    assert(le_bytes32(v).take(4) =~= le_bytes32(v));
}

/// The encoded bytes of a header.
fn encode_header(h: &JournalEntryHeader) -> (b: Vec<u8>)
    ensures
        b@ == header_bytes(*h),
{
    let mut b: Vec<u8> = Vec::new();
    push_le64(&mut b, h.session_hash);
    push_le64(&mut b, h.seq_num);
    push_le32(&mut b, h.body_length);
    push_le32(&mut b, h.crc32);
    assert(b@ =~= header_bytes(*h));
    b
}

fn read_le64(b: &[u8], at: usize) -> (v: u64)
    requires
        at + 8 <= b@.len(),
    ensures
        v == le_u64(b@.subrange(at as int, at + 8)),
{
    let ghost s = b@.subrange(at as int, at + 8);
    assert(s[0] == b@[at as int] && s[1] == b@[at + 1] && s[2] == b@[at + 2] && s[3] == b@[at + 3]);
    assert(s[4] == b@[at + 4] && s[5] == b@[at + 5] && s[6] == b@[at + 6] && s[7] == b@[at + 7]);
    (b[at] as u64) | ((b[at + 1] as u64) << 8u64) | ((b[at + 2] as u64) << 16u64) | ((b[at
        + 3] as u64) << 24u64) | ((b[at + 4] as u64) << 32u64) | ((b[at + 5] as u64) << 40u64)
        | ((b[at + 6] as u64) << 48u64) | ((b[at + 7] as u64) << 56u64)
}

fn read_le32(b: &[u8], at: usize) -> (v: u32)
    requires
        at + 4 <= b@.len(),
    ensures
        v == le_u32(b@.subrange(at as int, at + 4)),
{
    let ghost s = b@.subrange(at as int, at + 4);
    assert(s[0] == b@[at as int] && s[1] == b@[at + 1] && s[2] == b@[at + 2] && s[3] == b@[at + 3]);
    (b[at] as u32) | ((b[at + 1] as u32) << 8u32) | ((b[at + 2] as u32) << 16u32) | ((b[at
        + 3] as u32) << 24u32)
}

/// The header encoded in the 24 bytes of `b` at `at`.
fn read_header(b: &[u8], at: usize) -> (h: JournalEntryHeader)
    requires
        at + HEADER_SIZE <= b@.len(),
    ensures
        h == decode_header(b@.subrange(at as int, at + HEADER_SIZE)),
{
    let n = b.len();
    assert(at + HEADER_SIZE <= n);
    let ghost s = b@.subrange(at as int, at + HEADER_SIZE);
    assert(s.subrange(0, 8) =~= b@.subrange(at as int, at + 8));
    assert(s.subrange(8, 16) =~= b@.subrange(at + 8, at + 16));
    assert(s.subrange(16, 20) =~= b@.subrange(at + 16, at + 20));
    assert(s.subrange(20, 24) =~= b@.subrange(at + 20, at + 24));
    JournalEntryHeader {
        session_hash: read_le64(b, at),
        seq_num: read_le64(b, at + 8),
        body_length: read_le32(b, at + 16),
        crc32: read_le32(b, at + 20),
    }
}

// ---------------------------------------------------------------------------
// The journal
// ---------------------------------------------------------------------------

/// Sync policy for journal writes.
#[derive(Debug, Clone, Copy, PartialEq, Eq, Structural)]
pub enum SyncPolicy {
    /// No flush: rely on the OS page cache. Fastest.
    NoSync,
    /// Flush every N milliseconds.
    Batch(u32),
    /// Flush after every message. Slowest but safest.
    EveryMessage,
}

/// Memory-mapped message journal.
pub struct Journal {
    map: MmapMut,
    write_offset: usize,
    capacity: usize,
    sync_policy: SyncPolicy,
    entry_count: u64,
}

impl Journal {
    /// The bytes of the journal's region.
    pub closed spec fn contents(&self) -> Seq<u8> {
        mapped_bytes(self.map)
    }

    pub closed spec fn spec_write_offset(&self) -> usize {
        self.write_offset
    }

    pub closed spec fn spec_capacity(&self) -> usize {
        self.capacity
    }

    pub closed spec fn spec_entry_count(&self) -> u64 {
        self.entry_count
    }

    pub closed spec fn spec_sync_policy(&self) -> SyncPolicy {
        self.sync_policy
    }

    /// The region is the whole map and the write position lies within it.
    pub closed spec fn wf(&self) -> bool {
        &&& self.capacity == mapped_bytes(self.map).len()
        &&& self.write_offset <= self.capacity
    }

    /// A journal over a writable map, which it uses whole, starting at its beginning.
    pub fn with_map(map: MmapMut, sync_policy: SyncPolicy) -> (j: Self)
        ensures
            j.wf(),
            j.contents() == mapped_bytes(map),
            j.spec_capacity() == mapped_bytes(map).len(),
            j.spec_write_offset() == 0,
            j.spec_entry_count() == 0,
            j.spec_sync_policy() == sync_policy,
    {
        let capacity = map_len(&map);
        Journal { map, write_offset: 0, capacity, sync_policy, entry_count: 0 }
    }

    /// Append a message to the journal. Returns the offset where it was written: the write
    /// position, or the start of the region when the entry would run past its end.
    pub fn append(&mut self, session_hash: u64, seq_num: u64, message: &[u8]) -> (r: Result<
        usize,
        std::io::Error,
    >)
        requires
            old(self).wf(),
            HEADER_SIZE + message@.len() <= old(self).spec_capacity(),
        ensures
            final(self).wf(),
            ({
                let total = HEADER_SIZE + message@.len();
                let offset = append_offset(
                    old(self).spec_write_offset() as int,
                    old(self).spec_capacity() as int,
                    total,
                );
                let h = header_for(session_hash, seq_num, message@);
                &&& final(self).contents() == with_entry(old(self).contents(), offset, h, message@)
                &&& final(self).spec_write_offset() == offset + total
                &&& final(self).spec_entry_count() == old(self).spec_entry_count().wrapping_add(1)
                &&& final(self).spec_capacity() == old(self).spec_capacity()
                &&& final(self).spec_sync_policy() == old(self).spec_sync_policy()
                &&& (r matches Ok(o) ==> o == offset)
                &&& (old(self).spec_sync_policy() != SyncPolicy::EveryMessage ==> r is Ok)
                &&& (message@.len() <= u32::MAX ==> entry_at(
                    final(self).contents(),
                    final(self).spec_capacity() as int,
                    offset,
                ) == Some((h, message@)))
            }),
    {
        let total = HEADER_SIZE + message.len();
        if self.write_offset > self.capacity - total {
            self.write_offset = 0;
        }
        let offset = self.write_offset;
        let header = JournalEntryHeader {
            session_hash,
            seq_num,
            body_length: #[verifier::truncate] (message.len() as u32),
            crc32: crc32_simple(message),
        };
        let header_bytes = encode_header(&header);
        proof {
            if message@.len() <= u32::MAX {
                lemma_read_back(
                    mapped_bytes(self.map),
                    offset as int,
                    session_hash,
                    seq_num,
                    message@,
                );
            }
        }
        map_write(&mut self.map, offset, header_bytes.as_slice());
        map_write(&mut self.map, offset + HEADER_SIZE, message);
        self.write_offset = offset + total;
        self.entry_count = self.entry_count.wrapping_add(1);
        if self.sync_policy == SyncPolicy::EveryMessage {
            match map_flush(&self.map) {
                Ok(()) => {},
                Err(e) => return Err(e),
            }
        }
        Ok(offset)
    }

    /// Read the journal entry at the given offset: `None` unless the header and body lie
    /// within the region and the body's checksum matches.
    pub fn read_entry(&self, offset: usize) -> (r: Option<(JournalEntryHeader, &[u8])>)
        requires
            self.wf(),
            offset + HEADER_SIZE <= usize::MAX,
        ensures
            match entry_at(self.contents(), self.spec_capacity() as int, offset as int) {
                None => r is None,
                Some((h, body)) => r matches Some((h2, b)) && h2 == h && b@ == body,
            },
    {
        if offset + HEADER_SIZE > self.capacity {
            return None;
        }
        let bytes = map_bytes(&self.map);
        let header = read_header(bytes, offset);
        let body_start = offset + HEADER_SIZE;
        if header.body_length as usize > self.capacity - body_start {
            return None;
        }
        let body_end = body_start + header.body_length as usize;
        let body = vstd::slice::slice_subrange(bytes, body_start, body_end);
        if crc32_simple(body) != header.crc32 {
            return None;
        }
        Some((header, body))
    }

    /// Flush any pending writes to the file.
    pub fn flush(&mut self) -> (r: Result<(), std::io::Error>)
        ensures
            *final(self) == *old(self),
    {
        map_flush(&self.map)
    }

    /// The current write offset.
    pub fn write_offset(&self) -> (n: usize)
        ensures
            n == self.spec_write_offset(),
    {
        self.write_offset
    }

    /// The number of entries written.
    pub fn entry_count(&self) -> (n: u64)
        ensures
            n == self.spec_entry_count(),
    {
        self.entry_count
    }

    /// The journal capacity in bytes.
    pub fn capacity(&self) -> (n: usize)
        ensures
            n == self.spec_capacity(),
    {
        self.capacity
    }
}


/// The read-back law on every well-formed journal: the entry that the next append writes
/// (at the offset `append_offset` gives) reads back as its header and message.
pub proof fn lemma_journal_read_back(j: Journal, session_hash: u64, seq_num: u64, message: Seq<u8>)
    requires
        j.wf(),
        HEADER_SIZE + message.len() <= j.spec_capacity(),
        message.len() <= u32::MAX,
    ensures
        ({
            let offset = append_offset(
                j.spec_write_offset() as int,
                j.spec_capacity() as int,
                HEADER_SIZE + message.len(),
            );
            let h = header_for(session_hash, seq_num, message);
            entry_at(with_entry(j.contents(), offset, h, message), j.spec_capacity() as int, offset) == Some(
                (h, message),
            )
        }),
{
    let offset = append_offset(j.spec_write_offset() as int, j.spec_capacity() as int, HEADER_SIZE + message.len());
    assert(j.contents().len() == j.spec_capacity());
    lemma_read_back(j.contents(), offset, session_hash, seq_num, message);
}


/// The numbers of a journal header are written least significant byte first: byte `i` of
/// an encoded 64-bit or 32-bit number is its base-256 digit `i`.
pub proof fn lemma_little_endian(v: u64, w: u32)
    ensures
        le_bytes64(v)[0] == v % 0x100,
        le_bytes64(v)[1] == (v / 0x100) % 0x100,
        le_bytes64(v)[2] == (v / 0x1_0000) % 0x100,
        le_bytes64(v)[3] == (v / 0x100_0000) % 0x100,
        le_bytes64(v)[4] == (v / 0x1_0000_0000) % 0x100,
        le_bytes64(v)[5] == (v / 0x100_0000_0000) % 0x100,
        le_bytes64(v)[6] == (v / 0x1_0000_0000_0000) % 0x100,
        le_bytes64(v)[7] == (v / 0x100_0000_0000_0000) % 0x100,
        le_bytes32(w)[0] == w % 0x100,
        le_bytes32(w)[1] == (w / 0x100) % 0x100,
        le_bytes32(w)[2] == (w / 0x1_0000) % 0x100,
        le_bytes32(w)[3] == (w / 0x100_0000) % 0x100,
{
    assert(((v >> 0u64) & 0xff) == v % 0x100) by (bit_vector);
    assert(((v >> 8u64) & 0xff) == (v / 0x100) % 0x100) by (bit_vector);
    assert(((v >> 16u64) & 0xff) == (v / 0x1_0000) % 0x100) by (bit_vector);
    assert(((v >> 24u64) & 0xff) == (v / 0x100_0000) % 0x100) by (bit_vector);
    assert(((v >> 32u64) & 0xff) == (v / 0x1_0000_0000) % 0x100) by (bit_vector);
    assert(((v >> 40u64) & 0xff) == (v / 0x100_0000_0000) % 0x100) by (bit_vector);
    assert(((v >> 48u64) & 0xff) == (v / 0x1_0000_0000_0000) % 0x100) by (bit_vector);
    assert(((v >> 56u64) & 0xff) == (v / 0x100_0000_0000_0000) % 0x100) by (bit_vector);
    assert(((w >> 0u32) & 0xff) == w % 0x100) by (bit_vector);
    assert(((w >> 8u32) & 0xff) == (w / 0x100) % 0x100) by (bit_vector);
    assert(((w >> 16u32) & 0xff) == (w / 0x1_0000) % 0x100) by (bit_vector);
    assert(((w >> 24u32) & 0xff) == (w / 0x100_0000) % 0x100) by (bit_vector);
}

} // verus!
