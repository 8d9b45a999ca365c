use memmap2::MmapMut;
use velocitas_fix::journal::{crc32_simple, session_hash, Journal, SyncPolicy, HEADER_SIZE};

fn anon_journal(size: usize, policy: SyncPolicy) -> Journal {
    Journal::with_map(MmapMut::map_anon(size).unwrap(), policy)
}

#[test]
fn journal_anon_write_read_back() {
    let mut journal = anon_journal(1024 * 1024, SyncPolicy::NoSync);
    assert_eq!(journal.capacity(), 1024 * 1024);
    let msg = b"8=FIX.4.4\x0135=D\x0110=000\x01";
    let hash = session_hash("SENDER", "TARGET");
    let offset = journal.append(hash, 1, msg).unwrap();
    assert_eq!(offset, 0);
    assert_eq!(journal.entry_count(), 1);
    assert_eq!(journal.write_offset(), HEADER_SIZE + msg.len());
    let (header, body) = journal.read_entry(offset).unwrap();
    assert_eq!(header.session_hash, hash);
    assert_eq!(header.seq_num, 1);
    assert_eq!(header.body_length as usize, msg.len());
    assert_eq!(header.crc32, crc32_simple(msg));
    assert_eq!(body, msg);
}

#[test]
fn journal_anon_many_entries() {
    let mut journal = anon_journal(1024 * 1024, SyncPolicy::EveryMessage);
    let hash = session_hash("S", "T");
    let mut offsets = Vec::new();
    for i in 1..=100u64 {
        let msg = format!("MSG-{}", i);
        let offset = journal.append(hash, i, msg.as_bytes()).unwrap();
        offsets.push((offset, i, msg));
    }
    for (offset, seq, msg) in &offsets {
        let (header, body) = journal.read_entry(*offset).unwrap();
        assert_eq!(header.seq_num, *seq);
        assert_eq!(body, msg.as_bytes());
    }
    assert_eq!(journal.entry_count(), 100);
}

#[test]
fn journal_anon_wraps_to_start() {
    let mut journal = anon_journal(256, SyncPolicy::NoSync);
    let hash = session_hash("S", "T");
    let mut last = 0;
    for i in 1..=20u64 {
        last = journal.append(hash, i, b"test-data").unwrap();
    }
    assert!(journal.write_offset() < journal.capacity());
    // 33-byte entries: seven fit in 256 bytes, so the 8th, 15th... go back to the start.
    assert_eq!(last, ((20 - 1) % 7) * 33);
    let (header, body) = journal.read_entry(last).unwrap();
    assert_eq!(header.seq_num, 20);
    assert_eq!(body, b"test-data");
}

#[test]
fn journal_anon_rejects_out_of_range_and_blank() {
    let mut journal = anon_journal(128, SyncPolicy::NoSync);
    assert!(journal.read_entry(128 - HEADER_SIZE + 1).is_none());
    journal.append(1, 1, b"abc").unwrap();
    // An all-zero region past the entry: length 0 and checksum 0, but the checksum of no
    // bytes is 0, so an empty entry reads back there.
    let (h, b) = journal.read_entry(64).unwrap();
    assert_eq!(h.body_length, 0);
    assert!(b.is_empty());
    // Reading in the middle of an entry finds a header whose checksum does not match.
    assert!(journal.read_entry(1).is_none());
    journal.flush().unwrap();
}

#[test]
fn journal_crc32_of_empty_and_single_byte() {
    assert_eq!(crc32_simple(b""), 0);
    assert_eq!(crc32_simple(b"a"), 0xE8B7BE43);
}

#[test]
fn journal_session_hash_known_value() {
    // FNV-1a 64 of "A|B"
    let mut h: u64 = 0xcbf29ce484222325;
    for b in b"A|B" {
        h ^= *b as u64;
        h = h.wrapping_mul(0x100000001b3);
    }
    assert_eq!(session_hash("A", "B"), h);
}
