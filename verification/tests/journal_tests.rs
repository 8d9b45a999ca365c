use velocitas_fix::journal::{crc32_simple, session_hash};
#[test]
fn test_session_hash_deterministic() {
    let h1 = session_hash("BANK", "NYSE");
    let h2 = session_hash("BANK", "NYSE");
    assert_eq!(h1, h2);

    let h3 = session_hash("NYSE", "BANK");
    assert_ne!(h1, h3); // Order matters
}

#[test]
fn test_crc32_known_value() {
    let crc = crc32_simple(b"123456789");
    assert_eq!(crc, 0xCBF43926); // Known CRC32 test vector
}
