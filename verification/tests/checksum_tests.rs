use velocitas_fix::checksum;

#[test]
fn test_checksum_compute() {
    // "8=FIX.4.4" + SOH = bytes
    let data = b"8=FIX.4.4\x019=5\x0135=0\x01";
    let cs = checksum::compute(data);
    assert_eq!(cs, 163);
}

#[test]
fn test_checksum_format() {
    let mut buf = [0u8; 3];
    checksum::format(7, &mut buf);
    assert_eq!(&buf, b"007");

    checksum::format(42, &mut buf);
    assert_eq!(&buf, b"042");

    checksum::format(255, &mut buf);
    assert_eq!(&buf, b"255");

    checksum::format(100, &mut buf);
    assert_eq!(&buf, b"100");
}

#[test]
fn test_checksum_empty() {
    assert_eq!(checksum::compute(b""), 0);
}

#[test]
fn test_checksum_known_value() {
    // Sum of ASCII values of "ABC" = 65+66+67 = 198
    assert_eq!(checksum::compute(b"ABC"), 198);
}

#[test]
fn checksum_validate_rejects_out_of_range_and_non_digits() {
    let good = b"8=FIX.4.4\x019=5\x0135=0\x0110=163\x01";
    assert!(velocitas_fix::checksum::validate(good));
    assert!(!velocitas_fix::checksum::validate(b"8=FIX.4.4\x019=5\x0135=0\x0110=000\x01"));
    // Bytes summing to 231 mod 256; "999" would wrap to 231 but is no checksum.
    assert!(!velocitas_fix::checksum::validate(b"\xe6\x0110=999\x01"));
    assert!(!velocitas_fix::checksum::validate(b"\xe6\x0110=2a1\x01"));
    assert!(velocitas_fix::checksum::validate(b"\xe6\x0110=231\x01"));
}
