use velocitas_fix::simd::{count_fields, find_equals, find_soh, find_byte_scalar, count_byte_scalar};

const SOH: u8 = 0x01;

// -- find_soh -----------------------------------------------------------

#[test]
fn find_soh_empty() {
    assert_eq!(find_soh(&[]), None);
}

#[test]
fn find_soh_not_present() {
    let buf = b"8=FIX.4.4";
    assert_eq!(find_soh(buf), None);
}

#[test]
fn find_soh_at_position_0() {
    let mut buf = [b'A'; 64];
    buf[0] = SOH;
    assert_eq!(find_soh(&buf), Some(0));
}

#[test]
fn find_soh_at_position_1() {
    let mut buf = [b'A'; 64];
    buf[1] = SOH;
    assert_eq!(find_soh(&buf), Some(1));
}

#[test]
fn find_soh_at_position_15() {
    let mut buf = [b'A'; 64];
    buf[15] = SOH;
    assert_eq!(find_soh(&buf), Some(15));
}

#[test]
fn find_soh_at_position_16() {
    let mut buf = [b'A'; 64];
    buf[16] = SOH;
    assert_eq!(find_soh(&buf), Some(16));
}

#[test]
fn find_soh_at_position_17() {
    let mut buf = [b'A'; 64];
    buf[17] = SOH;
    assert_eq!(find_soh(&buf), Some(17));
}

#[test]
fn find_soh_at_position_31() {
    let mut buf = [b'A'; 64];
    buf[31] = SOH;
    assert_eq!(find_soh(&buf), Some(31));
}

#[test]
fn find_soh_at_position_32() {
    let mut buf = [b'A'; 64];
    buf[32] = SOH;
    assert_eq!(find_soh(&buf), Some(32));
}

#[test]
fn find_soh_at_middle() {
    let mut buf = [b'A'; 100];
    buf[50] = SOH;
    assert_eq!(find_soh(&buf), Some(50));
}

#[test]
fn find_soh_at_end() {
    let mut buf = [b'A'; 64];
    buf[63] = SOH;
    assert_eq!(find_soh(&buf), Some(63));
}

#[test]
fn find_soh_returns_first_of_multiple() {
    let mut buf = [b'A'; 64];
    buf[10] = SOH;
    buf[20] = SOH;
    buf[30] = SOH;
    assert_eq!(find_soh(&buf), Some(10));
}

#[test]
fn find_soh_short_buffer() {
    let buf = [SOH];
    assert_eq!(find_soh(&buf), Some(0));

    let buf = [b'X', SOH];
    assert_eq!(find_soh(&buf), Some(1));

    let buf = [b'X'; 5];
    assert_eq!(find_soh(&buf), None);
}

#[test]
fn find_soh_shorter_than_simd_width() {
    let mut buf = [b'A'; 10];
    buf[7] = SOH;
    assert_eq!(find_soh(&buf), Some(7));
}

// -- count_fields -------------------------------------------------------

#[test]
fn count_fields_empty() {
    assert_eq!(count_fields(&[]), 0);
}

#[test]
fn count_fields_no_soh() {
    assert_eq!(count_fields(b"8=FIX.4.4"), 0);
}

#[test]
fn count_fields_single() {
    let mut buf = [b'A'; 32];
    buf[10] = SOH;
    assert_eq!(count_fields(&buf), 1);
}

#[test]
fn count_fields_multiple() {
    let mut buf = [b'A'; 64];
    buf[5] = SOH;
    buf[15] = SOH;
    buf[16] = SOH;
    buf[31] = SOH;
    buf[32] = SOH;
    buf[50] = SOH;
    assert_eq!(count_fields(&buf), 6);
}

#[test]
fn count_fields_all_soh() {
    let buf = [SOH; 48];
    assert_eq!(count_fields(&buf), 48);
}

#[test]
fn count_fields_short_buffer() {
    let buf = [SOH; 3];
    assert_eq!(count_fields(&buf), 3);
}

#[test]
fn count_fields_realistic_fix_message() {
    // "8=FIX.4.4\x019=5\x0135=0\x0110=162\x01"
    let msg = b"8=FIX.4.4\x019=5\x0135=0\x0110=162\x01";
    assert_eq!(count_fields(msg), 4);
}

// -- find_equals --------------------------------------------------------

#[test]
fn find_equals_empty() {
    assert_eq!(find_equals(&[]), None);
}

#[test]
fn find_equals_not_present() {
    assert_eq!(find_equals(b"hello"), None);
}

#[test]
fn find_equals_at_start() {
    assert_eq!(find_equals(b"=value"), Some(0));
}

#[test]
fn find_equals_typical_tag_value() {
    assert_eq!(find_equals(b"35=D"), Some(2));
}

#[test]
fn find_equals_returns_first() {
    assert_eq!(find_equals(b"8=FIX=4.4"), Some(1));
}

#[test]
fn find_equals_long_tag() {
    let mut buf = [b'9'; 40];
    buf[20] = b'=';
    assert_eq!(find_equals(&buf), Some(20));
}

// -- cross-check scalar vs SIMD -----------------------------------------

#[test]
fn find_byte_matches_scalar_sweep() {
    for size in 0..=130 {
        let mut buf = vec![b'X'; size];
        // No needle present.
        assert_eq!(find_soh(&buf), find_byte_scalar(&buf, SOH));
        assert_eq!(count_fields(&buf), count_byte_scalar(&buf, SOH));

        // Place needle at every valid position.
        for pos in 0..size {
            buf[pos] = SOH;
            assert_eq!(
                find_soh(&buf),
                find_byte_scalar(&buf, SOH),
                "find_soh mismatch at size={size} pos={pos}"
            );
            assert_eq!(
                count_fields(&buf),
                count_byte_scalar(&buf, SOH),
                "count_fields mismatch at size={size} pos={pos}"
            );
            buf[pos] = b'X';
        }
    }
}
