use repo_miner::text::{i64_to_string, to_lowercase_hex, u64_to_string};

#[test]
fn decimal_rendering_matches_std() {
    assert_eq!(u64_to_string(0), "0");
    assert_eq!(u64_to_string(7), "7");
    assert_eq!(u64_to_string(1234567890), "1234567890");
    assert_eq!(u64_to_string(u64::MAX), format!("{}", u64::MAX));
    assert_eq!(i64_to_string(0), "0");
    assert_eq!(i64_to_string(-1), "-1");
    assert_eq!(i64_to_string(-987), "-987");
    assert_eq!(i64_to_string(i64::MIN), format!("{}", i64::MIN));
    assert_eq!(i64_to_string(i64::MAX), format!("{}", i64::MAX));
}

#[test]
fn hex_rendering_is_two_lowercase_digits_per_byte() {
    assert_eq!(to_lowercase_hex(&vec![]), "");
    assert_eq!(to_lowercase_hex(&vec![0x00, 0x0f, 0xa0, 0xff]), "000fa0ff");
}
