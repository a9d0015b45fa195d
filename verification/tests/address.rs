use ronin_collector::address::{is_valid_address, normalize_address};

#[test]
fn normalize_rewrites_ronin_prefix() {
    let r = normalize_address("ronin:aaaaaaaaaaaaaaaaaaaaaaaaaaaaaaaaaaaaaaaa");
    assert_eq!(r, "0xaaaaaaaaaaaaaaaaaaaaaaaaaaaaaaaaaaaaaaaa");
}

#[test]
fn normalize_leaves_hex_form_alone() {
    let r = normalize_address("0x1234567890abcdef1234567890abcdef12345678");
    assert_eq!(r, "0x1234567890abcdef1234567890abcdef12345678");
}

#[test]
fn normalize_replaces_only_the_first_marker() {
    let r = normalize_address("ronin:ronin:ff");
    assert_eq!(r, "0xronin:ff");
}

#[test]
fn normalize_replaces_marker_anywhere() {
    let r = normalize_address("xxronin:yy");
    assert_eq!(r, "xx0xyy");
}

#[test]
fn valid_address_accepts_twenty_byte_hex() {
    assert!(is_valid_address("0x1234567890abcdef1234567890abcdef12345678"));
    assert!(is_valid_address("0xAAAAAAAAAAAAAAAAAAAAAAAAAAAAAAAAAAAAAAAA"));
}

#[test]
fn valid_address_rejects_bad_forms() {
    // too short, too long, bad digit, missing prefix
    assert!(!is_valid_address("0x1234"));
    assert!(!is_valid_address("0x1234567890abcdef1234567890abcdef123456789"));
    assert!(!is_valid_address("0x1234567890abcdef1234567890abcdef1234567g"));
    assert!(!is_valid_address("1234567890abcdef1234567890abcdef12345678"));
    assert!(!is_valid_address(""));
}

#[test]
fn normalized_ronin_address_parses_iff_suffix_is_hex() {
    let good = normalize_address("ronin:1234567890abcdef1234567890abcdef12345678");
    assert!(is_valid_address(&good));
    let bad = normalize_address("ronin:1234567890abcdef1234567890abcdef1234567z");
    assert!(!is_valid_address(&bad));
}
