use prover_core::bytes::{bytes_eq, starts_with};
use prover_core::text::{decimal_string, decimal_string_u128, text_contains, text_eq};

#[test]
fn decimal_numerals() {
    assert_eq!(decimal_string(0), "0");
    assert_eq!(decimal_string(7), "7");
    assert_eq!(decimal_string(10), "10");
    assert_eq!(decimal_string(1234567890), "1234567890");
    assert_eq!(decimal_string(u64::MAX), "18446744073709551615");
    assert_eq!(decimal_string_u128(u128::MAX), "340282366920938463463374607431768211455");
}

#[test]
fn decimal_numerals_agree_with_std() {
    for n in 0..2000u64 {
        assert_eq!(decimal_string(n), n.to_string());
    }
}

#[test]
fn different_numbers_have_different_numerals() {
    let mut seen = std::collections::HashSet::new();
    for n in 0..5000u64 {
        assert!(seen.insert(decimal_string(n)));
    }
}

#[test]
fn substring_search() {
    assert!(text_contains("execution reverted: RequestIsSlashed(7)", "RequestIsSlashed"));
    assert!(text_contains("RequestIsSlashed", "RequestIsSlashed"));
    assert!(text_contains("abc", ""));
    assert!(text_contains("", ""));
    assert!(!text_contains("", "a"));
    assert!(!text_contains("RequestIsSlashe", "RequestIsSlashed"));
    assert!(!text_contains("requestisslashed", "RequestIsSlashed"));
    assert!(text_contains("aab", "ab"));
    assert!(text_contains("déjà vu: gas required exceeds allowance", "gas required"));
    assert!(text_contains("xéy", "éy"));
    assert!(!text_contains("xey", "éy"));
}

#[test]
fn substring_search_agrees_with_std() {
    let hays = ["", "a", "ab", "aba", "abab", "bbbab", "insufficient funds", "é", "aéb"];
    let needles = ["", "a", "b", "ab", "ba", "bab", "funds", "é", "éb", "abc"];
    for hay in hays {
        for needle in needles {
            assert_eq!(text_contains(hay, needle), hay.contains(needle));
        }
    }
}

#[test]
fn text_equality() {
    assert!(text_eq("http", "http"));
    assert!(!text_eq("http", "https"));
    assert!(text_eq("", ""));
}

#[test]
fn byte_prefixes() {
    assert!(starts_with(&[1, 2, 3], &[1, 2]));
    assert!(starts_with(&[1, 2, 3], &[]));
    assert!(starts_with(&[1, 2, 3], &[1, 2, 3]));
    assert!(!starts_with(&[1, 2, 3], &[1, 2, 3, 4]));
    assert!(!starts_with(&[1, 2, 3], &[2]));
    assert!(bytes_eq(&[1, 2], &[1, 2]));
    assert!(!bytes_eq(&[1, 2], &[1, 2, 3]));
    assert!(!bytes_eq(&[1, 2], &[1, 3]));
    assert!(bytes_eq(&[], &[]));
}
