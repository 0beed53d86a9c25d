use vanity_search::scheme::Scheme;
use vanity_search::text::decimal_string;
use vanity_search::text::fold_case;
use vanity_search::text::same_text;

#[test]
fn scheme_names_are_read_without_regard_to_case() {
    assert_eq!(Scheme::from_str("sr25519"), Ok(Scheme::Sr25519));
    assert_eq!(Scheme::from_str("Sr25519"), Ok(Scheme::Sr25519));
    assert_eq!(Scheme::from_str("SR25519"), Ok(Scheme::Sr25519));
    assert_eq!(Scheme::from_str("ed25519"), Ok(Scheme::Ed25519));
    assert_eq!(Scheme::from_str("Ed25519"), Ok(Scheme::Ed25519));
    assert_eq!(Scheme::from_str("eddsa"), Ok(Scheme::Ed25519));
    assert_eq!(Scheme::from_str("EdDSA"), Ok(Scheme::Ed25519));
}

#[test]
fn unknown_scheme_is_named_in_the_error() {
    assert_eq!(Scheme::from_str("Ecdsa"), Err("Unrecognized Scheme: Ecdsa".to_string()));
    assert_eq!(Scheme::from_str(""), Err("Unrecognized Scheme: ".to_string()));
    assert_eq!(Scheme::from_str("sr25519 "), Err("Unrecognized Scheme: sr25519 ".to_string()));
}

#[test]
fn lowercase_lookup_takes_the_name_as_it_is() {
    assert_eq!(Scheme::from_lowercase("sr25519"), Some(Scheme::Sr25519));
    assert_eq!(Scheme::from_lowercase("eddsa"), Some(Scheme::Ed25519));
    assert_eq!(Scheme::from_lowercase("ed25519"), Some(Scheme::Ed25519));
    assert_eq!(Scheme::from_lowercase("Sr25519"), None);
    assert_eq!(Scheme::from_lowercase("sr2551"), None);
    assert_eq!(Scheme::from_lowercase("sr255199"), None);
}

#[test]
fn decimal_string_writes_numbers_without_padding() {
    assert_eq!(decimal_string(0), "0");
    assert_eq!(decimal_string(7), "7");
    assert_eq!(decimal_string(10), "10");
    assert_eq!(decimal_string(109), "109");
    assert_eq!(decimal_string(4294967295), "4294967295");
}

#[test]
fn same_text_compares_character_by_character() {
    assert!(same_text("", ""));
    assert!(same_text("eddsa", "eddsa"));
    assert!(!same_text("eddsa", "eddsb"));
    assert!(!same_text("eddsa", "edds"));
    assert!(!same_text("edds", "eddsa"));
    assert!(!same_text("", "a"));
    assert!(same_text("日本語", "日本語"));
}

#[test]
fn fold_case_lowers_ascii_letters_only() {
    assert_eq!(fold_case("5FaB9 xYZ~@[`{"), "5fab9 xyz~@[`{");
    assert_eq!(fold_case(""), "");
    assert_eq!(fold_case("AZaz"), "azaz");
}

#[test]
fn fold_case_goes_by_unicode_beyond_ascii() {
    assert_eq!(fold_case("ÄB"), "äb");
    assert_eq!(fold_case("ΑΣ"), "ας");
}
