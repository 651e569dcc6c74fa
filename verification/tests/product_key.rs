use winkey::error::MsdmError;
use winkey::key::{validate_key_format, ProductKey};

#[test]
fn accepts_alphanumeric_key() {
    assert!(ProductKey::new("ABCDE-12345-FGHIJ-67890-KLMNO").is_ok());
}

#[test]
fn accepts_all_letters() {
    assert!(ProductKey::new("XXXXX-XXXXX-XXXXX-XXXXX-XXXXX").is_ok());
}

#[test]
fn accepts_mixed_alphanumeric() {
    assert!(ProductKey::new("A1B2C-D3E4F-G5H6I-J7K8L-M9N0O").is_ok());
}

#[test]
fn rejects_wrong_length() {
    let err = ProductKey::new("ABCDE-12345").unwrap_err();
    assert!(matches!(err, MsdmError::InvalidKeyFormat { .. }));
}

#[test]
fn rejects_wrong_separator() {
    let err = ProductKey::new("ABCDE_12345_FGHIJ_67890_KLMNO").unwrap_err();
    assert!(matches!(err, MsdmError::InvalidKeyFormat { .. }));
}

#[test]
fn rejects_special_characters() {
    let err = ProductKey::new("ABCD!-12345-FGHIJ-67890-KLMNO").unwrap_err();
    assert!(matches!(err, MsdmError::InvalidKeyFormat { .. }));
}

#[test]
fn trims_trailing_nulls() {
    let key = ProductKey::new("ABCDE-12345-FGHIJ-67890-KLMNO\0\0").unwrap();
    assert_eq!(key.as_ref(), "ABCDE-12345-FGHIJ-67890-KLMNO");
}

fn reason_of(raw: &str) -> (String, &'static str) {
    match ProductKey::new(raw) {
        Err(MsdmError::InvalidKeyFormat { key, reason }) => (key, reason),
        Ok(k) => panic!("accepted: {}", k.as_ref()),
        Err(other) => panic!("unexpected error: {}", other.to_string()),
    }
}

#[test]
fn wrong_length_reason() {
    let (key, reason) = reason_of("ABCDE-12345");
    assert_eq!(key, "ABCDE-12345");
    assert_eq!(reason, "key must be 29 characters (XXXXX-XXXXX-XXXXX-XXXXX-XXXXX)");
}

#[test]
fn wrong_separator_reason_is_group_length() {
    let (_, reason) = reason_of("ABCDE_12345_FGHIJ_67890_KLMNO");
    assert_eq!(reason, "each group must be exactly 5 characters");
}

#[test]
fn special_character_reason() {
    let (_, reason) = reason_of("ABCD!-12345-FGHIJ-67890-KLMNO");
    assert_eq!(reason, "key must contain only alphanumeric characters and hyphens");
}

#[test]
fn length_counts_bytes_not_characters() {
    // 29 characters, 30 bytes: the accented letter takes two bytes.
    let (_, reason) = reason_of("ABCDE-12345-FGHIJ-67890-KLMN\u{e9}");
    assert_eq!(reason, "key must be 29 characters (XXXXX-XXXXX-XXXXX-XXXXX-XXXXX)");
}

#[test]
fn multibyte_group_of_five_bytes_fails_on_characters() {
    // "\u{e9}" is two bytes, so the last group is 5 bytes long but not alphanumeric.
    let (_, reason) = reason_of("ABCDE-12345-FGHIJ-67890-KLM\u{e9}");
    assert_eq!(reason, "key must contain only alphanumeric characters and hyphens");
}

#[test]
fn trims_surrounding_whitespace() {
    let key = ProductKey::new("  \tabcde-12345-FGHIJ-67890-KLMNO\n").unwrap();
    assert_eq!(key.as_ref(), "ABCDE-12345-FGHIJ-67890-KLMNO");
}

#[test]
fn trims_unicode_whitespace() {
    let key = ProductKey::new("\u{3000}ABCDE-12345-FGHIJ-67890-KLMNO\u{a0}").unwrap();
    assert_eq!(key.as_ref(), "ABCDE-12345-FGHIJ-67890-KLMNO");
}

#[test]
fn whitespace_before_nul_padding_is_kept() {
    let (key, reason) = reason_of("ABCDE-12345-FGHIJ-67890-KLMNO \0");
    assert_eq!(key, "ABCDE-12345-FGHIJ-67890-KLMNO ");
    assert_eq!(reason, "key must be 29 characters (XXXXX-XXXXX-XXXXX-XXXXX-XXXXX)");
}

#[test]
fn leading_hyphen_fails_on_group_length() {
    let (_, reason) = reason_of("-ABCDE12345-FGHIJ-67890-KLMNO");
    assert_eq!(reason, "each group must be exactly 5 characters");
}

#[test]
fn validate_key_format_accepts_lowercase() {
    assert!(validate_key_format("abcde-12345-fghij-67890-klmno").is_ok());
    assert!(validate_key_format("ABCDE-12345-FGHIJ-67890-KLMN").is_err());
}

#[test]
fn clones_compare_equal() {
    let key = ProductKey::new("ABCDE-12345-FGHIJ-67890-KLMNO").unwrap();
    let copy = key.clone();
    assert_eq!(key, copy);
}
