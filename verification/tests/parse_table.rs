use winkey::error::MsdmError;
use winkey::msdm::{
    parse_table, MSDM_TABLE_MIN_LENGTH, OFFSET_CHECKSUM, OFFSET_CREATOR_ID, OFFSET_LENGTH,
    OFFSET_OEM_ID, OFFSET_OEM_TABLE_ID, OFFSET_PRODUCT_KEY, OFFSET_REVISION, OFFSET_SIGNATURE,
    OFFSET_SLS_DATA_LENGTH, OFFSET_SLS_DATA_TYPE, OFFSET_SLS_VERSION,
};

/// Build a synthetic valid MSDM table for testing.
fn build_test_table(key: &str) -> Vec<u8> {
    let mut table = vec![0u8; MSDM_TABLE_MIN_LENGTH];

    // Signature
    table[OFFSET_SIGNATURE..OFFSET_SIGNATURE + 4].copy_from_slice(b"MSDM");

    // Length
    let length = MSDM_TABLE_MIN_LENGTH as u32;
    table[OFFSET_LENGTH..OFFSET_LENGTH + 4].copy_from_slice(&length.to_le_bytes());

    // Revision
    table[OFFSET_REVISION] = 1;

    // OEM ID
    table[OFFSET_OEM_ID..OFFSET_OEM_ID + 6].copy_from_slice(b"ALASKA");

    // OEM Table ID
    table[OFFSET_OEM_TABLE_ID..OFFSET_OEM_TABLE_ID + 4].copy_from_slice(b"A M ");

    // Creator ID
    table[OFFSET_CREATOR_ID..OFFSET_CREATOR_ID + 4].copy_from_slice(b"AMI ");

    // SLS version
    table[OFFSET_SLS_VERSION..OFFSET_SLS_VERSION + 4].copy_from_slice(&1u32.to_le_bytes());

    // SLS data type
    table[OFFSET_SLS_DATA_TYPE..OFFSET_SLS_DATA_TYPE + 4].copy_from_slice(&1u32.to_le_bytes());

    // SLS data length
    let key_len = key.len() as u32;
    table[OFFSET_SLS_DATA_LENGTH..OFFSET_SLS_DATA_LENGTH + 4]
        .copy_from_slice(&key_len.to_le_bytes());

    // Product key
    table[OFFSET_PRODUCT_KEY..OFFSET_PRODUCT_KEY + key.len()].copy_from_slice(key.as_bytes());

    // Fix checksum so all bytes sum to 0 mod 256
    let sum: u8 = table.iter().fold(0u8, |acc, &b| acc.wrapping_add(b));
    table[OFFSET_CHECKSUM] = 0u8.wrapping_sub(sum);

    table
}

#[test]
fn extracts_product_key() {
    let key = "ABCDE-12345-FGHIJ-67890-KLMNO";
    let table = parse_table(&build_test_table(key)).unwrap();
    assert_eq!(table.product_key.as_ref(), key);
}

#[test]
fn extracts_table_length() {
    let table = parse_table(&build_test_table("ABCDE-12345-FGHIJ-67890-KLMNO")).unwrap();
    assert_eq!(table.length, MSDM_TABLE_MIN_LENGTH as u32);
}

#[test]
fn extracts_oem_id() {
    let table = parse_table(&build_test_table("ABCDE-12345-FGHIJ-67890-KLMNO")).unwrap();
    assert_eq!(table.oem_id, "ALASKA");
}

#[test]
fn validates_checksum() {
    let table = parse_table(&build_test_table("ABCDE-12345-FGHIJ-67890-KLMNO")).unwrap();
    assert!(table.checksum_valid);
}

#[test]
fn uppercases_lowercase_key() {
    let table = parse_table(&build_test_table("abcde-12345-fghij-67890-klmno")).unwrap();
    assert_eq!(table.product_key.as_ref(), "ABCDE-12345-FGHIJ-67890-KLMNO");
}

#[test]
fn returns_error_when_table_too_short() {
    let err = parse_table(&[0u8; 50]).unwrap_err();
    assert!(
        matches!(
            err,
            MsdmError::TableTooShort {
                expected: 85,
                got: 50
            }
        ),
        "expected TableTooShort, got: {}",
        err.to_string()
    );
}

#[test]
fn returns_error_when_signature_wrong() {
    let mut bytes = build_test_table("ABCDE-12345-FGHIJ-67890-KLMNO");
    bytes[0..4].copy_from_slice(b"HPET");

    let err = parse_table(&bytes).unwrap_err();
    assert!(
        matches!(err, MsdmError::InvalidSignature { got } if &got == b"HPET"),
        "expected InvalidSignature, got: {}",
        err.to_string()
    );
}

#[test]
fn detects_bad_checksum() {
    let mut bytes = build_test_table("ABCDE-12345-FGHIJ-67890-KLMNO");
    bytes[OFFSET_CHECKSUM] = bytes[OFFSET_CHECKSUM].wrapping_add(1);

    let table = parse_table(&bytes).unwrap();
    assert!(!table.checksum_valid);
}

#[test]
fn returns_error_when_key_not_utf8() {
    let mut bytes = build_test_table("ABCDE-12345-FGHIJ-67890-KLMNO");
    bytes[OFFSET_PRODUCT_KEY] = 0xFF;
    bytes[OFFSET_PRODUCT_KEY + 1] = 0xFE;

    let err = parse_table(&bytes).unwrap_err();
    assert!(matches!(
        err,
        MsdmError::InvalidUtf8 {
            field: "product key"
        }
    ));
}

#[test]
fn extracts_every_header_field() {
    let table = parse_table(&build_test_table("ABCDE-12345-FGHIJ-67890-KLMNO")).unwrap();
    assert_eq!(table.revision, 1);
    assert_eq!(table.oem_table_id, "A M");
    assert_eq!(table.oem_revision, 0);
    assert_eq!(table.creator_id, "AMI");
    assert_eq!(table.creator_revision, 0);
    assert_eq!(table.sls_version, 1);
    assert_eq!(table.sls_data_type, 1);
    assert_eq!(table.sls_data_length, 29);
    let bytes = build_test_table("ABCDE-12345-FGHIJ-67890-KLMNO");
    assert_eq!(table.checksum, bytes[OFFSET_CHECKSUM]);
}

#[test]
fn reads_multi_byte_little_endian_fields() {
    let mut bytes = build_test_table("ABCDE-12345-FGHIJ-67890-KLMNO");
    bytes[24..28].copy_from_slice(&[0x78, 0x56, 0x34, 0x12]);
    bytes[32..36].copy_from_slice(&[0xFF, 0xFF, 0xFF, 0xFF]);
    let table = parse_table(&bytes).unwrap();
    assert_eq!(table.oem_revision, 0x1234_5678);
    assert_eq!(table.creator_revision, u32::MAX);
    assert!(!table.checksum_valid);
}

#[test]
fn accepts_table_longer_than_minimum() {
    let mut bytes = build_test_table("ABCDE-12345-FGHIJ-67890-KLMNO");
    bytes.extend_from_slice(&[1, 2, 3]);
    let table = parse_table(&bytes).unwrap();
    assert_eq!(table.product_key.as_ref(), "ABCDE-12345-FGHIJ-67890-KLMNO");
    assert!(!table.checksum_valid);
}

#[test]
fn table_of_exactly_minimum_minus_one_is_too_short() {
    let bytes = build_test_table("ABCDE-12345-FGHIJ-67890-KLMNO");
    let err = parse_table(&bytes[..84]).unwrap_err();
    assert!(matches!(err, MsdmError::TableTooShort { expected: 85, got: 84 }));
}

#[test]
fn rejects_table_with_bad_key_format() {
    let err = parse_table(&build_test_table("ABCDE-12345-FGHIJ-67890-KLMN!")).unwrap_err();
    match err {
        MsdmError::InvalidKeyFormat { key, reason } => {
            assert_eq!(key, "ABCDE-12345-FGHIJ-67890-KLMN!");
            assert_eq!(
                reason,
                "key must contain only alphanumeric characters and hyphens"
            );
        }
        other => panic!("unexpected error: {}", other.to_string()),
    }
}

#[test]
fn header_text_with_invalid_utf8_is_replaced() {
    let mut bytes = build_test_table("ABCDE-12345-FGHIJ-67890-KLMNO");
    bytes[OFFSET_OEM_ID..OFFSET_OEM_ID + 6].copy_from_slice(&[0xFF, b'A', b'B', 0, 0, 0]);
    let table = parse_table(&bytes).unwrap();
    assert_eq!(table.oem_id, "\u{FFFD}AB");
}

#[test]
fn key_padded_with_nuls_in_table() {
    let mut bytes = build_test_table("ABCDE-12345-FGHIJ-67890-KLMNO");
    bytes[OFFSET_PRODUCT_KEY..OFFSET_PRODUCT_KEY + 29].copy_from_slice(&[0u8; 29]);
    let err = parse_table(&bytes).unwrap_err();
    match err {
        MsdmError::InvalidKeyFormat { key, reason } => {
            assert_eq!(key, "");
            assert_eq!(
                reason,
                "key must be 29 characters (XXXXX-XXXXX-XXXXX-XXXXX-XXXXX)"
            );
        }
        other => panic!("unexpected error: {}", other.to_string()),
    }
}

#[test]
fn verbose_report_lines() {
    let mut bytes = build_test_table("ABCDE-12345-FGHIJ-67890-KLMNO");
    let table = parse_table(&bytes).unwrap();
    let checksum = format!("  Checksum:          0x{:02X} (valid)", table.checksum);
    assert_eq!(
        table.details(),
        vec![
            "MSDM table details:".to_string(),
            "  Table length:      85 bytes".to_string(),
            "  Revision:          1".to_string(),
            checksum,
            "  OEM ID:            ALASKA".to_string(),
            "  OEM Table ID:      A M".to_string(),
            "  OEM Revision:      0".to_string(),
            "  Creator ID:        AMI".to_string(),
            "  Creator Revision:  0".to_string(),
            "  SLS Version:       1".to_string(),
            "  SLS Data Type:     1".to_string(),
            "  SLS Data Length:    29".to_string(),
        ]
    );
    bytes[OFFSET_CHECKSUM] = bytes[OFFSET_CHECKSUM].wrapping_add(1);
    let bad = parse_table(&bytes).unwrap();
    let lines = bad.details();
    assert_eq!(lines.len(), 14);
    assert_eq!(lines[0], "Warning: ACPI checksum mismatch. Possible firmware bug.");
    assert_eq!(lines[1], "");
    assert_eq!(lines[5], format!("  Checksum:          0x{:02X} (invalid)", bad.checksum));
}
