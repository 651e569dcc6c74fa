use winkey::error::MsdmError;
use winkey::msdm::{read_ascii_lossy, read_u32_le, MSDM_TABLE_MIN_LENGTH, OFFSET_CHECKSUM, OFFSET_PRODUCT_KEY};
use winkey::platform::{extract_key, KeyReport, PlatformResult};
use winkey::text::{chars_of, key_text_bounds};

#[test]
fn raw_table_is_parsed() {
    let mut table = vec![0u8; MSDM_TABLE_MIN_LENGTH];
    table[0..4].copy_from_slice(b"MSDM");
    table[OFFSET_PRODUCT_KEY..].copy_from_slice(b"ABCDE-12345-FGHIJ-67890-KLMNO");
    let sum: u8 = table.iter().fold(0u8, |acc, &b| acc.wrapping_add(b));
    table[OFFSET_CHECKSUM] = 0u8.wrapping_sub(sum);
    match extract_key(&PlatformResult::RawTable(table)).unwrap() {
        KeyReport::Table(t) => {
            assert_eq!(t.product_key.as_ref(), "ABCDE-12345-FGHIJ-67890-KLMNO");
            assert!(t.checksum_valid);
        }
        other => panic!("unexpected: {:?}", other),
    }
}

#[test]
fn registry_key_is_validated() {
    match extract_key(&PlatformResult::KeyOnly("abcde-12345-fghij-67890-klmno".to_string())).unwrap() {
        KeyReport::KeyOnly(k) => assert_eq!(k.as_ref(), "ABCDE-12345-FGHIJ-67890-KLMNO"),
        other => panic!("unexpected: {:?}", other),
    }
    assert!(matches!(
        extract_key(&PlatformResult::KeyOnly("nope".to_string())),
        Err(MsdmError::InvalidKeyFormat { .. })
    ));
    assert!(matches!(
        extract_key(&PlatformResult::RawTable(vec![1, 2, 3])),
        Err(MsdmError::TableTooShort { expected: 85, got: 3 })
    ));
}

#[test]
fn little_endian_reads() {
    let bytes = [0x01, 0x02, 0x03, 0x04, 0x05];
    assert_eq!(read_u32_le(&bytes, 0), 0x0403_0201);
    assert_eq!(read_u32_le(&bytes, 1), 0x0504_0302);
}

#[test]
fn ascii_fields_are_trimmed() {
    let bytes = b"xx  AB C\0\0yy";
    assert_eq!(read_ascii_lossy(bytes, 2, 8), "AB C");
    assert_eq!(read_ascii_lossy(bytes, 0, 0), "");
    assert_eq!(read_ascii_lossy(b"\0\0 A", 0, 4), "\0\0 A");
    assert_eq!(read_ascii_lossy(b"A M \0\0\0\0", 0, 8), "A M");
    assert_eq!(read_ascii_lossy(b" AB\0 \0\t\0", 0, 8), "AB");
}

#[test]
fn key_text_bounds_of_text() {
    let v = chars_of(" \tkey \0\0");
    assert_eq!(key_text_bounds(&v), (2, 6));
    let w = chars_of("   ");
    let (a, b) = key_text_bounds(&w);
    assert_eq!(a, b);
}

#[test]
fn firmware_buffer_is_cut_to_reported_length() {
    assert!(matches!(
        winkey::platform::firmware_table(vec![1, 2, 3], 0),
        Err(MsdmError::NotFound)
    ));
    assert_eq!(winkey::platform::firmware_table(vec![1, 2, 3, 4], 2).unwrap(), vec![1, 2]);
    assert_eq!(winkey::platform::firmware_table(vec![1, 2], 9).unwrap(), vec![1, 2]);
}

#[test]
fn second_read_reports_first_error() {
    let ok = winkey::platform::second_read(MsdmError::PermissionDenied, Ok(vec![7]));
    assert_eq!(ok.unwrap(), vec![7]);
    let err = winkey::platform::second_read(MsdmError::PermissionDenied, Err(MsdmError::NotFound));
    assert!(matches!(err, Err(MsdmError::PermissionDenied)));
}

#[test]
fn empty_registry_value_is_not_found() {
    assert!(matches!(
        winkey::platform::registry_key(String::new()),
        Err(MsdmError::NotFound)
    ));
    match winkey::platform::registry_key("ABCDE".to_string()).unwrap() {
        PlatformResult::KeyOnly(k) => assert_eq!(k, "ABCDE"),
        PlatformResult::RawTable(_) => panic!("unexpected raw table"),
    }
}
