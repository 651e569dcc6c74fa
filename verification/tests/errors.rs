use std::io::{Error, ErrorKind};

use winkey::cli::exit_code_for_error;
use winkey::error::{IoErrorClass, MsdmError};
use winkey::format::append_decimal;

#[test]
fn messages_of_each_error() {
    assert_eq!(
        MsdmError::NotFound.to_string(),
        "MSDM table not found: no Windows product key in firmware."
    );
    assert_eq!(
        MsdmError::PermissionDenied.to_string(),
        "Permission denied: reading the MSDM table requires root privileges. Try running with sudo."
    );
    assert_eq!(
        MsdmError::InvalidSignature { got: *b"HPET" }.to_string(),
        "Invalid MSDM table: expected signature \"MSDM\", got \"HPET\"."
    );
    assert_eq!(
        MsdmError::InvalidSignature { got: [0xFF, b'A', b'B', b'C'] }.to_string(),
        "Invalid MSDM table: expected signature \"MSDM\", got \"\u{FFFD}ABC\"."
    );
    assert_eq!(
        MsdmError::TableTooShort { expected: 85, got: 50 }.to_string(),
        "Invalid MSDM table: expected at least 85 bytes, got 50."
    );
    assert_eq!(
        MsdmError::InvalidUtf8 { field: "product key" }.to_string(),
        "Invalid MSDM table: product key contains invalid UTF-8."
    );
    assert_eq!(
        MsdmError::InvalidKeyFormat {
            key: "ABC".to_string(),
            reason: "each group must be exactly 5 characters"
        }
        .to_string(),
        "Invalid product key \"ABC\": each group must be exactly 5 characters."
    );
    assert_eq!(
        MsdmError::Registry("access refused".to_string()).to_string(),
        "Registry error: access refused"
    );
}

#[test]
fn io_error_message_starts_with_prefix() {
    let err = MsdmError::Io(Error::new(ErrorKind::Other, "disk on fire"));
    assert_eq!(err.to_string(), "I/O error: disk on fire");
}

#[test]
fn decimal_rendering() {
    for (n, text) in [(0usize, "0"), (7, "7"), (10, "10"), (85, "85"), (1234567, "1234567")] {
        let mut s = String::from("x=");
        append_decimal(&mut s, n);
        assert_eq!(s, format!("x={}", text));
    }
    let mut s = String::new();
    append_decimal(&mut s, usize::MAX);
    assert_eq!(s, usize::MAX.to_string());
}

#[test]
fn io_errors_are_sorted_by_kind() {
    assert!(matches!(
        MsdmError::from_io(Error::from(ErrorKind::NotFound)),
        MsdmError::NotFound
    ));
    assert!(matches!(
        MsdmError::from_io(Error::from(ErrorKind::PermissionDenied)),
        MsdmError::PermissionDenied
    ));
    match MsdmError::from_io(Error::new(ErrorKind::InvalidData, "bad")) {
        MsdmError::Io(e) => assert_eq!(e.kind(), ErrorKind::InvalidData),
        other => panic!("unexpected: {}", other.to_string()),
    }
}

#[test]
fn io_error_classes() {
    assert!(matches!(
        MsdmError::from_io_class(IoErrorClass::NotFound, Error::from(ErrorKind::Other)),
        MsdmError::NotFound
    ));
    assert!(matches!(
        MsdmError::from_io_class(IoErrorClass::PermissionDenied, Error::from(ErrorKind::Other)),
        MsdmError::PermissionDenied
    ));
    assert!(matches!(
        MsdmError::from_io_class(IoErrorClass::Other, Error::from(ErrorKind::NotFound)),
        MsdmError::Io(_)
    ));
}

#[test]
fn source_is_the_io_error() {
    let err = MsdmError::Io(Error::new(ErrorKind::Other, "x"));
    assert!(err.source().is_some());
    assert!(MsdmError::NotFound.source().is_none());
}

#[test]
fn exit_codes_per_error() {
    assert_eq!(exit_code_for_error(&MsdmError::NotFound), 2);
    assert_eq!(exit_code_for_error(&MsdmError::PermissionDenied), 3);
    assert_eq!(exit_code_for_error(&MsdmError::TableTooShort { expected: 85, got: 0 }), 4);
    assert_eq!(exit_code_for_error(&MsdmError::InvalidUtf8 { field: "product key" }), 4);
    assert_eq!(exit_code_for_error(&MsdmError::Io(Error::from(ErrorKind::Other))), 4);
}

#[test]
fn registry_errors_are_sorted() {
    let d = || "detail".to_string();
    assert!(matches!(MsdmError::from_registry_class(IoErrorClass::NotFound, d(), true), MsdmError::NotFound));
    assert!(matches!(MsdmError::from_registry_class(IoErrorClass::NotFound, d(), false), MsdmError::NotFound));
    assert!(matches!(
        MsdmError::from_registry_class(IoErrorClass::PermissionDenied, d(), true),
        MsdmError::PermissionDenied
    ));
    match MsdmError::from_registry_class(IoErrorClass::PermissionDenied, d(), false) {
        MsdmError::Registry(m) => assert_eq!(m, "detail"),
        other => panic!("unexpected: {}", other.to_string()),
    }
    match MsdmError::from_registry_class(IoErrorClass::Other, d(), true) {
        MsdmError::Registry(m) => assert_eq!(m, "detail"),
        other => panic!("unexpected: {}", other.to_string()),
    }
    match MsdmError::from_registry_error(Error::new(ErrorKind::Other, "boom"), true) {
        MsdmError::Registry(m) => assert_eq!(m, "boom"),
        other => panic!("unexpected: {}", other.to_string()),
    }
    assert!(matches!(
        MsdmError::from_registry_error(Error::from(ErrorKind::PermissionDenied), true),
        MsdmError::PermissionDenied
    ));
}

#[test]
fn hex_rendering() {
    for (b, text) in [(0u8, "00"), (9, "09"), (0x0A, "0A"), (0xAB, "AB"), (0xFF, "FF")] {
        let mut s = String::from("0x");
        winkey::format::append_hex2(&mut s, b);
        assert_eq!(s, format!("0x{}", text));
    }
}
