//! What the firmware of each platform hands over, and the key that it gives.
use vstd::prelude::*;

use crate::error::MsdmError;
use crate::key::{key_outcome, key_rejected_with, KeyFormatFault, ProductKey};
use crate::msdm::{parse_table, table_accepts, table_error, table_parsed, MsdmTable};

verus! {

/// What reading the firmware gave.
pub enum PlatformResult {
    /// Raw MSDM binary table (Linux, FreeBSD, OpenBSD, or a file).
    RawTable(Vec<u8>),
    /// Key string only, from the Windows registry.
    KeyOnly(String),
}

/// The key, with the table that held it when there was one.
#[derive(Debug)]
pub enum KeyReport {
    Table(MsdmTable),
    KeyOnly(ProductKey),
}

/// The product key in what the firmware gave: a raw table is parsed, a bare key is
/// validated.
pub fn extract_key(result: &PlatformResult) -> (r: Result<KeyReport, MsdmError>)
    ensures
        match result {
            PlatformResult::RawTable(bytes) => match r {
                Ok(KeyReport::Table(t)) => table_parsed(bytes@, t),
                Ok(KeyReport::KeyOnly(_)) => false,
                Err(e) => !table_accepts(bytes@) && table_error(bytes@, e),
            },
            PlatformResult::KeyOnly(raw) => match r {
                Ok(KeyReport::KeyOnly(pk)) => key_outcome(raw@) == Ok::<
                    Seq<char>,
                    (Seq<char>, KeyFormatFault),
                >(pk@),
                Ok(KeyReport::Table(_)) => false,
                Err(e) => key_rejected_with(raw@, e),
            },
        },
{
    match result {
        PlatformResult::RawTable(bytes) => match parse_table(bytes.as_slice()) {
            Ok(t) => Ok(KeyReport::Table(t)),
            Err(e) => Err(e),
        },
        PlatformResult::KeyOnly(raw) => match ProductKey::new(raw.as_str()) {
            Ok(k) => Ok(KeyReport::KeyOnly(k)),
            Err(e) => Err(e),
        },
    }
}


/// The table that the firmware wrote into `buffer` when it reported `reported_len`
/// bytes: a length of zero means that there is no table, and the buffer is cut to
/// the reported length.
pub fn firmware_table(buffer: Vec<u8>, reported_len: u32) -> (r: Result<Vec<u8>, MsdmError>)
    ensures
        reported_len == 0 ==> r matches Err(MsdmError::NotFound),
        reported_len != 0 ==> (r matches Ok(v) && v@ == if reported_len <= buffer@.len() {
            buffer@.take(reported_len as int)
        } else {
            buffer@
        }),
{
    if reported_len == 0 {
        return Err(MsdmError::NotFound);
    }
    let mut table = buffer;
    table.truncate(reported_len as usize);
    Ok(table)
}

/// The outcome of reading a table from a second place after the first failed with
/// `first_err`: the table read there, or else the first error.
pub fn second_read(first_err: MsdmError, second: Result<Vec<u8>, MsdmError>) -> (r: Result<
    Vec<u8>,
    MsdmError,
>)
    ensures
        match second {
            Ok(bytes) => r == Ok::<Vec<u8>, MsdmError>(bytes),
            Err(_) => r == Err::<Vec<u8>, MsdmError>(first_err),
        },
{
    match second {
        Ok(bytes) => Ok(bytes),
        Err(_) => Err(first_err),
    }
}

/// What the registry value holding the key gave: an empty value means that there
/// is no key.
pub fn registry_key(value: String) -> (r: Result<PlatformResult, MsdmError>)
    ensures
        value@.len() == 0 ==> r matches Err(MsdmError::NotFound),
        value@.len() != 0 ==> r == Ok::<PlatformResult, MsdmError>(PlatformResult::KeyOnly(value)),
{
    if value.as_str().is_empty() {
        return Err(MsdmError::NotFound);
    }
    Ok(PlatformResult::KeyOnly(value))
}

} // verus!
