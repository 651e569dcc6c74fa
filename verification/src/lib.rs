//! Reading the Windows product key that OEMs store in the ACPI MSDM table.

pub mod cli;
pub mod decode;
pub mod error;
pub mod format;
pub mod key;
pub mod msdm;
pub mod platform;
pub mod text;
