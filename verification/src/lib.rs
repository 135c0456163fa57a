//! Looks up the vendor that a MAC/EUI-48 address block is registered to, from
//! the text of the Wireshark manufacturer database.
//!
//! The database text is parsed into address blocks of 8 to 48 prefix bits,
//! each with the vendor's short name and, where present, its full name and a
//! comment. A query returns the entry of the most specific block that holds
//! the address.

pub mod address;
pub mod block;
pub mod database;
pub mod entry;
pub mod error;
pub mod export;
pub mod ingest;
pub mod lookup;
pub mod parse;
pub mod text;

pub use crate::address::{mac_to_u64, parse_text};
pub use crate::block::{build_block, AddressBlock};
pub use crate::database::OuiDatabase;
pub use crate::entry::{OuiEntry, OuiEntryView};
pub use crate::error::{IngestError, OuiError, ParseFault};
pub use crate::parse::{parse_line, ParsedRecord, ParsedRecordView};
