//! Export of a database to bytes, and a database from exported bytes.
//!
//! The bytes are those of `bincode` for the ordered map from the first and
//! the last address of each block to the three texts of its entry.

use crate::database::{entry_views, OuiDatabase};
use crate::entry::{OuiEntry, OuiEntryView};
use crate::error::OuiError;
use std::collections::BTreeMap;
use vstd::prelude::*;

verus! {

/// The error of `bincode::serialize` and `bincode::deserialize`.
#[verifier::external_type_specification]
#[verifier::external_body]
pub struct ExBincodeErrorKind(bincode::ErrorKind);

/// The bytes that `bincode::serialize` gives for a map of entries.
pub uninterp spec fn exported_bytes(entries: Map<(u64, u64), OuiEntryView>) -> Seq<u8>;

/// The map of entries that `bincode::deserialize` reads from bytes, or
/// nothing where it refuses them.
pub uninterp spec fn exported_entries(bytes: Seq<u8>) -> Option<Map<(u64, u64), OuiEntryView>>;

/// Encodes the entries with `bincode::serialize`, each entry handed over as
/// the tuple of its three texts.
///
/// The encoder succeeds on every map of entries: `serialize` sets no limit
/// on the size, it refuses a map only where the map cannot tell its length,
/// which an ordered map of std always can, and it writes into a vector,
/// which takes every byte. The bytes depend on the entries alone;
/// [`exported_bytes`] names them. `bincode` documents `serialize` and
/// `deserialize` as a pair: what the first has encoded, the second decodes
/// to an equal value. So the bytes that come back are bytes that
/// [`exported_entries`] reads as these entries.
#[verifier::external_body]
fn serialize_entries(entries: &BTreeMap<(u64, u64), OuiEntry>) -> (r: Result<
    Vec<u8>,
    Box<bincode::ErrorKind>,
>)
    ensures
        r is Ok,
        r matches Ok(bytes) ==> bytes@ == exported_bytes(entry_views(entries@)),
        r matches Ok(bytes) ==> exported_entries(bytes@) == Some(entry_views(entries@)),
{
    let plain: BTreeMap<(u64, u64), (&String, &Option<String>, &Option<String>)> = entries
        .iter()
        .map(|(key, entry)| (*key, (&entry.name_short, &entry.name_long, &entry.comment)))
        .collect();
    bincode::serialize(&plain)
}

/// Decodes entries with `bincode::deserialize`, each entry read as the
/// tuple of its three texts.
///
/// What comes back depends on the bytes alone: the entries, or the refusal,
/// that [`exported_entries`] names.
#[verifier::external_body]
fn deserialize_entries(bytes: &[u8]) -> (r: Result<
    BTreeMap<(u64, u64), OuiEntry>,
    Box<bincode::ErrorKind>,
>)
    ensures
        r matches Ok(entries) ==> exported_entries(bytes@) == Some(entry_views(entries@)),
        r is Err ==> exported_entries(bytes@) is None,
{
    let plain: BTreeMap<(u64, u64), (String, Option<String>, Option<String>)> =
        bincode::deserialize(bytes)?;
    Ok(
        plain.into_iter().map(
            |(key, (name_short, name_long, comment))|
                (key, OuiEntry { name_short, name_long, comment }),
        ).collect(),
    )
}

/// The database that exported bytes give.
pub open spec fn import(bytes: Seq<u8>) -> Result<Map<(u64, u64), OuiEntryView>, OuiError> {
    match exported_entries(bytes) {
        Some(entries) => Ok(entries),
        None => Err(OuiError::Decode),
    }
}

impl OuiDatabase {
    /// Create a new database from a previously exported `Vec<u8>`
    ///
    /// Fails with [`OuiError::Decode`] where the bytes do not decode.
    pub fn new_from_export(data: &[u8]) -> (r: Result<OuiDatabase, OuiError>)
        ensures
            match import(data@) {
                Ok(entries) => r matches Ok(db) && db@ == entries,
                Err(error) => r matches Err(e) && e == error,
            },
    {
        match deserialize_entries(data) {
            Ok(deserialized) => Ok(OuiDatabase::from_entries(deserialized)),
            Err(_) => Err(OuiError::Decode),
        }
    }

    /// Export the database to a `Vec<u8>` of bincode bytes
    ///
    /// Succeeds on every database. The bytes are those of the encoder for
    /// the entries of the database; given to
    /// [`OuiDatabase::new_from_export`], they make a database of the same
    /// entries.
    pub fn export(&self) -> (r: Result<Vec<u8>, OuiError>)
        ensures
            r matches Ok(data) && data@ == exported_bytes(self@),
            r matches Ok(data) ==> import(data@) == Ok::<
                Map<(u64, u64), OuiEntryView>,
                OuiError,
            >(self@),
    {
        match serialize_entries(self.entries()) {
            Ok(data) => Ok(data),
            Err(_) => Err(OuiError::Encode),
        }
    }
}

} // verus!
