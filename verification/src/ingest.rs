//! Reading the text of a database file into a database.
//!
//! The text is taken line by line, a line ending at each line feed. White
//! space about a line does not count, so a carriage return before the line
//! feed is passed over wherever it stands. The first line that is at fault
//! ends the reading: no database is built of the lines before it.

use crate::block::{block_of, block_spec, build_block, is_block_range, lemma_block_size};
use crate::database::OuiDatabase;
use crate::entry::OuiEntryView;
use crate::error::{IngestError, OuiError};
use crate::parse::{lemma_record_shape, parse_line, parse_line_spec};
use crate::text::{chars_of, split, split_at_char, views};
use vstd::prelude::*;

verus! {

/// What a line adds to the database: nothing where it is blank or a comment,
/// else its entry under the first and the last address of its block, or the
/// error that its fields or its block give.
pub open spec fn line_entry(line: Seq<char>) -> Result<
    Option<((u64, u64), OuiEntryView)>,
    OuiError,
> {
    match parse_line_spec(line) {
        Err(error) => Err(error),
        Ok(None) => Ok(None),
        Ok(Some(record)) => match block_spec(record.prefix, record.mask) {
            Err(error) => Err(error),
            Ok(block) => Ok(Some(((block.lo, block.hi), record.entry))),
        },
    }
}

/// The entries that `lines` give, taken in order: a later line for the same
/// block takes the place of an earlier one. Where a line is at fault, the
/// error of the first such line and its index.
pub open spec fn ingest_lines(lines: Seq<Seq<char>>) -> Result<
    Map<(u64, u64), OuiEntryView>,
    IngestError,
>
    decreases lines.len(),
{
    if lines.len() == 0 {
        Ok(Map::empty())
    } else {
        match ingest_lines(lines.drop_last()) {
            Err(error) => Err(error),
            Ok(entries) => match line_entry(lines.last()) {
                Err(error) => Err(IngestError { line: (lines.len() - 1) as usize, error }),
                Ok(None) => Ok(entries),
                Ok(Some((key, entry))) => Ok(entries.insert(key, entry)),
            },
        }
    }
}

/// The entries that the text of a database file gives.
pub open spec fn ingest(text: Seq<char>) -> Result<Map<(u64, u64), OuiEntryView>, IngestError> {
    ingest_lines(split(text, '\n'))
}

/// Whether the entries are as a database text gives them: each stands
/// under the first and the last address of a block, and has a short name
/// that is not empty.
pub open spec fn well_formed(entries: Map<(u64, u64), OuiEntryView>) -> bool {
    forall|key: (u64, u64)| #[trigger]
        entries.contains_key(key) ==> is_block_range(key.0, key.1)
            && entries[key].name_short.len() > 0
}

/// The entries that lines give are well formed, and there are finitely many
/// of them.
pub proof fn lemma_ingest_well_formed(lines: Seq<Seq<char>>)
    ensures
        ingest_lines(lines) matches Ok(entries) ==> well_formed(entries) && entries.dom().finite(),
    decreases lines.len(),
{
    if lines.len() > 0 {
        lemma_ingest_well_formed(lines.drop_last());
        if ingest_lines(lines) is Ok {
            let before = ingest_lines(lines.drop_last())->Ok_0;
            let entries = ingest_lines(lines)->Ok_0;
            let line = lines.last();
            if line_entry(line) matches Ok(Some(_)) {
                let record = parse_line_spec(line)->Ok_0->Some_0;
                let block = block_spec(record.prefix, record.mask)->Ok_0;
                lemma_record_shape(line);
                lemma_block_size(record.prefix, record.mask);
                assert(block_of(block.lo, block.hi, block.prefix_len) == block);
                assert forall|key: (u64, u64)| #[trigger]
                    entries.contains_key(key) implies is_block_range(key.0, key.1)
                    && entries[key].name_short.len() > 0 by {
                    if key != (block.lo, block.hi) {
                        assert(before.contains_key(key));
                    }
                }
            }
        }
    }
}

/// An error among the first `n` lines is the error of all the lines.
pub proof fn lemma_first_error_stays(lines: Seq<Seq<char>>, n: int)
    requires
        0 <= n <= lines.len(),
        ingest_lines(lines.take(n)) is Err,
    ensures
        ingest_lines(lines) == ingest_lines(lines.take(n)),
    decreases lines.len(),
{
    if n == lines.len() {
        assert(lines.take(n) =~= lines);
    } else {
        assert(lines.drop_last().take(n) =~= lines.take(n));
        lemma_first_error_stays(lines.drop_last(), n);
    }
}

/// Parses the text of a Wireshark database file into a database.
///
/// Fails at the first line that is at fault, with the index of the line and
/// with [`OuiError::Parse`] where its fields are malformed, or
/// [`OuiError::InvalidBlock`] where they name no block.
pub fn create_oui_db_from_file(text: &[char]) -> (r: Result<OuiDatabase, IngestError>)
    ensures
        match ingest(text@) {
            Ok(entries) => r matches Ok(db) && db@ == entries,
            Err(error) => r matches Err(e) && e == error,
        },
        r matches Ok(db) ==> well_formed(db@),
{
    proof {
        lemma_ingest_well_formed(split(text@, '\n'));
    }
    let lines: Vec<Vec<char>> = split_at_char(text, '\n');
    let mut vendor_data = OuiDatabase::empty();
    let mut i: usize = 0;
    while i < lines.len()
        invariant
            i <= lines@.len(),
            views(lines@) == split(text@, '\n'),
            ingest_lines(views(lines@).take(i as int)) == Ok::<
                Map<(u64, u64), OuiEntryView>,
                IngestError,
            >(vendor_data@),
        decreases lines@.len() - i,
    {
        proof {
            assert(views(lines@).take(i + 1).drop_last() =~= views(lines@).take(i as int));
            if ingest_lines(views(lines@).take(i + 1)) is Err {
                lemma_first_error_stays(views(lines@), i + 1);
            }
        }
        match parse_line(lines[i].as_slice()) {
            Err(error) => {
                return Err(IngestError { line: i, error });
            },
            Ok(None) => {},
            Ok(Some(record)) => match build_block(record.prefix, record.mask) {
                Err(error) => {
                    return Err(IngestError { line: i, error });
                },
                Ok(block) => {
                    vendor_data.insert((block.lo, block.hi), record.entry);
                },
            },
        }
        i = i + 1;
    }
    assert(views(lines@).take(lines@.len() as int) =~= views(lines@));
    Ok(vendor_data)
}

impl OuiDatabase {
    /// Create a new database from the text of a Wireshark database file
    ///
    /// Fails at the first line that is at fault, with the index of the line
    /// and the error that it gives.
    pub fn new_from_file(contents: &str) -> (r: Result<OuiDatabase, IngestError>)
        ensures
            match ingest(contents@) {
                Ok(entries) => r matches Ok(db) && db@ == entries,
                Err(error) => r matches Err(e) && e == error,
            },
            r matches Ok(db) ==> well_formed(db@),
    {
        let text: Vec<char> = chars_of(contents);
        create_oui_db_from_file(text.as_slice())
    }
}

} // verus!
