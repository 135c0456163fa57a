//! The line parser: one line of the database text becomes a record, or is
//! passed over as blank or comment.
//!
//! A data line holds two to four fields between tab characters: the block
//! specifier, the vendor's short name, and optionally the full name and a
//! comment. Every `#` is taken out of a field and the field is trimmed; a
//! field of which nothing is left does not count, so that a run of tabs
//! separates like a single one. The block specifier is a hexadecimal prefix,
//! whose digits `:`, `-` or `.` may separate, and optionally `/` and a
//! decimal mask from 8 to 48.

use crate::block::{ADDRESS_BITS, DEFAULT_MASK, MIN_MASK};
use crate::entry::{OuiEntry, OuiEntryView};
use crate::error::{OuiError, ParseFault};
use crate::text::{
    lemma_split_len, parse_number, read_number, remove_chars, skip_whitespace, split,
    split_at_char, string_of, trim, trim_start, trimmed, views, without,
};
use vstd::prelude::*;

verus! {

/// What a data line holds: the prefix and the mask of its block specifier,
/// and the vendor entry.
#[derive(Debug, PartialEq, Eq)]
pub struct ParsedRecord {
    /// The hexadecimal prefix, as the line writes it.
    pub prefix: u64,
    /// The mask: the number of prefix bits of the block.
    pub mask: u8,
    /// The names and the comment.
    pub entry: OuiEntry,
}

/// What a [`ParsedRecord`] holds, its texts as sequences of characters.
pub ghost struct ParsedRecordView {
    pub prefix: u64,
    pub mask: u8,
    pub entry: OuiEntryView,
}

impl View for ParsedRecord {
    type V = ParsedRecordView;

    open spec fn view(&self) -> ParsedRecordView {
        ParsedRecordView { prefix: self.prefix, mask: self.mask, entry: self.entry@ }
    }
}

/// Whether a line holds no data: nothing but white space, or `#` as its
/// first character after white space.
pub open spec fn is_skipped(line: Seq<char>) -> bool {
    let rest = trim_start(line);
    rest.len() == 0 || rest[0] == '#'
}

/// A field as it counts: without any `#`, then trimmed.
pub open spec fn clean(piece: Seq<char>) -> Seq<char> {
    trimmed(without(piece, seq!['#']))
}

/// The pieces that are not empty once cleaned, each cleaned, in order.
pub open spec fn cleaned_fields(pieces: Seq<Seq<char>>) -> Seq<Seq<char>>
    decreases pieces.len(),
{
    if pieces.len() == 0 {
        Seq::empty()
    } else {
        let before = cleaned_fields(pieces.drop_last());
        let field = clean(pieces.last());
        if field.len() == 0 {
            before
        } else {
            before.push(field)
        }
    }
}

/// The fields of a line: what stands between its tab characters, cleaned,
/// without what is empty then.
pub open spec fn line_fields(line: Seq<char>) -> Seq<Seq<char>> {
    cleaned_fields(split(line, '\t'))
}

/// The mask that the parts of a block specifier name: 24 where there is no
/// second part, else the decimal number from 8 to 48 that the second part
/// spells.
pub open spec fn mask_of(parts: Seq<Seq<char>>) -> Option<u8> {
    if parts.len() == 1 {
        Some(DEFAULT_MASK)
    } else {
        match read_number(parts[1], 10, ADDRESS_BITS as nat) {
            Some(mask) => if mask >= MIN_MASK {
                Some(mask as u8)
            } else {
                None
            },
            None => None,
        }
    }
}

/// The prefix that the first part of a block specifier spells in
/// hexadecimal digits, the separators `:`, `-` and `.` left out; none where
/// anything else occurs, where no digit is left, or where the number does
/// not fit in 64 bits.
pub open spec fn prefix_of(part: Seq<char>) -> Option<u64> {
    match read_number(without(part, seq![':', '-', '.']), 16, u64::MAX as nat) {
        Some(prefix) => Some(prefix as u64),
        None => None,
    }
}

/// The prefix and the mask that a block specifier names.
pub open spec fn specifier(text: Seq<char>) -> Result<(u64, u8), ParseFault> {
    let parts = split(text, '/');
    if parts.len() > 2 {
        Err(ParseFault::MaskSeparator)
    } else {
        match mask_of(parts) {
            None => Err(ParseFault::Mask),
            Some(mask) => match prefix_of(parts[0]) {
                None => Err(ParseFault::Prefix),
                Some(prefix) => Ok((prefix, mask)),
            },
        }
    }
}

/// The entry that the fields after the block specifier give.
pub open spec fn entry_of(fields: Seq<Seq<char>>) -> OuiEntryView {
    OuiEntryView {
        name_short: fields[1],
        name_long: if fields.len() >= 3 {
            Some(fields[2])
        } else {
            None
        },
        comment: if fields.len() >= 4 {
            Some(fields[3])
        } else {
            None
        },
    }
}

/// What a line means: nothing where it is blank or a comment, else the
/// record of its fields, or the fault that keeps it from being one.
pub open spec fn parse_line_spec(line: Seq<char>) -> Result<Option<ParsedRecordView>, OuiError> {
    if is_skipped(line) {
        Ok(None)
    } else {
        let fields = line_fields(line);
        if fields.len() < 2 || fields.len() > 4 {
            Err(OuiError::Parse(ParseFault::FieldCount))
        } else {
            match specifier(fields[0]) {
                Err(fault) => Err(OuiError::Parse(fault)),
                Ok((prefix, mask)) => Ok(
                    Some(ParsedRecordView { prefix, mask, entry: entry_of(fields) }),
                ),
            }
        }
    }
}

/// Tells whether a line holds no data.
pub fn skips(line: &[char]) -> (r: bool)
    ensures
        r == is_skipped(line@),
{
    let start: usize = skip_whitespace(line);
    start == line.len() || line[start] == '#'
}

/// No cleaned field is empty.
pub proof fn lemma_fields_nonempty(pieces: Seq<Seq<char>>)
    ensures
        forall|i: int| 0 <= i < cleaned_fields(pieces).len() ==> (#[trigger] cleaned_fields(
            pieces,
        )[i]).len() > 0,
    decreases pieces.len(),
{
    if pieces.len() > 0 {
        lemma_fields_nonempty(pieces.drop_last());
        let before = cleaned_fields(pieces.drop_last());
        assert forall|i: int| 0 <= i < cleaned_fields(pieces).len() implies (
        #[trigger] cleaned_fields(pieces)[i]).len() > 0 by {
            if i < before.len() {
                assert(cleaned_fields(pieces)[i] == before[i]);
            }
        }
    }
}

/// Splits a line into its fields.
pub fn fields_of_line(line: &[char]) -> (fields: Vec<Vec<char>>)
    ensures
        views(fields@) == line_fields(line@),
{
    let pieces: Vec<Vec<char>> = split_at_char(line, '\t');
    let mut hash: Vec<char> = Vec::new();
    hash.push('#');
    let mut fields: Vec<Vec<char>> = Vec::new();
    let mut i: usize = 0;
    while i < pieces.len()
        invariant
            i <= pieces@.len(),
            hash@ == seq!['#'],
            views(fields@) == cleaned_fields(views(pieces@).take(i as int)),
        decreases pieces@.len() - i,
    {
        let bare: Vec<char> = remove_chars(pieces[i].as_slice(), hash.as_slice());
        let field: Vec<char> = trim(bare.as_slice());
        assert(views(pieces@).take(i + 1).drop_last() =~= views(pieces@).take(i as int));
        if field.len() > 0 {
            fields.push(field);
        }
        i = i + 1;
    }
    assert(views(pieces@).take(pieces@.len() as int) =~= views(pieces@));
    fields
}

/// Reads a block specifier: a hexadecimal prefix and, after `/`, a decimal
/// mask.
pub fn parse_specifier(text: &[char]) -> (r: Result<(u64, u8), ParseFault>)
    ensures
        r == specifier(text@),
        r matches Ok(pm) ==> MIN_MASK <= pm.1 <= ADDRESS_BITS,
{
    let parts: Vec<Vec<char>> = split_at_char(text, '/');
    if parts.len() > 2 {
        return Err(ParseFault::MaskSeparator);
    }
    let mask: u8 = if parts.len() == 1 {
        DEFAULT_MASK
    } else {
        match parse_number(parts[1].as_slice(), 10, ADDRESS_BITS as u64) {
            Some(value) => {
                if value < MIN_MASK as u64 {
                    return Err(ParseFault::Mask);
                }
                value as u8
            },
            None => {
                return Err(ParseFault::Mask);
            },
        }
    };
    let mut separators: Vec<char> = Vec::new();
    separators.push(':');
    separators.push('-');
    separators.push('.');
    assert(separators@ =~= seq![':', '-', '.']);
    let digits: Vec<char> = remove_chars(parts[0].as_slice(), separators.as_slice());
    match parse_number(digits.as_slice(), 16, u64::MAX) {
        Some(prefix) => Ok((prefix, mask)),
        None => Err(ParseFault::Prefix),
    }
}

/// Reads one line of the database text.
///
/// Gives nothing for a line that is blank or a comment, and the record for a
/// data line. Fails with [`OuiError::Parse`] where the line does not hold
/// two to four fields, or where its block specifier is malformed. A record
/// has a short name that is not empty and a mask from 8 to 48.
pub fn parse_line(line: &[char]) -> (r: Result<Option<ParsedRecord>, OuiError>)
    ensures
        match parse_line_spec(line@) {
            Ok(Some(record)) => r matches Ok(Some(parsed)) && parsed@ == record,
            Ok(None) => r matches Ok(None),
            Err(error) => r matches Err(e) && e == error,
        },
        r matches Ok(Some(parsed)) ==> {
            &&& 2 <= line_fields(line@).len() <= 4
            &&& parsed.entry@.name_short.len() > 0
            &&& MIN_MASK <= parsed.mask <= ADDRESS_BITS
        },
{
    if skips(line) {
        return Ok(None);
    }
    let fields: Vec<Vec<char>> = fields_of_line(line);
    if fields.len() < 2 || fields.len() > 4 {
        return Err(OuiError::Parse(ParseFault::FieldCount));
    }
    proof {
        lemma_fields_nonempty(split(line@, '\t'));
    }
    let (prefix, mask) = match parse_specifier(fields[0].as_slice()) {
        Ok(pair) => pair,
        Err(fault) => {
            return Err(OuiError::Parse(fault));
        },
    };
    let comment: Option<String> = if fields.len() >= 4 {
        Some(string_of(fields[3].as_slice()))
    } else {
        None
    };
    let name_long: Option<String> = if fields.len() >= 3 {
        Some(string_of(fields[2].as_slice()))
    } else {
        None
    };
    let name_short: String = string_of(fields[1].as_slice());
    Ok(Some(ParsedRecord { prefix, mask, entry: OuiEntry { name_short, name_long, comment } }))
}

/// Every record that the line parser gives comes from a line of two to four
/// fields, has a short name that is not empty and a mask from 8 to 48, and
/// has a comment only where it has a full name.
pub proof fn lemma_record_shape(line: Seq<char>)
    requires
        parse_line_spec(line) matches Ok(Some(_)),
    ensures
        ({
            let record = parse_line_spec(line)->Ok_0->Some_0;
            &&& 2 <= line_fields(line).len() <= 4
            &&& record.entry.name_short.len() > 0
            &&& MIN_MASK <= record.mask <= ADDRESS_BITS
            &&& record.entry.comment is Some ==> record.entry.name_long is Some
        }),
{
    lemma_fields_nonempty(split(line, '\t'));
    lemma_split_len(line_fields(line)[0], '/');
}

} // verus!
