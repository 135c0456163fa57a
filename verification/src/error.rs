//! The errors that the library reports.

use vstd::prelude::*;
use vstd::string::StringExecFns;

verus! {

/// What is wrong with a data line of the database text.
#[derive(Clone, Copy, Debug, PartialEq, Eq, Structural)]
pub enum ParseFault {
    /// The line does not hold two, three or four fields.
    FieldCount,
    /// The block specifier holds more than one `/`.
    MaskSeparator,
    /// The mask is not a decimal number from 8 to 48.
    Mask,
    /// The prefix is not a hexadecimal number of at most 64 bits.
    Prefix,
}

/// An error of the library.
#[derive(Clone, Copy, Debug, PartialEq, Eq, Structural)]
pub enum OuiError {
    /// A data line is malformed.
    Parse(ParseFault),
    /// A parsed block lies outside the 48-bit address space, or its prefix has
    /// bits set below its mask.
    InvalidBlock,
    /// A query address is not six bytes long, or its text is no MAC address.
    InvalidAddress,
    /// An exported database could not be decoded.
    Decode,
    /// The encoder refused a database. The encoder that the library uses
    /// refuses none, so that no function of the library returns this error.
    Encode,
    /// More than two blocks of the database hold the queried address.
    IndexInconsistent,
}

/// An error met while reading the database text, with the place where it
/// arose.
#[derive(Clone, Copy, Debug, PartialEq, Eq, Structural)]
pub struct IngestError {
    /// Index of the faulty line, counted from zero.
    pub line: usize,
    /// What is wrong with that line.
    pub error: OuiError,
}

impl ParseFault {
    /// The text that describes the fault.
    pub open spec fn description(self) -> Seq<char> {
        match self {
            ParseFault::FieldCount => "unexpected number of fields"@,
            ParseFault::MaskSeparator => "invalid number of mask separators"@,
            ParseFault::Mask => "incorrect mask value"@,
            ParseFault::Prefix => "could not parse prefix"@,
        }
    }

    /// Describes the fault for a human reader.
    pub fn describe(&self) -> (text: String)
        ensures
            text@ == self.description(),
    {
        match self {
            ParseFault::FieldCount => String::from_str("unexpected number of fields"),
            ParseFault::MaskSeparator => String::from_str("invalid number of mask separators"),
            ParseFault::Mask => String::from_str("incorrect mask value"),
            ParseFault::Prefix => String::from_str("could not parse prefix"),
        }
    }
}

impl OuiError {
    /// The text that describes the error.
    pub open spec fn description(self) -> Seq<char> {
        match self {
            OuiError::Parse(fault) => fault.description(),
            OuiError::InvalidBlock => "invalid address block"@,
            OuiError::InvalidAddress => "invalid MAC address"@,
            OuiError::Decode => "could not deserialize data"@,
            OuiError::Encode => "could not serialize database"@,
            OuiError::IndexInconsistent => "more than two oui matches"@,
        }
    }

    /// Describes the error for a human reader.
    pub fn describe(&self) -> (text: String)
        ensures
            text@ == self.description(),
    {
        match self {
            OuiError::Parse(fault) => fault.describe(),
            OuiError::InvalidBlock => String::from_str("invalid address block"),
            OuiError::InvalidAddress => String::from_str("invalid MAC address"),
            OuiError::Decode => String::from_str("could not deserialize data"),
            OuiError::Encode => String::from_str("could not serialize database"),
            OuiError::IndexInconsistent => String::from_str("more than two oui matches"),
        }
    }
}

} // verus!
