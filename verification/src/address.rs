//! Hardware addresses as 48-bit numbers.

use crate::block::MAX_ADDRESS;
use crate::error::OuiError;
use byteorder::{NetworkEndian, ReadBytesExt};
use eui48::MacAddress;
use vstd::prelude::*;

verus! {

/// Number of bytes of a hardware address.
pub const ADDRESS_LEN: usize = 6;

/// The number that `bytes` spell when the first byte is the most
/// significant.
pub open spec fn big_endian(bytes: Seq<u8>) -> nat
    decreases bytes.len(),
{
    if bytes.len() == 0 {
        0
    } else {
        big_endian(bytes.drop_last()) * 256 + bytes.last() as nat
    }
}

/// The 48-bit number of the address `mac`, its first byte in the highest
/// place.
pub open spec fn mac_value(mac: Seq<u8>) -> int {
    mac[0] * 0x100_0000_0000 + mac[1] * 0x1_0000_0000 + mac[2] * 0x100_0000 + mac[3] * 0x1_0000
        + mac[4] * 0x100 + mac[5]
}

/// Reads a `u64` in network byte order from the front of `bytes`, with
/// `byteorder::ReadBytesExt::read_u64::<NetworkEndian>` on the slice as
/// reader.
///
/// That method fills a buffer of eight bytes with `read_exact` and decodes it
/// big-endian: with eight bytes or more the result is the number that the
/// first eight spell, with fewer the read fails and no number comes back.
#[verifier::external_body]
fn read_u64_network(bytes: &[u8]) -> (r: Option<u64>)
    ensures
        bytes@.len() >= 8 ==> r == Some(big_endian(bytes@.take(8)) as u64),
        bytes@.len() < 8 ==> r is None,
{
    let mut reader: &[u8] = bytes;
    reader.read_u64::<NetworkEndian>().ok()
}

/// The error of `eui48::MacAddress::parse_str`.
#[verifier::external_type_specification]
#[verifier::external_body]
pub struct ExMacParseError(eui48::ParseError);

/// The six bytes that `eui48::MacAddress::parse_str` reads a text as, or
/// nothing where it refuses the text.
pub uninterp spec fn parsed_mac(text: Seq<char>) -> Option<Seq<u8>>;

/// Reads a text as a MAC address with `eui48::MacAddress::parse_str`, and
/// hands out the six bytes of the address with `MacAddress::to_array`.
///
/// What comes back depends on the text alone: the bytes, or the refusal,
/// that [`parsed_mac`] names.
#[verifier::external_body]
fn parse_mac(text: &str) -> (r: Result<[u8; 6], eui48::ParseError>)
    ensures
        r matches Ok(mac) ==> parsed_mac(text@) == Some(mac@),
        r is Err ==> parsed_mac(text@) is None,
{
    match MacAddress::parse_str(text) {
        Ok(mac) => Ok(mac.to_array()),
        Err(error) => Err(error),
    }
}

/// Eight bytes spell the number that their digits in base 256 add up to,
/// which fits in 64 bits.
proof fn lemma_big_endian_8(b: Seq<u8>)
    requires
        b.len() == 8,
    ensures
        big_endian(b) == b[0] * 0x100_0000_0000_0000 + b[1] * 0x1_0000_0000_0000 + b[2]
            * 0x100_0000_0000 + b[3] * 0x1_0000_0000 + b[4] * 0x100_0000 + b[5] * 0x1_0000 + b[6]
            * 0x100 + b[7],
        big_endian(b) <= u64::MAX,
{
    reveal_with_fuel(big_endian, 9);
}

/// The 48-bit number of the address that a text was read as, of which
/// `parsed` are the bytes.
pub open spec fn text_value(parsed: Option<Seq<u8>>) -> Result<u64, OuiError> {
    match parsed {
        Some(mac) => if mac.len() == ADDRESS_LEN {
            Ok(mac_value(mac) as u64)
        } else {
            Err(OuiError::InvalidAddress)
        },
        None => Err(OuiError::InvalidAddress),
    }
}

/// Converts a MAC address of six bytes to a `u64` value: the bytes in network
/// order fill the low 48 bits, the high 16 bits are zero.
///
/// Fails with [`OuiError::InvalidAddress`] where `mac` is not six bytes long.
pub fn mac_to_u64(mac: &[u8]) -> (r: Result<u64, OuiError>)
    ensures
        mac@.len() == ADDRESS_LEN ==> r == Ok::<u64, OuiError>(mac_value(mac@) as u64),
        mac@.len() == ADDRESS_LEN ==> mac_value(mac@) <= MAX_ADDRESS,
        mac@.len() != ADDRESS_LEN ==> r == Err::<u64, OuiError>(OuiError::InvalidAddress),
{
    if mac.len() != ADDRESS_LEN {
        return Err(OuiError::InvalidAddress);
    }
    let mut padded: Vec<u8> = Vec::new();
    padded.push(0);
    padded.push(0);
    padded.push(mac[0]);
    padded.push(mac[1]);
    padded.push(mac[2]);
    padded.push(mac[3]);
    padded.push(mac[4]);
    padded.push(mac[5]);
    proof {
        assert(padded@.take(8) =~= padded@);
        lemma_big_endian_8(padded@);
    }
    match read_u64_network(padded.as_slice()) {
        Some(value) => Ok(value),
        None => Err(OuiError::InvalidAddress),
    }
}

/// Reads a text as a MAC address and converts it to a `u64` value.
///
/// The text is read in any of the forms that the `eui48` crate knows. Fails
/// with [`OuiError::InvalidAddress`] where it is none.
pub fn parse_text(text: &str) -> (r: Result<u64, OuiError>)
    ensures
        r == text_value(parsed_mac(text@)),
{
    match parse_mac(text) {
        Ok(mac) => mac_to_u64(mac.as_slice()),
        Err(_) => Err(OuiError::InvalidAddress),
    }
}

} // verus!
