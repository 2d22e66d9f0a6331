//! Eight-bit colours and their `#RRGGBB` literals.
use vstd::prelude::*;
use vstd::string::StringSliceAdditionalSpecFns;

verus! {

/// A colour with eight bits for each of red, green and blue.
#[derive(Debug, Clone, Copy, PartialEq, Eq, Structural)]
pub struct Rgb8 {
    pub r: u8,
    pub g: u8,
    pub b: u8,
}

/// A text is no colour literal.
#[derive(Debug, Clone, Copy)]
pub struct HexParseError;

/// The value of one hexadecimal digit, in either case.
pub open spec fn hex_digit(c: u8) -> Option<u8> {
    if 0x30 <= c <= 0x39 {
        Some((c - 0x30) as u8)
    } else if 0x61 <= c <= 0x66 {
        Some((c - 0x61 + 10) as u8)
    } else if 0x41 <= c <= 0x46 {
        Some((c - 0x41 + 10) as u8)
    } else {
        None
    }
}

/// The value of one channel, written as two hexadecimal digits.
pub open spec fn hex_channel(first: u8, second: u8) -> Option<u8> {
    match (hex_digit(first), hex_digit(second)) {
        (Some(high), Some(low)) => Some((16 * high + low) as u8),
        _ => None,
    }
}

/// The colour that a literal denotes: a number sign and three channels of
/// two hexadecimal digits each. Whatever follows the seventh byte is not
/// looked at.
pub open spec fn hex_color(text: Seq<u8>) -> Option<Rgb8> {
    if text.len() >= 7 && text[0] == 0x23 {
        match (
            hex_channel(text[1], text[2]),
            hex_channel(text[3], text[4]),
            hex_channel(text[5], text[6]),
        ) {
            (Some(r), Some(g), Some(b)) => Some(Rgb8 { r, g, b }),
            _ => None,
        }
    } else {
        None
    }
}

fn digit(c: u8) -> (value: Option<u8>)
    ensures
        value == hex_digit(c),
        value matches Some(v) ==> v < 16,
{
    if 0x30 <= c && c <= 0x39 {
        Some(c - 0x30)
    } else if 0x61 <= c && c <= 0x66 {
        Some(c - 0x61 + 10)
    } else if 0x41 <= c && c <= 0x46 {
        Some(c - 0x41 + 10)
    } else {
        None
    }
}

fn channel(first: u8, second: u8) -> (value: Option<u8>)
    ensures
        value == hex_channel(first, second),
{
    match (digit(first), digit(second)) {
        (Some(high), Some(low)) => Some(16 * high + low),
        _ => None,
    }
}

impl Rgb8 {
    /// Reads a literal such as `#D14F0F`.
    pub fn from_hex(hex: &str) -> (parsed: Result<Rgb8, HexParseError>)
        ensures
            parsed.is_ok() <==> hex_color(hex.spec_bytes()).is_some(),
            parsed matches Ok(color) ==> hex_color(hex.spec_bytes()) == Some(color),
    {
        let text = hex.as_bytes();
        if text.len() < 7 || text[0] != 0x23 {
            return Err(HexParseError);
        }
        match (channel(text[1], text[2]), channel(text[3], text[4]), channel(text[5], text[6])) {
            (Some(r), Some(g), Some(b)) => Ok(Rgb8 { r, g, b }),
            _ => Err(HexParseError),
        }
    }
}

} // verus!
