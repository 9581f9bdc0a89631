//! The encoding primitives: reading the integer that one is made from,
//! encoding it, and laying the bytes out in hexadecimal and binary digits.

use vstd::prelude::*;
use crate::text::str_eq;

verus! {

/// The notation an integer is written in.
#[derive(Clone, Copy, Debug, PartialEq, Eq, Structural)]
pub enum Notation {
    Hexadecimal,
    Binary,
    Decimal,
}

impl Notation {
    /// The radix of the notation.
    pub open spec fn radix(self) -> u32 {
        match self {
            Notation::Hexadecimal => 16,
            Notation::Binary => 2,
            Notation::Decimal => 10,
        }
    }

    /// The word for the notation in a message.
    pub open spec fn label(self) -> Seq<char> {
        match self {
            Notation::Hexadecimal => "hexidecimal"@,
            Notation::Binary => "binary"@,
            Notation::Decimal => "decimal"@,
        }
    }
}

/// The integer that std reads from `text` in the given radix; none where
/// `text` is not an optional sign followed by digits of the radix, or the
/// integer does not fit.
pub uninterp spec fn parsed_i64(text: Seq<char>, radix: u32) -> Option<i64>;

/// Calls `i64::from_str_radix` of std. The result depends on the text and
/// the radix alone; an error of std is handed on as `None`.
#[verifier::external_body]
pub(crate) fn parse_i64(text: &str, radix: u32) -> (parsed: Option<i64>)
    requires
        2 <= radix <= 36,
    ensures
        parsed == parsed_i64(text@, radix),
{
    i64::from_str_radix(text, radix).ok()
}

/// Whether `text` begins with the two given characters.
pub open spec fn has_prefix(text: Seq<char>, first: char, second: char) -> bool {
    text.len() >= 2 && text[0] == first && text[1] == second
}

/// The notation that `text` announces: `0x` is hexadecimal, `0b` is
/// binary, anything else is decimal.
pub open spec fn notation_of(text: Seq<char>) -> Notation {
    if has_prefix(text, '0', 'x') {
        Notation::Hexadecimal
    } else if has_prefix(text, '0', 'b') {
        Notation::Binary
    } else {
        Notation::Decimal
    }
}

/// Whether `text` begins with the two given characters.
fn starts_with_pair(text: &str, first: char, second: char) -> (found: bool)
    ensures
        found == has_prefix(text@, first, second),
{
    text.unicode_len() >= 2 && text.get_char(0) == first && text.get_char(1) == second
}

/// The integer that `text` stands for. The whole text, with the prefix
/// that announces its notation, is read in the radix of that notation; a
/// text that cannot be read so is rejected with the notation it failed in.
pub fn integer_from_text(text: &str) -> (result: Result<i64, Notation>)
    ensures
        match result {
            Ok(value) => parsed_i64(text@, notation_of(text@).radix()) == Some(value),
            Err(notation) => notation == notation_of(text@) && parsed_i64(
                text@,
                notation_of(text@).radix(),
            ) is None,
        },
{
    let notation = if starts_with_pair(text, '0', 'x') {
        Notation::Hexadecimal
    } else if starts_with_pair(text, '0', 'b') {
        Notation::Binary
    } else {
        Notation::Decimal
    };
    let radix: u32 = match notation {
        Notation::Hexadecimal => 16,
        Notation::Binary => 2,
        Notation::Decimal => 10,
    };
    match parse_i64(text, radix) {
        Some(value) => Ok(value),
        None => Err(notation),
    }
}

/// The message for a text that is no integer in the given notation.
pub fn invalid_integer_message(text: &str, notation: Notation) -> (message: String)
    ensures
        message@ == text@ + " is not a valid "@ + notation.label() + " integer value."@,
{
    let mut message = text.to_owned();
    message.append(" is not a valid ");
    message.append(
        match notation {
            Notation::Hexadecimal => "hexidecimal",
            Notation::Binary => "binary",
            Notation::Decimal => "decimal",
        },
    );
    message.append(" integer value.");
    message
}

/// The encoding primitives that can be shown.
#[derive(Clone, Copy, Debug, PartialEq, Eq, Structural)]
pub enum PrimitiveKind {
    /// A variable-length unsigned integer.
    VarUInt,
    /// A variable-length signed integer.
    VarInt,
}

/// The primitive that a name stands for; none for any other name.
pub open spec fn kind_of_name(name: Seq<char>) -> Option<PrimitiveKind> {
    if name == "varuint"@ || name == "VarUInt"@ {
        Some(PrimitiveKind::VarUInt)
    } else if name == "varint"@ || name == "VarInt"@ {
        Some(PrimitiveKind::VarInt)
    } else {
        None
    }
}

impl PrimitiveKind {
    /// The primitive that a name stands for.
    pub fn from_name(name: &str) -> (kind: Option<PrimitiveKind>)
        ensures
            kind == kind_of_name(name@),
    {
        if str_eq(name, "varuint") || str_eq(name, "VarUInt") {
            Some(PrimitiveKind::VarUInt)
        } else if str_eq(name, "varint") || str_eq(name, "VarInt") {
            Some(PrimitiveKind::VarInt)
        } else {
            None
        }
    }
}

/// The groups of seven bits of a number, the most significant first: as
/// few as hold it, and one for zero.
pub open spec fn seven_bit_groups(magnitude: nat) -> Seq<u8>
    decreases magnitude,
{
    if magnitude < 128 {
        seq![magnitude as u8]
    } else {
        seven_bit_groups(magnitude / 128).push((magnitude % 128) as u8)
    }
}

/// The groups of a signed number's magnitude, the most significant first:
/// six bits in the first group, which shares its byte with the sign, and
/// seven in each group after it.
pub open spec fn signed_groups(magnitude: nat) -> Seq<u8>
    decreases magnitude,
{
    if magnitude < 64 {
        seq![magnitude as u8]
    } else {
        signed_groups(magnitude / 128).push((magnitude % 128) as u8)
    }
}

/// The groups as bytes of which the last one is marked as the end: its
/// highest bit is set.
pub open spec fn with_end_flag(groups: Seq<u8>) -> Seq<u8> {
    groups.update(groups.len() - 1, (groups.last() + 128) as u8)
}

/// The bytes of the variable-length encoding of an unsigned integer: its
/// groups of seven bits, the most significant first, with the highest bit
/// set in the last byte and in no other.
pub open spec fn var_uint_encoding(magnitude: u64) -> Seq<u8> {
    with_end_flag(seven_bit_groups(magnitude as nat))
}

/// The magnitude of a signed integer.
pub open spec fn magnitude_of(value: i64) -> nat {
    if value < 0 {
        (-value) as nat
    } else {
        value as nat
    }
}

/// The bytes of the variable-length encoding of a signed integer: the
/// groups of its magnitude, the most significant first; the first byte
/// holds six bits of the magnitude and, in the bit above them, the sign,
/// set for a negative integer; the highest bit is set in the last byte and
/// in no other.
pub open spec fn var_int_encoding(value: i64) -> Seq<u8> {
    let groups = signed_groups(magnitude_of(value));
    let sign: int = if value < 0 {
        64
    } else {
        0
    };
    with_end_flag(groups.update(0, (groups[0] + sign) as u8))
}

/// Calls `VarUInt::write_u64` of `ion_rs` on an empty buffer and hands the
/// buffer back. The bytes are the groups of seven bits of the integer,
/// most significant first, and the last byte alone has its highest bit
/// set; writing to a buffer in memory does not fail.
#[verifier::external_body]
pub(crate) fn encode_var_uint(magnitude: u64) -> (bytes: Vec<u8>)
    ensures
        bytes@ == var_uint_encoding(magnitude),
{
    let mut buffer: Vec<u8> = Vec::new();
    ion_rs::v1_0::VarUInt::write_u64(&mut buffer, magnitude).ok();
    buffer
}

/// Calls `VarInt::write_i64` of `ion_rs` on an empty buffer and hands the
/// buffer back. The bytes are the groups of the magnitude, most
/// significant first, with six bits and the sign in the first byte, and
/// the last byte alone has its highest bit set; writing to a buffer in
/// memory does not fail.
#[verifier::external_body]
pub(crate) fn encode_var_int(value: i64) -> (bytes: Vec<u8>)
    ensures
        bytes@ == var_int_encoding(value),
{
    let mut buffer: Vec<u8> = Vec::new();
    ion_rs::v1_0::VarInt::write_i64(&mut buffer, value).ok();
    buffer
}

/// The bytes of an integer as the given primitive. An unsigned primitive
/// takes the integer as the unsigned number with the same bits.
pub open spec fn primitive_encoding(kind: PrimitiveKind, value: i64) -> Seq<u8> {
    match kind {
        PrimitiveKind::VarUInt => var_uint_encoding(value as u64),
        PrimitiveKind::VarInt => var_int_encoding(value),
    }
}

/// Encodes an integer as the given primitive.
pub fn encode_primitive(kind: PrimitiveKind, value: i64) -> (bytes: Vec<u8>)
    ensures
        bytes@ == primitive_encoding(kind, value),
{
    match kind {
        PrimitiveKind::VarUInt => encode_var_uint(#[verifier::truncate] (value as u64)),
        PrimitiveKind::VarInt => encode_var_int(value),
    }
}

/// The hexadecimal digit of a number below sixteen, in lower case.
pub open spec fn hex_digit(nibble: int) -> Seq<char> {
    if nibble == 0 {
        "0"@
    } else if nibble == 1 {
        "1"@
    } else if nibble == 2 {
        "2"@
    } else if nibble == 3 {
        "3"@
    } else if nibble == 4 {
        "4"@
    } else if nibble == 5 {
        "5"@
    } else if nibble == 6 {
        "6"@
    } else if nibble == 7 {
        "7"@
    } else if nibble == 8 {
        "8"@
    } else if nibble == 9 {
        "9"@
    } else if nibble == 10 {
        "a"@
    } else if nibble == 11 {
        "b"@
    } else if nibble == 12 {
        "c"@
    } else if nibble == 13 {
        "d"@
    } else if nibble == 14 {
        "e"@
    } else {
        "f"@
    }
}

/// The binary digit of a number below two.
pub open spec fn bit_digit(bit: int) -> Seq<char> {
    if bit == 0 {
        "0"@
    } else {
        "1"@
    }
}

/// The two hexadecimal digits of a byte.
pub open spec fn hex_pair(byte: u8) -> Seq<char> {
    hex_digit(byte as int / 16) + hex_digit(byte as int % 16)
}

/// The eight binary digits of a byte, the highest first.
pub open spec fn bit_octet(byte: u8) -> Seq<char> {
    let b = byte as int;
    bit_digit(b / 128) + bit_digit(b / 64 % 2) + bit_digit(b / 32 % 2) + bit_digit(b / 16 % 2)
        + bit_digit(b / 8 % 2) + bit_digit(b / 4 % 2) + bit_digit(b / 2 % 2) + bit_digit(b % 2)
}

/// The bytes in hexadecimal digits: each byte is six spaces, its two
/// digits and one space, so that it stands above its binary digits.
pub open spec fn hex_cells(bytes: Seq<u8>) -> Seq<char>
    decreases bytes.len(),
{
    if bytes.len() == 0 {
        Seq::empty()
    } else {
        hex_cells(bytes.drop_last()) + "      "@ + hex_pair(bytes.last()) + " "@
    }
}

/// The bytes in binary digits: each byte is its eight digits and a space.
pub open spec fn bit_cells(bytes: Seq<u8>) -> Seq<char>
    decreases bytes.len(),
{
    if bytes.len() == 0 {
        Seq::empty()
    } else {
        bit_cells(bytes.drop_last()) + bit_octet(bytes.last()) + " "@
    }
}

/// The hexadecimal digit of a number below sixteen.
fn hex_digit_text(nibble: u8) -> (digit: &'static str)
    requires
        nibble < 16,
    ensures
        digit@ == hex_digit(nibble as int),
{
    if nibble == 0 {
        "0"
    } else if nibble == 1 {
        "1"
    } else if nibble == 2 {
        "2"
    } else if nibble == 3 {
        "3"
    } else if nibble == 4 {
        "4"
    } else if nibble == 5 {
        "5"
    } else if nibble == 6 {
        "6"
    } else if nibble == 7 {
        "7"
    } else if nibble == 8 {
        "8"
    } else if nibble == 9 {
        "9"
    } else if nibble == 10 {
        "a"
    } else if nibble == 11 {
        "b"
    } else if nibble == 12 {
        "c"
    } else if nibble == 13 {
        "d"
    } else if nibble == 14 {
        "e"
    } else {
        "f"
    }
}

/// Writes the binary digit of a number below two to the end of a line.
fn push_bit(line: &mut String, bit: u8)
    requires
        bit < 2,
    ensures
        final(line)@ == old(line)@ + bit_digit(bit as int),
{
    if bit == 0 {
        line.append("0");
    } else {
        line.append("1");
    }
}

/// The two hexadecimal digits of a byte.
fn hex_pair_text(byte: u8) -> (pair: String)
    ensures
        pair@ == hex_pair(byte),
{
    let mut pair = hex_digit_text(byte / 16).to_owned();
    pair.append(hex_digit_text(byte % 16));
    pair
}

/// The eight binary digits of a byte, the highest first.
fn bit_octet_text(byte: u8) -> (octet: String)
    ensures
        octet@ == bit_octet(byte),
{
    let mut octet = String::new();
    push_bit(&mut octet, byte / 128);
    assert(octet@ =~= bit_digit(byte as int / 128));
    push_bit(&mut octet, byte / 64 % 2);
    push_bit(&mut octet, byte / 32 % 2);
    push_bit(&mut octet, byte / 16 % 2);
    push_bit(&mut octet, byte / 8 % 2);
    push_bit(&mut octet, byte / 4 % 2);
    push_bit(&mut octet, byte / 2 % 2);
    push_bit(&mut octet, byte % 2);
    octet
}

/// Appending to a line appends to what stands behind its label.
proof fn lemma_append_cell(label: Seq<char>, cells: Seq<char>, a: Seq<char>, b: Seq<char>, c: Seq<char>)
    ensures
        label + cells + a + b + c == label + (cells + a + b + c),
        label + cells + a + b == label + (cells + a + b),
{
    assert(label + cells + a + b + c =~= label + (cells + a + b + c));
    assert(label + cells + a + b =~= label + (cells + a + b));
}

/// The line that shows the bytes in hexadecimal digits.
pub fn hex_line(bytes: &[u8]) -> (line: String)
    ensures
        line@ == "hex: "@ + hex_cells(bytes@),
{
    let mut line = "hex: ".to_owned();
    let mut i: usize = 0;
    assert(bytes@.take(0) =~= Seq::<u8>::empty());
    assert("hex: "@ + Seq::<char>::empty() =~= "hex: "@);
    while i < bytes.len()
        invariant
            i <= bytes.len(),
            line@ == "hex: "@ + hex_cells(bytes@.take(i as int)),
        decreases bytes.len() - i,
    {
        let byte = bytes[i];
        let pair = hex_pair_text(byte);
        line.append("      ");
        line.append(pair.as_str());
        line.append(" ");
        proof {
            assert(bytes@.take(i + 1).drop_last() =~= bytes@.take(i as int));
            assert(bytes@.take(i + 1).last() == byte);
            lemma_append_cell(
                "hex: "@,
                hex_cells(bytes@.take(i as int)),
                "      "@,
                hex_pair(byte),
                " "@,
            );
        }
        i += 1;
    }
    assert(bytes@.take(i as int) =~= bytes@);
    line
}

/// The line that shows the bytes in binary digits.
pub fn bin_line(bytes: &[u8]) -> (line: String)
    ensures
        line@ == "bin: "@ + bit_cells(bytes@),
{
    let mut line = "bin: ".to_owned();
    let mut i: usize = 0;
    assert(bytes@.take(0) =~= Seq::<u8>::empty());
    assert("bin: "@ + Seq::<char>::empty() =~= "bin: "@);
    while i < bytes.len()
        invariant
            i <= bytes.len(),
            line@ == "bin: "@ + bit_cells(bytes@.take(i as int)),
        decreases bytes.len() - i,
    {
        let byte = bytes[i];
        let octet = bit_octet_text(byte);
        line.append(octet.as_str());
        line.append(" ");
        proof {
            assert(bytes@.take(i + 1).drop_last() =~= bytes@.take(i as int));
            assert(bytes@.take(i + 1).last() == byte);
            lemma_append_cell(
                "bin: "@,
                bit_cells(bytes@.take(i as int)),
                bit_octet(byte),
                " "@,
                Seq::empty(),
            );
        }
        i += 1;
    }
    assert(bytes@.take(i as int) =~= bytes@);
    line
}

/// The two lines that show an integer as the given primitive: its bytes
/// in hexadecimal digits and, below them, in binary digits. A text that
/// is no integer is rejected with the notation it failed in.
pub fn primitive_lines(kind: PrimitiveKind, text: &str) -> (result: Result<
    (String, String),
    Notation,
>)
    ensures
        match result {
            Ok((hex, bin)) => parsed_i64(text@, notation_of(text@).radix()) matches Some(value)
                && hex@ == "hex: "@ + hex_cells(primitive_encoding(kind, value)) && bin@
                == "bin: "@ + bit_cells(primitive_encoding(kind, value)),
            Err(notation) => notation == notation_of(text@) && parsed_i64(
                text@,
                notation_of(text@).radix(),
            ) is None,
        },
{
    match integer_from_text(text) {
        Ok(value) => {
            let bytes = encode_primitive(kind, value);
            Ok((hex_line(bytes.as_slice()), bin_line(bytes.as_slice())))
        },
        Err(notation) => Err(notation),
    }
}

} // verus!
