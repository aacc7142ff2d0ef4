//! Colours with an alpha channel, eight bits a channel.
use vstd::prelude::*;
use vstd::std_specs::convert::FromSpecImpl;
use crate::fixed::lemma_div_unique;

verus! {

/// A colour: alpha, red, green and blue.
#[derive(Clone, Copy, Debug, PartialEq, Eq, Structural)]
pub struct Colour {
    pub a: u8,
    pub r: u8,
    pub g: u8,
    pub b: u8,
}

/// The number `0xAARRGGBB` of a colour.
pub open spec fn colour_to_u32(colour: Colour) -> int {
    colour.a as int * 0x100_0000 + colour.r as int * 0x1_0000 + colour.g as int * 0x100
        + colour.b as int
}

/// The colour of the number `0xAARRGGBB`.
pub open spec fn colour_from_u32(value: int) -> Colour {
    Colour {
        a: (value / 0x100_0000) as u8,
        r: ((value / 0x1_0000) % 0x100) as u8,
        g: ((value / 0x100) % 0x100) as u8,
        b: (value % 0x100) as u8,
    }
}

/// The value of a hexadecimal digit, in either case.
pub open spec fn hex_digit_spec(c: char) -> Option<int> {
    if '0' <= c && c <= '9' {
        Some(c as int - '0' as int)
    } else if 'a' <= c && c <= 'f' {
        Some(c as int - 'a' as int + 10)
    } else if 'A' <= c && c <= 'F' {
        Some(c as int - 'A' as int + 10)
    } else {
        None
    }
}

/// The byte of two hexadecimal digits, the high one first.
pub open spec fn hex_pair_spec(high: char, low: char) -> Option<int> {
    match (hex_digit_spec(high), hex_digit_spec(low)) {
        (Some(h), Some(l)) => Some(h * 16 + l),
        _ => None,
    }
}

/// The colour of four channels, if each of them was read.
pub open spec fn channels_spec(r: Option<int>, g: Option<int>, b: Option<int>, a: Option<int>) -> Option<Colour> {
    match (r, g, b, a) {
        (Some(r), Some(g), Some(b), Some(a)) => Some(
            Colour { a: a as u8, r: r as u8, g: g as u8, b: b as u8 },
        ),
        _ => None,
    }
}

/// The colour that hexadecimal digits denote. Three digits are red, green and
/// blue, each digit standing for itself twice, and the colour is opaque; a
/// fourth digit is the alpha channel in the same way. Six digits are red,
/// green and blue with two digits each; a seventh and an eighth are the alpha
/// channel, where a plus sign in the place of the seventh leaves the eighth
/// alone as the alpha channel. No other number of digits denotes a colour.
pub open spec fn digits_spec(d: Seq<char>) -> Option<Colour> {
    if d.len() == 3 {
        channels_spec(
            hex_pair_spec(d[0], d[0]),
            hex_pair_spec(d[1], d[1]),
            hex_pair_spec(d[2], d[2]),
            Some(255),
        )
    } else if d.len() == 4 {
        channels_spec(
            hex_pair_spec(d[0], d[0]),
            hex_pair_spec(d[1], d[1]),
            hex_pair_spec(d[2], d[2]),
            hex_pair_spec(d[3], d[3]),
        )
    } else if d.len() == 6 {
        channels_spec(
            hex_pair_spec(d[0], d[1]),
            hex_pair_spec(d[2], d[3]),
            hex_pair_spec(d[4], d[5]),
            Some(255),
        )
    } else if d.len() == 8 {
        channels_spec(
            hex_pair_spec(d[0], d[1]),
            hex_pair_spec(d[2], d[3]),
            hex_pair_spec(d[4], d[5]),
            if d[6] == '+' {
                hex_digit_spec(d[7])
            } else {
                hex_pair_spec(d[6], d[7])
            },
        )
    } else {
        None
    }
}

/// The colour that a text denotes: hexadecimal digits, after a hash sign or
/// without one.
pub open spec fn parse_spec(text: Seq<char>) -> Option<Colour> {
    if text.len() > 0 && text[0] == '#' {
        digits_spec(text.subrange(1, text.len() as int))
    } else {
        digits_spec(text)
    }
}

/// The hexadecimal digit of a value below 16, in capitals.
pub open spec fn upper_hex_digit(v: int) -> char {
    if v < 10 {
        ('0' as int + v) as char
    } else {
        ('A' as int + v - 10) as char
    }
}

/// The two hexadecimal digits of a byte, in capitals.
pub open spec fn upper_hex_byte(v: u8) -> Seq<char> {
    seq![upper_hex_digit(v as int / 16), upper_hex_digit(v as int % 16)]
}

/// The text of a colour: a hash sign and the bytes of red, green, blue and
/// alpha, two capital hexadecimal digits each.
pub open spec fn hex_text(colour: Colour) -> Seq<char> {
    seq!['#'] + upper_hex_byte(colour.r) + upper_hex_byte(colour.g) + upper_hex_byte(colour.b)
        + upper_hex_byte(colour.a)
}

/// Calls `format!` with the pattern `#{:02X}{:02X}{:02X}{:02X}`: a hash sign,
/// then each of the four bytes in capital hexadecimal digits, filled up with a
/// zero to two digits.
#[verifier::external_body]
fn format_hex(r: u8, g: u8, b: u8, a: u8) -> (text: String)
    ensures
        text@ == seq!['#'] + upper_hex_byte(r) + upper_hex_byte(g) + upper_hex_byte(b)
            + upper_hex_byte(a),
{
    format!("#{:02X}{:02X}{:02X}{:02X}", r, g, b, a)
}

/// The value of a hexadecimal digit, in either case.
pub fn hex_digit(c: char) -> (value: Option<u8>)
    ensures
        value is Some <==> hex_digit_spec(c) is Some,
        value is Some ==> value.unwrap() as int == hex_digit_spec(c).unwrap(),
        value is Some ==> value.unwrap() < 16,
{
    if '0' <= c && c <= '9' {
        Some((c as u32 - '0' as u32) as u8)
    } else if 'a' <= c && c <= 'f' {
        Some((c as u32 - 'a' as u32 + 10) as u8)
    } else if 'A' <= c && c <= 'F' {
        Some((c as u32 - 'A' as u32 + 10) as u8)
    } else {
        None
    }
}

/// The byte of two hexadecimal digits, the high one first.
pub fn hex_pair(high: char, low: char) -> (value: Option<u8>)
    ensures
        value is Some <==> hex_pair_spec(high, low) is Some,
        value is Some ==> value.unwrap() as int == hex_pair_spec(high, low).unwrap(),
{
    match (hex_digit(high), hex_digit(low)) {
        (Some(h), Some(l)) => Some(h * 16 + l),
        _ => None,
    }
}

/// The colour of four channels, if each of them was read.
fn channels(r: Option<u8>, g: Option<u8>, b: Option<u8>, a: Option<u8>) -> (colour: Option<Colour>)
    ensures
        colour == channels_spec(
            if r is Some { Some(r.unwrap() as int) } else { None },
            if g is Some { Some(g.unwrap() as int) } else { None },
            if b is Some { Some(b.unwrap() as int) } else { None },
            if a is Some { Some(a.unwrap() as int) } else { None },
        ),
{
    match (r, g, b, a) {
        (Some(r), Some(g), Some(b), Some(a)) => Some(Colour { a, r, g, b }),
        _ => None,
    }
}

impl Colour {
    /// Reads a colour from a text of hexadecimal digits, with or without a
    /// hash sign before them: `RGB`, `RGBA`, `RRGGBB` or `RRGGBBAA`.
    pub fn try_from(value: &str) -> (colour: Result<Colour, &'static str>)
        ensures
            colour is Ok <==> parse_spec(value@) is Some,
            colour is Ok ==> colour.unwrap() == parse_spec(value@).unwrap(),
            colour is Err ==> colour.unwrap_err()@ == "Not a valid colour"@,
    {
        let len = value.unicode_len();
        let skip: usize = if len > 0 && value.get_char(0) == '#' {
            1
        } else {
            0
        };
        let count = len - skip;
        let ghost d = if skip == 1 {
            value@.subrange(1, value@.len() as int)
        } else {
            value@
        };
        assert(forall|k: int| 0 <= k < count ==> d[k] == value@[k + skip]);
        let parsed = if count == 3 {
            let c0 = value.get_char(skip);
            let c1 = value.get_char(skip + 1);
            let c2 = value.get_char(skip + 2);
            channels(hex_pair(c0, c0), hex_pair(c1, c1), hex_pair(c2, c2), Some(255))
        } else if count == 4 {
            let c0 = value.get_char(skip);
            let c1 = value.get_char(skip + 1);
            let c2 = value.get_char(skip + 2);
            let c3 = value.get_char(skip + 3);
            channels(hex_pair(c0, c0), hex_pair(c1, c1), hex_pair(c2, c2), hex_pair(c3, c3))
        } else if count == 6 {
            let c0 = value.get_char(skip);
            let c1 = value.get_char(skip + 1);
            let c2 = value.get_char(skip + 2);
            let c3 = value.get_char(skip + 3);
            let c4 = value.get_char(skip + 4);
            let c5 = value.get_char(skip + 5);
            channels(hex_pair(c0, c1), hex_pair(c2, c3), hex_pair(c4, c5), Some(255))
        } else if count == 8 {
            let c0 = value.get_char(skip);
            let c1 = value.get_char(skip + 1);
            let c2 = value.get_char(skip + 2);
            let c3 = value.get_char(skip + 3);
            let c4 = value.get_char(skip + 4);
            let c5 = value.get_char(skip + 5);
            let c6 = value.get_char(skip + 6);
            let c7 = value.get_char(skip + 7);
            let alpha = if c6 == '+' {
                hex_digit(c7)
            } else {
                hex_pair(c6, c7)
            };
            channels(hex_pair(c0, c1), hex_pair(c2, c3), hex_pair(c4, c5), alpha)
        } else {
            None
        };
        assert(parsed == digits_spec(d));
        match parsed {
            Some(colour) => Ok(colour),
            None => Err("Not a valid colour"),
        }
    }

    /// The text of the colour: `#RRGGBBAA`, in capital hexadecimal digits.
    pub fn to_hex(self) -> (text: String)
        ensures
            text@ == hex_text(self),
    {
        format_hex(self.r, self.g, self.b, self.a)
    }

    /// The colour with the given channels.
    pub fn rgba(r: u8, g: u8, b: u8, a: u8) -> (colour: Colour)
        ensures
            colour == (Colour { a, r, g, b }),
    {
        Colour { a, r, g, b }
    }

    /// The opaque colour with the given channels.
    pub fn rgb(r: u8, g: u8, b: u8) -> (colour: Colour)
        ensures
            colour == (Colour { a: 255, r, g, b }),
    {
        Self::rgba(r, g, b, 255)
    }

    /// The opaque grey of lightness `l`.
    pub fn grey(l: u8) -> (colour: Colour)
        ensures
            colour == (Colour { a: 255, r: l, g: l, b: l }),
    {
        Self::rgb(l, l, l)
    }
}

impl From<u32> for Colour {
    fn from(value: u32) -> (colour: Colour) {
        Colour {
            a: (value / 0x100_0000) as u8,
            r: ((value / 0x1_0000) % 0x100) as u8,
            g: ((value / 0x100) % 0x100) as u8,
            b: (value % 0x100) as u8,
        }
    }
}

impl FromSpecImpl<u32> for Colour {
    open spec fn obeys_from_spec() -> bool {
        true
    }

    open spec fn from_spec(value: u32) -> Colour {
        colour_from_u32(value as int)
    }
}

impl From<Colour> for u32 {
    fn from(value: Colour) -> (number: u32) {
        (value.a as u32) * 0x100_0000 + (value.r as u32) * 0x1_0000 + (value.g as u32) * 0x100 + (
        value.b as u32)
    }
}

impl FromSpecImpl<Colour> for u32 {
    open spec fn obeys_from_spec() -> bool {
        true
    }

    open spec fn from_spec(value: Colour) -> u32 {
        colour_to_u32(value) as u32
    }
}

/// A capital hexadecimal digit reads back as its value.
pub proof fn lemma_hex_digit_reads_back(v: int)
    requires
        0 <= v < 16,
    ensures
        hex_digit_spec(upper_hex_digit(v)) == Some(v),
        upper_hex_digit(v) != '+',
        upper_hex_digit(v) != '#',
{
}

/// The two digits of a byte read back as the byte.
pub proof fn lemma_hex_byte_reads_back(v: u8)
    ensures
        hex_pair_spec(upper_hex_byte(v)[0], upper_hex_byte(v)[1]) == Some(v as int),
        upper_hex_byte(v)[0] != '+',
{
    lemma_hex_digit_reads_back(v as int / 16);
    lemma_hex_digit_reads_back(v as int % 16);
}

/// The text of a colour reads back as the colour.
pub proof fn lemma_hex_text_reads_back(colour: Colour)
    ensures
        parse_spec(hex_text(colour)) == Some(colour),
{
    let text = hex_text(colour);
    let d = text.subrange(1, text.len() as int);
    lemma_hex_byte_reads_back(colour.r);
    lemma_hex_byte_reads_back(colour.g);
    lemma_hex_byte_reads_back(colour.b);
    lemma_hex_byte_reads_back(colour.a);
    assert(text.len() == 9);
    assert(text[0] == '#');
    assert(d.len() == 8);
    assert(d[0] == upper_hex_byte(colour.r)[0]);
    assert(d[1] == upper_hex_byte(colour.r)[1]);
    assert(d[2] == upper_hex_byte(colour.g)[0]);
    assert(d[3] == upper_hex_byte(colour.g)[1]);
    assert(d[4] == upper_hex_byte(colour.b)[0]);
    assert(d[5] == upper_hex_byte(colour.b)[1]);
    assert(d[6] == upper_hex_byte(colour.a)[0]);
    assert(d[7] == upper_hex_byte(colour.a)[1]);
}

/// A colour goes to its number and back unchanged.
pub proof fn lemma_colour_round_trip(colour: Colour)
    ensures
        colour_from_u32(colour_to_u32(colour)) == colour,
        0 <= colour_to_u32(colour) <= u32::MAX,
{
    let a = colour.a as int;
    let r = colour.r as int;
    let g = colour.g as int;
    let b = colour.b as int;
    let v = colour_to_u32(colour);
    lemma_div_unique(v, 0x100_0000, a, r * 0x1_0000 + g * 0x100 + b);
    lemma_div_unique(v, 0x1_0000, a * 0x100 + r, g * 0x100 + b);
    lemma_div_unique(a * 0x100 + r, 0x100, a, r);
    lemma_div_unique(v, 0x100, a * 0x1_0000 + r * 0x100 + g, b);
    lemma_div_unique(a * 0x1_0000 + r * 0x100 + g, 0x100, a * 0x100 + r, g);
}

} // verus!
