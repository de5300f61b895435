//! The line protocol: the commands a client sends and the responses it reads.
//!
//! Every command and response is one line of ASCII text that ends in a line
//! feed. The functions here build and read such lines; sending and receiving
//! them is left to the caller.

use vstd::prelude::*;
use vstd::slice::slice_subrange;
use crate::numeral::{
    all_hex_digits, decimal, decimal_value, hex_pair, hex_pair_value, is_digit,
    is_hex_digit, is_hex_string, lemma_decimal_round_trip, lemma_decimal_value_of_decimal,
    lemma_hex_pair_round_trip, parse_decimal, parse_hex_pair, push_decimal, push_hex_pair,
};
use crate::token::{is_space, lemma_tokens_of_word_then_space, next_token, no_space, tokens};

verus! {

/// ASCII space.
pub const SPACE: u8 = 0x20;

/// ASCII line feed, which ends every line.
pub const NEWLINE: u8 = 0x0a;

/// The dimensions of the server's canvas.
#[derive(Clone, Copy, Debug, PartialEq, Eq, Structural)]
pub struct CanvasSize {
    pub width: u32,
    pub height: u32,
}

/// One pixel as a line of the protocol states it: its position and its colour.
#[derive(Clone, Copy, Debug, PartialEq, Eq, Structural)]
pub struct PixelLine {
    pub x: u32,
    pub y: u32,
    pub r: u8,
    pub g: u8,
    pub b: u8,
}

/// Why a response could not be read.
#[derive(Clone, Copy, Debug, PartialEq, Eq, Structural)]
pub enum ProtocolError {
    /// The line does not have the shape the command's response must have.
    Malformed,
}

/// The bytes `SIZE`.
pub open spec fn size_keyword() -> Seq<u8> {
    seq![0x53u8, 0x49u8, 0x5au8, 0x45u8]
}

/// The bytes `PX`.
pub open spec fn px_keyword() -> Seq<u8> {
    seq![0x50u8, 0x58u8]
}

/// The line that asks for the canvas size: `SIZE\n`.
pub open spec fn size_query_line() -> Seq<u8> {
    size_keyword().push(NEWLINE)
}

/// The line that asks for the colour of one pixel: `PX <x> <y>\n`.
pub open spec fn read_pixel_line(x: u32, y: u32) -> Seq<u8> {
    px_keyword().push(SPACE) + decimal(x as nat).push(SPACE) + decimal(y as nat).push(NEWLINE)
}

/// The six lowercase hexadecimal digits of a colour, red first.
pub open spec fn colour_hex(r: u8, g: u8, b: u8) -> Seq<u8> {
    hex_pair(r) + hex_pair(g) + hex_pair(b)
}

/// The line that sets one pixel: `PX <x> <y> <rrggbb>\n`.
pub open spec fn write_pixel_line(x: u32, y: u32, r: u8, g: u8, b: u8) -> Seq<u8> {
    px_keyword().push(SPACE) + decimal(x as nat).push(SPACE) + decimal(y as nat).push(SPACE)
        + colour_hex(r, g, b).push(NEWLINE)
}

/// What a size response means: the second and third tokens are the width
/// and the height. The first token is not read, and neither are tokens
/// after the third.
pub open spec fn parse_size_spec(line: Seq<u8>) -> Result<CanvasSize, ProtocolError> {
    let t = tokens(line);
    if t.len() >= 3 && decimal_value(t[1]) is Some && decimal_value(t[2]) is Some {
        Ok(CanvasSize { width: decimal_value(t[1])->Some_0, height: decimal_value(t[2])->Some_0 })
    } else {
        Err(ProtocolError::Malformed)
    }
}

/// Whether a token is a colour: six or more bytes, all of them hexadecimal
/// digits of either case.
pub open spec fn is_colour_token(t: Seq<u8>) -> bool {
    t.len() >= 6 && all_hex_digits(t)
}

/// The colour that a colour token states: its first six digits, two each
/// for red, green and blue. Digits after the sixth are not part of the
/// colour.
pub open spec fn colour_of(t: Seq<u8>) -> (u8, u8, u8) {
    (hex_pair_value(t[0], t[1]), hex_pair_value(t[2], t[3]), hex_pair_value(t[4], t[5]))
}

/// What a pixel response means: the fourth token is the colour. The first
/// three tokens are not read, and neither are tokens after the fourth.
pub open spec fn parse_pixel_spec(line: Seq<u8>) -> Result<(u8, u8, u8), ProtocolError> {
    let t = tokens(line);
    if t.len() >= 4 && is_colour_token(t[3]) {
        Ok(colour_of(t[3]))
    } else {
        Err(ProtocolError::Malformed)
    }
}

/// What a line of the form `PX <x> <y> <rrggbb>` states: the second and
/// third tokens are the position, the fourth is the colour. The first token
/// is not read, and neither are tokens after the fourth.
pub open spec fn parse_pixel_line_spec(line: Seq<u8>) -> Result<PixelLine, ProtocolError> {
    let t = tokens(line);
    if t.len() >= 4 && decimal_value(t[1]) is Some && decimal_value(t[2]) is Some
        && is_colour_token(t[3]) {
        Ok(
            PixelLine {
                x: decimal_value(t[1])->Some_0,
                y: decimal_value(t[2])->Some_0,
                r: colour_of(t[3]).0,
                g: colour_of(t[3]).1,
                b: colour_of(t[3]).2,
            },
        )
    } else {
        Err(ProtocolError::Malformed)
    }
}

/// Builds the command that asks for the canvas size.
pub fn encode_size_query() -> (line: Vec<u8>)
    ensures
        line@ == size_query_line(),
{
    let mut line: Vec<u8> = Vec::new();
    line.push(0x53);
    line.push(0x49);
    line.push(0x5a);
    line.push(0x45);
    line.push(NEWLINE);
    proof {
        assert(line@ =~= size_query_line());
    }
    line
}

/// Builds the command that asks for the colour of the pixel at `(x, y)`.
pub fn encode_read_pixel(x: u32, y: u32) -> (line: Vec<u8>)
    ensures
        line@ == read_pixel_line(x, y),
{
    let mut line: Vec<u8> = Vec::new();
    line.push(0x50);
    line.push(0x58);
    line.push(SPACE);
    push_decimal(&mut line, x);
    line.push(SPACE);
    push_decimal(&mut line, y);
    line.push(NEWLINE);
    proof {
        assert(line@ =~= read_pixel_line(x, y));
    }
    line
}

/// Builds the command that sets the pixel at `(x, y)` to the colour `(r, g, b)`.
pub fn encode_write_pixel(x: u32, y: u32, r: u8, g: u8, b: u8) -> (line: Vec<u8>)
    ensures
        line@ == write_pixel_line(x, y, r, g, b),
{
    let mut line: Vec<u8> = Vec::new();
    line.push(0x50);
    line.push(0x58);
    line.push(SPACE);
    push_decimal(&mut line, x);
    line.push(SPACE);
    push_decimal(&mut line, y);
    line.push(SPACE);
    push_hex_pair(&mut line, r);
    push_hex_pair(&mut line, g);
    push_hex_pair(&mut line, b);
    line.push(NEWLINE);
    proof {
        assert(line@ =~= write_pixel_line(x, y, r, g, b));
    }
    line
}

/// Reads the response to a size query.
///
/// Succeeds exactly when the line has three or more tokens of which the
/// second and third are decimal numbers that fit in 32 bits.
pub fn parse_size_response(line: &[u8]) -> (res: Result<CanvasSize, ProtocolError>)
    ensures
        res == parse_size_spec(line@),
{
    let (_, e0) = match next_token(line, 0) {
        Some(t) => t,
        None => { return Err(ProtocolError::Malformed); },
    };
    let (s1, e1) = match next_token(line, e0) {
        Some(t) => t,
        None => { return Err(ProtocolError::Malformed); },
    };
    let (s2, e2) = match next_token(line, e1) {
        Some(t) => t,
        None => { return Err(ProtocolError::Malformed); },
    };
    proof {
        let t = tokens(line@);
        assert(t[1] == line@.subrange(s1 as int, e1 as int));
        assert(t[2] == line@.subrange(s2 as int, e2 as int));
    }
    let width = parse_decimal(slice_subrange(line, s1, e1));
    let height = parse_decimal(slice_subrange(line, s2, e2));
    match (width, height) {
        (Some(width), Some(height)) => Ok(CanvasSize { width, height }),
        _ => Err(ProtocolError::Malformed),
    }
}

/// Reads a colour token: six or more hexadecimal digits, of which the
/// first six are the colour.
pub fn parse_colour(token: &[u8]) -> (res: Option<(u8, u8, u8)>)
    ensures
        res is Some <==> is_colour_token(token@),
        res matches Some(colour) ==> colour == colour_of(token@),
{
    if token.len() < 6 || !is_hex_string(token) {
        return None;
    }
    assert(forall|i: int| 0 <= i < 6 ==> is_hex_digit(#[trigger] token@[i]));
    let r = parse_hex_pair(token[0], token[1]);
    let g = parse_hex_pair(token[2], token[3]);
    let b = parse_hex_pair(token[4], token[5]);
    match (r, g, b) {
        (Some(r), Some(g), Some(b)) => Some((r, g, b)),
        _ => None,
    }
}

/// Reads the response to a pixel query: the colour of the pixel.
///
/// Succeeds exactly when the line has four or more tokens of which the
/// fourth is six or more hexadecimal digits.
pub fn parse_pixel_response(line: &[u8]) -> (res: Result<(u8, u8, u8), ProtocolError>)
    ensures
        res == parse_pixel_spec(line@),
{
    let (_, e0) = match next_token(line, 0) {
        Some(t) => t,
        None => { return Err(ProtocolError::Malformed); },
    };
    let (_, e1) = match next_token(line, e0) {
        Some(t) => t,
        None => { return Err(ProtocolError::Malformed); },
    };
    let (_, e2) = match next_token(line, e1) {
        Some(t) => t,
        None => { return Err(ProtocolError::Malformed); },
    };
    let (s3, e3) = match next_token(line, e2) {
        Some(t) => t,
        None => { return Err(ProtocolError::Malformed); },
    };
    proof {
        let t = tokens(line@);
        assert(t[3] == line@.subrange(s3 as int, e3 as int));
    }
    match parse_colour(slice_subrange(line, s3, e3)) {
        Some(colour) => Ok(colour),
        None => Err(ProtocolError::Malformed),
    }
}

/// Reads a line of the form `PX <x> <y> <rrggbb>`: position and colour.
///
/// Succeeds exactly when the line has four or more tokens of which the
/// second and third are decimal numbers that fit in 32 bits and the fourth
/// is six or more hexadecimal digits.
pub fn parse_pixel_line(line: &[u8]) -> (res: Result<PixelLine, ProtocolError>)
    ensures
        res == parse_pixel_line_spec(line@),
{
    let (_, e0) = match next_token(line, 0) {
        Some(t) => t,
        None => { return Err(ProtocolError::Malformed); },
    };
    let (s1, e1) = match next_token(line, e0) {
        Some(t) => t,
        None => { return Err(ProtocolError::Malformed); },
    };
    let (s2, e2) = match next_token(line, e1) {
        Some(t) => t,
        None => { return Err(ProtocolError::Malformed); },
    };
    let (s3, e3) = match next_token(line, e2) {
        Some(t) => t,
        None => { return Err(ProtocolError::Malformed); },
    };
    proof {
        let t = tokens(line@);
        assert(t[1] == line@.subrange(s1 as int, e1 as int));
        assert(t[2] == line@.subrange(s2 as int, e2 as int));
        assert(t[3] == line@.subrange(s3 as int, e3 as int));
    }
    let x = parse_decimal(slice_subrange(line, s1, e1));
    let y = parse_decimal(slice_subrange(line, s2, e2));
    let colour = parse_colour(slice_subrange(line, s3, e3));
    match (x, y, colour) {
        (Some(x), Some(y), Some((r, g, b))) => Ok(PixelLine { x, y, r, g, b }),
        _ => Err(ProtocolError::Malformed),
    }
}

/// A decimal numeral holds no whitespace.
pub proof fn lemma_decimal_is_word(n: nat)
    ensures
        decimal(n).len() > 0,
        no_space(decimal(n)),
{
    lemma_decimal_round_trip(n);
    let d = decimal(n);
    assert forall|i: int| 0 <= i < d.len() implies !is_space(#[trigger] d[i]) by {
        assert(is_digit(d[i]));
    }
}

/// The six digits written for a colour are a colour token that holds no
/// whitespace and reads back as the same colour.
pub proof fn lemma_colour_hex_round_trip(r: u8, g: u8, b: u8)
    ensures
        colour_hex(r, g, b).len() == 6,
        no_space(colour_hex(r, g, b)),
        is_colour_token(colour_hex(r, g, b)),
        colour_of(colour_hex(r, g, b)) == (r, g, b),
{
    lemma_hex_pair_round_trip(r);
    lemma_hex_pair_round_trip(g);
    lemma_hex_pair_round_trip(b);
    let c = colour_hex(r, g, b);
    assert(c[0] == hex_pair(r)[0] && c[1] == hex_pair(r)[1]);
    assert(c[2] == hex_pair(g)[0] && c[3] == hex_pair(g)[1]);
    assert(c[4] == hex_pair(b)[0] && c[5] == hex_pair(b)[1]);
    assert forall|i: int| 0 <= i < c.len() implies is_hex_digit(#[trigger] c[i]) && !is_space(
        c[i],
    ) by {
        assert(i == 0 || i == 1 || i == 2 || i == 3 || i == 4 || i == 5);
    }
}

/// The tokens of a write command are the keyword, the two coordinates and
/// the colour.
pub proof fn lemma_tokens_of_write_pixel_line(x: u32, y: u32, r: u8, g: u8, b: u8)
    ensures
        tokens(write_pixel_line(x, y, r, g, b)) == seq![
            px_keyword(),
            decimal(x as nat),
            decimal(y as nat),
            colour_hex(r, g, b),
        ],
{
    let dx = decimal(x as nat);
    let dy = decimal(y as nat);
    let c = colour_hex(r, g, b);
    let empty = Seq::<u8>::empty();
    let tail3 = c.push(NEWLINE) + empty;
    let tail2 = dy.push(SPACE) + tail3;
    let tail1 = dx.push(SPACE) + tail2;
    let line = px_keyword().push(SPACE) + tail1;
    assert(line =~= write_pixel_line(x, y, r, g, b));
    lemma_decimal_is_word(x as nat);
    lemma_decimal_is_word(y as nat);
    lemma_colour_hex_round_trip(r, g, b);
    assert(no_space(px_keyword()));
    lemma_tokens_of_word_then_space(px_keyword(), SPACE, tail1);
    lemma_tokens_of_word_then_space(dx, SPACE, tail2);
    lemma_tokens_of_word_then_space(dy, SPACE, tail3);
    lemma_tokens_of_word_then_space(c, NEWLINE, empty);
    assert(tokens(empty) =~= Seq::<Seq<u8>>::empty());
    assert(tokens(line) =~= seq![px_keyword(), dx, dy, c]);
}

/// A write command read back as a line of the protocol gives the position
/// and the colour it was built from, and read as a pixel response gives
/// the colour.
pub proof fn lemma_write_pixel_round_trip(x: u32, y: u32, r: u8, g: u8, b: u8)
    ensures
        parse_pixel_line_spec(write_pixel_line(x, y, r, g, b)) == Ok::<PixelLine, ProtocolError>(
            PixelLine { x, y, r, g, b },
        ),
        parse_pixel_spec(write_pixel_line(x, y, r, g, b)) == Ok::<(u8, u8, u8), ProtocolError>(
            (r, g, b),
        ),
{
    lemma_tokens_of_write_pixel_line(x, y, r, g, b);
    lemma_decimal_value_of_decimal(x);
    lemma_decimal_value_of_decimal(y);
    lemma_colour_hex_round_trip(r, g, b);
}

} // verus!
