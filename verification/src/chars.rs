//! Byte classification and maximal-munch scanning over the input buffer.
//!
//! Every lexeme of the grammar is a run of bytes drawn from one of a few byte
//! classes; `scan` is the spec-level maximal scanner and `scan_from` the
//! verified executable one.

use vstd::prelude::*;

verus! {

/// Whitespace: space, tab, newline, carriage return.
pub open spec fn is_ws(b: u8) -> bool {
    b == 32 || b == 9 || b == 10 || b == 13
}

/// ASCII letter.
pub open spec fn is_alpha(b: u8) -> bool {
    (65 <= b && b <= 90) || (97 <= b && b <= 122)
}

/// ASCII decimal digit.
pub open spec fn is_digit(b: u8) -> bool {
    48 <= b && b <= 57
}

/// First byte of an identifier: a letter or `_`.
pub open spec fn is_ident_start(b: u8) -> bool {
    is_alpha(b) || b == 95
}

/// Continuation byte of an identifier: a letter, digit or `_`.
pub open spec fn is_ident_cont(b: u8) -> bool {
    is_alpha(b) || is_digit(b) || b == 95
}

/// Hexadecimal digit `0-9 a-f A-F`.
pub open spec fn is_hex_digit(b: u8) -> bool {
    is_digit(b) || (97 <= b && b <= 102) || (65 <= b && b <= 70)
}

/// Binary digit `0` or `1`.
pub open spec fn is_bin_digit(b: u8) -> bool {
    b == 48 || b == 49
}

/// Octal digit `0-7`.
pub open spec fn is_oct_digit(b: u8) -> bool {
    48 <= b && b <= 55
}

/// The fixed punctuation set `+ - * = . , ! % ^ & | / ~ < > : ;`.
pub open spec fn is_punct(b: u8) -> bool {
    b == 43 || b == 45 || b == 42 || b == 61 || b == 46 || b == 44 || b == 33 || b == 37 || b == 94
        || b == 38 || b == 124 || b == 47 || b == 126 || b == 60 || b == 62 || b == 58 || b == 59
}

/// Opening delimiter of a string-like literal: `'`, `"` or a backtick.
pub open spec fn is_quote(b: u8) -> bool {
    b == 39 || b == 34 || b == 96
}

/// Single-character escape codes valid after a backslash inside a rune or
/// string literal: the backslash itself, the literal's own quote, and
/// `a b f n r t v`.
pub open spec fn is_escape_code(b: u8, quote: u8) -> bool {
    b == 92 || b == quote || b == 97 || b == 98 || b == 102 || b == 110 || b == 114 || b == 116
        || b == 118
}

/// The byte classes that lexemes take maximal runs of.
#[derive(Clone, Copy)]
pub enum Cls {
    Ws,
    IdentCont,
    HexDigit,
    BinDigit,
    OctDigit,
    DecDigit,
    /// Body of a raw literal: any byte but a backtick.
    RawBody,
}

pub open spec fn in_cls(c: Cls, b: u8) -> bool {
    match c {
        Cls::Ws => is_ws(b),
        Cls::IdentCont => is_ident_cont(b),
        Cls::HexDigit => is_hex_digit(b),
        Cls::BinDigit => is_bin_digit(b),
        Cls::OctDigit => is_oct_digit(b),
        Cls::DecDigit => is_digit(b),
        Cls::RawBody => b != 96,
    }
}

/// First position at or after `pos` whose byte is not in class `c`
/// (or the end of the input): the end of the maximal run.
pub open spec fn scan(input: Seq<u8>, pos: int, c: Cls) -> int
    decreases input.len() - pos,
{
    if 0 <= pos && pos < input.len() && in_cls(c, input[pos]) {
        scan(input, pos + 1, c)
    } else {
        pos
    }
}

/// `scan` lands in bounds, every byte of the run is in the class, and the
/// byte after the run (if any) is not.
pub proof fn lemma_scan(input: Seq<u8>, pos: int, c: Cls)
    requires
        0 <= pos <= input.len(),
    ensures
        pos <= scan(input, pos, c) <= input.len(),
        forall|k: int| pos <= k < scan(input, pos, c) ==> in_cls(c, #[trigger] input[k]),
        scan(input, pos, c) < input.len() ==> !in_cls(c, input[scan(input, pos, c)]),
    decreases input.len() - pos,
{
    if pos < input.len() && in_cls(c, input[pos]) {
        lemma_scan(input, pos + 1, c);
    }
}

/// Executable byte-class membership test.
pub fn byte_in_cls(c: Cls, b: u8) -> (r: bool)
    ensures
        r == in_cls(c, b),
{
    match c {
        Cls::Ws => b == 32 || b == 9 || b == 10 || b == 13,
        Cls::IdentCont => (65 <= b && b <= 90) || (97 <= b && b <= 122) || (48 <= b && b <= 57)
            || b == 95,
        Cls::HexDigit => (48 <= b && b <= 57) || (97 <= b && b <= 102) || (65 <= b && b <= 70),
        Cls::BinDigit => b == 48 || b == 49,
        Cls::OctDigit => 48 <= b && b <= 55,
        Cls::DecDigit => 48 <= b && b <= 57,
        Cls::RawBody => b != 96,
    }
}

/// Executable test for an identifier's first byte.
pub fn ident_start_byte(b: u8) -> (r: bool)
    ensures
        r == is_ident_start(b),
{
    (65 <= b && b <= 90) || (97 <= b && b <= 122) || b == 95
}

/// Executable test for membership in the punctuation set.
pub fn punct_byte(b: u8) -> (r: bool)
    ensures
        r == is_punct(b),
{
    b == 43 || b == 45 || b == 42 || b == 61 || b == 46 || b == 44 || b == 33 || b == 37 || b == 94
        || b == 38 || b == 124 || b == 47 || b == 126 || b == 60 || b == 62 || b == 58 || b == 59
}

/// Executable test for an octal digit.
pub fn oct_digit_byte(b: u8) -> (r: bool)
    ensures
        r == is_oct_digit(b),
{
    48 <= b && b <= 55
}

/// Executable test for a string-like literal's opening delimiter.
pub fn quote_byte(b: u8) -> (r: bool)
    ensures
        r == is_quote(b),
{
    b == 39 || b == 34 || b == 96
}

/// Executable test for a single-character escape code.
pub fn escape_code_byte(b: u8, quote: u8) -> (r: bool)
    ensures
        r == is_escape_code(b, quote),
{
    b == 92 || b == quote || b == 97 || b == 98 || b == 102 || b == 110 || b == 114 || b == 116
        || b == 118
}

/// Executable maximal-munch scanner: consumes the run of class-`c` bytes
/// starting at `pos` and returns the position just past it.
pub fn scan_from(input: &Vec<u8>, pos: usize, c: Cls) -> (r: usize)
    requires
        pos <= input.len(),
    ensures
        r as int == scan(input@, pos as int, c),
        pos <= r <= input.len(),
{
    proof {
        lemma_scan(input@, pos as int, c);
    }
    let ghost end = scan(input@, pos as int, c);
    let mut i = pos;
    while i < input.len() && byte_in_cls(c, input[i])
        invariant
            pos <= i <= end <= input.len(),
            end == scan(input@, pos as int, c),
            forall|k: int| pos <= k < end ==> #[trigger] in_cls(c, input@[k]),
            end < input.len() ==> !in_cls(c, input@[end]),
        decreases input.len() - i,
    {
        i = i + 1;
    }
    i
}

} // verus!
