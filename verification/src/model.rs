//! The mathematical model of the grammar: a deterministic spec-level parser.
//!
//! Every executable parse function of the crate is pinned, in both directions,
//! to the corresponding `sp_*` function here: it succeeds exactly when the
//! model does, returns exactly the token the model does, and fails with
//! exactly the model's error kind and position.

use vstd::prelude::*;

use crate::chars::{
    is_digit, is_escape_code, is_ident_start, is_oct_digit, is_punct, is_quote, scan, Cls,
};
use crate::error::ErrorKind;

verus! {

/// The three delimiter-group kinds; each pairs one fixed opening byte with
/// one fixed closing byte.
#[derive(Clone, Copy, Debug, PartialEq, Eq, Structural)]
pub enum GroupKind {
    Paren,
    Brace,
    Brack,
}

/// The opening delimiter byte of a group kind: `(`, `{` or `[`.
pub open spec fn open_byte(k: GroupKind) -> u8 {
    match k {
        GroupKind::Paren => 40,
        GroupKind::Brace => 123,
        GroupKind::Brack => 91,
    }
}

/// The closing delimiter byte of a group kind: `)`, `}` or `]`.
pub open spec fn close_byte(k: GroupKind) -> u8 {
    match k {
        GroupKind::Paren => 41,
        GroupKind::Brace => 125,
        GroupKind::Brack => 93,
    }
}

/// The abstract value of one token: which alternative it is, and the byte
/// span(s) it captured in the input. Group bodies are abstract token
/// sequences, so the type is a tree.
#[verifier::ext_equal]
pub enum TokView {
    Ident { start: int, end: int },
    Paren { l: int, body: Seq<TokView>, r: int },
    Brace { l: int, body: Seq<TokView>, r: int },
    Brack { l: int, body: Seq<TokView>, r: int },
    /// `pos` is the position before leading whitespace, `at` the index of the
    /// punctuation byte itself, `ch` that byte.
    Punct { pos: int, at: int, ch: u8 },
    Rune { start: int, end: int },
    Str { start: int, end: int },
    Raw { start: int, end: int },
    Hex { start: int, end: int },
    Bin { start: int, end: int },
    Oct { start: int, end: int },
    Dec { start: int, end: int },
}

/// The abstract value of a parse failure: its kind and innermost position.
pub struct SErr {
    pub kind: ErrorKind,
    pub pos: int,
}

/// The group token of kind `k` with delimiters at `l` and `r` and body `body`.
pub open spec fn group_view(k: GroupKind, l: int, body: Seq<TokView>, r: int) -> TokView {
    match k {
        GroupKind::Paren => TokView::Paren { l, body, r },
        GroupKind::Brace => TokView::Brace { l, body, r },
        GroupKind::Brack => TokView::Brack { l, body, r },
    }
}

/// End of the whitespace run starting at `pos`.
pub open spec fn sp_skip_ws(input: Seq<u8>, pos: int) -> int {
    scan(input, pos, Cls::Ws)
}

/// Identifier: leading whitespace, then a letter or `_`, then the maximal
/// run of letters, digits and `_`. The captured span excludes the whitespace.
pub open spec fn sp_ident(input: Seq<u8>, pos: int) -> Result<(int, TokView), SErr> {
    let i = sp_skip_ws(input, pos);
    if i < input.len() && is_ident_start(input[i]) {
        let e = scan(input, i + 1, Cls::IdentCont);
        Ok((e, TokView::Ident { start: i, end: e }))
    } else {
        Err(SErr { kind: ErrorKind::NoAlternativeMatched, pos: i })
    }
}

/// Punctuation: one byte of the fixed set after leading whitespace. The
/// recorded `pos` is the position before the whitespace.
pub open spec fn sp_punct(input: Seq<u8>, pos: int) -> Result<(int, TokView), SErr> {
    let i = sp_skip_ws(input, pos);
    if i < input.len() && is_punct(input[i]) {
        Ok((i + 1, TokView::Punct { pos: pos, at: i, ch: input[i] }))
    } else {
        Err(SErr { kind: ErrorKind::NoAlternativeMatched, pos: i })
    }
}

/// Hex literal: `0x` then at least one hex digit, maximal; prefix included in
/// the captured span.
pub open spec fn sp_hex(input: Seq<u8>, pos: int) -> Result<(int, TokView), SErr> {
    let i = sp_skip_ws(input, pos);
    if i + 1 < input.len() && input[i] == 48 && input[i + 1] == 120 {
        let j = scan(input, i + 2, Cls::HexDigit);
        if j > i + 2 {
            Ok((j, TokView::Hex { start: i, end: j }))
        } else {
            Err(SErr { kind: ErrorKind::NoAlternativeMatched, pos: j })
        }
    } else {
        Err(SErr { kind: ErrorKind::NoAlternativeMatched, pos: i })
    }
}

/// Binary literal: `0b` then at least one of `0`/`1`, maximal.
pub open spec fn sp_bin(input: Seq<u8>, pos: int) -> Result<(int, TokView), SErr> {
    let i = sp_skip_ws(input, pos);
    if i + 1 < input.len() && input[i] == 48 && input[i + 1] == 98 {
        let j = scan(input, i + 2, Cls::BinDigit);
        if j > i + 2 {
            Ok((j, TokView::Bin { start: i, end: j }))
        } else {
            Err(SErr { kind: ErrorKind::NoAlternativeMatched, pos: j })
        }
    } else {
        Err(SErr { kind: ErrorKind::NoAlternativeMatched, pos: i })
    }
}

/// Octal literal: `0` then zero or more octal digits, maximal. A following
/// `8` or `9` is left unconsumed and becomes a separate token.
pub open spec fn sp_oct(input: Seq<u8>, pos: int) -> Result<(int, TokView), SErr> {
    let i = sp_skip_ws(input, pos);
    if i < input.len() && input[i] == 48 {
        let j = scan(input, i + 1, Cls::OctDigit);
        Ok((j, TokView::Oct { start: i, end: j }))
    } else {
        Err(SErr { kind: ErrorKind::NoAlternativeMatched, pos: i })
    }
}

/// Decimal literal: at least one decimal digit, maximal.
pub open spec fn sp_dec(input: Seq<u8>, pos: int) -> Result<(int, TokView), SErr> {
    let i = sp_skip_ws(input, pos);
    let j = scan(input, i, Cls::DecDigit);
    if j > i {
        Ok((j, TokView::Dec { start: i, end: j }))
    } else {
        Err(SErr { kind: ErrorKind::NoAlternativeMatched, pos: i })
    }
}

/// Numeric literal dispatch, first match wins: `0x` is hex, `0b` is binary,
/// a bare leading `0` is octal, anything else must be decimal.
pub open spec fn sp_numlit(input: Seq<u8>, pos: int) -> Result<(int, TokView), SErr> {
    let i = sp_skip_ws(input, pos);
    if i + 1 < input.len() && input[i] == 48 && input[i + 1] == 120 {
        sp_hex(input, pos)
    } else if i + 1 < input.len() && input[i] == 48 && input[i + 1] == 98 {
        sp_bin(input, pos)
    } else if i < input.len() && input[i] == 48 {
        sp_oct(input, pos)
    } else {
        sp_dec(input, pos)
    }
}

/// One body element of a rune or string literal at position `j`: an escape
/// sequence (`\U`+8 hex, `\u`+4 hex, `\x`+2 hex, `\`+3 octal, or `\` + one
/// escape code), or any single byte that is not a backslash, the quote, or a
/// newline. Returns the position just past the element.
pub open spec fn sp_str_elem(input: Seq<u8>, j: int, quote: u8) -> Result<int, SErr> {
    if j < 0 || j >= input.len() {
        Err(SErr { kind: ErrorKind::UnterminatedConstruct, pos: j })
    } else if input[j] == 10 {
        Err(SErr { kind: ErrorKind::UnterminatedConstruct, pos: j })
    } else if input[j] == 92 {
        if j + 1 >= input.len() {
            Err(SErr { kind: ErrorKind::MalformedEscape, pos: j })
        } else if input[j + 1] == 85 {
            // `\U` and exactly eight hex digits: the hex run from j+2 reaches j+10
            if j + 10 <= input.len() && scan(input, j + 2, Cls::HexDigit) >= j + 10 {
                Ok(j + 10)
            } else {
                Err(SErr { kind: ErrorKind::MalformedEscape, pos: j })
            }
        } else if input[j + 1] == 117 {
            // `\u` and exactly four hex digits
            if j + 6 <= input.len() && scan(input, j + 2, Cls::HexDigit) >= j + 6 {
                Ok(j + 6)
            } else {
                Err(SErr { kind: ErrorKind::MalformedEscape, pos: j })
            }
        } else if input[j + 1] == 120 {
            // `\x` and exactly two hex digits
            if j + 4 <= input.len() && scan(input, j + 2, Cls::HexDigit) >= j + 4 {
                Ok(j + 4)
            } else {
                Err(SErr { kind: ErrorKind::MalformedEscape, pos: j })
            }
        } else if is_oct_digit(input[j + 1]) {
            // `\` and exactly three octal digits
            if j + 4 <= input.len() && scan(input, j + 1, Cls::OctDigit) >= j + 4 {
                Ok(j + 4)
            } else {
                Err(SErr { kind: ErrorKind::MalformedEscape, pos: j })
            }
        } else if is_escape_code(input[j + 1], quote) {
            Ok(j + 2)
        } else {
            Err(SErr { kind: ErrorKind::MalformedEscape, pos: j })
        }
    } else if input[j] == quote {
        Err(SErr { kind: ErrorKind::NoAlternativeMatched, pos: j })
    } else {
        Ok(j + 1)
    }
}

/// Rest of a string literal from position `j` (just inside the quotes):
/// body elements until the closing quote. Returns the position just past the
/// closing quote.
pub open spec fn sp_str_tail(input: Seq<u8>, j: int, quote: u8) -> Result<int, SErr>
    decreases input.len() - j,
{
    if j < 0 || j >= input.len() {
        Err(SErr { kind: ErrorKind::UnterminatedConstruct, pos: j })
    } else if input[j] == quote {
        Ok(j + 1)
    } else {
        match sp_str_elem(input, j, quote) {
            Ok(j2) => if j < j2 && j2 <= input.len() {
                sp_str_tail(input, j2, quote)
            } else {
                Err(SErr { kind: ErrorKind::UnterminatedConstruct, pos: j2 })
            },
            Err(e) => Err(e),
        }
    }
}

/// Rune literal: a single quote, exactly one body element, a single quote.
/// Quotes are part of the captured span.
pub open spec fn sp_rune(input: Seq<u8>, pos: int) -> Result<(int, TokView), SErr> {
    let i = sp_skip_ws(input, pos);
    if i < input.len() && input[i] == 39 {
        match sp_str_elem(input, i + 1, 39) {
            Ok(j2) => if j2 < input.len() && input[j2] == 39 {
                Ok((j2 + 1, TokView::Rune { start: i, end: j2 + 1 }))
            } else {
                Err(SErr { kind: ErrorKind::UnterminatedConstruct, pos: j2 })
            },
            Err(e) => Err(e),
        }
    } else {
        Err(SErr { kind: ErrorKind::NoAlternativeMatched, pos: i })
    }
}

/// String literal: a double quote, zero or more body elements, a double
/// quote. Quotes are part of the captured span.
pub open spec fn sp_string(input: Seq<u8>, pos: int) -> Result<(int, TokView), SErr> {
    let i = sp_skip_ws(input, pos);
    if i < input.len() && input[i] == 34 {
        match sp_str_tail(input, i + 1, 34) {
            Ok(end) => Ok((end, TokView::Str { start: i, end: end })),
            Err(e) => Err(e),
        }
    } else {
        Err(SErr { kind: ErrorKind::NoAlternativeMatched, pos: i })
    }
}

/// Raw literal: a backtick, any bytes except a backtick (no escape
/// interpretation), a backtick. Backticks are part of the captured span.
pub open spec fn sp_raw(input: Seq<u8>, pos: int) -> Result<(int, TokView), SErr> {
    let i = sp_skip_ws(input, pos);
    if i < input.len() && input[i] == 96 {
        let j = scan(input, i + 1, Cls::RawBody);
        if j < input.len() {
            Ok((j + 1, TokView::Raw { start: i, end: j + 1 }))
        } else {
            Err(SErr { kind: ErrorKind::UnterminatedConstruct, pos: j })
        }
    } else {
        Err(SErr { kind: ErrorKind::NoAlternativeMatched, pos: i })
    }
}

/// String-like literal dispatch by opening delimiter: `'` is a rune, `"` a
/// string, a backtick a raw literal.
pub open spec fn sp_strlit(input: Seq<u8>, pos: int) -> Result<(int, TokView), SErr> {
    let i = sp_skip_ws(input, pos);
    if i < input.len() && input[i] == 39 {
        sp_rune(input, pos)
    } else if i < input.len() && input[i] == 34 {
        sp_string(input, pos)
    } else if i < input.len() && input[i] == 96 {
        sp_raw(input, pos)
    } else {
        Err(SErr { kind: ErrorKind::NoAlternativeMatched, pos: i })
    }
}

/// One token, dispatched on the next significant byte in strict priority:
/// `(`/`{`/`[` open a group, a digit starts a numeric literal, a quote starts
/// a string-like literal, a punctuation byte is punctuation, and anything
/// else must be an identifier.
pub open spec fn sp_token(input: Seq<u8>, pos: int) -> Result<(int, TokView), SErr>
    decreases input.len() - pos, 1int,
{
    let i = sp_skip_ws(input, pos);
    if i < input.len() && input[i] == 40 {
        sp_group(input, pos, GroupKind::Paren)
    } else if i < input.len() && input[i] == 123 {
        sp_group(input, pos, GroupKind::Brace)
    } else if i < input.len() && input[i] == 91 {
        sp_group(input, pos, GroupKind::Brack)
    } else if i < input.len() && is_digit(input[i]) {
        sp_numlit(input, pos)
    } else if i < input.len() && is_quote(input[i]) {
        sp_strlit(input, pos)
    } else if i < input.len() && is_punct(input[i]) {
        sp_punct(input, pos)
    } else {
        sp_ident(input, pos)
    }
}

/// Delimiter group of kind `k`: the fixed opening byte, a full token tree as
/// body, then the fixed closing byte.
pub open spec fn sp_group(input: Seq<u8>, pos: int, k: GroupKind) -> Result<(int, TokView), SErr>
    decreases input.len() - pos, 0int,
{
    let i = sp_skip_ws(input, pos);
    if pos <= i && i < input.len() && input[i] == open_byte(k) {
        let (m, body) = sp_tree(input, i + 1);
        let j = sp_skip_ws(input, m);
        if j < input.len() && input[j] == close_byte(k) {
            Ok((j + 1, group_view(k, i, body, j)))
        } else {
            Err(SErr { kind: ErrorKind::UnterminatedConstruct, pos: j })
        }
    } else {
        Err(SErr { kind: ErrorKind::NoAlternativeMatched, pos: i })
    }
}

/// Token tree: as many tokens as will match, in source order; never fails.
/// Returns the position just past the last token (trailing whitespace not
/// consumed) and the token sequence.
pub open spec fn sp_tree(input: Seq<u8>, pos: int) -> (int, Seq<TokView>)
    decreases input.len() - pos, 2int,
{
    match sp_token(input, pos) {
        Ok((end, t)) => if pos < end && end <= input.len() {
            let (m, rest) = sp_tree(input, end);
            (m, seq![t] + rest)
        } else {
            // dead branch: a successful token always makes progress
            (pos, seq![])
        },
        Err(_) => (pos, seq![]),
    }
}

/// The whole input: one token tree, then trailing whitespace, then nothing.
///
/// When text remains, the token that failed to match there is the reason. A
/// construct that started but never finished (an unterminated literal or
/// group, a malformed escape) surfaces its own error; text that matches no
/// alternative at all is reported as trailing input, at its first
/// significant byte.
pub open spec fn sp_parse(input: Seq<u8>) -> Result<Seq<TokView>, SErr> {
    let (m, toks) = sp_tree(input, 0);
    let j = sp_skip_ws(input, m);
    if j == input.len() {
        Ok(toks)
    } else {
        match sp_token(input, m) {
            Ok(_) => Err(SErr { kind: ErrorKind::TrailingInput, pos: j }),
            Err(e) => if e.kind == ErrorKind::UnterminatedConstruct || e.kind
                == ErrorKind::MalformedEscape {
                Err(e)
            } else {
                Err(SErr { kind: ErrorKind::TrailingInput, pos: j })
            },
        }
    }
}

/// A successful body element lands strictly forward and in bounds.
pub proof fn lemma_str_elem_range(input: Seq<u8>, j: int, quote: u8)
    ensures
        sp_str_elem(input, j, quote) matches Ok(j2) ==> j < j2 <= input.len(),
{
}

/// A successful string tail lands strictly forward and in bounds.
pub proof fn lemma_str_tail_range(input: Seq<u8>, j: int, quote: u8)
    ensures
        sp_str_tail(input, j, quote) matches Ok(end) ==> j < end <= input.len(),
    decreases input.len() - j,
{
    if 0 <= j && j < input.len() && input[j] != quote {
        if let Ok(j2) = sp_str_elem(input, j, quote) {
            lemma_str_elem_range(input, j, quote);
            if j < j2 && j2 <= input.len() {
                lemma_str_tail_range(input, j2, quote);
            }
        }
    }
}

/// A successful token consumes at least one byte and ends in bounds.
pub proof fn lemma_token_range(input: Seq<u8>, pos: int)
    requires
        0 <= pos <= input.len(),
    ensures
        sp_token(input, pos) matches Ok((end, _)) ==> pos < end <= input.len(),
    decreases input.len() - pos, 1int,
{
    let i = sp_skip_ws(input, pos);
    crate::chars::lemma_scan(input, pos, Cls::Ws);
    if i < input.len() && (input[i] == 40 || input[i] == 123 || input[i] == 91) {
        lemma_group_range(input, pos, GroupKind::Paren);
        lemma_group_range(input, pos, GroupKind::Brace);
        lemma_group_range(input, pos, GroupKind::Brack);
    } else if i < input.len() && is_digit(input[i]) {
        if i + 1 < input.len() && input[i] == 48 && input[i + 1] == 120 {
            crate::chars::lemma_scan(input, i + 2, Cls::HexDigit);
        } else if i + 1 < input.len() && input[i] == 48 && input[i + 1] == 98 {
            crate::chars::lemma_scan(input, i + 2, Cls::BinDigit);
        } else if input[i] == 48 {
            crate::chars::lemma_scan(input, i + 1, Cls::OctDigit);
        } else {
            crate::chars::lemma_scan(input, i, Cls::DecDigit);
        }
    } else if i < input.len() && is_quote(input[i]) {
        lemma_str_elem_range(input, i + 1, 39);
        lemma_str_tail_range(input, i + 1, 34);
        crate::chars::lemma_scan(input, i + 1, Cls::RawBody);
    } else if i < input.len() && is_ident_start(input[i]) {
        crate::chars::lemma_scan(input, i + 1, Cls::IdentCont);
    }
}

/// A successful group consumes at least one byte and ends in bounds.
pub proof fn lemma_group_range(input: Seq<u8>, pos: int, k: GroupKind)
    requires
        0 <= pos <= input.len(),
    ensures
        sp_group(input, pos, k) matches Ok((end, _)) ==> pos < end <= input.len(),
    decreases input.len() - pos, 0int,
{
    let i = sp_skip_ws(input, pos);
    crate::chars::lemma_scan(input, pos, Cls::Ws);
    if pos <= i && i < input.len() && input[i] == open_byte(k) {
        lemma_tree_range(input, i + 1);
        let (m, body) = sp_tree(input, i + 1);
        crate::chars::lemma_scan(input, m, Cls::Ws);
    }
}

/// A token tree ends at or after where it started, in bounds.
pub proof fn lemma_tree_range(input: Seq<u8>, pos: int)
    requires
        0 <= pos <= input.len(),
    ensures
        pos <= sp_tree(input, pos).0 <= input.len(),
    decreases input.len() - pos, 2int,
{
    if let Ok((end, t)) = sp_token(input, pos) {
        lemma_token_range(input, pos);
        if pos < end && end <= input.len() {
            lemma_tree_range(input, end);
        }
    }
}

/// How an executable parse result is pinned to the model: success for
/// success with the very same end position and token, failure for failure
/// with the very same kind and position.
pub open spec fn agrees<T: View<V = TokView>>(
    r: Result<(usize, T), crate::error::LexError>,
    s: Result<(int, TokView), SErr>,
) -> bool {
    match r {
        Ok((end, t)) => s == Ok::<(int, TokView), SErr>((end as int, t@)),
        Err(e) => s matches Err(se) && se.kind == e.kind && se.pos == e.pos as int,
    }
}

/// As `agrees`, for functions that return a bare position.
pub open spec fn agrees_pos(
    r: Result<usize, crate::error::LexError>,
    s: Result<int, SErr>,
) -> bool {
    match r {
        Ok(end) => s == Ok::<int, SErr>(end as int),
        Err(e) => s matches Err(se) && se.kind == e.kind && se.pos == e.pos as int,
    }
}

} // verus!
