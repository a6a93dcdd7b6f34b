//! String-like literals: rune (`'...'`), string (`"..."`) and raw
//! (backtick-delimited), dispatched by their opening delimiter. The captured
//! span includes the delimiters; escape sequences are kept verbatim, never
//! decoded.

use vstd::prelude::*;

use crate::chars::{escape_code_byte, oct_digit_byte, scan_from, Cls};
use crate::error::{ErrorKind, Label, LexError};
use crate::extra::ws;
use crate::model::{
    agrees, agrees_pos, lemma_str_elem_range, sp_raw, sp_rune, sp_str_elem, sp_str_tail,
    sp_string, sp_strlit, TokView,
};

verus! {

/// One body element of a rune or string literal: an escape sequence or a
/// single plain byte. Returns the position just past the element.
fn str_elem(input: &Vec<u8>, j: usize, quote: u8) -> (r: Result<usize, LexError>)
    requires
        j <= input.len(),
    ensures
        agrees_pos(r, sp_str_elem(input@, j as int, quote)),
{
    if j >= input.len() {
        return Err(LexError::new(ErrorKind::UnterminatedConstruct, j));
    }
    let b = input[j];
    if b == 10 {
        Err(LexError::new(ErrorKind::UnterminatedConstruct, j))
    } else if b == 92 {
        if j + 1 >= input.len() {
            Err(LexError::new(ErrorKind::MalformedEscape, j))
        } else {
            let e = input[j + 1];
            if e == 85 {
                let s = scan_from(input, j + 2, Cls::HexDigit);
                if input.len() - j >= 10 && s - j >= 10 {
                    Ok(j + 10)
                } else {
                    Err(LexError::new(ErrorKind::MalformedEscape, j))
                }
            } else if e == 117 {
                let s = scan_from(input, j + 2, Cls::HexDigit);
                if input.len() - j >= 6 && s - j >= 6 {
                    Ok(j + 6)
                } else {
                    Err(LexError::new(ErrorKind::MalformedEscape, j))
                }
            } else if e == 120 {
                let s = scan_from(input, j + 2, Cls::HexDigit);
                if input.len() - j >= 4 && s - j >= 4 {
                    Ok(j + 4)
                } else {
                    Err(LexError::new(ErrorKind::MalformedEscape, j))
                }
            } else if oct_digit_byte(e) {
                let s = scan_from(input, j + 1, Cls::OctDigit);
                if input.len() - j >= 4 && s - j >= 4 {
                    Ok(j + 4)
                } else {
                    Err(LexError::new(ErrorKind::MalformedEscape, j))
                }
            } else if escape_code_byte(e, quote) {
                Ok(j + 2)
            } else {
                Err(LexError::new(ErrorKind::MalformedEscape, j))
            }
        }
    } else if b == quote {
        Err(LexError::new(ErrorKind::NoAlternativeMatched, j))
    } else {
        Ok(j + 1)
    }
}

/// Rune literal: single quotes around exactly one body element.
#[derive(Clone, Copy, Debug)]
pub struct RuneLit {
    pub start: usize,
    pub end: usize,
}

impl View for RuneLit {
    type V = TokView;

    open spec fn view(&self) -> TokView {
        TokView::Rune { start: self.start as int, end: self.end as int }
    }
}

impl RuneLit {
    /// Parse `'`, one body element, `'`; the closing quote is mandatory.
    pub fn parse(input: &Vec<u8>, pos: usize) -> (r: Result<(usize, RuneLit), LexError>)
        requires
            pos <= input.len(),
        ensures
            agrees(r, sp_rune(input@, pos as int)),
    {
        let i = ws(input, pos);
        if i < input.len() && input[i] == 39 {
            match str_elem(input, i + 1, 39) {
                Ok(j2) => {
                    if j2 < input.len() && input[j2] == 39 {
                        Ok((j2 + 1, RuneLit { start: i, end: j2 + 1 }))
                    } else {
                        proof {
                            lemma_str_elem_range(input@, (i + 1) as int, 39);
                        }
                        Err(LexError::new(ErrorKind::UnterminatedConstruct, j2)
                            .within(Label::RuneLit, pos))
                    }
                },
                Err(e) => Err(e.within(Label::RuneLit, pos)),
            }
        } else {
            Err(LexError::new(ErrorKind::NoAlternativeMatched, i).within(Label::RuneLit, pos))
        }
    }
}

/// String literal: double quotes around zero or more body elements.
#[derive(Clone, Copy, Debug)]
pub struct StringLit {
    pub start: usize,
    pub end: usize,
}

impl View for StringLit {
    type V = TokView;

    open spec fn view(&self) -> TokView {
        TokView::Str { start: self.start as int, end: self.end as int }
    }
}

/// Body elements from `j0` (just inside the quotes) up to and past the
/// closing double quote.
fn string_tail(input: &Vec<u8>, j0: usize) -> (r: Result<usize, LexError>)
    requires
        j0 <= input.len(),
    ensures
        agrees_pos(r, sp_str_tail(input@, j0 as int, 34)),
{
    let mut j = j0;
    loop
        invariant
            j0 <= j <= input.len(),
            sp_str_tail(input@, j0 as int, 34) == sp_str_tail(input@, j as int, 34),
        decreases input.len() - j,
    {
        if j >= input.len() {
            return Err(LexError::new(ErrorKind::UnterminatedConstruct, j));
        }
        if input[j] == 34 {
            return Ok(j + 1);
        }
        match str_elem(input, j, 34) {
            Ok(j2) => {
                proof {
                    lemma_str_elem_range(input@, j as int, 34);
                }
                j = j2;
            },
            Err(e) => {
                return Err(e);
            },
        }
    }
}

impl StringLit {
    /// Parse `"`, any number of body elements, `"`; the closing quote is
    /// mandatory.
    pub fn parse(input: &Vec<u8>, pos: usize) -> (r: Result<(usize, StringLit), LexError>)
        requires
            pos <= input.len(),
        ensures
            agrees(r, sp_string(input@, pos as int)),
    {
        let i = ws(input, pos);
        if i < input.len() && input[i] == 34 {
            match string_tail(input, i + 1) {
                Ok(end) => Ok((end, StringLit { start: i, end })),
                Err(e) => Err(e.within(Label::StringLit, pos)),
            }
        } else {
            Err(LexError::new(ErrorKind::NoAlternativeMatched, i).within(Label::StringLit, pos))
        }
    }
}

/// Raw literal: backticks around any bytes except a backtick, kept verbatim.
#[derive(Clone, Copy, Debug)]
pub struct RawLit {
    pub start: usize,
    pub end: usize,
}

impl View for RawLit {
    type V = TokView;

    open spec fn view(&self) -> TokView {
        TokView::Raw { start: self.start as int, end: self.end as int }
    }
}

impl RawLit {
    /// Parse a backtick, the maximal backtick-free run, and the closing
    /// backtick; no escape interpretation at all.
    pub fn parse(input: &Vec<u8>, pos: usize) -> (r: Result<(usize, RawLit), LexError>)
        requires
            pos <= input.len(),
        ensures
            agrees(r, sp_raw(input@, pos as int)),
    {
        let i = ws(input, pos);
        if i < input.len() && input[i] == 96 {
            let j = scan_from(input, i + 1, Cls::RawBody);
            if j < input.len() {
                Ok((j + 1, RawLit { start: i, end: j + 1 }))
            } else {
                Err(LexError::new(ErrorKind::UnterminatedConstruct, j).within(Label::RawLit, pos))
            }
        } else {
            Err(LexError::new(ErrorKind::NoAlternativeMatched, i).within(Label::RawLit, pos))
        }
    }
}

/// A string-like literal: rune, string or raw.
#[derive(Clone, Copy, Debug)]
pub enum StrLit {
    Rune(RuneLit),
    Str(StringLit),
    Raw(RawLit),
}

impl View for StrLit {
    type V = TokView;

    open spec fn view(&self) -> TokView {
        match self {
            StrLit::Rune(x) => x@,
            StrLit::Str(x) => x@,
            StrLit::Raw(x) => x@,
        }
    }
}

impl StrLit {
    /// Dispatch on the opening delimiter: `'` is a rune, `"` a string, a
    /// backtick a raw literal; anything else matches no alternative.
    pub fn parse(input: &Vec<u8>, pos: usize) -> (r: Result<(usize, StrLit), LexError>)
        requires
            pos <= input.len(),
        ensures
            agrees(r, sp_strlit(input@, pos as int)),
    {
        let i = ws(input, pos);
        if i < input.len() && input[i] == 39 {
            match RuneLit::parse(input, pos) {
                Ok((e, x)) => Ok((e, StrLit::Rune(x))),
                Err(e) => Err(e.within(Label::StrLit, pos)),
            }
        } else if i < input.len() && input[i] == 34 {
            match StringLit::parse(input, pos) {
                Ok((e, x)) => Ok((e, StrLit::Str(x))),
                Err(e) => Err(e.within(Label::StrLit, pos)),
            }
        } else if i < input.len() && input[i] == 96 {
            match RawLit::parse(input, pos) {
                Ok((e, x)) => Ok((e, StrLit::Raw(x))),
                Err(e) => Err(e.within(Label::StrLit, pos)),
            }
        } else {
            Err(LexError::new(ErrorKind::NoAlternativeMatched, i).within(Label::StrLit, pos))
        }
    }
}

} // verus!
