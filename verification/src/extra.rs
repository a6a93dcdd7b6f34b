//! The primitive lexemes with no recursion: whitespace skipping, identifiers
//! and punctuation.

use vstd::prelude::*;

use crate::chars::{ident_start_byte, punct_byte, scan_from, Cls};
use crate::error::{ErrorKind, LexError};
use crate::model::{agrees, sp_ident, sp_punct, sp_skip_ws, TokView};

verus! {

/// Skip the whitespace run starting at `pos`; never fails.
pub fn ws(input: &Vec<u8>, pos: usize) -> (r: usize)
    requires
        pos <= input.len(),
    ensures
        r as int == sp_skip_ws(input@, pos as int),
        pos <= r <= input.len(),
{
    scan_from(input, pos, Cls::Ws)
}

/// An identifier: the captured span `[start, end)` holds a letter or `_`
/// followed by letters, digits and `_`, leading whitespace excluded.
#[derive(Clone, Copy, Debug)]
pub struct Ident {
    pub start: usize,
    pub end: usize,
}

impl View for Ident {
    type V = TokView;

    open spec fn view(&self) -> TokView {
        TokView::Ident { start: self.start as int, end: self.end as int }
    }
}

impl Ident {
    /// Parse an identifier at `pos`, skipping leading whitespace.
    pub fn parse(input: &Vec<u8>, pos: usize) -> (r: Result<(usize, Ident), LexError>)
        requires
            pos <= input.len(),
        ensures
            agrees(r, sp_ident(input@, pos as int)),
    {
        let i = ws(input, pos);
        if i < input.len() && ident_start_byte(input[i]) {
            let e = scan_from(input, i + 1, Cls::IdentCont);
            Ok((e, Ident { start: i, end: e }))
        } else {
            Err(LexError::new(ErrorKind::NoAlternativeMatched, i))
        }
    }
}

/// One punctuation byte. `pos` is the position before leading whitespace
/// (kept for precise diagnostics), `at` the index of the byte itself.
#[derive(Clone, Copy, Debug)]
pub struct Punct {
    pub pos: usize,
    pub at: usize,
    pub punct: u8,
}

impl View for Punct {
    type V = TokView;

    open spec fn view(&self) -> TokView {
        TokView::Punct { pos: self.pos as int, at: self.at as int, ch: self.punct }
    }
}

impl Punct {
    /// Parse one byte of the fixed punctuation set, skipping leading
    /// whitespace but recording the pre-whitespace position.
    pub fn parse(input: &Vec<u8>, pos: usize) -> (r: Result<(usize, Punct), LexError>)
        requires
            pos <= input.len(),
        ensures
            agrees(r, sp_punct(input@, pos as int)),
    {
        let i = ws(input, pos);
        if i < input.len() && punct_byte(input[i]) {
            Ok((i + 1, Punct { pos, at: i, punct: input[i] }))
        } else {
            Err(LexError::new(ErrorKind::NoAlternativeMatched, i))
        }
    }
}

} // verus!
