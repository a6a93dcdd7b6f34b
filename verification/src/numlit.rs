//! Numeric literals: hex, binary, octal and decimal, dispatched by prefix,
//! first match wins. Each holds the raw captured span, prefix included; no
//! numeric value is computed.

use vstd::prelude::*;

use crate::chars::{scan_from, Cls};
use crate::error::{ErrorKind, LexError};
use crate::extra::ws;
use crate::model::{agrees, sp_bin, sp_dec, sp_hex, sp_numlit, sp_oct, TokView};

verus! {

/// Hex literal: `0x` plus at least one hex digit.
#[derive(Clone, Copy, Debug)]
pub struct HexNumLit {
    pub start: usize,
    pub end: usize,
}

/// Binary literal: `0b` plus at least one binary digit.
#[derive(Clone, Copy, Debug)]
pub struct BinNumLit {
    pub start: usize,
    pub end: usize,
}

/// Octal literal: `0` plus zero or more octal digits.
#[derive(Clone, Copy, Debug)]
pub struct OctNumLit {
    pub start: usize,
    pub end: usize,
}

/// Decimal literal: at least one decimal digit.
#[derive(Clone, Copy, Debug)]
pub struct DecNumLit {
    pub start: usize,
    pub end: usize,
}

impl View for HexNumLit {
    type V = TokView;

    open spec fn view(&self) -> TokView {
        TokView::Hex { start: self.start as int, end: self.end as int }
    }
}

impl View for BinNumLit {
    type V = TokView;

    open spec fn view(&self) -> TokView {
        TokView::Bin { start: self.start as int, end: self.end as int }
    }
}

impl View for OctNumLit {
    type V = TokView;

    open spec fn view(&self) -> TokView {
        TokView::Oct { start: self.start as int, end: self.end as int }
    }
}

impl View for DecNumLit {
    type V = TokView;

    open spec fn view(&self) -> TokView {
        TokView::Dec { start: self.start as int, end: self.end as int }
    }
}

/// A numeric literal: the radix is a tag on the captured text, not a parsed
/// magnitude.
#[derive(Clone, Copy, Debug)]
pub enum NumLit {
    Hex(HexNumLit),
    Bin(BinNumLit),
    Oct(OctNumLit),
    Dec(DecNumLit),
}

impl View for NumLit {
    type V = TokView;

    open spec fn view(&self) -> TokView {
        match self {
            NumLit::Hex(x) => x@,
            NumLit::Bin(x) => x@,
            NumLit::Oct(x) => x@,
            NumLit::Dec(x) => x@,
        }
    }
}

impl HexNumLit {
    /// Parse `0x` followed by the maximal nonempty run of hex digits.
    pub fn parse(input: &Vec<u8>, pos: usize) -> (r: Result<(usize, HexNumLit), LexError>)
        requires
            pos <= input.len(),
        ensures
            agrees(r, sp_hex(input@, pos as int)),
    {
        let i = ws(input, pos);
        if i < input.len() && input[i] == 48 && i + 1 < input.len() && input[i + 1] == 120 {
            let j = scan_from(input, i + 2, Cls::HexDigit);
            if j > i + 2 {
                Ok((j, HexNumLit { start: i, end: j }))
            } else {
                Err(LexError::new(ErrorKind::NoAlternativeMatched, j))
            }
        } else {
            Err(LexError::new(ErrorKind::NoAlternativeMatched, i))
        }
    }
}

impl BinNumLit {
    /// Parse `0b` followed by the maximal nonempty run of binary digits.
    pub fn parse(input: &Vec<u8>, pos: usize) -> (r: Result<(usize, BinNumLit), LexError>)
        requires
            pos <= input.len(),
        ensures
            agrees(r, sp_bin(input@, pos as int)),
    {
        let i = ws(input, pos);
        if i < input.len() && input[i] == 48 && i + 1 < input.len() && input[i + 1] == 98 {
            let j = scan_from(input, i + 2, Cls::BinDigit);
            if j > i + 2 {
                Ok((j, BinNumLit { start: i, end: j }))
            } else {
                Err(LexError::new(ErrorKind::NoAlternativeMatched, j))
            }
        } else {
            Err(LexError::new(ErrorKind::NoAlternativeMatched, i))
        }
    }
}

impl OctNumLit {
    /// Parse `0` followed by the maximal (possibly empty) run of octal
    /// digits; a following `8` or `9` is left for the next token.
    pub fn parse(input: &Vec<u8>, pos: usize) -> (r: Result<(usize, OctNumLit), LexError>)
        requires
            pos <= input.len(),
        ensures
            agrees(r, sp_oct(input@, pos as int)),
    {
        let i = ws(input, pos);
        if i < input.len() && input[i] == 48 {
            let j = scan_from(input, i + 1, Cls::OctDigit);
            Ok((j, OctNumLit { start: i, end: j }))
        } else {
            Err(LexError::new(ErrorKind::NoAlternativeMatched, i))
        }
    }
}

impl DecNumLit {
    /// Parse the maximal nonempty run of decimal digits.
    pub fn parse(input: &Vec<u8>, pos: usize) -> (r: Result<(usize, DecNumLit), LexError>)
        requires
            pos <= input.len(),
        ensures
            agrees(r, sp_dec(input@, pos as int)),
    {
        let i = ws(input, pos);
        let j = scan_from(input, i, Cls::DecDigit);
        if j > i {
            Ok((j, DecNumLit { start: i, end: j }))
        } else {
            Err(LexError::new(ErrorKind::NoAlternativeMatched, i))
        }
    }
}

impl NumLit {
    /// Dispatch on the prefix, in order: `0x` is hex, `0b` is binary, a bare
    /// leading `0` is octal, anything else must be decimal.
    pub fn parse(input: &Vec<u8>, pos: usize) -> (r: Result<(usize, NumLit), LexError>)
        requires
            pos <= input.len(),
        ensures
            agrees(r, sp_numlit(input@, pos as int)),
    {
        let i = ws(input, pos);
        if i < input.len() && input[i] == 48 && i + 1 < input.len() && input[i + 1] == 120 {
            match HexNumLit::parse(input, pos) {
                Ok((e, x)) => Ok((e, NumLit::Hex(x))),
                Err(e) => Err(e),
            }
        } else if i < input.len() && input[i] == 48 && i + 1 < input.len() && input[i + 1] == 98 {
            match BinNumLit::parse(input, pos) {
                Ok((e, x)) => Ok((e, NumLit::Bin(x))),
                Err(e) => Err(e),
            }
        } else if i < input.len() && input[i] == 48 {
            match OctNumLit::parse(input, pos) {
                Ok((e, x)) => Ok((e, NumLit::Oct(x))),
                Err(e) => Err(e),
            }
        } else {
            match DecNumLit::parse(input, pos) {
                Ok((e, x)) => Ok((e, NumLit::Dec(x))),
                Err(e) => Err(e),
            }
        }
    }
}

} // verus!
