//! Structured parse failures: an error kind, the innermost offending byte
//! offset, and an ordered chain of enclosing construct labels (innermost
//! first) built up as the failure propagates outward.

use vstd::prelude::*;

verus! {

/// Why a parse failed.
#[derive(Clone, Copy, Debug, PartialEq, Eq, Structural)]
pub enum ErrorKind {
    /// A literal or group was opened but its closing delimiter never came.
    UnterminatedConstruct,
    /// No alternative of the grammar accepts the current position.
    NoAlternativeMatched,
    /// An escape sequence has the wrong digit count or an unknown escape
    /// character.
    MalformedEscape,
    /// Input remained after the top-level token tree was parsed.
    TrailingInput,
}

/// The construct that was being parsed when a failure passed through it.
#[derive(Clone, Copy, Debug, PartialEq, Eq, Structural)]
pub enum Label {
    Token,
    Surrounded,
    StrLit,
    RuneLit,
    StringLit,
    RawLit,
}

/// One frame of the context chain: a construct label and the position at
/// which that construct started.
#[derive(Clone, Copy, Debug, PartialEq, Eq, Structural)]
pub struct Frame {
    pub label: Label,
    pub pos: usize,
}

/// A parse failure: its kind, the innermost position, and the chain of
/// enclosing constructs, innermost first.
#[derive(Debug)]
pub struct LexError {
    pub kind: ErrorKind,
    pub pos: usize,
    pub chain: Vec<Frame>,
}

impl LexError {
    /// A fresh failure with an empty context chain.
    pub fn new(kind: ErrorKind, pos: usize) -> (r: LexError)
        ensures
            r.kind == kind,
            r.pos == pos,
            r.chain@ =~= Seq::<Frame>::empty(),
    {
        LexError { kind, pos, chain: Vec::new() }
    }

    /// Record that the failure passed through the construct `label`, which
    /// started at `pos`. Appending keeps the chain ordered innermost first.
    pub fn within(self, label: Label, pos: usize) -> (r: LexError)
        ensures
            r.kind == self.kind,
            r.pos == self.pos,
            r.chain@ == self.chain@.push(Frame { label, pos }),
    {
        let mut e = self;
        e.chain.push(Frame { label, pos });
        e
    }
}

} // verus!
