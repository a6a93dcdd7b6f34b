//! A lexical tokenizer that turns raw source bytes into a hierarchical token
//! tree: identifiers, punctuation, numeric literals (hex/binary/octal/decimal),
//! string-like literals (rune/string/raw), and paren/brace/bracket groups whose
//! bodies are themselves token trees. Every token records the `(start, end)`
//! byte span it captured in the one immutable input buffer.

pub mod chars;
pub mod error;
pub mod extra;
pub mod laws;
pub mod model;
pub mod numlit;
pub mod strlit;
pub mod token;

use vstd::prelude::*;

use crate::error::{ErrorKind, LexError};
use crate::model::{sp_parse, SErr, TokView};
use crate::token::TokenTree;

verus! {

/// The single entry point: tokenize the whole input.
///
/// On success the returned tree represents the entirety of the input:
/// its tokens, traversed in order with each group's delimiters, exactly
/// partition the non-whitespace content (leading and trailing whitespace is
/// permitted and discarded). On failure nothing is returned but a structured
/// error; there is no partial tree. An unterminated construct or a malformed
/// escape reports itself; text that matches no alternative is trailing
/// input.
pub fn parse(input: &Vec<u8>) -> (r: Result<TokenTree, LexError>)
    ensures
        match r {
            Ok(tt) => sp_parse(input@) == Ok::<Seq<TokView>, SErr>(tt@),
            Err(e) => sp_parse(input@) matches Err(se) && se.kind == e.kind && se.pos == e.pos
                as int,
        },
{
    let (m, tt) = TokenTree::parse(input, 0);
    let j = crate::extra::ws(input, m);
    if j == input.len() {
        Ok(tt)
    } else {
        match crate::token::Token::parse(input, m) {
            Ok(_) => Err(LexError::new(ErrorKind::TrailingInput, j)),
            Err(e) => match e.kind {
                ErrorKind::UnterminatedConstruct => Err(e),
                ErrorKind::MalformedEscape => Err(e),
                _ => Err(LexError::new(ErrorKind::TrailingInput, j)),
            },
        }
    }
}

} // verus!
