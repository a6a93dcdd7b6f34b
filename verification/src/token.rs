//! Token dispatch, delimiter groups, and the token tree: the recursive unit
//! of the grammar. A group's body is a full token tree, so the executable
//! types and their views are recursive.

use vstd::prelude::*;

use crate::chars::{byte_in_cls, punct_byte, quote_byte, Cls};
use crate::error::{ErrorKind, Label, LexError};
use crate::extra::{ws, Ident, Punct};
use crate::model::{
    agrees, close_byte, group_view, lemma_token_range, open_byte, sp_group, sp_token, sp_tree,
    GroupKind, TokView,
};
use crate::numlit::NumLit;
use crate::strlit::StrLit;

verus! {

broadcast use vstd::std_specs::vec::group_vec_axioms;

/// The opening delimiter byte of a group kind.
pub fn open_of(k: GroupKind) -> (r: u8)
    ensures
        r == open_byte(k),
{
    match k {
        GroupKind::Paren => 40,
        GroupKind::Brace => 123,
        GroupKind::Brack => 91,
    }
}

/// The closing delimiter byte of a group kind.
pub fn close_of(k: GroupKind) -> (r: u8)
    ensures
        r == close_byte(k),
{
    match k {
        GroupKind::Paren => 41,
        GroupKind::Brace => 125,
        GroupKind::Brack => 93,
    }
}

/// One token: exactly one variant is produced per successful parse.
#[derive(Debug)]
pub enum Token {
    Ident(Ident),
    Paren(Surrounded),
    Brace(Surrounded),
    Brack(Surrounded),
    Punct(Punct),
    StrLit(StrLit),
    NumLit(NumLit),
}

/// A delimiter group: the opening delimiter position, the nested token tree,
/// and the closing delimiter position. The two delimiter bytes are fixed by
/// `kind`: an opener can only ever be closed by its own partner.
#[derive(Debug)]
pub struct Surrounded {
    pub kind: GroupKind,
    pub l: usize,
    pub tt: TokenTree,
    pub r: usize,
}

/// An ordered sequence of tokens, insertion order = source order.
#[derive(Debug)]
pub struct TokenTree {
    pub tokens: Vec<Token>,
}

/// The abstract value of one token.
pub open spec fn tok_view(t: Token) -> TokView
    decreases t,
{
    match t {
        Token::Ident(x) => x@,
        Token::Paren(s) => surrounded_view(s),
        Token::Brace(s) => surrounded_view(s),
        Token::Brack(s) => surrounded_view(s),
        Token::Punct(x) => x@,
        Token::StrLit(x) => x@,
        Token::NumLit(x) => x@,
    }
}

/// The abstract value of a group: its kind's view with the abstract body.
pub open spec fn surrounded_view(s: Surrounded) -> TokView
    decreases s,
{
    group_view(s.kind, s.l as int, views_of(s.tt.tokens@), s.r as int)
}

/// The abstract values of a token sequence, in order.
pub open spec fn views_of(ts: Seq<Token>) -> Seq<TokView>
    decreases ts,
{
    if ts.len() == 0 {
        Seq::empty()
    } else {
        seq![tok_view(ts[0])] + views_of(ts.drop_first())
    }
}

impl View for Token {
    type V = TokView;

    open spec fn view(&self) -> TokView {
        tok_view(*self)
    }
}

impl View for Surrounded {
    type V = TokView;

    open spec fn view(&self) -> TokView {
        surrounded_view(*self)
    }
}

impl View for TokenTree {
    type V = Seq<TokView>;

    open spec fn view(&self) -> Seq<TokView> {
        views_of(self.tokens@)
    }
}

/// Appending a token appends its view.
proof fn lemma_views_of_push(ts: Seq<Token>, t: Token)
    ensures
        views_of(ts.push(t)) == views_of(ts).push(tok_view(t)),
    decreases ts.len(),
{
    if ts.len() == 0 {
        assert(ts.push(t)[0] == t);
        assert(ts.push(t).drop_first() =~= Seq::<Token>::empty());
        assert(views_of(ts.push(t)) == seq![tok_view(ts.push(t)[0])] + views_of(
            ts.push(t).drop_first(),
        ));
        assert(views_of(ts.push(t).drop_first()) == Seq::<TokView>::empty());
        assert(views_of(ts) == Seq::<TokView>::empty());
        assert(views_of(ts.push(t)) =~= views_of(ts).push(tok_view(t)));
    } else {
        lemma_views_of_push(ts.drop_first(), t);
        assert(ts.push(t)[0] == ts[0]);
        assert(ts.push(t).drop_first() =~= ts.drop_first().push(t));
        assert((seq![tok_view(ts[0])] + views_of(ts.drop_first())).push(tok_view(t)) =~= seq![
            tok_view(ts[0]),
        ] + views_of(ts.drop_first()).push(tok_view(t)));
        assert(views_of(ts.push(t)) =~= views_of(ts).push(tok_view(t)));
    }
}

impl Token {
    /// Parse one token, dispatching on the next significant byte in strict
    /// priority: group openers first, then digits, then string-like
    /// delimiters, then punctuation, with identifier as the fallback.
    pub fn parse(input: &Vec<u8>, pos: usize) -> (r: Result<(usize, Token), LexError>)
        requires
            pos <= input.len(),
        ensures
            agrees(r, sp_token(input@, pos as int)),
        decreases input.len() - pos, 1int,
    {
        let i = ws(input, pos);
        if i < input.len() && input[i] == 40 {
            match Surrounded::parse(input, pos, GroupKind::Paren) {
                Ok((e, s)) => Ok((e, Token::Paren(s))),
                Err(e) => Err(e.within(Label::Token, pos)),
            }
        } else if i < input.len() && input[i] == 123 {
            match Surrounded::parse(input, pos, GroupKind::Brace) {
                Ok((e, s)) => Ok((e, Token::Brace(s))),
                Err(e) => Err(e.within(Label::Token, pos)),
            }
        } else if i < input.len() && input[i] == 91 {
            match Surrounded::parse(input, pos, GroupKind::Brack) {
                Ok((e, s)) => Ok((e, Token::Brack(s))),
                Err(e) => Err(e.within(Label::Token, pos)),
            }
        } else if i < input.len() && byte_in_cls(Cls::DecDigit, input[i]) {
            match NumLit::parse(input, pos) {
                Ok((e, x)) => Ok((e, Token::NumLit(x))),
                Err(e) => Err(e.within(Label::Token, pos)),
            }
        } else if i < input.len() && quote_byte(input[i]) {
            match StrLit::parse(input, pos) {
                Ok((e, x)) => Ok((e, Token::StrLit(x))),
                Err(e) => Err(e.within(Label::Token, pos)),
            }
        } else if i < input.len() && punct_byte(input[i]) {
            match Punct::parse(input, pos) {
                Ok((e, x)) => Ok((e, Token::Punct(x))),
                Err(e) => Err(e.within(Label::Token, pos)),
            }
        } else {
            match Ident::parse(input, pos) {
                Ok((e, x)) => Ok((e, Token::Ident(x))),
                Err(e) => Err(e.within(Label::Token, pos)),
            }
        }
    }
}

impl Surrounded {
    /// Parse the fixed opening delimiter of `kind`, a full token tree as the
    /// group body, and the fixed closing delimiter.
    pub fn parse(input: &Vec<u8>, pos: usize, kind: GroupKind) -> (r: Result<
        (usize, Surrounded),
        LexError,
    >)
        requires
            pos <= input.len(),
        ensures
            agrees(r, sp_group(input@, pos as int, kind)),
        decreases input.len() - pos, 0int,
    {
        let i = ws(input, pos);
        if i < input.len() && input[i] == open_of(kind) {
            let (m, tt) = TokenTree::parse(input, i + 1);
            let j = ws(input, m);
            if j < input.len() && input[j] == close_of(kind) {
                Ok((j + 1, Surrounded { kind, l: i, tt, r: j }))
            } else {
                Err(LexError::new(ErrorKind::UnterminatedConstruct, j)
                    .within(Label::Surrounded, pos))
            }
        } else {
            Err(LexError::new(ErrorKind::NoAlternativeMatched, i).within(Label::Surrounded, pos))
        }
    }
}

impl TokenTree {
    /// Parse as many tokens as will match, in source order; never fails.
    /// Returns the position just past the last token (trailing whitespace
    /// not consumed) and the tree.
    pub fn parse(input: &Vec<u8>, pos: usize) -> (r: (usize, TokenTree))
        requires
            pos <= input.len(),
        ensures
            pos <= r.0 <= input.len(),
            r.0 as int == sp_tree(input@, pos as int).0,
            r.1@ == sp_tree(input@, pos as int).1,
        decreases input.len() - pos, 2int,
    {
        let mut cur = pos;
        let mut tokens: Vec<Token> = Vec::new();
        loop
            invariant
                pos <= cur <= input.len(),
                sp_tree(input@, pos as int).0 == sp_tree(input@, cur as int).0,
                sp_tree(input@, pos as int).1 == views_of(tokens@) + sp_tree(
                    input@,
                    cur as int,
                ).1,
            ensures
                pos <= cur <= input.len(),
                cur as int == sp_tree(input@, pos as int).0,
                views_of(tokens@) == sp_tree(input@, pos as int).1,
            decreases input.len() - cur,
        {
            match Token::parse(input, cur) {
                Ok((end, t)) => {
                    proof {
                        lemma_token_range(input@, cur as int);
                        lemma_views_of_push(tokens@, t);
                        assert(views_of(tokens@.push(t)) + sp_tree(input@, end as int).1
                            =~= views_of(tokens@) + sp_tree(input@, cur as int).1);
                    }
                    tokens.push(t);
                    cur = end;
                },
                Err(_) => {
                    proof {
                        assert(views_of(tokens@) + sp_tree(input@, cur as int).1 =~= views_of(
                            tokens@,
                        ));
                    }
                    break;
                },
            }
        }
        (cur, TokenTree { tokens })
    }
}

} // verus!
