use toktree::error::{ErrorKind, Label, LexError};
use toktree::parse;

fn lex_err(src: &str) -> LexError {
    parse(&src.as_bytes().to_vec()).expect_err("input should be rejected")
}

#[test]
fn unterminated_string() {
    let e = lex_err("\"hi");
    assert_eq!(e.kind, ErrorKind::UnterminatedConstruct);
    assert_eq!(e.pos, 3);
}

#[test]
fn unterminated_paren_group() {
    let e = lex_err("(a");
    assert_eq!(e.kind, ErrorKind::UnterminatedConstruct);
    assert_eq!(e.pos, 2);
}

#[test]
fn unterminated_rune() {
    let e = lex_err("'ab'");
    assert_eq!(e.kind, ErrorKind::UnterminatedConstruct);
    assert_eq!(e.pos, 2);
}

#[test]
fn unterminated_raw() {
    let e = lex_err("`abc");
    assert_eq!(e.kind, ErrorKind::UnterminatedConstruct);
    assert_eq!(e.pos, 4);
}

#[test]
fn mismatched_closer_is_unterminated() {
    // an open paren closed by a bracket: the required `)` is simply absent
    let e = lex_err("(a]");
    assert_eq!(e.kind, ErrorKind::UnterminatedConstruct);
    assert_eq!(e.pos, 2);
}

#[test]
fn malformed_escape_unknown_code() {
    let e = lex_err("\"a\\q\"");
    assert_eq!(e.kind, ErrorKind::MalformedEscape);
    assert_eq!(e.pos, 2);
}

#[test]
fn malformed_escape_short_hex() {
    let e = lex_err("'\\x4'");
    assert_eq!(e.kind, ErrorKind::MalformedEscape);
    assert_eq!(e.pos, 1);
}

#[test]
fn trailing_input_after_tree() {
    let e = lex_err("a )");
    assert_eq!(e.kind, ErrorKind::TrailingInput);
    assert_eq!(e.pos, 2);
}

#[test]
fn newline_inside_string() {
    let e = lex_err("\"a\nb\"");
    assert_eq!(e.kind, ErrorKind::UnterminatedConstruct);
    assert_eq!(e.pos, 2);
}

#[test]
fn context_chain_innermost_first() {
    let e = lex_err("\"hi");
    let labels: Vec<Label> = e.chain.iter().map(|f| f.label).collect();
    assert_eq!(labels, vec![Label::StringLit, Label::StrLit, Label::Token]);
    assert!(e.chain.iter().all(|f| f.pos == 0));
}

#[test]
fn group_chain_reports_nesting() {
    // the body tree swallows the inner failure; the outer group then misses
    // its closer right at the inner opener
    let e = lex_err("( ( \"x ) )");
    assert_eq!(e.kind, ErrorKind::UnterminatedConstruct);
    assert_eq!(e.pos, 2);
    let labels: Vec<Label> = e.chain.iter().map(|f| f.label).collect();
    assert_eq!(labels, vec![Label::Surrounded, Label::Token]);
    assert!(e.chain.iter().all(|f| f.pos == 0));
}

#[test]
fn no_alternative_from_leaf_parsers() {
    let e = toktree::numlit::NumLit::parse(&b"0x".to_vec(), 0)
        .expect_err("bare 0x should be rejected");
    assert_eq!(e.kind, ErrorKind::NoAlternativeMatched);
    assert_eq!(e.pos, 2);
    let e = toktree::extra::Ident::parse(&b"9".to_vec(), 0)
        .expect_err("a digit does not start an identifier");
    assert_eq!(e.kind, ErrorKind::NoAlternativeMatched);
    assert_eq!(e.pos, 0);
    let e = toktree::strlit::StrLit::parse(&b"x".to_vec(), 0)
        .expect_err("a letter opens no string-like literal");
    assert_eq!(e.kind, ErrorKind::NoAlternativeMatched);
    let labels: Vec<Label> = e.chain.iter().map(|f| f.label).collect();
    assert_eq!(labels, vec![Label::StrLit]);
}

#[test]
fn whitespace_skipper() {
    assert_eq!(toktree::extra::ws(&b"  \t\na".to_vec(), 0), 4);
    assert_eq!(toktree::extra::ws(&b"a".to_vec(), 0), 0);
    assert_eq!(toktree::extra::ws(&b"   ".to_vec(), 1), 3);
}

#[test]
fn no_alternative_direct_token() {
    // '#' is not a group opener, digit, quote, punctuation mark or identifier
    let e = lex_err("#");
    assert_eq!(e.kind, ErrorKind::TrailingInput);
    assert_eq!(e.pos, 0);
}
