use toktree::numlit::NumLit;
use toktree::parse;
use toktree::strlit::StrLit;
use toktree::token::{Token, TokenTree};

fn lex(src: &str) -> TokenTree {
    parse(&src.as_bytes().to_vec()).expect("input should tokenize")
}

fn span<'a>(src: &'a str, start: usize, end: usize) -> &'a str {
    &src[start..end]
}

#[test]
fn decimal_simple() {
    let src = "12345";
    let tt = lex(src);
    assert_eq!(tt.tokens.len(), 1);
    match &tt.tokens[0] {
        Token::NumLit(NumLit::Dec(d)) => assert_eq!(span(src, d.start, d.end), "12345"),
        t => panic!("expected a decimal literal, got {:?}", t),
    }
}

#[test]
fn hex_literal() {
    let src = "0x1A";
    let tt = lex(src);
    assert_eq!(tt.tokens.len(), 1);
    match &tt.tokens[0] {
        Token::NumLit(NumLit::Hex(h)) => assert_eq!(span(src, h.start, h.end), "0x1A"),
        t => panic!("expected a hex literal, got {:?}", t),
    }
}

#[test]
fn bare_hex_prefix_fails() {
    assert!(parse(&b"0x".to_vec()).is_err());
    assert!(NumLit::parse(&b"0x".to_vec(), 0).is_err());
}

#[test]
fn binary_literal() {
    let src = "0b101";
    let tt = lex(src);
    assert_eq!(tt.tokens.len(), 1);
    match &tt.tokens[0] {
        Token::NumLit(NumLit::Bin(b)) => assert_eq!(span(src, b.start, b.end), "0b101"),
        t => panic!("expected a binary literal, got {:?}", t),
    }
}

#[test]
fn bare_binary_prefix_fails() {
    assert!(parse(&b"0b".to_vec()).is_err());
    assert!(NumLit::parse(&b"0b".to_vec(), 0).is_err());
}

#[test]
fn octal_zero_alone() {
    let src = "0";
    let tt = lex(src);
    assert_eq!(tt.tokens.len(), 1);
    match &tt.tokens[0] {
        Token::NumLit(NumLit::Oct(o)) => assert_eq!(span(src, o.start, o.end), "0"),
        t => panic!("expected an octal literal, got {:?}", t),
    }
}

#[test]
fn octal_digits() {
    let src = "017";
    let tt = lex(src);
    assert_eq!(tt.tokens.len(), 1);
    match &tt.tokens[0] {
        Token::NumLit(NumLit::Oct(o)) => assert_eq!(span(src, o.start, o.end), "017"),
        t => panic!("expected an octal literal, got {:?}", t),
    }
}

#[test]
fn octal_stops_before_eight() {
    // "08" is two adjacent tokens: octal "0" then decimal "8"
    let src = "08";
    let tt = lex(src);
    assert_eq!(tt.tokens.len(), 2);
    match &tt.tokens[0] {
        Token::NumLit(NumLit::Oct(o)) => assert_eq!(span(src, o.start, o.end), "0"),
        t => panic!("expected an octal literal, got {:?}", t),
    }
    match &tt.tokens[1] {
        Token::NumLit(NumLit::Dec(d)) => assert_eq!(span(src, d.start, d.end), "8"),
        t => panic!("expected a decimal literal, got {:?}", t),
    }
}

#[test]
fn rune_plain() {
    let src = "'a'";
    let tt = lex(src);
    assert_eq!(tt.tokens.len(), 1);
    match &tt.tokens[0] {
        Token::StrLit(StrLit::Rune(r)) => assert_eq!(span(src, r.start, r.end), "'a'"),
        t => panic!("expected a rune literal, got {:?}", t),
    }
}

#[test]
fn rune_escape_preserved() {
    let src = "'\\n'";
    let tt = lex(src);
    assert_eq!(tt.tokens.len(), 1);
    match &tt.tokens[0] {
        Token::StrLit(StrLit::Rune(r)) => assert_eq!(span(src, r.start, r.end), "'\\n'"),
        t => panic!("expected a rune literal, got {:?}", t),
    }
}

#[test]
fn rune_two_chars_fails() {
    assert!(parse(&b"'ab'".to_vec()).is_err());
}

#[test]
fn string_verbatim() {
    let src = "\"hi\\n\"";
    let tt = lex(src);
    assert_eq!(tt.tokens.len(), 1);
    match &tt.tokens[0] {
        Token::StrLit(StrLit::Str(s)) => assert_eq!(span(src, s.start, s.end), "\"hi\\n\""),
        t => panic!("expected a string literal, got {:?}", t),
    }
}

#[test]
fn raw_verbatim_no_escapes() {
    let src = "`raw \\n text`";
    let tt = lex(src);
    assert_eq!(tt.tokens.len(), 1);
    match &tt.tokens[0] {
        Token::StrLit(StrLit::Raw(r)) => assert_eq!(span(src, r.start, r.end), "`raw \\n text`"),
        t => panic!("expected a raw literal, got {:?}", t),
    }
}

#[test]
fn nested_paren_group() {
    // "(a (b) c)" is one paren group: [Identifier(a), Paren[Identifier(b)], Identifier(c)]
    let src = "(a (b) c)";
    let tt = lex(src);
    assert_eq!(tt.tokens.len(), 1);
    let outer = match &tt.tokens[0] {
        Token::Paren(s) => s,
        t => panic!("expected a paren group, got {:?}", t),
    };
    assert_eq!(outer.l, 0);
    assert_eq!(outer.r, 8);
    let body = &outer.tt.tokens;
    assert_eq!(body.len(), 3);
    match &body[0] {
        Token::Ident(id) => assert_eq!(span(src, id.start, id.end), "a"),
        t => panic!("expected an identifier, got {:?}", t),
    }
    let inner = match &body[1] {
        Token::Paren(s) => s,
        t => panic!("expected a nested paren group, got {:?}", t),
    };
    assert_eq!(inner.tt.tokens.len(), 1);
    match &inner.tt.tokens[0] {
        Token::Ident(id) => assert_eq!(span(src, id.start, id.end), "b"),
        t => panic!("expected an identifier, got {:?}", t),
    }
    match &body[2] {
        Token::Ident(id) => assert_eq!(span(src, id.start, id.end), "c"),
        t => panic!("expected an identifier, got {:?}", t),
    }
}

#[test]
fn brace_and_bracket_groups() {
    let src = "{x [y]}";
    let tt = lex(src);
    assert_eq!(tt.tokens.len(), 1);
    let outer = match &tt.tokens[0] {
        Token::Brace(s) => s,
        t => panic!("expected a brace group, got {:?}", t),
    };
    assert_eq!(outer.tt.tokens.len(), 2);
    match &outer.tt.tokens[1] {
        Token::Brack(s) => assert_eq!(s.tt.tokens.len(), 1),
        t => panic!("expected a bracket group, got {:?}", t),
    }
}

#[test]
fn empty_input_is_empty_tree() {
    assert_eq!(lex("").tokens.len(), 0);
    assert_eq!(lex("  \t\n ").tokens.len(), 0);
}

#[test]
fn identifiers_and_punctuation() {
    let src = "  _foo1 + bar";
    let tt = lex(src);
    assert_eq!(tt.tokens.len(), 3);
    match &tt.tokens[0] {
        Token::Ident(id) => assert_eq!(span(src, id.start, id.end), "_foo1"),
        t => panic!("expected an identifier, got {:?}", t),
    }
    match &tt.tokens[1] {
        Token::Punct(p) => {
            assert_eq!(p.punct, b'+');
            // position before whitespace skipping, byte index of the mark itself
            assert_eq!(p.pos, 7);
            assert_eq!(p.at, 8);
        },
        t => panic!("expected punctuation, got {:?}", t),
    }
    match &tt.tokens[2] {
        Token::Ident(id) => assert_eq!(span(src, id.start, id.end), "bar"),
        t => panic!("expected an identifier, got {:?}", t),
    }
}

#[test]
fn rune_numeric_escapes() {
    for src in ["'\\x41'", "'\\u0041'", "'\\U00000041'", "'\\101'", "'\\\\'", "'\\''"] {
        let tt = lex(src);
        assert_eq!(tt.tokens.len(), 1, "{}", src);
        match &tt.tokens[0] {
            Token::StrLit(StrLit::Rune(r)) => assert_eq!(span(src, r.start, r.end), src),
            t => panic!("expected a rune literal, got {:?}", t),
        }
    }
}

#[test]
fn empty_string_literal() {
    let src = "\"\"";
    let tt = lex(src);
    assert_eq!(tt.tokens.len(), 1);
    match &tt.tokens[0] {
        Token::StrLit(StrLit::Str(s)) => assert_eq!(span(src, s.start, s.end), "\"\""),
        t => panic!("expected a string literal, got {:?}", t),
    }
}
