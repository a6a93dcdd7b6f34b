use toktree::numlit::NumLit;
use toktree::parse;
use toktree::strlit::StrLit;
use toktree::token::Token;

fn collect_spans(tokens: &[Token], out: &mut Vec<(usize, usize)>) {
    for t in tokens {
        match t {
            Token::Ident(x) => out.push((x.start, x.end)),
            Token::Paren(s) | Token::Brace(s) | Token::Brack(s) => {
                out.push((s.l, s.l + 1));
                collect_spans(&s.tt.tokens, out);
                out.push((s.r, s.r + 1));
            },
            Token::Punct(p) => out.push((p.at, p.at + 1)),
            Token::StrLit(StrLit::Rune(x)) => out.push((x.start, x.end)),
            Token::StrLit(StrLit::Str(x)) => out.push((x.start, x.end)),
            Token::StrLit(StrLit::Raw(x)) => out.push((x.start, x.end)),
            Token::NumLit(NumLit::Hex(x)) => out.push((x.start, x.end)),
            Token::NumLit(NumLit::Bin(x)) => out.push((x.start, x.end)),
            Token::NumLit(NumLit::Oct(x)) => out.push((x.start, x.end)),
            Token::NumLit(NumLit::Dec(x)) => out.push((x.start, x.end)),
        }
    }
}

/// Concatenating, in order, every captured span plus the whitespace runs
/// between them must reconstruct the input exactly.
fn check_partition(src: &str) {
    let tt = parse(&src.as_bytes().to_vec()).expect("input should tokenize");
    let mut spans = Vec::new();
    collect_spans(&tt.tokens, &mut spans);
    let mut rebuilt = String::new();
    let mut cursor = 0usize;
    for (a, b) in spans {
        assert!(cursor <= a && a <= b && b <= src.len(), "spans out of order in {:?}", src);
        let gap = &src[cursor..a];
        assert!(gap.chars().all(|c| c == ' ' || c == '\t' || c == '\n' || c == '\r'),
            "non-whitespace gap {:?} in {:?}", gap, src);
        rebuilt.push_str(gap);
        rebuilt.push_str(&src[a..b]);
        cursor = b;
    }
    let tail = &src[cursor..];
    assert!(tail.chars().all(|c| c == ' ' || c == '\t' || c == '\n' || c == '\r'),
        "non-whitespace tail {:?} in {:?}", tail, src);
    rebuilt.push_str(tail);
    assert_eq!(rebuilt, src);
}

#[test]
fn partition_reconstructs_input() {
    check_partition("(a (b) c)");
    check_partition("  {x [y 0x1F]} `raw` \"s\\t\" '\\u0041' 017 08 a+b ; \n");
    check_partition("");
    check_partition("   ");
    check_partition("deeply (nested (groups (here (work))))");
}

#[test]
fn quote_bytes_route_to_string_branch() {
    // a leading ', " or backtick always reaches the string-like branch,
    // never punctuation
    for src in ["'a'", "\"a\"", "`a`"] {
        let tt = parse(&src.as_bytes().to_vec()).expect("input should tokenize");
        assert_eq!(tt.tokens.len(), 1);
        assert!(matches!(tt.tokens[0], Token::StrLit(_)), "misrouted {:?}", src);
    }
    // even when the literal is bad, the failure is the string branch's, not
    // a stray punctuation token
    for src in ["'", "\"", "`"] {
        assert!(parse(&src.as_bytes().to_vec()).is_err(), "misrouted {:?}", src);
    }
}

fn check_delims(tokens: &[Token], src: &str) {
    for t in tokens {
        match t {
            Token::Paren(s) => {
                assert_eq!(&src[s.l..s.l + 1], "(");
                assert_eq!(&src[s.r..s.r + 1], ")");
                check_delims(&s.tt.tokens, src);
            },
            Token::Brace(s) => {
                assert_eq!(&src[s.l..s.l + 1], "{");
                assert_eq!(&src[s.r..s.r + 1], "}");
                check_delims(&s.tt.tokens, src);
            },
            Token::Brack(s) => {
                assert_eq!(&src[s.l..s.l + 1], "[");
                assert_eq!(&src[s.r..s.r + 1], "]");
                check_delims(&s.tt.tokens, src);
            },
            _ => {},
        }
    }
}

#[test]
fn delimiters_pair_their_own_kind() {
    let src = "( { [ a ] 1 } ' ' ) [x](y){z}";
    let tt = parse(&src.as_bytes().to_vec()).expect("input should tokenize");
    check_delims(&tt.tokens, src);
}

#[test]
fn octal_then_nine() {
    let src = "09";
    let tt = parse(&src.as_bytes().to_vec()).expect("input should tokenize");
    assert_eq!(tt.tokens.len(), 2);
    check_partition(src);
}
