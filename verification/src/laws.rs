//! The general laws of the tokenizer, proved once and for all inputs:
//! the partition property (a successful parse tiles the whole input) and the
//! dispatch priority of string-like literals over punctuation.

use vstd::prelude::*;

use crate::chars::{is_punct, is_quote, is_ws, lemma_scan, scan, Cls};
use crate::model::{
    close_byte, group_view, lemma_str_elem_range, lemma_token_range, lemma_tree_range, open_byte,
    sp_group, sp_parse, sp_skip_ws, sp_strlit, sp_token, sp_tree, GroupKind, SErr, TokView,
};

verus! {

/// The captured byte spans of one token, in source order: a leaf contributes
/// its own span, a group its opening delimiter, its body's spans, and its
/// closing delimiter.
pub open spec fn tok_spans(t: TokView) -> Seq<(int, int)>
    decreases t,
{
    match t {
        TokView::Ident { start, end } => seq![(start, end)],
        TokView::Paren { l, body, r } => seq![(l, l + 1)] + tree_spans(body) + seq![(r, r + 1)],
        TokView::Brace { l, body, r } => seq![(l, l + 1)] + tree_spans(body) + seq![(r, r + 1)],
        TokView::Brack { l, body, r } => seq![(l, l + 1)] + tree_spans(body) + seq![(r, r + 1)],
        TokView::Punct { at, .. } => seq![(at, at + 1)],
        TokView::Rune { start, end } => seq![(start, end)],
        TokView::Str { start, end } => seq![(start, end)],
        TokView::Raw { start, end } => seq![(start, end)],
        TokView::Hex { start, end } => seq![(start, end)],
        TokView::Bin { start, end } => seq![(start, end)],
        TokView::Oct { start, end } => seq![(start, end)],
        TokView::Dec { start, end } => seq![(start, end)],
    }
}

/// The captured spans of a token sequence, in order.
pub open spec fn tree_spans(ts: Seq<TokView>) -> Seq<(int, int)>
    decreases ts,
{
    if ts.len() == 0 {
        Seq::empty()
    } else {
        tok_spans(ts[0]) + tree_spans(ts.drop_first())
    }
}

/// Every byte in `[from, to)` is whitespace.
pub open spec fn all_ws(input: Seq<u8>, from: int, to: int) -> bool {
    forall|k: int| from <= k < to ==> is_ws(#[trigger] input[k])
}

/// The spans tile `[from, to)`: they come in order, disjoint, inside the
/// range, and every byte of the range not inside a span is whitespace.
/// Concatenating the spans' texts with the whitespace runs between them
/// therefore reconstructs `input[from..to]` exactly.
pub open spec fn spans_cover(input: Seq<u8>, spans: Seq<(int, int)>, from: int, to: int) -> bool
    decreases spans.len(),
{
    if spans.len() == 0 {
        all_ws(input, from, to)
    } else {
        let (a, b) = spans[0];
        from <= a && all_ws(input, from, a) && a <= b && b <= to && spans_cover(
            input,
            spans.drop_first(),
            b,
            to,
        )
    }
}

/// A single span preceded by whitespace tiles up to its own end.
proof fn lemma_cover_single(input: Seq<u8>, from: int, a: int, b: int)
    requires
        from <= a <= b,
        all_ws(input, from, a),
    ensures
        spans_cover(input, seq![(a, b)], from, b),
{
    assert(seq![(a, b)][0] == (a, b));
    assert(seq![(a, b)].drop_first() =~= Seq::<(int, int)>::empty());
    assert(all_ws(input, b, b));
    assert(spans_cover(input, Seq::<(int, int)>::empty(), b, b));
}

/// A whitespace run can be absorbed on the left of a tiling.
proof fn lemma_cover_extend_left(
    input: Seq<u8>,
    spans: Seq<(int, int)>,
    from: int,
    mid: int,
    to: int,
)
    requires
        from <= mid <= to,
        all_ws(input, from, mid),
        spans_cover(input, spans, mid, to),
    ensures
        spans_cover(input, spans, from, to),
{
}

/// A whitespace run can be absorbed on the right of a tiling.
proof fn lemma_cover_extend_right(
    input: Seq<u8>,
    spans: Seq<(int, int)>,
    from: int,
    mid: int,
    to: int,
)
    requires
        mid <= to,
        all_ws(input, mid, to),
        spans_cover(input, spans, from, mid),
    ensures
        spans_cover(input, spans, from, to),
    decreases spans.len(),
{
    if spans.len() > 0 {
        lemma_cover_extend_right(input, spans.drop_first(), spans[0].1, mid, to);
    }
}

/// Two adjacent tilings concatenate to one tiling.
proof fn lemma_cover_concat(
    input: Seq<u8>,
    s1: Seq<(int, int)>,
    s2: Seq<(int, int)>,
    from: int,
    mid: int,
    to: int,
)
    requires
        from <= mid <= to,
        spans_cover(input, s1, from, mid),
        spans_cover(input, s2, mid, to),
    ensures
        spans_cover(input, s1 + s2, from, to),
    decreases s1.len(),
{
    if s1.len() == 0 {
        assert(s1 + s2 =~= s2);
        lemma_cover_extend_left(input, s2, from, mid, to);
    } else {
        let (a, b) = s1[0];
        lemma_cover_concat(input, s1.drop_first(), s2, b, mid, to);
        assert((s1 + s2)[0] == s1[0]);
        assert((s1 + s2).drop_first() =~= s1.drop_first() + s2);
    }
}

/// A successful token's spans tile exactly the region it consumed.
proof fn lemma_token_partition(input: Seq<u8>, pos: int)
    requires
        0 <= pos <= input.len(),
    ensures
        sp_token(input, pos) matches Ok((end, t)) ==> spans_cover(input, tok_spans(t), pos, end),
    decreases input.len() - pos, 1int,
{
    let i = sp_skip_ws(input, pos);
    lemma_scan(input, pos, Cls::Ws);
    if i < input.len() && (input[i] == 40 || input[i] == 123 || input[i] == 91) {
        lemma_group_partition(input, pos, GroupKind::Paren);
        lemma_group_partition(input, pos, GroupKind::Brace);
        lemma_group_partition(input, pos, GroupKind::Brack);
    } else if i < input.len() && crate::chars::is_digit(input[i]) {
        if i + 1 < input.len() && input[i] == 48 && input[i + 1] == 120 {
            lemma_scan(input, i + 2, Cls::HexDigit);
            if let Ok((end, _)) = sp_token(input, pos) {
                lemma_cover_single(input, pos, i, end);
            }
        } else if i + 1 < input.len() && input[i] == 48 && input[i + 1] == 98 {
            lemma_scan(input, i + 2, Cls::BinDigit);
            if let Ok((end, _)) = sp_token(input, pos) {
                lemma_cover_single(input, pos, i, end);
            }
        } else if input[i] == 48 {
            lemma_scan(input, i + 1, Cls::OctDigit);
            if let Ok((end, _)) = sp_token(input, pos) {
                lemma_cover_single(input, pos, i, end);
            }
        } else {
            lemma_scan(input, i, Cls::DecDigit);
            if let Ok((end, _)) = sp_token(input, pos) {
                lemma_cover_single(input, pos, i, end);
            }
        }
    } else if i < input.len() && is_quote(input[i]) {
        lemma_str_elem_range(input, i + 1, 39);
        crate::model::lemma_str_tail_range(input, i + 1, 34);
        lemma_scan(input, i + 1, Cls::RawBody);
        if let Ok((end, _)) = sp_token(input, pos) {
            lemma_cover_single(input, pos, i, end);
        }
    } else if i < input.len() && is_punct(input[i]) {
        lemma_cover_single(input, pos, i, i + 1);
    } else if i < input.len() && crate::chars::is_ident_start(input[i]) {
        lemma_scan(input, i + 1, Cls::IdentCont);
        lemma_cover_single(input, pos, i, scan(input, i + 1, Cls::IdentCont));
    }
}

/// A successful group's spans (opener, body, closer) tile exactly the region
/// it consumed.
proof fn lemma_group_partition(input: Seq<u8>, pos: int, k: GroupKind)
    requires
        0 <= pos <= input.len(),
    ensures
        sp_group(input, pos, k) matches Ok((end, t)) ==> spans_cover(
            input,
            tok_spans(t),
            pos,
            end,
        ),
    decreases input.len() - pos, 0int,
{
    let i = sp_skip_ws(input, pos);
    lemma_scan(input, pos, Cls::Ws);
    if pos <= i && i < input.len() && input[i] == open_byte(k) {
        let (m, body) = sp_tree(input, i + 1);
        lemma_tree_range(input, i + 1);
        lemma_tree_partition(input, i + 1);
        let j = sp_skip_ws(input, m);
        lemma_scan(input, m, Cls::Ws);
        if j < input.len() && input[j] == close_byte(k) {
            lemma_cover_single(input, pos, i, i + 1);
            lemma_cover_concat(input, seq![(i, i + 1)], tree_spans(body), pos, i + 1, m);
            lemma_cover_single(input, m, j, j + 1);
            lemma_cover_concat(
                input,
                seq![(i, i + 1)] + tree_spans(body),
                seq![(j, j + 1)],
                pos,
                m,
                j + 1,
            );
            assert(tok_spans(group_view(k, i, body, j)) == seq![(i, i + 1)] + tree_spans(body)
                + seq![(j, j + 1)]);
        }
    }
}

/// A token tree's spans tile exactly the region it consumed.
proof fn lemma_tree_partition(input: Seq<u8>, pos: int)
    requires
        0 <= pos <= input.len(),
    ensures
        spans_cover(input, tree_spans(sp_tree(input, pos).1), pos, sp_tree(input, pos).0),
    decreases input.len() - pos, 2int,
{
    match sp_token(input, pos) {
        Ok((end, t)) => {
            lemma_token_range(input, pos);
            if pos < end && end <= input.len() {
                lemma_token_partition(input, pos);
                lemma_tree_partition(input, end);
                lemma_tree_range(input, end);
                let (m, rest) = sp_tree(input, end);
                lemma_cover_concat(input, tok_spans(t), tree_spans(rest), pos, end, m);
                assert((seq![t] + rest)[0] == t);
                assert((seq![t] + rest).drop_first() =~= rest);
                assert(tree_spans(seq![t] + rest) == tok_spans(t) + tree_spans(rest));
            }
        },
        Err(_) => {
            assert(all_ws(input, pos, pos));
        },
    }
}

/// Partition law: for any input the tokenizer accepts, the captured spans of
/// every token and delimiter, in source order, tile the entire input, and
/// every byte outside them is whitespace. Concatenating, in order, every
/// captured text together with the whitespace runs between them therefore
/// reconstructs the original input exactly.
pub proof fn lemma_partition(input: Seq<u8>, toks: Seq<TokView>)
    requires
        sp_parse(input) == Ok::<Seq<TokView>, SErr>(toks),
    ensures
        spans_cover(input, tree_spans(toks), 0, input.len() as int),
{
    lemma_tree_partition(input, 0);
    lemma_tree_range(input, 0);
    let (m, _) = sp_tree(input, 0);
    lemma_scan(input, m, Cls::Ws);
    lemma_cover_extend_right(
        input,
        tree_spans(toks),
        0,
        m,
        sp_skip_ws(input, m),
    );
}

/// Every group of the token, recursively, points its delimiter positions at
/// its own fixed pair of bytes: `(`...`)` for a paren group, `{`...`}` for a
/// brace group, `[`...`]` for a bracket group.
pub open spec fn delims_ok(input: Seq<u8>, t: TokView) -> bool
    decreases t,
{
    match t {
        TokView::Paren { l, body, r } => 0 <= l < input.len() && input[l] == 40 && 0 <= r
            < input.len() && input[r] == 41 && tree_delims_ok(input, body),
        TokView::Brace { l, body, r } => 0 <= l < input.len() && input[l] == 123 && 0 <= r
            < input.len() && input[r] == 125 && tree_delims_ok(input, body),
        TokView::Brack { l, body, r } => 0 <= l < input.len() && input[l] == 91 && 0 <= r
            < input.len() && input[r] == 93 && tree_delims_ok(input, body),
        _ => true,
    }
}

/// `delims_ok` for every token of a sequence.
pub open spec fn tree_delims_ok(input: Seq<u8>, ts: Seq<TokView>) -> bool
    decreases ts,
{
    ts.len() == 0 || (delims_ok(input, ts[0]) && tree_delims_ok(input, ts.drop_first()))
}

/// A successful token pairs all its delimiters correctly.
proof fn lemma_token_delims(input: Seq<u8>, pos: int)
    requires
        0 <= pos <= input.len(),
    ensures
        sp_token(input, pos) matches Ok((end, t)) ==> delims_ok(input, t),
    decreases input.len() - pos, 1int,
{
    lemma_group_delims(input, pos, GroupKind::Paren);
    lemma_group_delims(input, pos, GroupKind::Brace);
    lemma_group_delims(input, pos, GroupKind::Brack);
}

/// A successful group pairs its own delimiters and those of its body.
proof fn lemma_group_delims(input: Seq<u8>, pos: int, k: GroupKind)
    requires
        0 <= pos <= input.len(),
    ensures
        sp_group(input, pos, k) matches Ok((end, t)) ==> delims_ok(input, t),
    decreases input.len() - pos, 0int,
{
    let i = sp_skip_ws(input, pos);
    lemma_scan(input, pos, Cls::Ws);
    if pos <= i && i < input.len() && input[i] == open_byte(k) {
        lemma_tree_range(input, i + 1);
        lemma_tree_delims(input, i + 1);
        let (m, body) = sp_tree(input, i + 1);
        let j = sp_skip_ws(input, m);
        lemma_scan(input, m, Cls::Ws);
        if j < input.len() && input[j] == close_byte(k) {
            match k {
                GroupKind::Paren => assert(delims_ok(input, group_view(k, i, body, j))),
                GroupKind::Brace => assert(delims_ok(input, group_view(k, i, body, j))),
                GroupKind::Brack => assert(delims_ok(input, group_view(k, i, body, j))),
            }
        }
    }
}

/// Every token of a tree pairs all its delimiters correctly.
proof fn lemma_tree_delims(input: Seq<u8>, pos: int)
    requires
        0 <= pos <= input.len(),
    ensures
        tree_delims_ok(input, sp_tree(input, pos).1),
    decreases input.len() - pos, 2int,
{
    match sp_token(input, pos) {
        Ok((end, t)) => {
            lemma_token_range(input, pos);
            if pos < end && end <= input.len() {
                lemma_token_delims(input, pos);
                lemma_tree_delims(input, end);
                let (m, rest) = sp_tree(input, end);
                assert((seq![t] + rest)[0] == t);
                assert((seq![t] + rest).drop_first() =~= rest);
            }
        },
        Err(_) => {},
    }
}

/// Pairing law: in any accepted input, every group's recorded delimiter
/// positions point at that group kind's own fixed opening and closing bytes
/// — a paren group can only ever be closed by `)`, and so on all the way
/// down the tree.
pub proof fn lemma_delimiters(input: Seq<u8>, toks: Seq<TokView>)
    requires
        sp_parse(input) == Ok::<Seq<TokView>, SErr>(toks),
    ensures
        tree_delims_ok(input, toks),
{
    lemma_tree_delims(input, 0);
}

/// Priority law: an input whose next significant byte is `'`, `"` or a
/// backtick is always routed to the string-like branch — such a byte is never
/// punctuation (the two sets are disjoint), and any token produced there is a
/// rune, string or raw literal.
pub proof fn lemma_string_priority(input: Seq<u8>, pos: int)
    requires
        0 <= pos <= input.len(),
        sp_skip_ws(input, pos) < input.len(),
        is_quote(input[sp_skip_ws(input, pos)]),
    ensures
        !is_punct(input[sp_skip_ws(input, pos)]),
        sp_token(input, pos) == sp_strlit(input, pos),
        sp_token(input, pos) matches Ok((end, t)) ==> (t matches TokView::Rune { .. }
            || t matches TokView::Str { .. } || t matches TokView::Raw { .. }),
{
}

} // verus!
