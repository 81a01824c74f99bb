//! What parsing promises about where things stand in the source: every
//! element's spans lie in the source, in order, and a line comment starts and
//! ends on character boundaries.
use vstd::prelude::*;

use crate::ast::{CommandModel, ElemModel};
use crate::layout::elem_fits;
use crate::parse::{kind_at, kind_of, parse_args, parse_command, parse_elems, skip_spaces, spec_parse, Tok};
use crate::token::{line_end_from, scan, token_seq, tokens_from, Token};
use crate::print_items::{max_end, max_ends, no_empty_group, no_empty_groups, ordered, range_of};

verus! {

/// Each token is what scanning from its start gives.
proof fn lemma_tokens_scan(s: Seq<u8>, pos: int)
    requires
        0 <= pos <= s.len(),
    ensures
        forall|i: int| 0 <= i < tokens_from(s, pos).len() ==> (#[trigger] tokens_from(s, pos)[i]).0 == scan(s, tokens_from(s, pos)[i].1).0
            && tokens_from(s, pos)[i].2 == scan(s, tokens_from(s, pos)[i].1).1,
    decreases s.len() - pos,
{
    if pos < s.len() {
        crate::token::lemma_scan_progress(s, pos);
        let r = scan(s, pos);
        lemma_tokens_scan(s, r.1);
        let rest = tokens_from(s, r.1);
        let t = tokens_from(s, pos);
        assert(t == seq![(r.0, pos, r.1)] + rest);
        assert forall|i: int| 0 <= i < t.len() implies (#[trigger] t[i]).0 == scan(s, t[i].1).0 && t[i].2 == scan(s, t[i].1).1 by {
            if i > 0 {
                assert(t[i] == rest[i - 1]);
            }
        }
    }
}

/// Tokens further on start and end further on.
proof fn lemma_tokens_order(s: Seq<u8>, i: int, j: int)
    requires
        0 <= i <= j < tokens_from(s, 0).len(),
    ensures
        tokens_from(s, 0)[i].1 <= tokens_from(s, 0)[j].1,
        tokens_from(s, 0)[i].2 <= tokens_from(s, 0)[j].2,
    decreases j - i,
{
    crate::token::lemma_tokens_tile(s, 0);
    if i < j {
        lemma_tokens_order(s, i, j - 1);
        let t = tokens_from(s, 0);
        assert(t[j - 1].2 == t[j].1);
    }
}

/// A line comment token starts at `#` and ends at a newline or the end.
proof fn lemma_line_comment_token(s: Seq<u8>, pos: int)
    requires
        0 <= pos < s.len(),
        scan(s, pos).0 == Ok::<Token, ()>(Token::LineComment),
    ensures
        s[pos] == 35u8,
        scan(s, pos).1 == s.len() || (scan(s, pos).1 < s.len() && s[scan(s, pos).1] == 10u8),
{
    crate::token::lemma_line_end_from(s, pos + 1);
    lemma_line_end_nl(s, pos + 1);
}

proof fn lemma_line_end_nl(s: Seq<u8>, i: int)
    requires
        0 <= i <= s.len(),
    ensures
        line_end_from(s, i) == s.len() || (line_end_from(s, i) < s.len() && s[line_end_from(s, i)] == 10u8),
    decreases s.len() - i,
{
    if i < s.len() && s[i] != 10u8 {
        lemma_line_end_nl(s, i + 1);
    }
}

/// The facts about the token stream that the parse law rests on.
pub open spec fn tokens_ok(s: Seq<u8>, toks: Seq<Tok>) -> bool {
    &&& forall|i: int| 0 <= i < toks.len() ==> #[trigger] toks[i].1 < toks[i].2 <= s.len()
    &&& forall|i: int, j: int| 0 <= i <= j < toks.len() ==> #[trigger] toks[i].1 <= #[trigger] toks[j].1
    &&& forall|i: int| 0 <= i < toks.len() && kind_of(#[trigger] toks[i]) == Token::LineComment ==> crate::text::bnd(s, toks[i].1 as int) && crate::text::bnd(s, toks[i].2 as int)
    &&& forall|i: int| 0 <= i < toks.len() && kind_of(#[trigger] toks[i]) == Token::LParen ==> toks[i].2 == toks[i].1 + 1 && s[toks[i].1 as int] == 40u8
    &&& forall|i: int| 0 <= i < toks.len() && kind_of(#[trigger] toks[i]) == Token::RParen ==> toks[i].2 == toks[i].1 + 1 && s[toks[i].1 as int] == 41u8
}

proof fn lemma_token_seq_ok(s: Seq<u8>)
    requires
        s.len() < usize::MAX,
    ensures
        tokens_ok(s, token_seq(s)),
{
    let t = tokens_from(s, 0);
    let toks = token_seq(s);
    crate::token::lemma_tokens_tile(s, 0);
    lemma_tokens_scan(s, 0);
    assert forall|i: int| 0 <= i < toks.len() implies #[trigger] toks[i].1 < toks[i].2 <= s.len() by {
        assert(toks[i].1 as int == t[i].1 && toks[i].2 as int == t[i].2);
    }
    assert forall|i: int, j: int| 0 <= i <= j < toks.len() implies #[trigger] toks[i].1 <= #[trigger] toks[j].1 by {
        lemma_tokens_order(s, i, j);
    }
    assert forall|i: int| 0 <= i < toks.len() && kind_of(#[trigger] toks[i]) == Token::LineComment implies crate::text::bnd(s, toks[i].1 as int) && crate::text::bnd(s, toks[i].2 as int) by {
        assert(toks[i].0 == t[i].0);
        assert(t[i].0 == Ok::<Token, ()>(Token::LineComment));
        lemma_line_comment_token(s, t[i].1);
    }
    assert forall|i: int| 0 <= i < toks.len() && kind_of(#[trigger] toks[i]) == Token::LParen implies toks[i].2 == toks[i].1 + 1 && s[toks[i].1 as int] == 40u8 by {
        assert(toks[i].0 == t[i].0);
        assert(toks[i].1 as int == t[i].1 && toks[i].2 as int == t[i].2);
        assert(t[i].0 == scan(s, t[i].1).0 && t[i].2 == scan(s, t[i].1).1);
    }
    assert forall|i: int| 0 <= i < toks.len() && kind_of(#[trigger] toks[i]) == Token::RParen implies toks[i].2 == toks[i].1 + 1 && s[toks[i].1 as int] == 41u8 by {
        assert(toks[i].0 == t[i].0);
        assert(toks[i].1 as int == t[i].1 && toks[i].2 as int == t[i].2);
        assert(t[i].0 == scan(s, t[i].1).0 && t[i].2 == scan(s, t[i].1).1);
    }
}

proof fn lemma_skip_spaces(toks: Seq<Tok>, p: int)
    requires
        0 <= p,
    ensures
        p <= skip_spaces(toks, p),
    decreases toks.len() - p,
{
    if 0 <= p < toks.len() && kind_of(toks[p]) == Token::Space {
        lemma_skip_spaces(toks, p + 1);
    }
}

proof fn lemma_parse_args_mono(s: Seq<u8>, toks: Seq<Tok>, p: int, acc: Seq<crate::ast::ArgModel>)
    requires
        0 <= p,
    ensures
        parse_args(s, toks, p, acc) matches Ok(r) ==> p <= r.1,
    decreases toks.len() - p,
{
    if 0 <= p < toks.len() {
        let k = kind_of(toks[p]);
        if k == Token::Space || k == Token::Newline {
            lemma_parse_args_mono(s, toks, p + 1, acc);
        } else if k == Token::RParen {
        } else if k == Token::LineComment {
            lemma_parse_args_mono(s, toks, p + 1, acc.push(crate::ast::ArgModel::LineComment(crate::parse::span_at(toks, p))));
        } else if k == Token::LParen {
            lemma_parse_args_mono(s, toks, p + 1, Seq::empty());
            match parse_args(s, toks, p + 1, Seq::empty()) {
                Err(_) => {},
                Ok(inner) => {
                    let r = inner.1;
                    if p < r < toks.len() && kind_of(toks[r]) == Token::RParen {
                        lemma_parse_args_mono(s, toks, r + 1, acc.push(crate::ast::ArgModel::Group(inner.0)));
                    }
                },
            }
        } else if k == Token::BracketArgument {
            lemma_parse_args_mono(s, toks, p + 1, acc.push(crate::ast::ArgModel::Bracket(crate::parse::span_at(toks, p))));
        } else if k == Token::QuotedArgument {
            lemma_parse_args_mono(s, toks, p + 1, acc.push(crate::ast::ArgModel::Quoted(crate::parse::span_at(toks, p))));
        } else if k == Token::BracketComment {
            lemma_parse_args_mono(s, toks, p + 1, acc.push(crate::ast::ArgModel::BracketComment(crate::parse::span_at(toks, p))));
        } else {
            let m = crate::parse::merge_end(toks, p + 1, toks[p].2);
            if p < m.0 <= toks.len() {
                lemma_parse_args_mono(s, toks, m.0, acc.push(crate::ast::ArgModel::Unquoted(crate::ast::Span { start: toks[p].1, end: m.1 })));
            }
        }
    }
}

proof fn lemma_command_fits(s: Seq<u8>, toks: Seq<Tok>, p: int)
    requires
        tokens_ok(s, toks),
        0 <= p < toks.len(),
    ensures
        parse_command(s, toks, p) matches Ok(res) ==> elem_fits(ElemModel::Command(res.0), s),
{
    let q = skip_spaces(toks, p + 1);
    lemma_skip_spaces(toks, p + 1);
    if kind_at(toks, q) == Some(Token::LParen) {
        lemma_parse_args_mono(s, toks, q + 1, Seq::empty());
        match parse_args(s, toks, q + 1, Seq::empty()) {
            Err(_) => {},
            Ok(res) => {
                let r = res.1;
                if kind_at(toks, r) == Some(Token::RParen) {
                    assert(toks[p].1 < toks[p].2 <= s.len());
                    assert(toks[r].1 < toks[r].2 <= s.len());
                    assert(toks[p].1 <= toks[r].1);
                }
            },
        }
    }
}

proof fn lemma_elems_fit(s: Seq<u8>, toks: Seq<Tok>, p: int, acc: Seq<ElemModel>)
    requires
        tokens_ok(s, toks),
        0 <= p,
        forall|k: int| 0 <= k < acc.len() ==> elem_fits(#[trigger] acc[k], s),
    ensures
        parse_elems(s, toks, p, acc) matches Ok(m) ==> forall|k: int| 0 <= k < m.len() ==> elem_fits(#[trigger] m[k], s),
    decreases toks.len() - p,
{
    if 0 <= p < toks.len() {
        let k = kind_of(toks[p]);
        if k == Token::Space {
            lemma_elems_fit(s, toks, p + 1, acc);
        } else if k == Token::Newline {
            let a = acc.push(ElemModel::BlankLine);
            assert forall|j: int| 0 <= j < a.len() implies elem_fits(#[trigger] a[j], s) by {
                if j < acc.len() {
                    assert(a[j] == acc[j]);
                }
            }
            lemma_elems_fit(s, toks, p + 1, a);
        } else if k == Token::BracketComment || k == Token::LineComment {
            let e = if k == Token::BracketComment {
                ElemModel::BracketComment(crate::parse::span_at(toks, p))
            } else {
                ElemModel::LineComment(crate::parse::span_at(toks, p))
            };
            let q = if kind_at(toks, p + 1) == Some(Token::Newline) { p + 2 } else { p + 1 };
            let a = acc.push(e);
            assert(toks[p].1 < toks[p].2 <= s.len());
            assert forall|j: int| 0 <= j < a.len() implies elem_fits(#[trigger] a[j], s) by {
                if j < acc.len() {
                    assert(a[j] == acc[j]);
                }
            }
            lemma_elems_fit(s, toks, q, a);
        } else if k == Token::UnquotedText {
            lemma_command_fits(s, toks, p);
            match parse_command(s, toks, p) {
                Err(_) => {},
                Ok(res) => {
                    if p < res.1 <= toks.len() {
                        let a = acc.push(ElemModel::Command(res.0));
                        assert forall|j: int| 0 <= j < a.len() implies elem_fits(#[trigger] a[j], s) by {
                            if j < acc.len() {
                                assert(a[j] == acc[j]);
                            }
                        }
                        lemma_elems_fit(s, toks, res.1, a);
                    }
                },
            }
        }
    }
}

/// Every element that parsing gives lies in the source: a command's name and
/// closing parenthesis within it and in order, a comment's span within it,
/// and a line comment's span on character boundaries.
pub proof fn law_parsed_elements_fit(s: Seq<u8>)
    requires
        s.len() < usize::MAX,
    ensures
        spec_parse(s) matches Ok(m) ==> forall|k: int| 0 <= k < m.len() ==> elem_fits(#[trigger] m[k], s),
{
    lemma_token_seq_ok(s);
    lemma_elems_fit(s, token_seq(s), 0, Seq::empty());
}


/// Each token ends where the next starts, and the last ends at the end.
pub open spec fn tokens_tiled(s: Seq<u8>, toks: Seq<Tok>) -> bool {
    &&& forall|i: int| 0 <= i < toks.len() - 1 ==> #[trigger] toks[i].2 == toks[i + 1].1
    &&& toks.len() > 0 ==> toks[toks.len() - 1].2 == s.len()
}

proof fn lemma_token_seq_tiled(s: Seq<u8>)
    requires
        s.len() < usize::MAX,
    ensures
        tokens_tiled(s, token_seq(s)),
{
    let t = tokens_from(s, 0);
    let toks = token_seq(s);
    crate::token::lemma_tokens_tile(s, 0);
    assert forall|i: int| 0 <= i < toks.len() - 1 implies #[trigger] toks[i].2 == toks[i + 1].1 by {
        assert(t[i].2 == t[i + 1].1);
    }
}

/// Where token `p` starts, or the end of the source past the last token.
pub open spec fn tok_start(s: Seq<u8>, toks: Seq<Tok>, p: int) -> int {
    if 0 <= p < toks.len() { toks[p].1 as int } else { s.len() as int }
}

proof fn lemma_tok_start_mono(s: Seq<u8>, toks: Seq<Tok>, p: int, q: int)
    requires
        tokens_ok(s, toks),
        0 <= p <= q,
    ensures
        tok_start(s, toks, p) <= tok_start(s, toks, q),
{
    if p < toks.len() && q >= toks.len() {
        assert(toks[p].1 < toks[p].2 <= s.len());
    }
}

/// A token ends where the next one (or the end) starts.
proof fn lemma_tok_end(s: Seq<u8>, toks: Seq<Tok>, p: int)
    requires
        tokens_tiled(s, toks),
        0 <= p < toks.len(),
    ensures
        toks[p].2 == tok_start(s, toks, p + 1),
{
}

/// Parsing arguments onto `acc` is parsing them alone, then putting `acc`
/// in front.
proof fn lemma_parse_args_acc(s: Seq<u8>, toks: Seq<Tok>, p: int, acc: Seq<crate::ast::ArgModel>)
    ensures
        parse_args(s, toks, p, acc) == match parse_args(s, toks, p, Seq::empty()) {
            Ok(res) => Ok::<(Seq<crate::ast::ArgModel>, int), crate::parse::ParseError>((acc + res.0, res.1)),
            Err(e) => Err(e),
        },
    decreases toks.len() - p,
{
    let e: Seq<crate::ast::ArgModel> = Seq::empty();
    if p < 0 || p >= toks.len() {
        assert(acc + e =~= acc);
    } else {
        let k = kind_of(toks[p]);
        if k == Token::Space || k == Token::Newline {
            lemma_parse_args_acc(s, toks, p + 1, acc);
            lemma_parse_args_acc(s, toks, p + 1, e);
        } else if k == Token::RParen {
            assert(acc + e =~= acc);
        } else if k == Token::LParen {
            match parse_args(s, toks, p + 1, Seq::empty()) {
                Err(_) => {},
                Ok(inner) => {
                    let r = inner.1;
                    if p < r < toks.len() && kind_of(toks[r]) == Token::RParen {
                        let x = crate::ast::ArgModel::Group(inner.0);
                        lemma_parse_args_acc(s, toks, r + 1, acc.push(x));
                        lemma_parse_args_acc(s, toks, r + 1, e.push(x));
                        match parse_args(s, toks, r + 1, e) {
                            Ok(res) => {
                                assert(acc.push(x) + res.0 =~= acc + (e.push(x) + res.0));
                            },
                            Err(_) => {},
                        }
                    } else {
                    }
                },
            }
        } else {
            let x = if k == Token::LineComment {
                crate::ast::ArgModel::LineComment(crate::parse::span_at(toks, p))
            } else if k == Token::BracketArgument {
                crate::ast::ArgModel::Bracket(crate::parse::span_at(toks, p))
            } else if k == Token::QuotedArgument {
                crate::ast::ArgModel::Quoted(crate::parse::span_at(toks, p))
            } else if k == Token::BracketComment {
                crate::ast::ArgModel::BracketComment(crate::parse::span_at(toks, p))
            } else {
                let m = crate::parse::merge_end(toks, p + 1, toks[p].2);
                crate::ast::ArgModel::Unquoted(crate::ast::Span { start: toks[p].1, end: m.1 })
            };
            let q = if k == Token::LineComment || k == Token::BracketArgument || k == Token::QuotedArgument || k == Token::BracketComment {
                p + 1
            } else {
                crate::parse::merge_end(toks, p + 1, toks[p].2).0
            };
            if k == Token::LineComment || k == Token::BracketArgument || k == Token::QuotedArgument || k == Token::BracketComment || p < q <= toks.len() {
                lemma_parse_args_acc(s, toks, q, acc.push(x));
                lemma_parse_args_acc(s, toks, q, e.push(x));
                match parse_args(s, toks, q, e) {
                    Ok(res) => {
                        assert(acc.push(x) + res.0 =~= acc + (e.push(x) + res.0));
                    },
                    Err(_) => {},
                }
            } else {
                assert(acc + e =~= acc);
            }
        }
    }
}

/// Merged unquoted text ends where the token after it starts.
proof fn lemma_merge_end(s: Seq<u8>, toks: Seq<Tok>, q: int, end: usize)
    requires
        tokens_ok(s, toks),
        tokens_tiled(s, toks),
        0 <= q <= toks.len(),
        end as int == tok_start(s, toks, q),
    ensures
        q <= crate::parse::merge_end(toks, q, end).0 <= toks.len(),
        crate::parse::merge_end(toks, q, end).1 as int == tok_start(s, toks, crate::parse::merge_end(toks, q, end).0),
    decreases toks.len() - q,
{
    if 0 <= q < toks.len() && (kind_of(toks[q]) == Token::QuotedArgument || kind_of(toks[q]) == Token::UnquotedText) && toks[q].1 == end {
        lemma_tok_end(s, toks, q);
        lemma_merge_end(s, toks, q + 1, toks[q].2);
    }
}

proof fn lemma_ordered_mono(v: Seq<crate::ast::ArgModel>, k: int, a: int, b: int, hi: int)
    requires
        a <= b,
        ordered(v, k, b, hi),
    ensures
        ordered(v, k, a, hi),
{
}

proof fn lemma_ordered_end(v: Seq<crate::ast::ArgModel>, k: int, pos: int, hi: int)
    requires
        0 <= k,
        ordered(v, k, pos, hi),
    ensures
        pos <= hi,
        k < v.len() ==> pos <= range_of(v[k]).0,
        v.len() > 0 && k < v.len() ==> range_of(v[k]).0 <= range_of(v.last()).1 <= hi,
        forall|j: int| k <= j < v.len() ==> max_end(#[trigger] v[j]) <= hi,
    decreases v.len() - k,
{
    if k < v.len() {
        lemma_ordered_end(v, k + 1, range_of(v[k]).1, hi);
        if k + 1 == v.len() {
        }
    }
}

proof fn lemma_max_ends_bound(v: Seq<crate::ast::ArgModel>, i: int, hi: int)
    requires
        0 <= i,
        forall|j: int| i <= j < v.len() ==> max_end(#[trigger] v[j]) <= hi,
        0 <= hi,
    ensures
        max_ends(v, i) <= hi,
    decreases v.len() - i,
{
    if i < v.len() {
        lemma_max_ends_bound(v, i + 1, hi);
    }
}

proof fn lemma_ordered_cons(x: crate::ast::ArgModel, w: Seq<crate::ast::ArgModel>, k: int, pos: int, hi: int)
    requires
        0 <= k,
    ensures
        ordered(seq![x] + w, k + 1, pos, hi) == ordered(w, k, pos, hi),
    decreases w.len() - k,
{
    let u = seq![x] + w;
    if k < w.len() {
        assert(u[k + 1] == w[k]);
        lemma_ordered_cons(x, w, k + 1, range_of(w[k]).1, hi);
    }
}

proof fn lemma_no_empty_cons(x: crate::ast::ArgModel, w: Seq<crate::ast::ArgModel>, k: int)
    requires
        0 <= k,
    ensures
        no_empty_groups(seq![x] + w, k + 1) == no_empty_groups(w, k),
    decreases w.len() - k,
{
    let u = seq![x] + w;
    if k < w.len() {
        assert(u[k + 1] == w[k]);
        lemma_no_empty_cons(x, w, k + 1);
    }
}

/// The arguments parsed from token `p` up to token `r` stand in order between
/// the start of `p` and the start of `r`, when none of their groups is empty.
proof fn lemma_args_ordered(s: Seq<u8>, toks: Seq<Tok>, p: int)
    requires
        tokens_ok(s, toks),
        tokens_tiled(s, toks),
        0 <= p,
    ensures
        parse_args(s, toks, p, Seq::empty()) matches Ok(res) ==> (p <= res.1 && (no_empty_groups(res.0, 0)
            ==> ordered(res.0, 0, tok_start(s, toks, p), tok_start(s, toks, res.1)))),
    decreases toks.len() - p,
{
    let e: Seq<crate::ast::ArgModel> = Seq::empty();
    if p < toks.len() {
        let k = kind_of(toks[p]);
        assert(toks[p].1 < toks[p].2 <= s.len());
        lemma_tok_end(s, toks, p);
        if k == Token::Space || k == Token::Newline {
            lemma_args_ordered(s, toks, p + 1);
            match parse_args(s, toks, p + 1, e) {
                Ok(res) => {
                    if no_empty_groups(res.0, 0) {
                        lemma_ordered_mono(res.0, 0, tok_start(s, toks, p), tok_start(s, toks, p + 1), tok_start(s, toks, res.1));
                    }
                },
                Err(_) => {},
            }
        } else if k == Token::RParen {
        } else if k == Token::LParen {
            lemma_args_ordered(s, toks, p + 1);
            match parse_args(s, toks, p + 1, e) {
                Err(_) => {},
                Ok(inner) => {
                    let r = inner.1;
                    if p < r < toks.len() && kind_of(toks[r]) == Token::RParen {
                        let x = crate::ast::ArgModel::Group(inner.0);
                        lemma_parse_args_acc(s, toks, r + 1, e.push(x));
                        lemma_args_ordered(s, toks, r + 1);
                        lemma_tok_end(s, toks, r);
                        assert(toks[r].1 < toks[r].2 <= s.len());
                        match parse_args(s, toks, r + 1, e) {
                            Ok(rest) => {
                                let all = e.push(x) + rest.0;
                                assert(all =~= seq![x] + rest.0);
                                lemma_no_empty_cons(x, rest.0, 0);
                                lemma_ordered_cons(x, rest.0, 0, range_of(x).1, tok_start(s, toks, rest.1));
                                if no_empty_groups(all, 0) {
                                    assert(all[0] == x);
                                    assert(no_empty_group(x));
                                    let v = inner.0;
                                    let lo_in = tok_start(s, toks, p + 1);
                                    let hi_in = tok_start(s, toks, r);
                                    assert(ordered(v, 0, lo_in, hi_in));
                                    lemma_ordered_end(v, 0, lo_in, hi_in);
                                    lemma_max_ends_bound(v, 0, hi_in);
                                    let lo_rest = tok_start(s, toks, r + 1);
                                    let hi = tok_start(s, toks, rest.1);
                                    lemma_ordered_end(rest.0, 0, lo_rest, hi);
                                    assert(range_of(x) == (range_of(v[0]).0 - 1, range_of(v.last()).1 + 1));
                                    lemma_ordered_mono(rest.0, 0, range_of(x).1, lo_rest, hi);
                                    assert(ordered(all, 0, tok_start(s, toks, p), hi));
                                }
                            },
                            Err(_) => {},
                        }
                    }
                },
            }
        } else {
            let leaf = k == Token::LineComment || k == Token::BracketArgument || k == Token::QuotedArgument || k == Token::BracketComment;
            let x = if k == Token::LineComment {
                crate::ast::ArgModel::LineComment(crate::parse::span_at(toks, p))
            } else if k == Token::BracketArgument {
                crate::ast::ArgModel::Bracket(crate::parse::span_at(toks, p))
            } else if k == Token::QuotedArgument {
                crate::ast::ArgModel::Quoted(crate::parse::span_at(toks, p))
            } else if k == Token::BracketComment {
                crate::ast::ArgModel::BracketComment(crate::parse::span_at(toks, p))
            } else {
                let m = crate::parse::merge_end(toks, p + 1, toks[p].2);
                crate::ast::ArgModel::Unquoted(crate::ast::Span { start: toks[p].1, end: m.1 })
            };
            let q = if leaf { p + 1 } else { crate::parse::merge_end(toks, p + 1, toks[p].2).0 };
            if !leaf {
                lemma_merge_end(s, toks, p + 1, toks[p].2);
            }
            if leaf || p < q <= toks.len() {
                lemma_parse_args_acc(s, toks, q, e.push(x));
                lemma_args_ordered(s, toks, q);
                match parse_args(s, toks, q, e) {
                    Ok(rest) => {
                        let all = e.push(x) + rest.0;
                        assert(all =~= seq![x] + rest.0);
                        lemma_no_empty_cons(x, rest.0, 0);
                        assert(range_of(x).1 == tok_start(s, toks, q));
                        lemma_ordered_cons(x, rest.0, 0, range_of(x).1, tok_start(s, toks, rest.1));
                        if no_empty_groups(all, 0) {
                            assert(all[0] == x);
                            lemma_ordered_end(rest.0, 0, tok_start(s, toks, q), tok_start(s, toks, rest.1));
                            assert(ordered(all, 0, tok_start(s, toks, p), tok_start(s, toks, rest.1)));
                        }
                    },
                    Err(_) => {},
                }
            }
        }
    }
}


/// Where a parsed command stands: its name, then its parentheses, in order
/// within the source, the parentheses reading `(` and `)`; and, when none of its parenthesized groups is empty,
/// its arguments (nested ones too) in order between the parentheses, each
/// after the previous one.
pub open spec fn command_shape(c: CommandModel, s: Seq<u8>) -> bool {
    &&& c.name.start < c.name.end <= c.open_paren.start < c.open_paren.end <= c.close_paren.start < c.close_paren.end <= s.len()
    &&& s.subrange(c.open_paren.start as int, c.open_paren.end as int) == seq![40u8]
    &&& s.subrange(c.close_paren.start as int, c.close_paren.end as int) == seq![41u8]
    &&& no_empty_groups(c.arguments, 0) ==> ordered(c.arguments, 0, c.open_paren.end as int, c.close_paren.start as int)
}

pub open spec fn elem_shape(e: ElemModel, s: Seq<u8>) -> bool {
    match e {
        ElemModel::Command(c) => command_shape(c, s),
        _ => true,
    }
}

proof fn lemma_command_shape(s: Seq<u8>, toks: Seq<Tok>, p: int)
    requires
        tokens_ok(s, toks),
        tokens_tiled(s, toks),
        0 <= p < toks.len(),
    ensures
        parse_command(s, toks, p) matches Ok(res) ==> command_shape(res.0, s),
{
    let q = skip_spaces(toks, p + 1);
    lemma_skip_spaces(toks, p + 1);
    if kind_at(toks, q) == Some(Token::LParen) {
        lemma_args_ordered(s, toks, q + 1);
        match parse_args(s, toks, q + 1, Seq::empty()) {
            Err(_) => {},
            Ok(res) => {
                let r = res.1;
                if kind_at(toks, r) == Some(Token::RParen) {
                    assert(toks[p].1 < toks[p].2 <= s.len());
                    assert(toks[q].1 < toks[q].2 <= s.len());
                    assert(toks[r].1 < toks[r].2 <= s.len());
                    lemma_tok_end(s, toks, p);
                    lemma_tok_end(s, toks, q);
                    lemma_tok_start_mono(s, toks, p + 1, q);
                    lemma_tok_start_mono(s, toks, q + 1, r);
                    assert(kind_of(toks[q]) == Token::LParen);
                    assert(kind_of(toks[r]) == Token::RParen);
                    assert(s.subrange(toks[q].1 as int, toks[q].2 as int) =~= seq![40u8]);
                    assert(s.subrange(toks[r].1 as int, toks[r].2 as int) =~= seq![41u8]);
                }
            },
        }
    }
}

proof fn lemma_elems_shape(s: Seq<u8>, toks: Seq<Tok>, p: int, acc: Seq<ElemModel>)
    requires
        tokens_ok(s, toks),
        tokens_tiled(s, toks),
        0 <= p,
        forall|k: int| 0 <= k < acc.len() ==> elem_shape(#[trigger] acc[k], s),
    ensures
        parse_elems(s, toks, p, acc) matches Ok(m) ==> forall|k: int| 0 <= k < m.len() ==> elem_shape(#[trigger] m[k], s),
    decreases toks.len() - p,
{
    if 0 <= p < toks.len() {
        let k = kind_of(toks[p]);
        if k == Token::Space {
            lemma_elems_shape(s, toks, p + 1, acc);
        } else if k == Token::Newline {
            let a = acc.push(ElemModel::BlankLine);
            assert forall|j: int| 0 <= j < a.len() implies elem_shape(#[trigger] a[j], s) by {
                if j < acc.len() {
                    assert(a[j] == acc[j]);
                }
            }
            lemma_elems_shape(s, toks, p + 1, a);
        } else if k == Token::BracketComment || k == Token::LineComment {
            let e = if k == Token::BracketComment {
                ElemModel::BracketComment(crate::parse::span_at(toks, p))
            } else {
                ElemModel::LineComment(crate::parse::span_at(toks, p))
            };
            let q = if kind_at(toks, p + 1) == Some(Token::Newline) { p + 2 } else { p + 1 };
            let a = acc.push(e);
            assert forall|j: int| 0 <= j < a.len() implies elem_shape(#[trigger] a[j], s) by {
                if j < acc.len() {
                    assert(a[j] == acc[j]);
                }
            }
            lemma_elems_shape(s, toks, q, a);
        } else if k == Token::UnquotedText {
            lemma_command_shape(s, toks, p);
            match parse_command(s, toks, p) {
                Err(_) => {},
                Ok(res) => {
                    if p < res.1 <= toks.len() {
                        let a = acc.push(ElemModel::Command(res.0));
                        assert forall|j: int| 0 <= j < a.len() implies elem_shape(#[trigger] a[j], s) by {
                            if j < acc.len() {
                                assert(a[j] == acc[j]);
                            }
                        }
                        lemma_elems_shape(s, toks, res.1, a);
                    }
                },
            }
        }
    }
}

/// Every command that parsing gives stands in order in the source: name,
/// then `(`, then `)` (its parenthesis spans reading exactly those); and when none of its parenthesized groups is empty,
/// its arguments, nested ones included, stand in order between the
/// parentheses, each after the one before.
pub proof fn law_parsed_commands_in_order(s: Seq<u8>)
    requires
        s.len() < usize::MAX,
    ensures
        spec_parse(s) matches Ok(m) ==> forall|k: int| 0 <= k < m.len() ==> elem_shape(#[trigger] m[k], s),
{
    lemma_token_seq_ok(s);
    lemma_token_seq_tiled(s);
    lemma_elems_shape(s, token_seq(s), 0, Seq::empty());
}


/// Where an element stands in the source: a command from its name to the end
/// of its trailing comment or closing parenthesis, a comment its span; a
/// blank line stands nowhere.
pub open spec fn elem_extent(e: ElemModel) -> Option<(int, int)> {
    match e {
        ElemModel::Command(c) => Some((c.name.start as int, match c.trailing_comment {
            Some(t) => t.end as int,
            None => c.close_paren.end as int,
        })),
        ElemModel::BracketComment(sp) => Some((sp.start as int, sp.end as int)),
        ElemModel::LineComment(sp) => Some((sp.start as int, sp.end as int)),
        ElemModel::BlankLine => None,
    }
}

/// The elements stand in source order within `0..hi`: each one's extent is
/// a range there, and each ends before the next one starts.
pub open spec fn elems_in_order(m: Seq<ElemModel>, hi: int) -> bool {
    &&& forall|j: int| 0 <= j < m.len() && (#[trigger] elem_extent(m[j])) is Some
        ==> 0 <= elem_extent(m[j]).unwrap().0 <= elem_extent(m[j]).unwrap().1 <= hi
    &&& forall|j: int, k: int| 0 <= j < k < m.len() && (#[trigger] elem_extent(m[j])) is Some && (#[trigger] elem_extent(m[k])) is Some
        ==> elem_extent(m[j]).unwrap().1 <= elem_extent(m[k]).unwrap().0
}

proof fn lemma_in_order_push(m: Seq<ElemModel>, e: ElemModel, hi: int, hi2: int)
    requires
        elems_in_order(m, hi),
        hi <= hi2,
        elem_extent(e) matches Some(x) ==> hi <= x.0 <= x.1 <= hi2,
    ensures
        elems_in_order(m.push(e), hi2),
{
    let m2 = m.push(e);
    assert forall|j: int| 0 <= j < m2.len() && (#[trigger] elem_extent(m2[j])) is Some
        implies 0 <= elem_extent(m2[j]).unwrap().0 <= elem_extent(m2[j]).unwrap().1 <= hi2 by {
        if j < m.len() {
            assert(m2[j] == m[j]);
        }
    }
    assert forall|j: int, k: int| 0 <= j < k < m2.len() && (#[trigger] elem_extent(m2[j])) is Some && (#[trigger] elem_extent(m2[k])) is Some
        implies elem_extent(m2[j]).unwrap().1 <= elem_extent(m2[k]).unwrap().0 by {
        assert(m2[j] == m[j]);
        if k < m.len() {
            assert(m2[k] == m[k]);
        } else {
            assert(elem_extent(m[j]) is Some);
        }
    }
}

proof fn lemma_in_order_widen(m: Seq<ElemModel>, hi: int, hi2: int)
    requires
        elems_in_order(m, hi),
        hi <= hi2,
    ensures
        elems_in_order(m, hi2),
{
}

proof fn lemma_command_extent(s: Seq<u8>, toks: Seq<Tok>, p: int)
    requires
        tokens_ok(s, toks),
        tokens_tiled(s, toks),
        0 <= p < toks.len(),
    ensures
        parse_command(s, toks, p) matches Ok(res) ==> p < res.1 ==> ({
            let x = elem_extent(ElemModel::Command(res.0)).unwrap();
            &&& x.0 == tok_start(s, toks, p)
            &&& x.0 <= x.1 <= tok_start(s, toks, res.1)
        }),
{
    lemma_command_shape(s, toks, p);
    let q = skip_spaces(toks, p + 1);
    lemma_skip_spaces(toks, p + 1);
    if kind_at(toks, q) == Some(Token::LParen) {
        match parse_args(s, toks, q + 1, Seq::empty()) {
            Err(_) => {},
            Ok(res) => {
                let r = res.1;
                if kind_at(toks, r) == Some(Token::RParen) {
                    let r2 = skip_spaces(toks, r + 1);
                    lemma_skip_spaces(toks, r + 1);
                    let r3 = if kind_at(toks, r2) == Some(Token::LineComment) { r2 + 1 } else { r2 };
                    let r4 = if kind_at(toks, r3) == Some(Token::Newline) { r3 + 1 } else { r3 };
                    lemma_tok_end(s, toks, r);
                    lemma_tok_start_mono(s, toks, r + 1, r4);
                    assert(toks[p].1 < toks[p].2 <= s.len());
                    if kind_at(toks, r2) == Some(Token::LineComment) {
                        lemma_tok_end(s, toks, r2);
                        lemma_tok_start_mono(s, toks, r2 + 1, r4);
                        lemma_tok_start_mono(s, toks, r + 1, r2);
                        assert(toks[r2].1 < toks[r2].2 <= s.len());
                    }
                }
            },
        }
    }
}

proof fn lemma_elems_order(s: Seq<u8>, toks: Seq<Tok>, p: int, acc: Seq<ElemModel>)
    requires
        tokens_ok(s, toks),
        tokens_tiled(s, toks),
        0 <= p,
        elems_in_order(acc, tok_start(s, toks, p)),
    ensures
        parse_elems(s, toks, p, acc) matches Ok(m) ==> elems_in_order(m, s.len() as int),
    decreases toks.len() - p,
{
    if 0 <= p < toks.len() {
        let k = kind_of(toks[p]);
        assert(toks[p].1 < toks[p].2 <= s.len());
        lemma_tok_end(s, toks, p);
        if k == Token::Space {
            lemma_tok_start_mono(s, toks, p, p + 1);
            lemma_in_order_widen(acc, tok_start(s, toks, p), tok_start(s, toks, p + 1));
            lemma_elems_order(s, toks, p + 1, acc);
        } else if k == Token::Newline {
            lemma_tok_start_mono(s, toks, p, p + 1);
            lemma_in_order_push(acc, ElemModel::BlankLine, tok_start(s, toks, p), tok_start(s, toks, p + 1));
            lemma_elems_order(s, toks, p + 1, acc.push(ElemModel::BlankLine));
        } else if k == Token::BracketComment || k == Token::LineComment {
            let e = if k == Token::BracketComment {
                ElemModel::BracketComment(crate::parse::span_at(toks, p))
            } else {
                ElemModel::LineComment(crate::parse::span_at(toks, p))
            };
            let q = if kind_at(toks, p + 1) == Some(Token::Newline) { p + 2 } else { p + 1 };
            lemma_tok_start_mono(s, toks, p + 1, q);
            lemma_in_order_push(acc, e, tok_start(s, toks, p), tok_start(s, toks, q));
            lemma_elems_order(s, toks, q, acc.push(e));
        } else if k == Token::UnquotedText {
            lemma_command_extent(s, toks, p);
            match parse_command(s, toks, p) {
                Err(_) => {},
                Ok(res) => {
                    if p < res.1 <= toks.len() {
                        let e = ElemModel::Command(res.0);
                        lemma_in_order_push(acc, e, tok_start(s, toks, p), tok_start(s, toks, res.1));
                        lemma_elems_order(s, toks, res.1, acc.push(e));
                    } else {
                        lemma_tok_start_mono(s, toks, p, toks.len() as int);
                    }
                },
            }
        }
    }
}

/// The elements that parsing gives stand in source order: each command
/// (name to closing parenthesis or trailing comment) and each comment lies in
/// the source and ends before the next one starts.
pub proof fn law_parsed_elements_in_order(s: Seq<u8>)
    requires
        s.len() < usize::MAX,
    ensures
        spec_parse(s) matches Ok(m) ==> elems_in_order(m, s.len() as int),
{
    lemma_token_seq_ok(s);
    lemma_token_seq_tiled(s);
    let toks = token_seq(s);
    assert(elems_in_order(Seq::<ElemModel>::empty(), tok_start(s, toks, 0)));
    lemma_elems_order(s, toks, 0, Seq::empty());
}

} // verus!
