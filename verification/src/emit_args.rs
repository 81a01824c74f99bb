//! Arguments as print items: casing by their role, verbatim text kept as
//! written, parenthesized groups one argument per line, trailing comments.
use vstd::prelude::*;
use vstd::string::StringSliceAdditionalSpecFns;

use crate::arg_groups::{compute_keyword_positions, custom_holds, is_comment, keyword_positions_spec, names_section, text_bytes, FormattedArg};
use crate::genex::holds_genex;
use crate::signatures::CommandKind;
use crate::text::ci_eq;
use crate::casing::{apply_keyword_case, apply_literal_case, cased, is_literal_token, literal_list};
use crate::arg_groups::names_hold;
use crate::config::{CaseStyle, Configuration};
use crate::load::sbytes;
use crate::widths::{arg_width, inline_text, lemma_run_width_nonneg, lemma_run_width_prefix, lemma_run_width_step, push_inline_text, run_width};
use crate::print_items::{bracket_items, emit_bracket_verbatim, gen_from_raw_string, items_model, raw_items, PrintItem, PrintModel};

verus! {

/// The text starts with the byte `b`.
pub open spec fn starts(t: Seq<u8>, b: u8) -> bool {
    t.len() > 0 && t[0] == b
}

/// An argument's text in the case its role asks for: with a keyword case, a
/// keyword takes it and an unquoted literal takes the literal case; without
/// one, only an unquoted literal (not a comment) changes, to the literal
/// case.
pub open spec fn case_text(a: FormattedArg, kw_case: Option<CaseStyle>, lit: CaseStyle) -> Seq<u8> {
    let t = text_bytes(a);
    match kw_case {
        Some(c) => if a.is_keyword {
            cased(t, c)
        } else if !starts(t, 34u8) && names_hold(literal_list(), t) {
            cased(t, lit)
        } else {
            t
        },
        None => if !starts(t, 34u8) && !starts(t, 35u8) && names_hold(literal_list(), t) {
            cased(t, lit)
        } else {
            t
        },
    }
}

/// The comment that follows an argument on its line: after a space, a
/// bracket comment verbatim, a line comment as raw text.
pub open spec fn trailing_items(a: FormattedArg) -> Seq<PrintModel> {
    match a.trailing_comment {
        Some(c) => seq![PrintModel::Space] + if a.trailing_is_bracket { bracket_items(sbytes(c)) } else { raw_items(sbytes(c)) },
        None => seq![],
    }
}

/// An argument as items: a group in parentheses with its arguments one per
/// line, indented (see `flat_inner`); a bracket argument or bracket comment
/// verbatim; any other text in its case (see `case_text`), verbatim after its
/// first line when it spans lines; then its trailing comment.
pub open spec fn arg_items(a: FormattedArg, kw_case: Option<CaseStyle>, lit: CaseStyle) -> Seq<PrintModel>
    decreases a, 0int,
{
    let t = text_bytes(a);
    let body = if a.is_paren_group {
        seq![PrintModel::Text(seq![40u8])]
            + (if a.paren_inner@.len() > 0 {
                seq![PrintModel::StartIndent] + inner_from(a.paren_inner, 0, lit) + seq![PrintModel::NewLine, PrintModel::FinishIndent]
            } else {
                seq![]
            })
            + seq![PrintModel::Text(seq![41u8])]
    } else if a.is_bracket || (starts(t, 35u8) && t.len() > 1 && t[1] == 91u8) {
        bracket_items(t)
    } else {
        let c = case_text(a, kw_case, lit);
        if c.contains(10u8) { bracket_items(c) } else { raw_items(c) }
    };
    body + trailing_items(a)
}

/// A group's arguments, each on a line of its own, then a line break, all
/// one level further in.
pub open spec fn flat_inner(v: Vec<FormattedArg>, lit: CaseStyle) -> Seq<PrintModel> {
    seq![PrintModel::StartIndent] + inner_from(v, 0, lit) + seq![PrintModel::NewLine, PrintModel::FinishIndent]
}

/// The arguments from `i` on, each after a line break.
pub open spec fn inner_from(v: Vec<FormattedArg>, i: int, lit: CaseStyle) -> Seq<PrintModel>
    decreases v, v@.len() - i,
{
    if i < 0 || i >= v@.len() {
        seq![]
    } else {
        seq![PrintModel::NewLine] + arg_items(v@[i], None, lit) + inner_from(v, i + 1, lit)
    }
}

fn push_model(items: &mut Vec<PrintItem>, p: PrintItem)
    ensures
        items_model(final(items)@) == items_model(old(items)@).push(crate::print_items::item_model(p)),
{
    items.push(p);
    proof {
        assert(items_model(items@) =~= items_model(old(items)@).push(crate::print_items::item_model(p)));
    }
}

fn starts_with_byte(t: &[u8], b: u8) -> (r: bool)
    ensures
        r == starts(t@, b),
{
    t.len() > 0 && t[0] == b
}

/// See `case_text`.
fn case_arg_text(a: &FormattedArg, kw_case: Option<CaseStyle>, lit: CaseStyle) -> (r: Vec<u8>)
    ensures
        r@ == case_text(*a, kw_case, lit),
{
    let text = a.text.as_str();
    let t = text.as_bytes();
    proof {
        assert(t@ == text_bytes(*a));
    }
    let changed: Option<String> = match kw_case {
        Some(c) => if a.is_keyword {
            Some(apply_keyword_case(text, c))
        } else if !starts_with_byte(t, 34u8) && is_literal_token(text) {
            Some(apply_literal_case(text, lit))
        } else {
            None
        },
        None => if !starts_with_byte(t, 34u8) && !starts_with_byte(t, 35u8) && is_literal_token(text) {
            Some(apply_literal_case(text, lit))
        } else {
            None
        },
    };
    match changed {
        Some(s) => {
            let b = s.as_str().as_bytes();
            proof {
                assert(b@ == sbytes(s));
            }
            vstd::slice::slice_to_vec(b)
        },
        None => vstd::slice::slice_to_vec(t),
    }
}

/// See `trailing_items`.
fn push_trailing(items: &mut Vec<PrintItem>, a: &FormattedArg)
    ensures
        items_model(final(items)@) == items_model(old(items)@) + trailing_items(*a),
{
    match &a.trailing_comment {
        Some(c) => {
            push_model(items, PrintItem::Space);
            let b = c.as_str().as_bytes();
            proof {
                assert(b@ == sbytes(*c));
            }
            if a.trailing_is_bracket {
                emit_bracket_verbatim(items, b);
            } else {
                gen_from_raw_string(items, b);
            }
        },
        None => {
            proof {
                assert(items_model(items@) =~= items_model(old(items)@) + seq![]);
            }
        },
    }
}

/// See `arg_items`.
#[verifier::rlimit(60)]
pub fn emit_arg_with_case(items: &mut Vec<PrintItem>, a: &FormattedArg, kw_case: Option<CaseStyle>, lit: CaseStyle)
    ensures
        items_model(final(items)@) == items_model(old(items)@) + arg_items(*a, kw_case, lit),
    decreases *a,
{
    let ghost m0 = items_model(items@);
    let t = a.text.as_str().as_bytes();
    proof {
        assert(t@ == text_bytes(*a));
    }
    if a.is_paren_group {
        let open: Vec<u8> = vec![40u8];
        let close: Vec<u8> = vec![41u8];
        proof {
            assert(open@ =~= seq![40u8]);
            assert(close@ =~= seq![41u8]);
        }
        push_model(items, PrintItem::Text(open));
        if a.paren_inner.len() > 0 {
            proof {
                assert(decreases_to!(*a => a.paren_inner));
            }
            let inner = gen_flat_paren_inner(&a.paren_inner, lit);
            let ghost mi = items_model(items@);
            let mut inner = inner;
            items.append(&mut inner);
            proof {
                assert(items_model(items@) =~= mi + flat_inner(a.paren_inner, lit));
            }
        }
        push_model(items, PrintItem::Text(close));
    } else if a.is_bracket || (starts_with_byte(t, 35u8) && t.len() > 1 && t[1] == 91u8) {
        emit_bracket_verbatim(items, t);
    } else {
        let c = case_arg_text(a, kw_case, lit);
        let mut has_nl = false;
        let mut i: usize = 0;
        while i < c.len()
            invariant
                i <= c@.len(),
                has_nl == exists|k: int| 0 <= k < i && c@[k] == 10u8,
            decreases c@.len() - i,
        {
            if c[i] == 10u8 {
                has_nl = true;
            }
            i = i + 1;
        }
        proof {
            assert(has_nl == c@.contains(10u8));
        }
        if has_nl {
            emit_bracket_verbatim(items, c.as_slice());
        } else {
            gen_from_raw_string(items, c.as_slice());
        }
    }
    let ghost mb = items_model(items@);
    push_trailing(items, a);
    proof {
        assert(items_model(items@) =~= m0 + arg_items(*a, kw_case, lit));
    }
}

/// See `flat_inner`: a group's arguments, each on its own line, indented.
#[verifier::rlimit(60)]
pub fn gen_flat_paren_inner(args: &Vec<FormattedArg>, lit: CaseStyle) -> (r: Vec<PrintItem>)
    ensures
        items_model(r@) == flat_inner(*args, lit),
    decreases *args,
{
    let mut inner: Vec<PrintItem> = Vec::new();
    push_model(&mut inner, PrintItem::StartIndent);
    let ghost m1 = items_model(inner@);
    let mut i: usize = 0;
    while i < args.len()
        invariant
            i <= args@.len(),
            items_model(inner@) + inner_from(*args, i as int, lit) == m1 + inner_from(*args, 0, lit),
        decreases args@.len() - i,
    {
        let ghost before = items_model(inner@);
        push_model(&mut inner, PrintItem::NewLine);
        proof {
            assert(decreases_to!(*args => args@));
            assert(decreases_to!(args@ => args@[i as int]));
        }
        emit_arg_with_case(&mut inner, &args[i], None, lit);
        proof {
            assert(items_model(inner@) + inner_from(*args, i + 1, lit) =~= before + inner_from(*args, i as int, lit));
        }
        i = i + 1;
    }
    push_model(&mut inner, PrintItem::NewLine);
    push_model(&mut inner, PrintItem::FinishIndent);
    proof {
        assert(items_model(inner@) =~= flat_inner(*args, lit));
    }
    inner
}

/// An argument with no keyword casing (literals still take the literal case).
pub fn emit_arg(items: &mut Vec<PrintItem>, a: &FormattedArg, config: &Configuration)
    ensures
        items_model(final(items)@) == items_model(old(items)@) + arg_items(*a, None, config.literal_case),
{
    emit_arg_with_case(items, a, None, config.literal_case);
}

/// A keyword argument: the keyword case for keywords, the literal case for
/// literals.
pub fn emit_kw_arg(items: &mut Vec<PrintItem>, a: &FormattedArg, config: &Configuration)
    ensures
        items_model(final(items)@) == items_model(old(items)@) + arg_items(*a, Some(config.keyword_case), config.literal_case),
{
    emit_arg_with_case(items, a, Some(config.keyword_case), config.literal_case);
}

/// A section's sub-keyword: its text in the keyword case as raw text, then
/// its trailing comment.
pub open spec fn sub_kw_items(a: FormattedArg, case: CaseStyle) -> Seq<PrintModel> {
    raw_items(cased(text_bytes(a), case)) + trailing_items(a)
}

/// See `sub_kw_items`.
pub fn emit_sub_kw_arg(items: &mut Vec<PrintItem>, a: &FormattedArg, config: &Configuration)
    ensures
        items_model(final(items)@) == items_model(old(items)@) + sub_kw_items(*a, config.keyword_case),
{
    let text = a.text.as_str();
    let s = apply_keyword_case(text, config.keyword_case);
    let b = s.as_str().as_bytes();
    proof {
        assert(b@ == sbytes(s));
        assert(text.spec_bytes() == text_bytes(*a));
    }
    let ghost m0 = items_model(items@);
    gen_from_raw_string(items, b);
    push_trailing(items, a);
    proof {
        assert(items_model(items@) =~= m0 + sub_kw_items(*a, config.keyword_case));
    }
}


/// A command-line keyword (`debug`, `optimized`, `general`) on a new line:
/// with its value on the same line when the two fit within the line width
/// from `base` and the value holds no line break (the value's trailing
/// comment after it); else the value on the next line, one level in.
pub open spec fn cmd_line_kw_items(k: FormattedArg, value: Option<FormattedArg>, config: Configuration, base: int) -> Seq<PrintModel> {
    let head = seq![PrintModel::NewLine] + raw_items(text_bytes(k));
    match value {
        Some(v) => {
            let w = text_bytes(k).len() + 1 + inline_text(v).len();
            if base + w <= config.line_width && !text_bytes(v).contains(10u8) {
                head + seq![PrintModel::Space] + raw_items(inline_text(v)) + match v.trailing_comment {
                    Some(c) => seq![PrintModel::Space] + raw_items(sbytes(c)),
                    None => seq![],
                }
            } else {
                head + seq![PrintModel::StartIndent, PrintModel::NewLine] + arg_items(v, None, config.literal_case)
                    + seq![PrintModel::FinishIndent]
            }
        },
        None => head,
    }
}

/// See `cmd_line_kw_items`.
pub fn emit_cmd_line_keyword(items: &mut Vec<PrintItem>, keyword: &FormattedArg, value: Option<&FormattedArg>, config: &Configuration, base_indent: usize)
    requires
        value matches Some(v) ==> base_indent + text_bytes(*keyword).len() + 1 + inline_text(*v).len() <= usize::MAX,
    ensures
        items_model(final(items)@) == items_model(old(items)@) + cmd_line_kw_items(*keyword, match value {
            Some(v) => Some(*v),
            None => None,
        }, *config, base_indent as int),
{
    let ghost m0 = items_model(items@);
    let kt = keyword.text.as_str().as_bytes();
    proof {
        assert(kt@ == text_bytes(*keyword));
    }
    push_model(items, PrintItem::NewLine);
    gen_from_raw_string(items, kt);
    let ghost mh = items_model(items@);
    match value {
        Some(v) => {
            let vw = arg_width(v);
            let inline_width = kt.len() + 1 + vw;
            let vt = v.text.as_str().as_bytes();
            proof {
                assert(vt@ == text_bytes(*v));
            }
            let mut has_nl = false;
            let mut i: usize = 0;
            while i < vt.len()
                invariant
                    i <= vt@.len(),
                    has_nl == exists|q: int| 0 <= q < i && vt@[q] == 10u8,
                decreases vt@.len() - i,
            {
                if vt[i] == 10u8 {
                    has_nl = true;
                }
                i = i + 1;
            }
            proof {
                assert(has_nl == vt@.contains(10u8));
            }
            if base_indent + inline_width <= config.line_width as usize && !has_nl {
                push_model(items, PrintItem::Space);
                let mut inline: Vec<u8> = Vec::new();
                push_inline_text(&mut inline, v);
                proof {
                    assert(inline@ =~= inline_text(*v));
                }
                gen_from_raw_string(items, inline.as_slice());
                match &v.trailing_comment {
                    Some(c) => {
                        push_model(items, PrintItem::Space);
                        let cb = c.as_str().as_bytes();
                        proof {
                            assert(cb@ == sbytes(*c));
                        }
                        gen_from_raw_string(items, cb);
                    },
                    None => {},
                }
            } else {
                push_model(items, PrintItem::StartIndent);
                push_model(items, PrintItem::NewLine);
                emit_arg(items, v, config);
                push_model(items, PrintItem::FinishIndent);
            }
        },
        None => {},
    }
    proof {
        assert(items_model(items@) =~= m0 + cmd_line_kw_items(*keyword, match value {
            Some(v) => Some(*v),
            None => None,
        }, *config, base_indent as int));
    }
}


/// The width the values take at most on lines of their own: each one's
/// inline text and a space.
pub open spec fn flow_total(v: Seq<FormattedArg>) -> int
    decreases v.len(),
{
    if v.len() == 0 { 0 } else { flow_total(v.drop_last()) + inline_text(v.last()).len() + 1 }
}

proof fn lemma_flow_total_nonneg(v: Seq<FormattedArg>)
    ensures
        flow_total(v) >= 0,
    decreases v.len(),
{
    if v.len() > 0 {
        lemma_flow_total_nonneg(v.drop_last());
    }
}

proof fn lemma_flow_total_prefix(v: Seq<FormattedArg>, k: int)
    requires
        0 <= k < v.len(),
    ensures
        flow_total(v.take(k)) + inline_text(v[k]).len() + 1 == flow_total(v.take(k + 1)),
        flow_total(v.take(k + 1)) <= flow_total(v),
    decreases v.len(),
{
    assert(v.take(k + 1).drop_last() =~= v.take(k));
    if k + 1 < v.len() {
        lemma_flow_total_prefix(v.drop_last(), k);
        assert(v.drop_last().take(k + 1) =~= v.take(k + 1));
        assert(v.drop_last().take(k) =~= v.take(k));
    } else {
        assert(v.take(k + 1) =~= v);
    }
}

/// Values packed onto lines from value `k` on, with `cur` columns used on the
/// current line (`started` when it holds a value), new lines starting at
/// column `fi`, within line width `lw`: a comment on a line of its own; a
/// value spanning lines on a new line, kept as written; any other after a
/// space, or on a new line when it would pass the line width; a line comment
/// after a value on a line of its own, a bracket comment after a space.
pub open spec fn flow_scan(v: Seq<FormattedArg>, k: int, cur: int, started: bool, fi: int, lw: int) -> Seq<PrintModel>
    decreases v.len() - k,
{
    if k < 0 || k >= v.len() {
        seq![]
    } else {
        let a = v[k];
        let t = text_bytes(a);
        let it = inline_text(a);
        if is_comment(a) {
            seq![PrintModel::NewLine] + raw_items(it) + flow_scan(v, k + 1, fi, false, fi, lw)
        } else {
            let nl = t.contains(10u8);
            let st1 = started && !nl;
            let cur1 = if nl && started { fi } else { cur };
            let needed: int = if st1 { 1 + it.len() as int } else { it.len() as int };
            let wrap = st1 && cur1 + needed > lw;
            let st2 = st1 && !wrap;
            let cur2 = if wrap { fi } else { cur1 };
            let sep = if st2 { seq![PrintModel::Space] } else { seq![PrintModel::NewLine] };
            if nl {
                sep + bracket_items(t) + flow_scan(v, k + 1, fi, false, fi, lw)
            } else {
                sep + raw_items(it) + match a.trailing_comment {
                    Some(c) => (if a.trailing_is_bracket { seq![PrintModel::Space] } else { seq![PrintModel::NewLine] })
                        + raw_items(sbytes(c)) + flow_scan(v, k + 1, fi, false, fi, lw),
                    None => flow_scan(v, k + 1, cur2 + needed, true, fi, lw),
                }
            }
        }
    }
}

/// The values of a flow keyword packed onto lines (see `flow_scan`), new
/// lines one indent in from `base_indent`; one level further in when
/// `indent` is set.
pub open spec fn flow_items(v: Seq<FormattedArg>, config: Configuration, base_indent: int, indent: bool) -> Seq<PrintModel> {
    let fi = base_indent + config.indent_width;
    let body = flow_scan(v, 0, fi, false, fi, config.line_width as int);
    if indent { seq![PrintModel::StartIndent] + body + seq![PrintModel::FinishIndent] } else { body }
}

/// See `flow_items`.
pub fn emit_flow_values(items: &mut Vec<PrintItem>, values: &Vec<FormattedArg>, config: &Configuration, base_indent: usize, indent: bool)
    requires
        base_indent + config.indent_width + flow_total(values@) <= usize::MAX,
    ensures
        items_model(final(items)@) == items_model(old(items)@) + flow_items(values@, *config, base_indent as int, indent),
{
    let ghost v = values@;
    proof {
        lemma_flow_total_nonneg(v);
    }
    let flow_indent = base_indent + config.indent_width as usize;
    let ghost fi = flow_indent as int;
    let ghost lw = config.line_width as int;
    let ghost target = flow_scan(v, 0, fi, false, fi, lw);
    let mut val_items: Vec<PrintItem> = Vec::new();
    let mut current: usize = flow_indent;
    let mut started = false;
    let mut k: usize = 0;
    proof {
        assert(v.take(0) =~= Seq::<FormattedArg>::empty());
        assert(items_model(val_items@) =~= Seq::<PrintModel>::empty());
    }
    while k < values.len()
        invariant
            k <= values@.len(),
            v == values@,
            fi == flow_indent,
            lw == config.line_width,
            flow_indent + flow_total(v) <= usize::MAX,
            fi <= current <= fi + flow_total(v.take(k as int)),
            items_model(val_items@) + flow_scan(v, k as int, current as int, started, fi, lw) == target,
        decreases values@.len() - k,
    {
        proof {
            lemma_flow_total_prefix(v, k as int);
        }
        let a = &values[k];
        let t = a.text.as_str().as_bytes();
        proof {
            assert(t@ == text_bytes(v[k as int]));
        }
        let mut it: Vec<u8> = Vec::new();
        push_inline_text(&mut it, a);
        proof {
            assert(it@ =~= inline_text(v[k as int]));
        }
        let w = it.len();
        let ghost before = items_model(val_items@);
        if t.len() > 0 && t[0] == 35u8 {
            push_model(&mut val_items, PrintItem::NewLine);
            gen_from_raw_string(&mut val_items, it.as_slice());
            proof {
                assert(items_model(val_items@) + flow_scan(v, k + 1, fi, false, fi, lw) =~= before + flow_scan(v, k as int, current as int, started, fi, lw));
            }
            current = flow_indent;
            started = false;
            k = k + 1;
            continue;
        }
        let mut nl = false;
        let mut q: usize = 0;
        while q < t.len()
            invariant
                q <= t@.len(),
                nl == exists|j: int| 0 <= j < q && t@[j] == 10u8,
            decreases t@.len() - q,
        {
            if t[q] == 10u8 {
                nl = true;
            }
            q = q + 1;
        }
        proof {
            assert(nl == t@.contains(10u8));
        }
        let cur1 = if nl && started { flow_indent } else { current };
        let st1 = started && !nl;
        let needed = if st1 { 1 + w } else { w };
        let wrap = st1 && cur1 + needed > config.line_width as usize;
        let st2 = st1 && !wrap;
        let cur2 = if wrap { flow_indent } else { cur1 };
        if st2 {
            push_model(&mut val_items, PrintItem::Space);
        } else {
            push_model(&mut val_items, PrintItem::NewLine);
        }
        let ghost mid = items_model(val_items@);
        if nl {
            emit_bracket_verbatim(&mut val_items, t);
            proof {
                assert(items_model(val_items@) + flow_scan(v, k + 1, fi, false, fi, lw) =~= before + flow_scan(v, k as int, current as int, started, fi, lw));
            }
            current = flow_indent;
            started = false;
        } else {
            gen_from_raw_string(&mut val_items, it.as_slice());
            match &a.trailing_comment {
                Some(c) => {
                    if a.trailing_is_bracket {
                        push_model(&mut val_items, PrintItem::Space);
                    } else {
                        push_model(&mut val_items, PrintItem::NewLine);
                    }
                    let cb = c.as_str().as_bytes();
                    proof {
                        assert(cb@ == sbytes(*c));
                    }
                    gen_from_raw_string(&mut val_items, cb);
                    proof {
                        assert(items_model(val_items@) + flow_scan(v, k + 1, fi, false, fi, lw) =~= before + flow_scan(v, k as int, current as int, started, fi, lw));
                    }
                    current = flow_indent;
                    started = false;
                },
                None => {
                    proof {
                        assert(items_model(val_items@) + flow_scan(v, k + 1, cur2 + needed, true, fi, lw) =~= before + flow_scan(v, k as int, current as int, started, fi, lw));
                    }
                    current = cur2 + needed;
                    started = true;
                },
            }
        }
        k = k + 1;
    }
    let ghost m0 = items_model(items@);
    if indent {
        push_model(items, PrintItem::StartIndent);
    }
    let ghost mb = items_model(items@);
    let mut body = val_items;
    items.append(&mut body);
    proof {
        assert(items_model(items@) =~= mb + target);
    }
    if indent {
        push_model(items, PrintItem::FinishIndent);
    }
    proof {
        assert(items_model(items@) =~= m0 + flow_items(v, *config, base_indent as int, indent));
    }
}


/// An argument that forces a command onto several lines: one with a trailing
/// line comment, one whose text spans lines, or a comment.
pub open spec fn forces_lines(a: FormattedArg) -> bool {
    (a.trailing_comment is Some && !a.trailing_is_bracket) || text_bytes(a).contains(10u8) || is_comment(a)
}

/// Two of the arguments are marked as keywords.
pub open spec fn two_keywords(args: Seq<FormattedArg>) -> bool {
    exists|i: int, j: int| 0 <= i < j < args.len() && (#[trigger] args[i]).is_keyword && (#[trigger] args[j]).is_keyword
}

/// The command's keywords open sections: for a known command, its signature
/// has sections or a keyword argument names a section or custom keyword;
/// otherwise a keyword argument is a custom keyword.
pub open spec fn opens_sections(args: Seq<FormattedArg>, config: Configuration, kind: Option<CommandKind>) -> bool {
    match kind {
        Some(CommandKind::Known(spec)) => spec.sections@.len() > 0
            || exists|k: int| 0 <= k < args.len() && (#[trigger] args[k]).is_keyword
                && (names_section(args[k], spec) || custom_holds(args[k], config)),
        _ => config.custom_keywords@.len() > 0
            && exists|k: int| 0 <= k < args.len() && (#[trigger] args[k]).is_keyword && custom_holds(args[k], config),
    }
}

/// An argument's text on a single line: its inline text, in the keyword case
/// when it is cased as a keyword, else in the literal case when it is an
/// unquoted, non-bracket literal; unchanged for an unknown command without
/// custom keywords.
pub open spec fn single_text(args: Seq<FormattedArg>, i: int, config: Configuration, kind: Option<CommandKind>) -> Seq<u8> {
    let a = args[i];
    let t = inline_text(a);
    let kw = match kind {
        Some(CommandKind::Known(spec)) => keyword_positions_spec(args, spec).contains(i as usize),
        _ => a.is_keyword,
    };
    let casing = kind is Some || config.custom_keywords@.len() > 0;
    if !casing {
        t
    } else if kw {
        cased(t, config.keyword_case)
    } else if !a.is_bracket && !starts(t, 34u8) && !starts(t, 35u8) && names_hold(literal_list(), t) {
        cased(t, config.literal_case)
    } else {
        t
    }
}

/// The arguments on one line from `i` on, separated by spaces.
pub open spec fn single_items(args: Seq<FormattedArg>, i: int, config: Configuration, kind: Option<CommandKind>) -> Seq<PrintModel>
    decreases args.len() - i,
{
    if i < 0 || i >= args.len() {
        seq![]
    } else {
        (if i > 0 { seq![PrintModel::Space] } else { seq![] }) + raw_items(single_text(args, i, config, kind))
            + single_items(args, i + 1, config, kind)
    }
}

/// Whether the command goes on one line, and its arguments' items if so:
/// never when not allowed, when an argument forces lines, or when sections
/// would be separated by blank lines; otherwise unless the line (indent,
/// name, parenthesis, arguments, parenthesis) passes the line width (or just
/// fills it with no keyword argument) and nothing keeps it on one line: an
/// `if`, `while` or `elseif` header, a name or argument longer than a line
/// (an argument holding no generator expression), or an indent past the
/// line width or at least half of it.
pub open spec fn single_line_spec(name: Seq<u8>, args: Seq<FormattedArg>, config: Configuration, indent_depth: int, allow: bool, kind: Option<CommandKind>) -> Option<Seq<PrintModel>> {
    let base = indent_depth * config.indent_width;
    let lw = config.line_width as int;
    let total = base + name.len() + 1 + run_width(args) + 1;
    let keep = ci_eq(name, "if".spec_bytes()) || ci_eq(name, "while".spec_bytes()) || ci_eq(name, "elseif".spec_bytes());
    let has_kw = exists|k: int| 0 <= k < args.len() && (#[trigger] args[k]).is_keyword;
    let unbreakable = name.len() > lw
        || exists|k: int| 0 <= k < args.len() && (#[trigger] inline_text(args[k])).len() > lw && !holds_genex(inline_text(args[k]));
    if !allow
        || (exists|k: int| 0 <= k < args.len() && forces_lines(#[trigger] args[k]))
        || (config.blank_line_between_sections && two_keywords(args) && opens_sections(args, config, kind))
        || (!keep && ((total > lw && !unbreakable) || (!has_kw && total == lw)) && !(base > lw) && !(2 * base >= lw)) {
        None
    } else {
        Some(single_items(args, 0, config, kind))
    }
}

fn vec_contains(v: &Vec<usize>, x: usize) -> (r: bool)
    ensures
        r == v@.contains(x),
{
    let mut k: usize = 0;
    while k < v.len()
        invariant
            k <= v@.len(),
            forall|q: int| 0 <= q < k ==> v@[q] != x,
        decreases v@.len() - k,
    {
        if v[k] == x {
            assert(v@[k as int] == x);
            return true;
        }
        k = k + 1;
    }
    false
}

/// See `single_text`.
fn single_arg_text(args: &Vec<FormattedArg>, i: usize, config: &Configuration, cmd_kind: Option<&CommandKind>, positions: &Vec<usize>) -> (r: Vec<u8>)
    requires
        i < args@.len(),
        cmd_kind matches Some(CommandKind::Known(spec)) ==> positions@ == keyword_positions_spec(args@, *spec),
    ensures
        r@ == single_text(args@, i as int, *config, match cmd_kind { Some(k) => Some(*k), None => None }),
{
    let a = &args[i];
    let mut t: Vec<u8> = Vec::new();
    push_inline_text(&mut t, a);
    proof {
        assert(t@ =~= inline_text(args@[i as int]));
    }
    let casing = cmd_kind.is_some() || config.custom_keywords.len() > 0;
    if !casing {
        return t;
    }
    let kw = match cmd_kind {
        Some(CommandKind::Known(_)) => vec_contains(positions, i),
        _ => a.is_keyword,
    };
    let tb = t.as_slice();
    let style: Option<CaseStyle> = if kw {
        Some(config.keyword_case)
    } else if !a.is_bracket && !(tb.len() > 0 && tb[0] == 34u8) && !(tb.len() > 0 && tb[0] == 35u8) && crate::arg_groups::any_name(&crate::casing::literal_tokens(), tb) {
        Some(config.literal_case)
    } else {
        None
    };
    match style {
        Some(c) => {
            let r = match c {
                CaseStyle::Lower => crate::text::to_lower_vec(tb),
                CaseStyle::Upper => crate::text::to_upper_vec(tb),
                CaseStyle::Preserve => vstd::slice::slice_to_vec(tb),
            };
            r
        },
        None => t,
    }
}

/// See `single_line_spec`.
#[verifier::rlimit(80)]
pub fn try_single_line(
    cmd_name: &str,
    args: &Vec<FormattedArg>,
    config: &Configuration,
    indent_depth: u32,
    allow_single_line: bool,
    cmd_kind: Option<&CommandKind>,
) -> (r: Option<Vec<PrintItem>>)
    requires
        args@.len() < usize::MAX,
        indent_depth * config.indent_width + cmd_name.spec_bytes().len() + 2 + run_width(args@) <= usize::MAX,
    ensures
        match r {
            Some(v) => single_line_spec(cmd_name.spec_bytes(), args@, *config, indent_depth as int, allow_single_line,
                match cmd_kind { Some(k) => Some(*k), None => None }) == Some(items_model(v@)),
            None => single_line_spec(cmd_name.spec_bytes(), args@, *config, indent_depth as int, allow_single_line,
                match cmd_kind { Some(k) => Some(*k), None => None }) is None,
        },
{
    let ghost kind = match cmd_kind { Some(k) => Some(*k), None => None };
    let ghost spec_r = single_line_spec(cmd_name.spec_bytes(), args@, *config, indent_depth as int, allow_single_line, kind);
    if !allow_single_line {
        return None;
    }
    let n = args.len();
    let mut i: usize = 0;
    while i < n
        invariant
            n == args@.len(),
            i <= n,
            forall|k: int| 0 <= k < i ==> !forces_lines(#[trigger] args@[k]),
        decreases n - i,
    {
        let a = &args[i];
        let t = a.text.as_str().as_bytes();
        proof {
            assert(t@ == text_bytes(args@[i as int]));
        }
        let line_comment = match &a.trailing_comment {
            Some(_) => !a.trailing_is_bracket,
            None => false,
        };
        if line_comment || crate::print_items::contains_byte(t, 10u8) || (t.len() > 0 && t[0] == 35u8) {
            proof {
                assert(forces_lines(args@[i as int]));
            }
            return None;
        }
        i = i + 1;
    }
    if config.blank_line_between_sections {
        let mut count: usize = 0;
        let mut first: usize = 0;
        let mut j: usize = 0;
        while j < n && count < 2
            invariant
                n == args@.len(),
                j <= n,
                count <= 2,
                count == 0 ==> forall|q: int| 0 <= q < j ==> !(#[trigger] args@[q]).is_keyword,
                count >= 1 ==> first < j && args@[first as int].is_keyword,
                count >= 1 ==> forall|q: int| 0 <= q < first ==> !(#[trigger] args@[q]).is_keyword,
                count == 1 ==> forall|q: int| first < q < j ==> !(#[trigger] args@[q]).is_keyword,
                count == 2 ==> two_keywords(args@),
            decreases n - j,
        {
            if args[j].is_keyword {
                if count == 1 {
                    proof {
                        assert(args@[first as int].is_keyword && args@[j as int].is_keyword);
                    }
                }
                if count == 0 {
                    first = j;
                }
                count = count + 1;
            }
            j = j + 1;
        }
        proof {
            if count < 2 && two_keywords(args@) {
                let (p, q) = choose|p: int, q: int| 0 <= p < q < args@.len() && (#[trigger] args@[p]).is_keyword && (#[trigger] args@[q]).is_keyword;
                if count == 1 {
                    assert(p >= first);
                }
            }
        }
        if count >= 2 {
            let mut sections = false;
            match cmd_kind {
                Some(CommandKind::Known(spec)) => {
                    sections = spec.sections.len() > 0;
                    let mut k: usize = 0;
                    while k < n
                        invariant
                            n == args@.len(),
                            k <= n,
                            sections == (spec.sections@.len() > 0 || exists|q: int| 0 <= q < k && (#[trigger] args@[q]).is_keyword
                                && (names_section(args@[q], *spec) || custom_holds(args@[q], *config))),
                        decreases n - k,
                    {
                        if args[k].is_keyword && (crate::arg_groups::is_section_keyword(&args[k], spec) || crate::arg_groups::is_custom_keyword(&args[k], config)) {
                            sections = true;
                        }
                        k = k + 1;
                    }
                },
                _ => {
                    if config.custom_keywords.len() > 0 {
                        let mut k: usize = 0;
                        while k < n
                            invariant
                                n == args@.len(),
                                k <= n,
                                config.custom_keywords@.len() > 0,
                                sections == exists|q: int| 0 <= q < k && (#[trigger] args@[q]).is_keyword && custom_holds(args@[q], *config),
                            decreases n - k,
                        {
                            if args[k].is_keyword && crate::arg_groups::is_custom_keyword(&args[k], config) {
                                sections = true;
                            }
                            k = k + 1;
                        }
                    }
                },
            }
            if sections {
                return None;
            }
        }
    }
    proof {
        lemma_run_width_nonneg(args@);
        assert(indent_depth * config.indent_width <= usize::MAX);
    }
    let base = indent_depth as usize * config.indent_width as usize;
    let lw = config.line_width as usize;
    let name_len = cmd_name.as_bytes().len();
    let mut args_width: usize = 0;
    let mut has_kw = false;
    let mut unbreakable = name_len > lw;
    proof {
        lemma_run_width_nonneg(args@);
    }
    let mut k: usize = 0;
    while k < n
        invariant
            n == args@.len(),
            k <= n,
            indent_depth * config.indent_width + name_len + 2 + run_width(args@) <= usize::MAX,
            name_len == cmd_name.spec_bytes().len(),
            lw == config.line_width,
            args_width == run_width(args@.take(k as int)),
            has_kw == exists|q: int| 0 <= q < k && (#[trigger] args@[q]).is_keyword,
            unbreakable == (name_len > lw || exists|q: int| 0 <= q < k && (#[trigger] inline_text(args@[q])).len() > lw && !holds_genex(inline_text(args@[q]))),
        decreases n - k,
    {
        proof {
            lemma_run_width_prefix(args@, k + 1);
            if k > 0 {
                lemma_run_width_step(args@, k as int);
            } else {
                assert(args@.take(1) =~= seq![args@[0]]);
                assert(args@.take(0) =~= Seq::<FormattedArg>::empty());
            }
        }
        let w = arg_width(&args[k]);
        args_width = if k > 0 { args_width + 1 + w } else { w };
        if args[k].is_keyword {
            has_kw = true;
        }
        if w > lw {
            let mut it: Vec<u8> = Vec::new();
            push_inline_text(&mut it, &args[k]);
            let needle: Vec<u8> = vec![36u8, 60u8];
            proof {
                assert(needle@ =~= seq![36u8, 60u8]);
                assert(it@ =~= inline_text(args@[k as int]));
            }
            let found = crate::bytes::find_subslice(it.as_slice(), needle.as_slice());
            proof {
                if let Some(x) = found {
                    assert(crate::bytes::occurs_at(it@, seq![36u8, 60u8], x as int));
                }
            }
            if found.is_none() {
                unbreakable = true;
            }
        }
        k = k + 1;
    }
    proof {
        assert(args@.take(n as int) =~= args@);
    }
    let total = base + name_len + 1 + args_width + 1;
    let keep = crate::text::eq_ci(cmd_name.as_bytes(), "if".as_bytes()) || crate::text::eq_ci(cmd_name.as_bytes(), "while".as_bytes())
        || crate::text::eq_ci(cmd_name.as_bytes(), "elseif".as_bytes());
    let deep = if base > lw { true } else { base >= lw - base };
    if !keep && ((total > lw && !unbreakable) || (!has_kw && total == lw)) && !(base > lw) && !deep {
        return None;
    }
    let positions = match cmd_kind {
        Some(CommandKind::Known(spec)) => compute_keyword_positions(args, spec),
        _ => Vec::new(),
    };
    let mut items: Vec<PrintItem> = Vec::new();
    let mut q: usize = 0;
    proof {
        assert(items_model(items@) =~= Seq::<PrintModel>::empty());
    }
    while q < n
        invariant
            n == args@.len(),
            q <= n,
            cmd_kind matches Some(CommandKind::Known(spec)) ==> positions@ == keyword_positions_spec(args@, *spec),
            kind == (match cmd_kind { Some(k) => Some(*k), None => None }),
            items_model(items@) + single_items(args@, q as int, *config, kind) == single_items(args@, 0, *config, kind),
        decreases n - q,
    {
        let ghost before = items_model(items@);
        if q > 0 {
            push_model(&mut items, PrintItem::Space);
        }
        let t = single_arg_text(args, q, config, cmd_kind, &positions);
        gen_from_raw_string(&mut items, t.as_slice());
        proof {
            assert(items_model(items@) + single_items(args@, q + 1, *config, kind) =~= before + single_items(args@, q as int, *config, kind));
        }
        q = q + 1;
    }
    Some(items)
}

} // verus!
