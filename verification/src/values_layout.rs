//! The values of a property keyword: the property's name, then its values.
use vstd::prelude::*;
use vstd::string::StringSliceAdditionalSpecFns;

use crate::arg_groups::{text_bytes, FormattedArg};
use crate::config::Configuration;
use crate::emit_args::{arg_items, emit_arg, starts};
use crate::load::sbytes;
use crate::print_items::{gen_from_raw_string, item_model, items_model, raw_items, PrintItem, PrintModel};
use crate::widths::{arg_inline_text, inline_text};

verus! {

/// How many of the arguments are not comments.
pub open spec fn real_count(v: Seq<FormattedArg>) -> int
    decreases v.len(),
{
    if v.len() == 0 {
        0
    } else {
        real_count(v.drop_last()) + if starts(text_bytes(v.last()), 35u8) { 0int } else { 1int }
    }
}

/// The first argument from `k` on that is not a comment.
pub open spec fn first_real(v: Seq<FormattedArg>, k: int) -> Option<int>
    decreases v.len() - k,
{
    if k < 0 || k >= v.len() {
        None
    } else if !starts(text_bytes(v[k]), 35u8) {
        Some(k)
    } else {
        first_real(v, k + 1)
    }
}

/// The comments among the arguments from `k` on, each on a new line as raw
/// text.
pub open spec fn comment_lines_of(v: Seq<FormattedArg>, k: int) -> Seq<PrintModel>
    decreases v.len() - k,
{
    if k < 0 || k >= v.len() {
        seq![]
    } else {
        (if starts(text_bytes(v[k]), 35u8) { seq![PrintModel::NewLine] + raw_items(text_bytes(v[k])) } else { seq![] })
            + comment_lines_of(v, k + 1)
    }
}

/// The arguments from `k` on, each on a new line.
pub open spec fn arg_lines(v: Seq<FormattedArg>, k: int, config: Configuration) -> Seq<PrintModel>
    decreases v.len() - k,
{
    if k < 0 || k >= v.len() {
        seq![]
    } else {
        seq![PrintModel::NewLine] + arg_items(v[k], None, config.literal_case) + arg_lines(v, k + 1, config)
    }
}

/// Items one level further in.
pub open spec fn indented(s: Seq<PrintModel>) -> Seq<PrintModel> {
    seq![PrintModel::StartIndent] + s + seq![PrintModel::FinishIndent]
}

/// A trailing comment as raw text after `lead`.
pub open spec fn comment_after(a: FormattedArg, lead: PrintModel) -> Seq<PrintModel> {
    match a.trailing_comment {
        Some(c) => seq![lead] + raw_items(sbytes(c)),
        None => seq![],
    }
}

pub open spec fn line_commented(a: FormattedArg) -> bool {
    a.trailing_comment is Some && !a.trailing_is_bracket
}

/// A property's name and single value on one line, one level in from
/// `base`: when they fit within the line width, neither text holds a line
/// break and neither has a trailing line comment.
pub open spec fn pair_fits(name: FormattedArg, val: FormattedArg, config: Configuration, base: int) -> bool {
    &&& base + config.indent_width + inline_text(name).len() + 1 + inline_text(val).len() <= config.line_width
    &&& !text_bytes(name).contains(10u8)
    &&& !text_bytes(val).contains(10u8)
    &&& !line_commented(name)
    &&& !line_commented(val)
}

/// A property keyword's values, one level in: with a single value (comments
/// aside) that fits, the name and the value on one line (the name's comment
/// after them, the value's on the next line, then the comments); with no
/// value, the name and then the comments; else the name, then every value on
/// a line of its own one more level in.
pub open spec fn property_items(values: Seq<FormattedArg>, config: Configuration, base: int) -> Seq<PrintModel> {
    if values.len() == 0 {
        seq![]
    } else {
        let name = values[0];
        let pv = values.subrange(1, values.len() as int);
        let rc = real_count(pv);
        let expanded = indented(seq![PrintModel::NewLine] + arg_items(name, None, config.literal_case) + indented(arg_lines(pv, 0, config)));
        if rc <= 1 {
            match first_real(pv, 0) {
                Some(j) => {
                    let val = pv[j];
                    if pair_fits(name, val, config, base) {
                        indented(seq![PrintModel::NewLine] + raw_items(inline_text(name)) + seq![PrintModel::Space]
                            + raw_items(inline_text(val)) + comment_after(name, PrintModel::Space)
                            + comment_after(val, PrintModel::NewLine) + comment_lines_of(pv, 0))
                    } else {
                        expanded
                    }
                },
                None => indented(seq![PrintModel::NewLine] + arg_items(name, None, config.literal_case) + comment_lines_of(pv, 0)),
            }
        } else {
            expanded
        }
    }
}

fn push_model(items: &mut Vec<PrintItem>, p: PrintItem)
    ensures
        items_model(final(items)@) == items_model(old(items)@).push(item_model(p)),
{
    items.push(p);
    proof {
        assert(items_model(items@) =~= items_model(old(items)@).push(item_model(p)));
    }
}

fn is_comment_arg(a: &FormattedArg) -> (r: bool)
    ensures
        r == starts(text_bytes(*a), 35u8),
{
    let t = a.text.as_str().as_bytes();
    proof {
        assert(t@ == text_bytes(*a));
    }
    t.len() > 0 && t[0] == 35u8
}

fn text_has_newline(a: &FormattedArg) -> (r: bool)
    ensures
        r == text_bytes(*a).contains(10u8),
{
    let t = a.text.as_str().as_bytes();
    proof {
        assert(t@ == text_bytes(*a));
    }
    let mut i: usize = 0;
    while i < t.len()
        invariant
            i <= t@.len(),
            t@ == text_bytes(*a),
            forall|k: int| 0 <= k < i ==> t@[k] != 10u8,
        decreases t@.len() - i,
    {
        if t[i] == 10u8 {
            proof {
                assert(t@[i as int] == 10u8);
            }
            return true;
        }
        i = i + 1;
    }
    false
}

fn push_comment_after(items: &mut Vec<PrintItem>, a: &FormattedArg, lead: PrintItem)
    ensures
        items_model(final(items)@) == items_model(old(items)@) + comment_after(*a, item_model(lead)),
{
    match &a.trailing_comment {
        Some(c) => {
            push_model(items, lead);
            let cb = c.as_str().as_bytes();
            proof {
                assert(cb@ == sbytes(*c));
            }
            gen_from_raw_string(items, cb);
        },
        None => {
            proof {
                assert(items_model(items@) =~= items_model(old(items)@) + seq![]);
            }
        },
    }
}

proof fn lemma_real_count_first(v: Seq<FormattedArg>, k: int)
    requires
        0 <= k <= v.len(),
        forall|q: int| 0 <= q < k ==> starts(text_bytes(#[trigger] v[q]), 35u8),
    ensures
        real_count(v.take(k)) == 0,
    decreases k,
{
    if k > 0 {
        assert(v.take(k).drop_last() =~= v.take(k - 1));
        lemma_real_count_first(v, k - 1);
    }
}

/// See `property_items`.
#[verifier::rlimit(100)]
pub fn emit_property_values(items: &mut Vec<PrintItem>, values: &Vec<FormattedArg>, config: &Configuration, base_indent: usize)
    ensures
        items_model(final(items)@) == items_model(old(items)@) + property_items(values@, *config, base_indent as int),
{
    let ghost m0 = items_model(items@);
    let n = values.len();
    if n == 0 {
        proof {
            assert(items_model(items@) =~= m0 + seq![]);
        }
        return;
    }
    let ghost pv = values@.subrange(1, n as int);
    // count the values that are not comments (up to two) and find the first
    let mut count: usize = 0;
    let mut first: Option<usize> = None;
    let mut k: usize = 1;
    while k < n
        invariant
            1 <= k <= n == values@.len(),
            pv == values@.subrange(1, n as int),
            count as int == real_count(pv.take(k - 1)),
            count <= k - 1,
            match first {
                Some(j) => 1 <= j < k && first_real(pv, 0) == Some(j - 1),
                None => forall|q: int| 0 <= q < k - 1 ==> starts(text_bytes(#[trigger] pv[q]), 35u8),
            },
        decreases n - k,
    {
        proof {
            assert(pv.take(k as int).drop_last() =~= pv.take(k - 1));
            assert(pv[k - 1] == values@[k as int]);
        }
        if !is_comment_arg(&values[k]) {
            count = count + 1;
            if first.is_none() {
                first = Some(k);
                proof {
                    lemma_first_real_skip(pv, 0, k - 1);
                }
            }
        }
        k = k + 1;
    }
    proof {
        assert(pv.take(n - 1) =~= pv);
        if first is None {
            lemma_first_real_none(pv, 0);
        }
    }
    let name = &values[0];
    let ghost expanded = indented(seq![PrintModel::NewLine] + arg_items(*name, None, config.literal_case) + indented(arg_lines(pv, 0, *config)));
    if count <= 1 {
        match first {
            Some(j) => {
                let val = &values[j];
                let ni = arg_inline_text(name);
                let vi = arg_inline_text(val);
                let lw = config.line_width as u64;
                let w = (base_indent as u64).saturating_add(config.indent_width as u64).saturating_add(ni.len() as u64)
                    .saturating_add(1).saturating_add(vi.len() as u64);
                let fits = w <= lw && !text_has_newline(name) && !text_has_newline(val)
                    && !(name.trailing_comment.is_some() && !name.trailing_is_bracket)
                    && !(val.trailing_comment.is_some() && !val.trailing_is_bracket);
                proof {
                    assert(pv[j - 1] == values@[j as int]);
                }
                if fits {
                    push_model(items, PrintItem::StartIndent);
                    push_model(items, PrintItem::NewLine);
                    gen_from_raw_string(items, ni.as_slice());
                    push_model(items, PrintItem::Space);
                    gen_from_raw_string(items, vi.as_slice());
                    push_comment_after(items, name, PrintItem::Space);
                    push_comment_after(items, val, PrintItem::NewLine);
                    emit_comment_lines(items, values, 1);
                    push_model(items, PrintItem::FinishIndent);
                    proof {
                        assert(items_model(items@) =~= m0 + property_items(values@, *config, base_indent as int));
                    }
                    return;
                }
            },
            None => {
                push_model(items, PrintItem::StartIndent);
                push_model(items, PrintItem::NewLine);
                emit_arg(items, name, config);
                emit_comment_lines(items, values, 1);
                push_model(items, PrintItem::FinishIndent);
                proof {
                    assert(items_model(items@) =~= m0 + property_items(values@, *config, base_indent as int));
                }
                return;
            },
        }
    }
    push_model(items, PrintItem::StartIndent);
    push_model(items, PrintItem::NewLine);
    emit_arg(items, name, config);
    push_model(items, PrintItem::StartIndent);
    emit_arg_lines(items, values, 1, config);
    push_model(items, PrintItem::FinishIndent);
    push_model(items, PrintItem::FinishIndent);
    proof {
        assert(items_model(items@) =~= m0 + property_items(values@, *config, base_indent as int));
    }
}

proof fn lemma_first_real_skip(v: Seq<FormattedArg>, k: int, j: int)
    requires
        0 <= k <= j < v.len(),
        forall|q: int| k <= q < j ==> starts(text_bytes(#[trigger] v[q]), 35u8),
        !starts(text_bytes(v[j]), 35u8),
    ensures
        first_real(v, k) == Some(j),
    decreases j - k,
{
    if k < j {
        lemma_first_real_skip(v, k + 1, j);
    }
}

proof fn lemma_first_real_none(v: Seq<FormattedArg>, k: int)
    requires
        0 <= k <= v.len(),
        forall|q: int| k <= q < v.len() ==> starts(text_bytes(#[trigger] v[q]), 35u8),
    ensures
        first_real(v, k) is None,
    decreases v.len() - k,
{
    if k < v.len() {
        lemma_first_real_none(v, k + 1);
    }
}

/// The comments among `values[from..]` (see `comment_lines_of`).
fn emit_comment_lines(items: &mut Vec<PrintItem>, values: &Vec<FormattedArg>, from: usize)
    requires
        1 <= from <= values@.len(),
    ensures
        items_model(final(items)@) == items_model(old(items)@) + comment_lines_of(values@.subrange(from as int, values@.len() as int), 0),
{
    let ghost v = values@.subrange(from as int, values@.len() as int);
    let ghost m0 = items_model(items@);
    let mut k: usize = from;
    while k < values.len()
        invariant
            from <= k <= values@.len(),
            v == values@.subrange(from as int, values@.len() as int),
            items_model(items@) + comment_lines_of(v, k - from) == m0 + comment_lines_of(v, 0),
        decreases values@.len() - k,
    {
        let ghost before = items_model(items@);
        proof {
            assert(v[k - from] == values@[k as int]);
        }
        if is_comment_arg(&values[k]) {
            push_model(items, PrintItem::NewLine);
            let t = values[k].text.as_str().as_bytes();
            proof {
                assert(t@ == text_bytes(values@[k as int]));
            }
            gen_from_raw_string(items, t);
        }
        proof {
            assert(items_model(items@) + comment_lines_of(v, k + 1 - from) =~= before + comment_lines_of(v, k - from));
        }
        k = k + 1;
    }
    proof {
        assert(items_model(items@) =~= items_model(items@) + comment_lines_of(v, k - from));
    }
}

/// The arguments `values[from..]`, each on a new line (see `arg_lines`).
fn emit_arg_lines(items: &mut Vec<PrintItem>, values: &Vec<FormattedArg>, from: usize, config: &Configuration)
    requires
        1 <= from <= values@.len(),
    ensures
        items_model(final(items)@) == items_model(old(items)@) + arg_lines(values@.subrange(from as int, values@.len() as int), 0, *config),
{
    let ghost v = values@.subrange(from as int, values@.len() as int);
    let ghost m0 = items_model(items@);
    let mut k: usize = from;
    while k < values.len()
        invariant
            from <= k <= values@.len(),
            v == values@.subrange(from as int, values@.len() as int),
            items_model(items@) + arg_lines(v, k - from, *config) == m0 + arg_lines(v, 0, *config),
        decreases values@.len() - k,
    {
        let ghost before = items_model(items@);
        proof {
            assert(v[k - from] == values@[k as int]);
        }
        push_model(items, PrintItem::NewLine);
        emit_arg(items, &values[k], config);
        proof {
            assert(items_model(items@) + arg_lines(v, k + 1 - from, *config) =~= before + arg_lines(v, k - from, *config));
        }
        k = k + 1;
    }
    proof {
        assert(items_model(items@) =~= items_model(items@) + arg_lines(v, k - from, *config));
    }
}

} // verus!
