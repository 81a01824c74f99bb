//! How wide arguments print on one line, and whether a run of them fits.
use vstd::prelude::*;
use vstd::string::StringSliceAdditionalSpecFns;

use crate::arg_groups::{is_comment, text_bytes, FormattedArg};
use crate::config::Configuration;
use crate::load::sbytes;
use crate::text::{ci_eq, eq_bytes, eq_ci};

verus! {

/// An argument printed inline: its text, or for a parenthesized group the
/// inner arguments inline, separated by single spaces, inside parentheses.
pub open spec fn inline_text(a: FormattedArg) -> Seq<u8>
    decreases a, 0int,
{
    if a.is_paren_group {
        seq![40u8] + joined(a.paren_inner, 0) + seq![41u8]
    } else {
        text_bytes(a)
    }
}

/// The arguments from index `i` on, inline, separated by single spaces.
pub open spec fn joined(v: Vec<FormattedArg>, i: int) -> Seq<u8>
    decreases v, v@.len() - i,
{
    if i < 0 || i >= v@.len() {
        seq![]
    } else if i + 1 == v@.len() {
        inline_text(v@[i])
    } else {
        inline_text(v@[i]) + seq![32u8] + joined(v, i + 1)
    }
}

/// The width of an argument printed inline: the length of `inline_text`.
pub fn arg_width(a: &FormattedArg) -> (r: usize)
    requires
        inline_text(*a).len() <= usize::MAX,
    ensures
        r == inline_text(*a).len(),
    decreases *a, 0int,
{
    if a.is_paren_group {
        let inner = joined_width(&a.paren_inner, 0);
        inner + 2
    } else {
        a.text.as_str().as_bytes().len()
    }
}

fn joined_width(v: &Vec<FormattedArg>, i: usize) -> (r: usize)
    requires
        i <= v@.len(),
        joined(*v, i as int).len() + 2 <= usize::MAX,
    ensures
        r == joined(*v, i as int).len(),
    decreases *v, v@.len() - i,
{
    if i >= v.len() {
        0
    } else if i + 1 == v.len() {
        proof {
            assert(decreases_to!(*v => v@));
            assert(decreases_to!(v@ => v@[i as int]));
        }
        arg_width(&v[i])
    } else {
        proof {
            assert(decreases_to!(*v => v@));
            assert(decreases_to!(v@ => v@[i as int]));
        }
        let w = arg_width(&v[i]);
        let rest = joined_width(v, i + 1);
        w + 1 + rest
    }
}

/// The width of a keyword and its values on one line, with the keyword's
/// trailing comment after them.
pub open spec fn keyword_inline_width(k: FormattedArg, values: Seq<FormattedArg>) -> int
    decreases values.len(),
{
    if values.len() == 0 {
        text_bytes(k).len() as int + match k.trailing_comment {
            Some(c) => 1 + sbytes(c).len() as int,
            None => 0int,
        }
    } else {
        keyword_inline_width(k, values.drop_last()) + 1 + inline_text(values.last()).len()
    }
}

/// See `keyword_inline_width`.
pub fn compute_keyword_inline_width(keyword: &FormattedArg, values: &Vec<FormattedArg>) -> (r: usize)
    requires
        keyword_inline_width(*keyword, values@) <= usize::MAX,
    ensures
        r == keyword_inline_width(*keyword, values@),
{
    let mut w: usize = keyword.text.as_str().as_bytes().len();
    let mut i: usize = 0;
    proof {
        lemma_keyword_width_mono(*keyword, values@, 0);
    }
    while i < values.len()
        invariant
            i <= values@.len(),
            keyword_inline_width(*keyword, values@) <= usize::MAX,
            w == keyword_inline_width(*keyword, values@.take(i as int)) - match keyword.trailing_comment {
                Some(c) => 1 + sbytes(c).len() as int,
                None => 0int,
            },
        decreases values@.len() - i,
    {
        proof {
            assert(values@.take(i + 1).drop_last() =~= values@.take(i as int));
            lemma_keyword_width_mono(*keyword, values@, i + 1);
        }
        let vw = arg_width(&values[i]);
        w = w + 1 + vw;
        i = i + 1;
    }
    proof {
        assert(values@.take(values@.len() as int) =~= values@);
    }
    match &keyword.trailing_comment {
        Some(c) => w + 1 + c.as_str().as_bytes().len(),
        None => w,
    }
}

proof fn lemma_keyword_width_mono(k: FormattedArg, values: Seq<FormattedArg>, i: int)
    requires
        0 <= i <= values.len(),
    ensures
        keyword_inline_width(k, values.take(i)) <= keyword_inline_width(k, values),
        i > 0 ==> inline_text(values[i - 1]).len() + 1 + keyword_inline_width(k, values.take(i - 1)) == keyword_inline_width(k, values.take(i)),
        keyword_inline_width(k, values.take(i)) >= text_bytes(k).len(),
    decreases values.len() - i,
{
    if i < values.len() {
        lemma_keyword_width_mono(k, values, i + 1);
        assert(values.take(i + 1).drop_last() =~= values.take(i));
    } else {
        assert(values.take(i) =~= values);
    }
    if i > 0 {
        assert(values.take(i).drop_last() =~= values.take(i - 1));
    }
    lemma_keyword_width_base(k, values.take(i));
}

proof fn lemma_keyword_width_base(k: FormattedArg, values: Seq<FormattedArg>)
    ensures
        keyword_inline_width(k, values) >= text_bytes(k).len(),
    decreases values.len(),
{
    if values.len() > 0 {
        lemma_keyword_width_base(k, values.drop_last());
    }
}

/// The arguments that count for wrapping: all but comments.
pub open spec fn wrap_count(args: Seq<FormattedArg>) -> int
    decreases args.len(),
{
    if args.len() == 0 {
        0
    } else {
        wrap_count(args.drop_last()) + if is_comment(args.last()) { 0int } else { 1int }
    }
}

/// See `wrap_count`.
pub fn count_wrap_arguments(args: &Vec<FormattedArg>) -> (r: usize)
    ensures
        r == wrap_count(args@),
{
    let mut n: usize = 0;
    let mut i: usize = 0;
    while i < args.len()
        invariant
            i <= args@.len(),
            n == wrap_count(args@.take(i as int)),
            n <= i,
        decreases args@.len() - i,
    {
        proof {
            assert(args@.take(i + 1).drop_last() =~= args@.take(i as int));
        }
        let b = args[i].text.as_str().as_bytes();
        if !(b.len() > 0 && b[0] == 35u8) {
            n = n + 1;
        }
        i = i + 1;
    }
    proof {
        assert(args@.take(args@.len() as int) =~= args@);
    }
    n
}

/// An argument that keeps a run from packing on one line: a comment, a text
/// spanning lines, or a trailing line comment.
pub open spec fn blocks_packing(a: FormattedArg) -> bool {
    is_comment(a) || text_bytes(a).contains(10u8) || (a.trailing_comment is Some && !a.trailing_is_bracket)
}

/// The widths of the arguments inline, plus one space between each two.
pub open spec fn run_width(args: Seq<FormattedArg>) -> int
    decreases args.len(),
{
    if args.len() == 0 {
        0
    } else if args.len() == 1 {
        inline_text(args[0]).len() as int
    } else {
        run_width(args.drop_last()) + 1 + inline_text(args.last()).len()
    }
}

pub(crate) proof fn lemma_run_width_step(args: Seq<FormattedArg>, i: int)
    requires
        0 < i < args.len(),
    ensures
        run_width(args.take(i + 1)) == run_width(args.take(i)) + 1 + inline_text(args[i]).len(),
{
    assert(args.take(i + 1).drop_last() =~= args.take(i));
}

pub(crate) proof fn lemma_run_width_prefix(args: Seq<FormattedArg>, i: int)
    requires
        0 <= i <= args.len(),
    ensures
        run_width(args.take(i)) <= run_width(args),
        0 < i ==> inline_text(args[i - 1]).len() <= run_width(args.take(i)),
    decreases args.len() - i,
{
    if i < args.len() {
        lemma_run_width_prefix(args, i + 1);
        if i > 0 {
            lemma_run_width_step(args, i);
        } else {
            assert(args.take(1) =~= seq![args[0]]);
        }
    } else {
        assert(args.take(i) =~= args);
    }
    if i > 1 {
        lemma_run_width_step(args, i - 1);
        lemma_run_width_nonneg(args.take(i - 1));
    } else if i == 1 {
        assert(args.take(1) =~= seq![args[0]]);
    }
}

pub(crate) proof fn lemma_run_width_nonneg(args: Seq<FormattedArg>)
    ensures
        run_width(args) >= 0,
    decreases args.len(),
{
    if args.len() > 1 {
        lemma_run_width_nonneg(args.drop_last());
    }
}

fn has_newline(b: &[u8]) -> (r: bool)
    ensures
        r == b@.contains(10u8),
{
    let mut i: usize = 0;
    while i < b.len()
        invariant
            i <= b@.len(),
            forall|k: int| 0 <= k < i ==> b@[k] != 10u8,
        decreases b@.len() - i,
    {
        if b[i] == 10u8 {
            assert(b@[i as int] == 10u8);
            return true;
        }
        i = i + 1;
    }
    false
}

/// Whether the arguments fit on one line after `prefix_width` columns: none
/// of them blocks packing, and the prefix and the run's width stay within the
/// line width. An empty run always fits.
pub fn can_pack_args_on_line(prefix_width: usize, args: &Vec<FormattedArg>, config: &Configuration) -> (r: bool)
    requires
        prefix_width + run_width(args@) <= usize::MAX,
    ensures
        r == (args@.len() == 0 || ((forall|k: int| 0 <= k < args@.len() ==> !blocks_packing(#[trigger] args@[k]))
            && prefix_width + run_width(args@) <= config.line_width)),
{
    if args.len() == 0 {
        return true;
    }
    let mut i: usize = 0;
    while i < args.len()
        invariant
            i <= args@.len(),
            forall|k: int| 0 <= k < i ==> !blocks_packing(#[trigger] args@[k]),
        decreases args@.len() - i,
    {
        let b = args[i].text.as_str().as_bytes();
        let trailing_line = match &args[i].trailing_comment {
            Some(_) => !args[i].trailing_is_bracket,
            None => false,
        };
        if (b.len() > 0 && b[0] == 35u8) || has_newline(b) || trailing_line {
            assert(blocks_packing(args@[i as int]));
            return false;
        }
        i = i + 1;
    }
    let mut total: usize = 0;
    let mut j: usize = 0;
    proof {
        lemma_run_width_prefix(args@, 1);
    }
    let first = arg_width(&args[0]);
    total = first;
    j = 1;
    proof {
        assert(args@.take(1) =~= seq![args@[0]]);
    }
    while j < args.len()
        invariant
            1 <= j <= args@.len(),
            prefix_width + run_width(args@) <= usize::MAX,
            total == run_width(args@.take(j as int)),
        decreases args@.len() - j,
    {
        proof {
            lemma_run_width_prefix(args@, j + 1);
            lemma_run_width_step(args@, j as int);
        }
        let w = arg_width(&args[j]);
        total = total + 1 + w;
        j = j + 1;
    }
    proof {
        assert(args@.take(args@.len() as int) =~= args@);
    }
    prefix_width + total <= config.line_width as usize
}


/// An ASCII upper-case letter, a digit or `_`.
pub open spec fn upper_word_byte(b: u8) -> bool {
    (65u8 <= b <= 90u8) || (48u8 <= b <= 57u8) || b == 95u8
}

/// An argument whose inline text is made of upper-case letters, digits and
/// `_` only (so not quoted, a generator expression, a comment or a group).
pub open spec fn keyword_like_value(a: FormattedArg) -> bool {
    forall|i: int| 0 <= i < inline_text(a).len() ==> upper_word_byte(#[trigger] inline_text(a)[i])
}

/// The boolean words that never name a property.
pub open spec fn boolean_words() -> Seq<Seq<u8>> {
    seq![
        "ON".spec_bytes(), "OFF".spec_bytes(), "TRUE".spec_bytes(), "FALSE".spec_bytes(), "YES".spec_bytes(),
        "NO".spec_bytes(), "Y".spec_bytes(), "N".spec_bytes(),
    ]
}

/// A keyword-like value that could name a property: not empty and not one
/// of the boolean words `ON`, `OFF`, `TRUE`, `FALSE`, `YES`, `NO`, `Y`, `N`.
pub open spec fn property_key_like(a: FormattedArg) -> bool {
    &&& inline_text(a).len() > 0
    &&& keyword_like_value(a)
    &&& !boolean_words().contains(inline_text(a))
}

fn all_upper_word(b: &[u8]) -> (r: bool)
    ensures
        r == forall|i: int| 0 <= i < b@.len() ==> upper_word_byte(#[trigger] b@[i]),
{
    let mut i: usize = 0;
    while i < b.len()
        invariant
            i <= b@.len(),
            forall|k: int| 0 <= k < i ==> upper_word_byte(#[trigger] b@[k]),
        decreases b@.len() - i,
    {
        let c = b[i];
        if !((65u8 <= c && c <= 90u8) || (48u8 <= c && c <= 57u8) || c == 95u8) {
            assert(!upper_word_byte(b@[i as int]));
            return false;
        }
        i = i + 1;
    }
    true
}

/// See `keyword_like_value`.
pub fn is_keyword_like_value(a: &FormattedArg) -> (r: bool)
    ensures
        r == keyword_like_value(*a),
        a.is_paren_group ==> !r,
{
    if a.is_paren_group {
        assert(inline_text(*a)[0] == 40u8);
        return false;
    }
    let b = a.text.as_str().as_bytes();
    assert(b@ == inline_text(*a));
    all_upper_word(b)
}

/// See `property_key_like`.
pub fn looks_like_property_key(a: &FormattedArg) -> (r: bool)
    ensures
        r == property_key_like(*a),
{
    if !is_keyword_like_value(a) {
        return false;
    }
    let t = a.text.as_str().as_bytes();
    assert(t@ == inline_text(*a));
    let words: Vec<&str> = vec!["ON", "OFF", "TRUE", "FALSE", "YES", "NO", "Y", "N"];
    let ghost ws = boolean_words();
    let mut j: usize = 0;
    while j < words.len()
        invariant
            j <= words@.len() == ws.len() == 8,
            ws == boolean_words(),
            !a.is_paren_group,
            t@ == inline_text(*a),
            forall|k: int| 0 <= k < words@.len() ==> (#[trigger] words@[k]).spec_bytes() == ws[k],
            forall|k: int| 0 <= k < j ==> ws[k] != t@,
        decreases words@.len() - j,
    {
        if eq_bytes(words[j].as_bytes(), t) {
            assert(ws[j as int] == t@);
            assert(ws.contains(t@));
            return false;
        }
        j = j + 1;
    }
    proof {
        if ws.contains(t@) {
            let k = choose|k: int| 0 <= k < ws.len() && ws[k] == t@;
            assert(ws[k] != t@);
        }
    }
    t.len() > 0
}


/// Whether a run of positional arguments is a candidate for one-line
/// alignment: not empty, no comments and no text spanning lines, and either
/// the command is `install` or the first argument is keyword-like.
pub fn is_one_line_alignment_candidate(cmd_name: &str, args: &Vec<FormattedArg>) -> (r: bool)
    ensures
        r == (args@.len() > 0
            && (forall|k: int| 0 <= k < args@.len() ==> !is_comment(#[trigger] args@[k]) && !text_bytes(args@[k]).contains(10u8))
            && (ci_eq(cmd_name.spec_bytes(), "install".spec_bytes()) || keyword_like_value(args@[0]))),
{
    if args.len() == 0 {
        return false;
    }
    let mut i: usize = 0;
    while i < args.len()
        invariant
            i <= args@.len(),
            forall|k: int| 0 <= k < i ==> !is_comment(#[trigger] args@[k]) && !text_bytes(args@[k]).contains(10u8),
        decreases args@.len() - i,
    {
        let b = args[i].text.as_str().as_bytes();
        if (b.len() > 0 && b[0] == 35u8) || has_newline(b) {
            return false;
        }
        i = i + 1;
    }
    eq_ci(cmd_name.as_bytes(), "install".as_bytes()) || is_keyword_like_value(&args[0])
}

/// Two line breaks lie between `start` and `end` of the source.
pub open spec fn blank_line_between(s: Seq<u8>, start: int, end: int) -> bool {
    exists|p: int, q: int| start <= p < q < end && s[p] == 10u8 && s[q] == 10u8
}

/// See `blank_line_between`; an empty or reversed range holds none.
pub fn has_blank_line_between(source: &str, start: usize, end: usize) -> (r: bool)
    requires
        start < end ==> end <= source.spec_bytes().len()
            && vstd::utf8::is_char_boundary(source.spec_bytes(), start as int)
            && vstd::utf8::is_char_boundary(source.spec_bytes(), end as int),
    ensures
        r == blank_line_between(source.spec_bytes(), start as int, end as int),
{
    if end <= start {
        return false;
    }
    let b = source.as_bytes();
    let mut first: Option<usize> = None;
    let mut i: usize = start;
    while i < end
        invariant
            start <= i <= end <= b@.len(),
            b@ == source.spec_bytes(),
            match first {
                Some(p) => start <= p < i && b@[p as int] == 10u8,
                None => forall|k: int| start <= k < i ==> b@[k] != 10u8,
            },
            !blank_line_between(b@, start as int, i as int),
        decreases end - i,
    {
        if b[i] == 10u8 {
            match first {
                Some(p) => {
                    assert(b@[p as int] == 10u8 && b@[i as int] == 10u8);
                    return true;
                },
                None => {
                    first = Some(i);
                },
            }
        }
        i = i + 1;
        proof {
            if blank_line_between(b@, start as int, i as int) {
                let (p, q) = choose|p: int, q: int| start <= p < q < i && b@[p] == 10u8 && b@[q] == 10u8;
                if q < i - 1 {
                    assert(blank_line_between(b@, start as int, i - 1));
                }
            }
        }
    }
    false
}


/// An argument's inline text (`inline_text`), appended to `out`
/// (`format_paren_group_inline` for a group).
pub fn push_inline_text(out: &mut Vec<u8>, a: &FormattedArg)
    ensures
        final(out)@ == old(out)@ + inline_text(*a),
    decreases *a, 0int,
{
    if a.is_paren_group {
        out.push(40u8);
        push_joined(out, &a.paren_inner, 0);
        out.push(41u8);
        proof {
            assert(out@ =~= old(out)@ + inline_text(*a));
        }
    } else {
        let t = a.text.as_str().as_bytes();
        let ghost o = out@;
        let mut k: usize = 0;
        while k < t.len()
            invariant
                k <= t@.len(),
                out@ == o + t@.subrange(0, k as int),
            decreases t@.len() - k,
        {
            out.push(t[k]);
            k = k + 1;
            proof {
                assert(out@ =~= o + t@.subrange(0, k as int));
            }
        }
        proof {
            assert(t@.subrange(0, t@.len() as int) =~= t@);
            assert(t@ == text_bytes(*a));
        }
    }
}

/// A group's arguments inline between parentheses, separated by single
/// spaces.
pub fn format_paren_group_inline(args: &Vec<FormattedArg>) -> (r: Vec<u8>)
    ensures
        r@ == seq![40u8] + joined(*args, 0) + seq![41u8],
{
    let mut out: Vec<u8> = Vec::new();
    out.push(40u8);
    push_joined(&mut out, args, 0);
    out.push(41u8);
    proof {
        assert(out@ =~= seq![40u8] + joined(*args, 0) + seq![41u8]);
    }
    out
}

/// An argument printed inline (see `inline_text`).
pub fn arg_inline_text(a: &FormattedArg) -> (r: Vec<u8>)
    ensures
        r@ == inline_text(*a),
{
    if a.is_paren_group {
        format_paren_group_inline(&a.paren_inner)
    } else {
        let t = a.text.as_str().as_bytes();
        proof {
            assert(t@ == text_bytes(*a));
        }
        vstd::slice::slice_to_vec(t)
    }
}

fn push_joined(out: &mut Vec<u8>, v: &Vec<FormattedArg>, i: usize)
    requires
        i <= v@.len(),
    ensures
        final(out)@ == old(out)@ + joined(*v, i as int),
    decreases *v, v@.len() - i,
{
    if i >= v.len() {
        proof {
            assert(out@ =~= old(out)@ + joined(*v, i as int));
        }
    } else {
        proof {
            assert(decreases_to!(*v => v@));
            assert(decreases_to!(v@ => v@[i as int]));
        }
        push_inline_text(out, &v[i]);
        if i + 1 < v.len() {
            out.push(32u8);
            push_joined(out, v, i + 1);
        }
        proof {
            assert(out@ =~= old(out)@ + joined(*v, i as int));
        }
    }
}


/// The first argument from `i` on that is not a comment, or the length.
pub open spec fn skip_comments(v: Seq<FormattedArg>, i: int) -> int
    decreases v.len() - i,
{
    if 0 <= i < v.len() && is_comment(v[i]) { skip_comments(v, i + 1) } else { i }
}

/// The widest key of the key-value pairs from `i` on (comments between a
/// key and its value skipped; a key with no value left does not count),
/// starting from `mx`.
pub open spec fn pair_scan(v: Seq<FormattedArg>, i: int, mx: int) -> int
    decreases v.len() - i,
{
    if i < 0 || i >= v.len() {
        mx
    } else if is_comment(v[i]) {
        pair_scan(v, i + 1, mx)
    } else {
        let vi = skip_comments(v, i + 1);
        if vi <= i {
            mx
        } else if vi < v.len() {
            let w = inline_text(v[i]).len() as int;
            pair_scan(v, vi + 1, if w > mx { w } else { mx })
        } else {
            mx
        }
    }
}

fn comment_arg(a: &FormattedArg) -> (r: bool)
    ensures
        r == is_comment(*a),
{
    let b = a.text.as_str().as_bytes();
    b.len() > 0 && b[0] == 35u8
}

/// The column width for aligning the values of key-value pairs: the widest
/// key that has a value, or none when that is 0.
pub fn compute_pair_alignment_width(values: &Vec<FormattedArg>) -> (r: Option<usize>)
    requires
        forall|k: int| 0 <= k < values@.len() ==> (#[trigger] inline_text(values@[k])).len() <= usize::MAX,
    ensures
        r == (if pair_scan(values@, 0, 0) == 0 { None } else { Some(pair_scan(values@, 0, 0) as usize) }),
{
    let ghost target = pair_scan(values@, 0, 0);
    let mut max_width: usize = 0;
    let mut i: usize = 0;
    while i < values.len()
        invariant
            i <= values@.len(),
            forall|k: int| 0 <= k < values@.len() ==> (#[trigger] inline_text(values@[k])).len() <= usize::MAX,
            target == pair_scan(values@, i as int, max_width as int),
        decreases values@.len() - i,
    {
        let kb = values[i].text.as_str().as_bytes();
        if kb.len() > 0 && kb[0] == 35u8 {
            i = i + 1;
            continue;
        }
        let mut val_idx = i + 1;
        while val_idx < values.len() && comment_arg(&values[val_idx])
            invariant
                i < val_idx <= values@.len(),
                skip_comments(values@, i + 1) == skip_comments(values@, val_idx as int),
            decreases values@.len() - val_idx,
        {
            val_idx = val_idx + 1;
        }
        if val_idx < values.len() {
            let w = arg_width(&values[i]);
            if w > max_width {
                max_width = w;
            }
            i = val_idx + 1;
        } else {
            i = val_idx;
        }
    }
    if max_width == 0 {
        None
    } else {
        Some(max_width)
    }
}

} // verus!
