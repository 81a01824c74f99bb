//! A command's parsed arguments as the arguments the layout works on: their
//! text, whether each is a keyword of the command, blank lines and line
//! breaks before them, and comments on an argument's line attached to it.
use vstd::prelude::*;
use vstd::string::StringSliceAdditionalSpecFns;

use crate::arg_groups::{names_hold, FormattedArg};
use crate::ast::{arg_model, args_model, lemma_args_model_len, ArgModel, Argument};
use crate::casing::{condition_keyword, custom_named, in_command_spec, is_keyword_for_command, sort_group_list};
use crate::config::{Configuration, SortArguments};
use crate::load::sbytes;
use crate::print_items::{arg_source_range, max_end, range_of};
use crate::signatures::CommandKind;
use crate::text::{lemma_str_valid, string_of, trim_end, trim_end_seq};
use crate::widths::{blank_line_between, has_blank_line_between};

verus! {

/// The value of a prepared argument, its text and comment as bytes.
pub ghost struct ArgView {
    pub text: Seq<u8>,
    pub is_keyword: bool,
    pub is_bracket: bool,
    pub trailing_comment: Option<Seq<u8>>,
    pub trailing_is_bracket: bool,
    pub is_paren_group: bool,
    pub inner: Seq<ArgView>,
    pub blank_line_before: bool,
    pub new_line_before: bool,
}

pub open spec fn fa_view(a: FormattedArg) -> ArgView
    decreases a, 0int,
{
    ArgView {
        text: sbytes(a.text),
        is_keyword: a.is_keyword,
        is_bracket: a.is_bracket,
        trailing_comment: match a.trailing_comment {
            Some(c) => Some(sbytes(c)),
            None => None,
        },
        trailing_is_bracket: a.trailing_is_bracket,
        is_paren_group: a.is_paren_group,
        inner: fa_views(a.paren_inner, 0),
        blank_line_before: a.blank_line_before,
        new_line_before: a.new_line_before,
    }
}

pub open spec fn fa_views(v: Vec<FormattedArg>, i: int) -> Seq<ArgView>
    decreases v, v@.len() - i,
{
    if i < 0 || i >= v@.len() {
        seq![]
    } else {
        seq![fa_view(v@[i])] + fa_views(v, i + 1)
    }
}

pub proof fn lemma_fa_views(v: Vec<FormattedArg>, i: int)
    requires
        0 <= i <= v@.len(),
    ensures
        fa_views(v, i).len() == v@.len() - i,
        forall|k: int| 0 <= k < v@.len() - i ==> #[trigger] fa_views(v, i)[k] == fa_view(v@[i + k]),
    decreases v@.len() - i,
{
    if i < v@.len() {
        lemma_fa_views(v, i + 1);
        assert forall|k: int| 0 <= k < v@.len() - i implies #[trigger] fa_views(v, i)[k] == fa_view(v@[i + k]) by {
            if k > 0 {
                assert(fa_views(v, i)[k] == fa_views(v, i + 1)[k - 1]);
            }
        }
    }
}

/// Blank lines between arguments are kept when arguments may be aligned or
/// sorted.
pub open spec fn preserve_blanks(config: Configuration) -> bool {
    config.align_arg_groups || !(config.sort_arguments is Disabled)
}

/// Whether the text is a keyword of the command (see `is_keyword_for_command`).
pub open spec fn kw_for(t: Seq<u8>, config: Configuration, kind: Option<CommandKind>) -> bool {
    custom_named(config.custom_keywords@, t) || match kind {
        Some(CommandKind::Known(spec)) => in_command_spec(t, spec) || names_hold(sort_group_list(), t),
        Some(CommandKind::ConditionSyntax) => condition_keyword(t),
        None => names_hold(sort_group_list(), t),
    }
}

pub open spec fn leaf_view(text: Seq<u8>, kw: bool, bracket: bool, blank: bool, nl: bool) -> ArgView {
    ArgView {
        text,
        is_keyword: kw,
        is_bracket: bracket,
        trailing_comment: None,
        trailing_is_bracket: false,
        is_paren_group: false,
        inner: seq![],
        blank_line_before: blank,
        new_line_before: nl,
    }
}

/// A comment: attached to the previous argument when it stands on that
/// argument's line and the argument has no comment yet (a bracket comment
/// marked as such); else an argument of its own.
pub open spec fn attach(acc: Seq<ArgView>, c: Seq<u8>, bracket: bool, same_line: bool, blank: bool, nl: bool) -> Seq<ArgView> {
    if same_line && acc.len() > 0 && acc.last().trailing_comment is None {
        acc.update(
            acc.len() - 1,
            ArgView {
                trailing_comment: Some(c),
                trailing_is_bracket: if bracket { true } else { acc.last().trailing_is_bracket },
                ..acc.last()
            },
        )
    } else {
        acc.push(leaf_view(c, false, false, blank, nl))
    }
}

/// The arguments from `i` on prepared and added to `acc`: each takes its
/// source text (a line comment without trailing whitespace, a group its
/// arguments prepared in turn), whether a blank line stands before it (when
/// blank lines are kept) and whether a line break does; an unquoted argument
/// is a keyword when the command takes it as one.
pub open spec fn build_from(v: Seq<ArgModel>, i: int, acc: Seq<ArgView>, src: Seq<u8>, config: Configuration, kind: Option<CommandKind>) -> Seq<ArgView>
    decreases v, v.len() - i,
{
    if i < 0 || i >= v.len() {
        acc
    } else {
        let prev_end = if i > 0 { range_of(v[i - 1]).1 } else { 0 };
        let start = range_of(v[i]).0;
        let blank = preserve_blanks(config) && i > 0 && blank_line_between(src, prev_end, start);
        let nl = i > 0 && src.subrange(prev_end, start).contains(10u8);
        let next = match v[i] {
            ArgModel::Bracket(s) => acc.push(leaf_view(src.subrange(s.start as int, s.end as int), false, true, blank, nl)),
            ArgModel::Quoted(s) => acc.push(leaf_view(src.subrange(s.start as int, s.end as int), false, false, blank, nl)),
            ArgModel::Unquoted(s) => {
                let t = src.subrange(s.start as int, s.end as int);
                acc.push(leaf_view(t, kw_for(t, config, kind), false, blank, nl))
            },
            ArgModel::Group(inner) => acc.push(
                ArgView {
                    text: seq![],
                    is_keyword: false,
                    is_bracket: false,
                    trailing_comment: None,
                    trailing_is_bracket: false,
                    is_paren_group: true,
                    inner: build_from(inner, 0, seq![], src, config, kind),
                    blank_line_before: blank,
                    new_line_before: nl,
                },
            ),
            ArgModel::LineComment(s) => attach(
                acc,
                trim_end_seq(src.subrange(s.start as int, s.end as int)),
                false,
                i > 0 && !src.subrange(prev_end, s.start as int).contains(10u8),
                blank,
                nl,
            ),
            ArgModel::BracketComment(s) => attach(
                acc,
                src.subrange(s.start as int, s.end as int),
                true,
                i > 0 && !src.subrange(prev_end, s.start as int).contains(10u8),
                blank,
                nl,
            ),
        };
        build_from(v, i + 1, next, src, config, kind)
    }
}

/// The argument's spans lie in the source on character boundaries (a
/// group's arguments in turn), and each argument from the second on starts at
/// or after the end of the one before, the text between them on character
/// boundaries.
pub open spec fn fit_from(v: Seq<ArgModel>, k: int, src: Seq<u8>) -> bool
    decreases v, v.len() - k,
{
    if k < 0 || k >= v.len() {
        true
    } else {
        &&& max_end(v[k]) < usize::MAX
        &&& match v[k] {
            ArgModel::Group(inner) => fit_from(inner, 0, src),
            ArgModel::Quoted(s) => span_fits(s.start as int, s.end as int, src),
            ArgModel::Unquoted(s) => span_fits(s.start as int, s.end as int, src),
            ArgModel::Bracket(s) => span_fits(s.start as int, s.end as int, src),
            ArgModel::LineComment(s) => span_fits(s.start as int, s.end as int, src),
            ArgModel::BracketComment(s) => span_fits(s.start as int, s.end as int, src),
        }
        &&& k > 0 ==> span_fits(range_of(v[k - 1]).1, range_of(v[k]).0, src)
        &&& fit_from(v, k + 1, src)
    }
}

/// `start..end` is a range of the source with both ends on character
/// boundaries.
pub open spec fn span_fits(start: int, end: int, src: Seq<u8>) -> bool {
    0 <= start <= end <= src.len() && vstd::utf8::is_char_boundary(src, start) && vstd::utf8::is_char_boundary(src, end)
}

proof fn lemma_fit_at(v: Seq<ArgModel>, k: int, j: int, src: Seq<u8>)
    requires
        fit_from(v, k, src),
        0 <= k <= j < v.len(),
    ensures
        fit_from(v, j, src),
    decreases j - k,
{
    if k < j {
        lemma_fit_at(v, k + 1, j, src);
    }
}

/// See `kw_for`: whether the command takes the text as a keyword.
pub fn is_known_keyword(text: &str, cmd_kind: Option<&CommandKind>, config: &Configuration) -> (r: bool)
    ensures
        r == kw_for(text.spec_bytes(), *config, match cmd_kind { Some(k) => Some(*k), None => None }),
{
    is_keyword_for_command(text, cmd_kind, config)
}

fn bytes_have_newline(t: &[u8]) -> (r: bool)
    ensures
        r == t@.contains(10u8),
{
    let mut i: usize = 0;
    while i < t.len()
        invariant
            i <= t@.len(),
            forall|k: int| 0 <= k < i ==> t@[k] != 10u8,
        decreases t@.len() - i,
    {
        if t[i] == 10u8 {
            proof {
                assert(t@[i as int] == 10u8);
            }
            return true;
        }
        i = i + 1;
    }
    false
}

fn leaf(text: String, is_keyword: bool, is_bracket: bool, blank: bool, nl: bool) -> (r: FormattedArg)
    ensures
        fa_view(r) == leaf_view(sbytes(text), is_keyword, is_bracket, blank, nl),
{
    let r = FormattedArg {
        text,
        is_keyword,
        is_bracket,
        trailing_comment: None,
        trailing_is_bracket: false,
        is_paren_group: false,
        paren_inner: Vec::new(),
        blank_line_before: blank,
        new_line_before: nl,
    };
    proof {
        assert(fa_views(r.paren_inner, 0) =~= seq![]);
    }
    r
}

fn push_arg(result: &mut Vec<FormattedArg>, a: FormattedArg)
    ensures
        fa_views(*final(result), 0) == fa_views(*old(result), 0).push(fa_view(a)),
{
    let ghost before = *result;
    result.push(a);
    proof {
        lemma_fa_views(before, 0);
        lemma_fa_views(*result, 0);
        assert(fa_views(*result, 0) =~= fa_views(before, 0).push(fa_view(a)));
    }
}

/// See `attach`.
fn attach_comment(result: &mut Vec<FormattedArg>, c: String, bracket: bool, same_line: bool, blank: bool, nl: bool)
    ensures
        fa_views(*final(result), 0) == attach(fa_views(*old(result), 0), sbytes(c), bracket, same_line, blank, nl),
{
    let ghost acc = fa_views(*result, 0);
    proof {
        lemma_fa_views(*result, 0);
    }
    let n = result.len();
    if same_line && n > 0 && result[n - 1].trailing_comment.is_none() {
        let ghost before = *result;
        let mut last = result.pop().unwrap();
        proof {
            assert(last == before@[n - 1]);
            assert(fa_view(last) == acc.last());
        }
        last.trailing_comment = Some(c);
        if bracket {
            last.trailing_is_bracket = true;
        }
        let ghost mid = *result;
        result.push(last);
        proof {
            lemma_fa_views(*result, 0);
            assert(result@ =~= before@.update(n - 1, last));
            assert(fa_views(*result, 0) =~= attach(acc, sbytes(c), bracket, same_line, blank, nl));
        }
    } else {
        let a = leaf(c, false, false, blank, nl);
        push_arg(result, a);
    }
}

/// See `build_from`: a command's arguments prepared for the layout.
#[verifier::rlimit(100)]
pub fn build_argument_list_from_args(
    args: &Vec<Argument>,
    source: &str,
    config: &Configuration,
    cmd_kind: Option<&CommandKind>,
) -> (r: Vec<FormattedArg>)
    requires
        fit_from(args_model(*args, 0), 0, source.spec_bytes()),
    ensures
        fa_views(r, 0) == build_from(args_model(*args, 0), 0, seq![], source.spec_bytes(), *config,
            match cmd_kind { Some(k) => Some(*k), None => None }),
    decreases args,
{
    let ghost v = args_model(*args, 0);
    let ghost src = source.spec_bytes();
    let ghost kind = match cmd_kind { Some(k) => Some(*k), None => None };
    let ghost target = build_from(v, 0, seq![], src, *config, kind);
    let b = source.as_bytes();
    proof {
        lemma_args_model_len(*args, 0);
        lemma_str_valid(source);
    }
    let preserve = config.align_arg_groups || !matches!(config.sort_arguments, SortArguments::Disabled);
    let mut result: Vec<FormattedArg> = Vec::new();
    proof {
        assert(fa_views(result, 0) =~= seq![]);
    }
    let mut i: usize = 0;
    while i < args.len()
        invariant
            i <= args@.len() == v.len(),
            v == args_model(*args, 0),
            src == source.spec_bytes(),
            b@ == src,
            vstd::utf8::valid_utf8(src),
            fit_from(v, 0, src),
            preserve == preserve_blanks(*config),
            kind == match cmd_kind { Some(k) => Some(*k), None => None },
            build_from(v, i as int, fa_views(result, 0), src, *config, kind) == target,
        decreases args@.len() - i,
    {
        proof {
            lemma_args_model_len(*args, 0);
            lemma_fit_at(v, 0, i as int, src);
            assert(v[i as int] == arg_model(args@[0 + i]));
        }
        let ghost acc = fa_views(result, 0);
        let cur = arg_source_range(&args[i]);
        let mut prev_end: usize = 0;
        if i > 0 {
            proof {
                lemma_fit_at(v, 0, i - 1, src);
                assert(v[i - 1] == arg_model(args@[0 + (i - 1)]));
            }
            prev_end = arg_source_range(&args[i - 1]).1;
        }
        let blank = preserve && i > 0 && has_blank_line_between(source, prev_end, cur.0);
        let nl = i > 0 && bytes_have_newline(vstd::slice::slice_subrange(b, prev_end, cur.0));
        match &args[i] {
            Argument::Bracket(span) => {
                let t = span.text(source);
                let a = leaf(String::from_str(t), false, true, blank, nl);
                push_arg(&mut result, a);
            },
            Argument::Quoted(span) => {
                let t = span.text(source);
                let a = leaf(String::from_str(t), false, false, blank, nl);
                push_arg(&mut result, a);
            },
            Argument::Unquoted(span) => {
                let t = span.text(source);
                let kw = is_known_keyword(t, cmd_kind, config);
                let a = leaf(String::from_str(t), kw, false, blank, nl);
                push_arg(&mut result, a);
            },
            Argument::ParenGroup { arguments } => {
                proof {
                    assert(decreases_to!(*args => args@));
                    assert(decreases_to!(args@ => args@[i as int]));
                    assert(decreases_to!(args@[i as int] => *arguments));
                }
                let inner = build_argument_list_from_args(arguments, source, config, cmd_kind);
                let a = FormattedArg {
                    text: String::new(),
                    is_keyword: false,
                    is_bracket: false,
                    trailing_comment: None,
                    trailing_is_bracket: false,
                    is_paren_group: true,
                    paren_inner: inner,
                    blank_line_before: blank,
                    new_line_before: nl,
                };
                proof {
                    assert(sbytes(a.text) =~= seq![]);
                }
                push_arg(&mut result, a);
            },
            Argument::LineComment(span) => {
                let t = span.text(source);
                proof {
                    lemma_str_valid(t);
                    crate::post_process::lemma_trim_valid(t.spec_bytes());
                }
                let tb = trim_end(t.as_bytes());
                let c = string_of(tb);
                let same_line = i > 0 && !bytes_have_newline(vstd::slice::slice_subrange(b, prev_end, span.start));
                attach_comment(&mut result, c, false, same_line, blank, nl);
            },
            Argument::BracketComment(span) => {
                let t = span.text(source);
                let same_line = i > 0 && !bytes_have_newline(vstd::slice::slice_subrange(b, prev_end, span.start));
                attach_comment(&mut result, String::from_str(t), true, same_line, blank, nl);
            },
        }
        i = i + 1;
    }
    result
}

} // verus!
