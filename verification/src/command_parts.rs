//! Decisions a command's layout takes from its source: whether a verbatim
//! argument spans lines, the spaces just inside its parentheses, and a line
//! break right before its closing parenthesis.
use vstd::prelude::*;
use vstd::string::StringSliceAdditionalSpecFns;

use crate::arg_groups::FormattedArg;
use crate::arg_list::build_argument_list_from_args;
use crate::arg_list::{build_from, fa_views, fit_from};
use crate::ast::{args_model, command_model, lemma_args_model_len, arg_model, ArgModel, Argument, CommandInvocation};
use crate::config::{Configuration, SpaceInsideParen};
use crate::signatures::CommandKind;

verus! {

/// See `build_from`: the arguments of a command prepared for the layout.
pub fn build_argument_list(
    cmd: &CommandInvocation,
    source: &str,
    config: &Configuration,
    cmd_kind: Option<&CommandKind>,
) -> (r: Vec<FormattedArg>)
    requires
        fit_from(command_model(*cmd).arguments, 0, source.spec_bytes()),
    ensures
        fa_views(r, 0) == build_from(command_model(*cmd).arguments, 0, seq![], source.spec_bytes(), *config,
            match cmd_kind { Some(k) => Some(*k), None => None }),
{
    build_argument_list_from_args(&cmd.arguments, source, config, cmd_kind)
}

/// The bytes hold a line feed or a carriage return.
pub open spec fn holds_line_break(t: Seq<u8>) -> bool {
    t.contains(10u8) || t.contains(13u8)
}

/// Every span of the arguments (a group's in turn) lies within a text of
/// `len` bytes.
pub open spec fn spans_within(v: Seq<ArgModel>, k: int, len: int) -> bool
    decreases v, v.len() - k,
{
    if k < 0 || k >= v.len() {
        true
    } else {
        &&& match v[k] {
            ArgModel::Group(inner) => spans_within(inner, 0, len),
            ArgModel::Quoted(s) => s.start <= s.end <= len,
            ArgModel::Unquoted(s) => s.start <= s.end <= len,
            ArgModel::Bracket(s) => s.start <= s.end <= len,
            ArgModel::LineComment(s) => s.start <= s.end <= len,
            ArgModel::BracketComment(s) => s.start <= s.end <= len,
        }
        &&& spans_within(v, k + 1, len)
    }
}

/// Some quoted or bracket argument among those from `k` on (a group's in
/// turn) spans lines.
pub open spec fn multiline_verbatim(v: Seq<ArgModel>, k: int, src: Seq<u8>) -> bool
    decreases v, v.len() - k,
{
    if k < 0 || k >= v.len() {
        false
    } else {
        (match v[k] {
            ArgModel::Group(inner) => multiline_verbatim(inner, 0, src),
            ArgModel::Quoted(s) => holds_line_break(src.subrange(s.start as int, s.end as int)),
            ArgModel::Bracket(s) => holds_line_break(src.subrange(s.start as int, s.end as int)),
            _ => false,
        }) || multiline_verbatim(v, k + 1, src)
    }
}

fn holds_line_break_exec(t: &[u8]) -> (r: bool)
    ensures
        r == holds_line_break(t@),
{
    let mut i: usize = 0;
    while i < t.len()
        invariant
            i <= t@.len(),
            forall|k: int| 0 <= k < i ==> t@[k] != 10u8 && t@[k] != 13u8,
        decreases t@.len() - i,
    {
        if t[i] == 10u8 || t[i] == 13u8 {
            proof {
                assert(t@[i as int] == 10u8 || t@[i as int] == 13u8);
            }
            return true;
        }
        i = i + 1;
    }
    false
}

proof fn lemma_spans_at(v: Seq<ArgModel>, k: int, j: int, len: int)
    requires
        spans_within(v, k, len),
        0 <= k <= j,
    ensures
        spans_within(v, j, len),
    decreases j - k,
{
    if k < j && k < v.len() {
        lemma_spans_at(v, k + 1, j, len);
    }
}

proof fn lemma_multiline_from(v: Seq<ArgModel>, k: int, j: int, src: Seq<u8>)
    requires
        0 <= k <= j,
        forall|q: int| k <= q < j && q < v.len() ==> !(match #[trigger] v[q] {
            ArgModel::Group(inner) => multiline_verbatim(inner, 0, src),
            ArgModel::Quoted(s) => holds_line_break(src.subrange(s.start as int, s.end as int)),
            ArgModel::Bracket(s) => holds_line_break(src.subrange(s.start as int, s.end as int)),
            _ => false,
        }),
    ensures
        multiline_verbatim(v, k, src) == multiline_verbatim(v, j, src),
    decreases j - k,
{
    if k < j && k < v.len() {
        lemma_multiline_from(v, k + 1, j, src);
    }
}

/// See `multiline_verbatim`.
pub fn has_multiline_verbatim_argument(arguments: &Vec<Argument>, source: &str) -> (r: bool)
    requires
        spans_within(args_model(*arguments, 0), 0, source.spec_bytes().len() as int),
    ensures
        r == multiline_verbatim(args_model(*arguments, 0), 0, source.spec_bytes()),
    decreases arguments,
{
    let ghost v = args_model(*arguments, 0);
    let ghost src = source.spec_bytes();
    let b = source.as_bytes();
    let mut k: usize = 0;
    proof {
        lemma_args_model_len(*arguments, 0);
    }
    while k < arguments.len()
        invariant
            k <= arguments@.len() == v.len(),
            v == args_model(*arguments, 0),
            src == source.spec_bytes(),
            b@ == src,
            spans_within(v, 0, src.len() as int),
            multiline_verbatim(v, 0, src) == multiline_verbatim(v, k as int, src),
        decreases arguments@.len() - k,
    {
        proof {
            lemma_args_model_len(*arguments, 0);
            assert(v[k as int] == arg_model(arguments@[0 + k]));
            lemma_spans_at(v, 0, k as int, src.len() as int);
        }
        let hit = match &arguments[k] {
            Argument::Quoted(s) => holds_line_break_exec(vstd::slice::slice_subrange(b, s.start, s.end)),
            Argument::Bracket(s) => holds_line_break_exec(vstd::slice::slice_subrange(b, s.start, s.end)),
            Argument::ParenGroup { arguments: inner } => {
                proof {
                    assert(decreases_to!(*arguments => arguments@));
                    assert(decreases_to!(arguments@ => arguments@[k as int]));
                    assert(decreases_to!(arguments@[k as int] => *inner));
                }
                has_multiline_verbatim_argument(inner, source)
            },
            _ => false,
        };
        if hit {
            return true;
        }
        proof {
            lemma_multiline_from(v, k as int, k + 1, src);
        }
        k = k + 1;
    }
    false
}

/// Spaces just inside the parentheses on a single line: with arguments,
/// inserted or removed as configured, or kept as the source has them (a
/// space or tab right after `(` and right before `)`) when the source holds
/// no line feed between them.
pub open spec fn paren_spacing(between: Seq<u8>, style: SpaceInsideParen, has_arguments: bool) -> (bool, bool) {
    if !has_arguments {
        (false, false)
    } else {
        match style {
            SpaceInsideParen::Insert => (true, true),
            SpaceInsideParen::Remove => (false, false),
            SpaceInsideParen::Preserve => if between.contains(10u8) {
                (false, false)
            } else {
                (
                    between.len() > 0 && (between[0] == 32u8 || between[0] == 9u8),
                    between.len() > 0 && (between.last() == 32u8 || between.last() == 9u8),
                )
            },
        }
    }
}

/// See `paren_spacing`: whether a space goes after `(` and before `)`.
pub fn resolve_single_line_paren_spacing(cmd: &CommandInvocation, source: &str, config: &Configuration, has_arguments: bool) -> (r: (bool, bool))
    requires
        cmd.open_paren.end <= cmd.close_paren.start <= source.spec_bytes().len(),
    ensures
        r == paren_spacing(source.spec_bytes().subrange(cmd.open_paren.end as int, cmd.close_paren.start as int),
            config.space_inside_paren, has_arguments),
{
    if !has_arguments {
        return (false, false);
    }
    match config.space_inside_paren {
        SpaceInsideParen::Insert => (true, true),
        SpaceInsideParen::Remove => (false, false),
        SpaceInsideParen::Preserve => {
            let between = vstd::slice::slice_subrange(source.as_bytes(), cmd.open_paren.end, cmd.close_paren.start);
            let mut i: usize = 0;
            while i < between.len()
                invariant
                    i <= between@.len(),
                    has_arguments,
                    config.space_inside_paren is Preserve,
                    between@ == source.spec_bytes().subrange(cmd.open_paren.end as int, cmd.close_paren.start as int),
                    forall|k: int| 0 <= k < i ==> between@[k] != 10u8,
                decreases between@.len() - i,
            {
                if between[i] == 10u8 {
                    proof {
                        assert(between@[i as int] == 10u8);
                    }
                    return (false, false);
                }
                i = i + 1;
            }
            let n = between.len();
            let after_open = n > 0 && (between[0] == 32u8 || between[0] == 9u8);
            let before_close = n > 0 && (between[n - 1] == 32u8 || between[n - 1] == 9u8);
            (after_open, before_close)
        },
    }
}

/// A line feed stands right before the closing parenthesis, spaces and
/// tabs aside, and the command has arguments.
pub open spec fn magic_newline(before_close: Seq<u8>, has_arguments: bool) -> bool {
    has_arguments && exists|j: int|
        0 <= j < before_close.len() && before_close[j] == 10u8
            && forall|q: int| j < q < before_close.len() ==> (before_close[q] == 32u8 || before_close[q] == 9u8)
}

/// See `magic_newline`, over the source up to the closing parenthesis.
pub fn has_magic_trailing_newline_signal(cmd: &CommandInvocation, source: &str, args: &Vec<FormattedArg>) -> (r: bool)
    requires
        cmd.close_paren.start <= source.spec_bytes().len(),
    ensures
        r == magic_newline(source.spec_bytes().subrange(0, cmd.close_paren.start as int), args@.len() > 0),
{
    let ghost bc = source.spec_bytes().subrange(0, cmd.close_paren.start as int);
    if args.len() == 0 {
        return false;
    }
    let b = source.as_bytes();
    let mut j: usize = cmd.close_paren.start;
    while j > 0 && (b[j - 1] == 32u8 || b[j - 1] == 9u8)
        invariant
            j <= cmd.close_paren.start <= b@.len(),
            b@ == source.spec_bytes(),
            bc == b@.subrange(0, cmd.close_paren.start as int),
            forall|q: int| j <= q < cmd.close_paren.start ==> (bc[q] == 32u8 || bc[q] == 9u8),
        decreases j,
    {
        j = j - 1;
    }
    let r = j > 0 && b[j - 1] == 10u8;
    proof {
        if r {
            assert(bc[j - 1] == 10u8);
        }
        if magic_newline(bc, true) && !r {
            let w = choose|w: int| 0 <= w < bc.len() && bc[w] == 10u8
                && forall|q: int| w < q < bc.len() ==> (bc[q] == 32u8 || bc[q] == 9u8);
            if w < j - 1 {
                assert(bc[j - 1] == 32u8 || bc[j - 1] == 9u8 || bc[j - 1] == 10u8);
            }
        }
    }
    r
}

} // verus!
