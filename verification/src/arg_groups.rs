//! A command's arguments split by its signature: the positional arguments in
//! front, keyword groups, and the positional arguments at the back.
use vstd::prelude::*;
use vstd::string::StringSliceAdditionalSpecFns;

use crate::config::Configuration;
use crate::signatures::{CommandSpec, KwType, SectionDef};
use crate::text::{ci_eq, eq_ci};

verus! {

/// An argument as the renderer sees it: its text, whether it was classified
/// as a keyword of its command, whether it is a bracket argument, the comment
/// that follows it on its line (and whether that is a bracket comment),
/// whether it is a parenthesized group (with the arguments inside), and
/// whether a blank line or a line break precedes it in the source.
pub struct FormattedArg {
    pub text: String,
    pub is_keyword: bool,
    pub is_bracket: bool,
    pub trailing_comment: Option<String>,
    pub trailing_is_bracket: bool,
    pub is_paren_group: bool,
    pub paren_inner: Vec<FormattedArg>,
    pub blank_line_before: bool,
    pub new_line_before: bool,
}

/// A run of arguments, by index.
pub enum ArgGroup {
    /// Arguments not associated with a keyword.
    Positional(Vec<usize>),
    /// A keyword and the values it takes.
    Keyword { keyword: usize, values: Vec<usize> },
    /// A command-line keyword (`debug`, `optimized`, `general`) and its value.
    CmdLineKeyword { keyword: usize, value: Option<usize> },
}

/// The indices a group holds, in order.
pub open spec fn group_indices(g: ArgGroup) -> Seq<usize> {
    match g {
        ArgGroup::Positional(v) => v@,
        ArgGroup::Keyword { keyword, values } => seq![keyword] + values@,
        ArgGroup::CmdLineKeyword { keyword, value } => match value {
            Some(v) => seq![keyword, v],
            None => seq![keyword],
        },
    }
}

/// The indices of the groups, in order.
pub open spec fn flatten(gs: Seq<ArgGroup>) -> Seq<usize>
    decreases gs.len(),
{
    if gs.len() == 0 {
        seq![]
    } else {
        flatten(gs.drop_last()) + group_indices(gs.last())
    }
}

/// The indices `0..n`.
pub open spec fn upto(n: int) -> Seq<usize> {
    Seq::new(n as nat, |j: int| j as usize)
}

pub open spec fn text_bytes(a: FormattedArg) -> Seq<u8> {
    crate::load::sbytes(a.text)
}

/// A comment argument: its text starts with `#`.
pub open spec fn is_comment(a: FormattedArg) -> bool {
    text_bytes(a).len() > 0 && text_bytes(a)[0] == 35u8
}

fn starts_with_hash(a: &FormattedArg) -> (r: bool)
    ensures
        r == is_comment(*a),
{
    let b = a.text.as_str().as_bytes();
    b.len() > 0 && b[0] == 35u8
}

/// The argument names a keyword of the signature (without regard to ASCII
/// case), and is neither a group nor a comment.
pub open spec fn names_keyword(a: FormattedArg, spec: CommandSpec) -> bool {
    !a.is_paren_group && !is_comment(a)
        && exists|j: int| 0 <= j < spec.keywords@.len() && ci_eq((#[trigger] spec.keywords@[j]).0.spec_bytes(), text_bytes(a))
}

/// The argument names a section of the signature.
pub open spec fn names_section(a: FormattedArg, spec: CommandSpec) -> bool {
    !a.is_paren_group && !is_comment(a)
        && exists|k: int| 0 <= k < spec.sections@.len() && ci_eq((#[trigger] spec.sections@[k]).0.spec_bytes(), text_bytes(a))
}

/// An argument that starts a keyword group: a keyword or section of the
/// signature, a command-line keyword where those count, a custom keyword of
/// the configuration, or, for a signature without sections, an argument the
/// lexer marked as a keyword.
pub open spec fn keyword_like_spec(a: FormattedArg, spec: CommandSpec, config: Configuration, with_cmd_line: bool) -> bool {
    ||| names_keyword(a, spec)
    ||| names_section(a, spec)
    ||| (with_cmd_line && !a.is_paren_group && !is_comment(a) && names_hold(spec.command_line_keywords@, text_bytes(a)))
    ||| custom_holds(a, config)
    ||| (a.is_keyword && spec.sections@.len() == 0)
}

/// The index of the first keyword of the signature that the argument names.
fn get_keyword_type(a: &FormattedArg, spec: &CommandSpec) -> (r: Option<usize>)
    ensures
        match r {
            Some(j) => !a.is_paren_group && !is_comment(*a) && j < spec.keywords@.len()
                && ci_eq(spec.keywords@[j as int].0.spec_bytes(), text_bytes(*a))
                && forall|k: int| 0 <= k < j ==> !ci_eq(#[trigger] spec.keywords@[k].0.spec_bytes(), text_bytes(*a)),
            None => a.is_paren_group || is_comment(*a)
                || forall|k: int| 0 <= k < spec.keywords@.len() ==> !ci_eq(#[trigger] spec.keywords@[k].0.spec_bytes(), text_bytes(*a)),
        },
        r.is_some() == names_keyword(*a, *spec),
        match r {
            Some(j) => kw_of(*a, *spec) == Some(j as int),
            None => kw_of(*a, *spec) is None,
        },
{
    if a.is_paren_group || starts_with_hash(a) {
        return None;
    }
    let t = a.text.as_str().as_bytes();
    let mut j: usize = 0;
    while j < spec.keywords.len()
        invariant
            j <= spec.keywords@.len(),
            t@ == text_bytes(*a),
            !a.is_paren_group,
            !is_comment(*a),
            forall|k: int| 0 <= k < j ==> !ci_eq(#[trigger] spec.keywords@[k].0.spec_bytes(), text_bytes(*a)),
        decreases spec.keywords@.len() - j,
    {
        if eq_ci(spec.keywords[j].0.as_bytes(), t) {
            proof {
                assert(ci_eq(spec.keywords@[j as int].0.spec_bytes(), text_bytes(*a)));
                assert(kw_names(*spec)[j as int] == spec.keywords@[j as int].0.spec_bytes());
                assert forall|q: int| 0 <= q < j implies !ci_eq(#[trigger] kw_names(*spec)[q], text_bytes(*a)) by {
                    assert(kw_names(*spec)[q] == spec.keywords@[q].0.spec_bytes());
                }
                lemma_first_ci(kw_names(*spec), text_bytes(*a), 0, Some(j as int));
            }
            return Some(j);
        }
        j = j + 1;
    }
    proof {
        assert forall|q: int| 0 <= q < kw_names(*spec).len() implies !ci_eq(#[trigger] kw_names(*spec)[q], text_bytes(*a)) by {
            assert(kw_names(*spec)[q] == spec.keywords@[q].0.spec_bytes());
        }
        lemma_first_ci(kw_names(*spec), text_bytes(*a), 0, None);
    }
    None
}

/// Some name of the list equals the text, without regard to ASCII case.
pub open spec fn names_hold(v: Seq<&'static str>, t: Seq<u8>) -> bool {
    exists|j: int| 0 <= j < v.len() && ci_eq((#[trigger] v[j]).spec_bytes(), t)
}

pub(crate) fn any_name(v: &Vec<&'static str>, t: &[u8]) -> (r: bool)
    ensures
        r == names_hold(v@, t@),
{
    let mut j: usize = 0;
    while j < v.len()
        invariant
            j <= v@.len(),
            forall|k: int| 0 <= k < j ==> !ci_eq((#[trigger] v@[k]).spec_bytes(), t@),
        decreases v@.len() - j,
    {
        if eq_ci(v[j].as_bytes(), t) {
            proof {
                assert(ci_eq(v@[j as int].spec_bytes(), t@));
            }
            return true;
        }
        j = j + 1;
    }
    false
}

/// The keyword counts only at its first occurrence.
fn is_once_keyword_text(t: &[u8], spec: &CommandSpec) -> (r: bool)
    ensures
        r == names_hold(spec.once_keywords@, t@),
{
    any_name(&spec.once_keywords, t)
}

/// A command-line keyword (`debug`, `optimized`, `general`).
fn is_cmd_line_keyword(a: &FormattedArg, spec: &CommandSpec) -> (r: bool)
    ensures
        r == (!a.is_paren_group && !is_comment(*a) && names_hold(spec.command_line_keywords@, text_bytes(*a))),
{
    if a.is_paren_group || starts_with_hash(a) {
        return false;
    }
    any_name(&spec.command_line_keywords, a.text.as_str().as_bytes())
}

/// The configuration's `customKeywords` names the argument.
pub open spec fn custom_holds(a: FormattedArg, c: Configuration) -> bool {
    !a.is_paren_group && !is_comment(a)
        && exists|j: int| 0 <= j < c.custom_keywords@.len() && ci_eq(crate::load::sbytes(#[trigger] c.custom_keywords@[j]), text_bytes(a))
}

pub(crate) fn is_custom_keyword(a: &FormattedArg, config: &Configuration) -> (r: bool)
    ensures
        r == custom_holds(*a, *config),
{
    if a.is_paren_group || starts_with_hash(a) {
        return false;
    }
    let t = a.text.as_str().as_bytes();
    let mut j: usize = 0;
    while j < config.custom_keywords.len()
        invariant
            j <= config.custom_keywords@.len(),
            t@ == text_bytes(*a),
            !a.is_paren_group && !is_comment(*a),
            forall|k: int| 0 <= k < j ==> !ci_eq(crate::load::sbytes(#[trigger] config.custom_keywords@[k]), text_bytes(*a)),
        decreases config.custom_keywords@.len() - j,
    {
        if eq_ci(config.custom_keywords[j].as_str().as_bytes(), t) {
            proof {
                assert(ci_eq(crate::load::sbytes(config.custom_keywords@[j as int]), text_bytes(*a)));
            }
            return true;
        }
        j = j + 1;
    }
    false
}

/// The first section of the signature named like the text.
pub(crate) fn section_index(t: &[u8], spec: &CommandSpec) -> (r: Option<usize>)
    ensures
        match r {
            Some(j) => j < spec.sections@.len() && ci_eq(spec.sections@[j as int].0.spec_bytes(), t@)
                && forall|k: int| 0 <= k < j ==> !ci_eq(#[trigger] spec.sections@[k].0.spec_bytes(), t@),
            None => forall|k: int| 0 <= k < spec.sections@.len() ==> !ci_eq(#[trigger] spec.sections@[k].0.spec_bytes(), t@),
        },
        match r {
            Some(j) => first_ci(sec_names(*spec), t@, 0) == Some(j as int),
            None => first_ci(sec_names(*spec), t@, 0) is None,
        },
{
    let mut j: usize = 0;
    while j < spec.sections.len()
        invariant
            j <= spec.sections@.len(),
            forall|k: int| 0 <= k < j ==> !ci_eq(#[trigger] spec.sections@[k].0.spec_bytes(), t@),
        decreases spec.sections@.len() - j,
    {
        if eq_ci(spec.sections[j].0.as_bytes(), t) {
            proof {
                assert forall|q: int| 0 <= q < j implies !ci_eq(#[trigger] sec_names(*spec)[q], t@) by {
                    assert(sec_names(*spec)[q] == spec.sections@[q].0.spec_bytes());
                }
                assert(sec_names(*spec)[j as int] == spec.sections@[j as int].0.spec_bytes());
                lemma_first_ci(sec_names(*spec), t@, 0, Some(j as int));
            }
            return Some(j);
        }
        j = j + 1;
    }
    proof {
        assert forall|q: int| 0 <= q < sec_names(*spec).len() implies !ci_eq(#[trigger] sec_names(*spec)[q], t@) by {
            assert(sec_names(*spec)[q] == spec.sections@[q].0.spec_bytes());
        }
        lemma_first_ci(sec_names(*spec), t@, 0, None);
    }
    None
}

/// The argument starts a section of the signature.
pub(crate) fn is_section_keyword(a: &FormattedArg, spec: &CommandSpec) -> (r: bool)
    ensures
        r == (!a.is_paren_group && !is_comment(*a)
            && exists|k: int| 0 <= k < spec.sections@.len() && ci_eq((#[trigger] spec.sections@[k]).0.spec_bytes(), text_bytes(*a))),
{
    if a.is_paren_group || starts_with_hash(a) {
        return false;
    }
    match section_index(a.text.as_str().as_bytes(), spec) {
        Some(j) => {
            proof {
                assert(ci_eq(spec.sections@[j as int].0.spec_bytes(), text_bytes(*a)));
            }
            true
        },
        None => false,
    }
}

/// Keyword `kw` directly followed by `value` acts as one keyword.
fn is_compound_keyword(kw: &[u8], value: &[u8], spec: &CommandSpec) -> (r: bool)
    ensures
        r == compound_pair(*spec, kw@, value@),
{
    let mut j: usize = 0;
    while j < spec.compound_keywords.len()
        invariant
            j <= spec.compound_keywords@.len(),
            forall|k: int| 0 <= k < j ==> !(ci_eq((#[trigger] spec.compound_keywords@[k]).0.spec_bytes(), kw@)
                && ci_eq(spec.compound_keywords@[k].1.spec_bytes(), value@)),
        decreases spec.compound_keywords@.len() - j,
    {
        if eq_ci(spec.compound_keywords[j].0.as_bytes(), kw) && eq_ci(spec.compound_keywords[j].1.as_bytes(), value) {
            proof {
                assert(ci_eq(spec.compound_keywords@[j as int].0.spec_bytes(), kw@) && ci_eq(spec.compound_keywords@[j as int].1.spec_bytes(), value@));
            }
            return true;
        }
        j = j + 1;
    }
    false
}

/// A name of the keyword list, or of a group's sub-keywords within it.
pub open spec fn in_kw_list(t: Seq<u8>, v: Vec<(&'static str, KwType)>, i: int) -> bool
    decreases v, v@.len() - i,
{
    if i < 0 || i >= v@.len() {
        false
    } else {
        ci_eq(v@[i].0.spec_bytes(), t) || in_kw(t, v@[i].1) || in_kw_list(t, v, i + 1)
    }
}

pub open spec fn in_kw(t: Seq<u8>, k: KwType) -> bool
    decreases k, 0int,
{
    match k {
        KwType::Group(_, sub) => in_kw_list(t, sub, 0),
        _ => false,
    }
}

/// See `in_kw_list`.
fn is_text_in_keyword_list(t: &[u8], kws: &Vec<(&'static str, KwType)>) -> (r: bool)
    ensures
        r == in_kw_list(t@, *kws, 0),
    decreases *kws,
{
    let mut j: usize = kws.len();
    while j > 0
        invariant
            j <= kws@.len(),
            forall|k: int| j <= k < kws@.len() ==> !(ci_eq((#[trigger] kws@[k]).0.spec_bytes(), t@) || in_kw(t@, kws@[k].1)),
        decreases j,
    {
        j = j - 1;
        if eq_ci(kws[j].0.as_bytes(), t) {
            proof {
                lemma_in_kw_list_at(t@, *kws, 0, j as int);
            }
            return true;
        }
        match &kws[j].1 {
            KwType::Group(_, sub) => {
                proof {
                    assert(decreases_to!(*kws => kws@));
                    assert(decreases_to!(kws@ => kws@[j as int]));
                    assert(decreases_to!(kws@[j as int] => kws@[j as int].1));
                    assert(decreases_to!(kws@[j as int].1 => *sub));
                }
                if is_text_in_keyword_list(t, sub) {
                    proof {
                        lemma_in_kw_list_at(t@, *kws, 0, j as int);
                    }
                    return true;
                }
            },
            _ => {},
        }
    }
    proof {
        lemma_in_kw_list_none(t@, *kws, 0);
    }
    false
}

proof fn lemma_in_kw_list_at(t: Seq<u8>, v: Vec<(&'static str, KwType)>, i: int, j: int)
    requires
        0 <= i <= j < v@.len(),
        ci_eq(v@[j].0.spec_bytes(), t) || in_kw(t, v@[j].1),
    ensures
        in_kw_list(t, v, i),
    decreases j - i,
{
    if i < j {
        lemma_in_kw_list_at(t, v, i + 1, j);
    }
}

proof fn lemma_in_kw_list_none(t: Seq<u8>, v: Vec<(&'static str, KwType)>, i: int)
    requires
        0 <= i,
        forall|k: int| i <= k < v@.len() ==> !(ci_eq((#[trigger] v@[k]).0.spec_bytes(), t) || in_kw(t, v@[k].1)),
    ensures
        !in_kw_list(t, v, i),
    decreases v@.len() - i,
{
    if i < v@.len() {
        lemma_in_kw_list_none(t, v, i + 1);
        assert(!(ci_eq(v@[i].0.spec_bytes(), t) || in_kw(t, v@[i].1)));
    }
}

/// `0..a` followed by `a..b` is `0..b`.
proof fn lemma_upto_extend(a: int, b: int)
    requires
        0 <= a <= b,
    ensures
        upto(a) + upto(b).subrange(a, b) == upto(b),
{
    assert(upto(a) + upto(b).subrange(a, b) =~= upto(b));
}

/// Whether an argument counts as a keyword of the command where it stands.
fn keyword_like(a: &FormattedArg, spec: &CommandSpec, config: &Configuration, with_cmd_line: bool) -> (r: bool)
    ensures
        r == keyword_like_spec(*a, *spec, *config, with_cmd_line),
{
    let kw = get_keyword_type(a, spec);
    let section = is_section_keyword(a, spec);
    let cmd_line = with_cmd_line && is_cmd_line_keyword(a, spec);
    let custom = is_custom_keyword(a, config);
    let generic = a.is_keyword && kw.is_none() && !section && !custom && spec.sections.len() == 0;
    proof {
        match kw {
            Some(j) => {
                assert(ci_eq(spec.keywords@[j as int].0.spec_bytes(), text_bytes(*a)));
            },
            None => {},
        }
        assert(kw.is_some() == names_keyword(*a, *spec));
    }
    kw.is_some() || section || cmd_line || custom || generic
}

/// The values of a one-value keyword at `i`: a compound continuation, the
/// options after it, then one value; and the index after them.
fn take_one_value(args: &Vec<FormattedArg>, spec: &CommandSpec, i: usize, m: usize) -> (r: (Vec<usize>, usize))
    requires
        i < m <= args@.len(),
    ensures
        i < r.1 <= m,
        r.0@ == upto(r.1 as int).subrange(i + 1, r.1 as int),
        r.1 == one_value_next(args@, *spec, i as int, m as int),
{
    let mut values: Vec<usize> = Vec::new();
    let mut jx: usize = i + 1;
    proof {
        assert(values@ =~= upto(jx as int).subrange(i + 1, jx as int));
    }
    if jx < m && is_compound_keyword(args[i].text.as_str().as_bytes(), args[jx].text.as_str().as_bytes(), spec) {
        values.push(jx);
        jx = jx + 1;
        proof {
            assert(values@ =~= upto(jx as int).subrange(i + 1, jx as int));
        }
    }
    let ghost j1 = jx as int;
    while jx < m
        invariant
            m <= args@.len(),
            i < jx <= m,
            values@ == upto(jx as int).subrange(i + 1, jx as int),
            skip_options(args@, *spec, j1, m as int) == skip_options(args@, *spec, jx as int, m as int),
        ensures
            i < jx <= m,
            values@ == upto(jx as int).subrange(i + 1, jx as int),
            jx == skip_options(args@, *spec, j1, m as int),
        decreases m - jx,
    {
        let t = get_keyword_type(&args[jx], spec);
        let is_opt = match t {
            Some(q) => match &spec.keywords[q].1 {
                KwType::Option => true,
                _ => false,
            },
            None => false,
        };
        proof {
            assert(is_opt == is_option_kw(args@[jx as int], *spec));
        }
        if !is_opt {
            break;
        }
        values.push(jx);
        jx = jx + 1;
        proof {
            assert(values@ =~= upto(jx as int).subrange(i + 1, jx as int));
        }
    }
    if jx < m {
        values.push(jx);
        jx = jx + 1;
        proof {
            assert(values@ =~= upto(jx as int).subrange(i + 1, jx as int));
        }
    }
    (values, jx)
}

/// The values of a multi-value keyword at `kw`: up to the next keyword of the
/// command (a comment right before a keyword ends them too), except that a
/// section's own sub-keywords and a compound continuation are values.
fn take_multi_values(args: &Vec<FormattedArg>, spec: &CommandSpec, config: &Configuration, kw: usize, m: usize, once_seen: bool) -> (r: (Vec<usize>, usize))
    requires
        kw < m <= args@.len(),
    ensures
        kw < r.1 <= m,
        r.0@ == upto(r.1 as int).subrange(kw + 1, r.1 as int),
        r.1 == multi_scan(args@, *spec, *config, kw as int, kw + 1, m as int, once_seen,
            first_ci(sec_names(*spec), text_bytes(args@[kw as int]), 0)),
{
    let mut values: Vec<usize> = Vec::new();
    let mut i: usize = kw + 1;
    let section = section_index(args[kw].text.as_str().as_bytes(), spec);
    let ghost sec = first_ci(sec_names(*spec), text_bytes(args@[kw as int]), 0);
    let ghost target = multi_scan(args@, *spec, *config, kw as int, kw + 1, m as int, once_seen, sec);
    proof {
        assert(values@ =~= upto(i as int).subrange(kw + 1, i as int));
    }
    while i < m
        invariant
            m <= args@.len(),
            kw < i <= m,
            values@ == upto(i as int).subrange(kw + 1, i as int),
            section matches Some(si) ==> si < spec.sections@.len() && sec == Some(si as int),
            section is None ==> sec is None,
            target == multi_scan(args@, *spec, *config, kw as int, i as int, m as int, once_seen, sec),
        ensures
            kw < i <= m,
            values@ == upto(i as int).subrange(kw + 1, i as int),
            i == target,
        decreases m - i,
    {
        if starts_with_hash(&args[i]) && i + 1 < m {
            let nx = i + 1;
            let next_kw = get_keyword_type(&args[nx], spec).is_some() || is_section_keyword(&args[nx], spec)
                || is_cmd_line_keyword(&args[nx], spec) || is_custom_keyword(&args[nx], config)
                || (args[nx].is_keyword && spec.keywords.len() == 0 && spec.sections.len() == 0);
            if next_kw {
                break;
            }
        }
        let inner_kw = get_keyword_type(&args[i], spec);
        let blocked_once = inner_kw.is_some() && once_seen && is_once_keyword_text(args[i].text.as_str().as_bytes(), spec);
        if !blocked_once && keyword_like(&args[i], spec, config, true) {
            let mut taken = false;
            match section {
                Some(si) => {
                    if is_text_in_keyword_list(args[i].text.as_str().as_bytes(), &spec.sections[si].2) {
                        taken = true;
                    }
                },
                None => {},
            }
            if !taken && values.len() == 0 && is_compound_keyword(args[kw].text.as_str().as_bytes(), args[i].text.as_str().as_bytes(), spec) {
                taken = true;
            }
            if !taken {
                break;
            }
        }
        values.push(i);
        i = i + 1;
        proof {
            assert(values@ =~= upto(i as int).subrange(kw + 1, i as int));
        }
    }
    (values, i)
}

/// The values of a group keyword at `kw`: its `front_count` positional
/// values, then those up to the next keyword of the command.
fn take_group_values(args: &Vec<FormattedArg>, spec: &CommandSpec, config: &Configuration, kw: usize, m: usize, front_count: usize) -> (r: (Vec<usize>, usize))
    requires
        kw < m <= args@.len(),
    ensures
        kw < r.1 <= m,
        r.0@ == upto(r.1 as int).subrange(kw + 1, r.1 as int),
        r.1 == group_scan(args@, *spec, *config, if kw + 1 + front_count < m { kw + 1 + front_count } else { m as int }, m as int),
{
    let mut values: Vec<usize> = Vec::new();
    let mut i: usize = kw + 1;
    let mut consumed: usize = 0;
    proof {
        assert(values@ =~= upto(i as int).subrange(kw + 1, i as int));
    }
    while consumed < front_count && i < m
        invariant
            m <= args@.len(),
            kw < i <= m,
            i == kw + 1 + consumed,
            consumed <= front_count,
            values@ == upto(i as int).subrange(kw + 1, i as int),
        decreases m - i,
    {
        values.push(i);
        i = i + 1;
        consumed = consumed + 1;
        proof {
            assert(values@ =~= upto(i as int).subrange(kw + 1, i as int));
        }
    }
    let ghost target = group_scan(args@, *spec, *config, i as int, m as int);
    while i < m
        invariant
            m <= args@.len(),
            kw < i <= m,
            values@ == upto(i as int).subrange(kw + 1, i as int),
            target == group_scan(args@, *spec, *config, i as int, m as int),
        ensures
            kw < i <= m,
            values@ == upto(i as int).subrange(kw + 1, i as int),
            i == target,
        decreases m - i,
    {
        if keyword_like(&args[i], spec, config, true) {
            break;
        }
        values.push(i);
        i = i + 1;
        proof {
            assert(values@ =~= upto(i as int).subrange(kw + 1, i as int));
        }
    }
    (values, i)
}

/// Moves the pending positional run, if any, into the groups.
fn flush(groups: &mut Vec<ArgGroup>, cur: &mut Vec<usize>)
    ensures
        flatten(final(groups)@) + final(cur)@ == flatten(old(groups)@) + old(cur)@,
        final(cur)@.len() == 0,
        groups_model(final(groups)@) == flushed(groups_model(old(groups)@), old(cur)@),
{
    if cur.len() > 0 {
        let ghost g0 = groups@;
        let mut taken: Vec<usize> = Vec::new();
        std::mem::swap(&mut taken, cur);
        let ghost t = taken@;
        groups.push(ArgGroup::Positional(taken));
        proof {
            assert(groups@.drop_last() =~= g0);
            assert(flatten(groups@) == flatten(g0) + t);
            assert(flatten(groups@) + cur@ =~= flatten(g0) + t);
            assert(groups_model(groups@) =~= groups_model(g0).push(GroupModel::Positional(t)));
        }
    } else {
        proof {
            assert(flatten(groups@) + cur@ =~= flatten(groups@));
        }
    }
}

/// Adds a group whose indices run on from `0..i` to `0..j`.
fn push_group(groups: &mut Vec<ArgGroup>, g: ArgGroup, Ghost(front): Ghost<Seq<usize>>, Ghost(i): Ghost<int>, Ghost(j): Ghost<int>)
    requires
        0 <= i <= j,
        front + flatten(old(groups)@) == upto(i),
        group_indices(g) == upto(j).subrange(i, j),
    ensures
        front + flatten(final(groups)@) == upto(j),
        groups_model(final(groups)@) == groups_model(old(groups)@).push(group_model(g)),
{
    let ghost g0 = groups@;
    groups.push(g);
    proof {
        assert(groups@.drop_last() =~= g0);
        assert(flatten(groups@) == flatten(g0) + group_indices(g));
        lemma_upto_extend(i, j);
        assert(front + flatten(groups@) =~= upto(i) + upto(j).subrange(i, j));
        assert(groups_model(groups@) =~= groups_model(g0).push(group_model(g)));
    }
}

/// Splits the arguments by the signature: at most `back_positional` arguments
/// at the back; `front_positional` in front (and one more, when the signature
/// names no keywords but a keyword follows); then runs of positional
/// arguments and keyword groups (a command-line keyword takes one value, an
/// option none, a one-value keyword its continuation, the options after it
/// and one value, a multi-value keyword the values up to the next keyword of
/// the command, a group keyword its positional values and the values up to
/// the next keyword). The indices of the three parts, in order, are those of
/// the arguments.
pub fn split_arguments(args: &Vec<FormattedArg>, spec: &CommandSpec, config: &Configuration) -> (r: (Vec<usize>, Vec<ArgGroup>, Vec<usize>))
    requires
        args@.len() < usize::MAX,
    ensures
        r.0@ + flatten(r.1@) + r.2@ == upto(args@.len() as int),
        r.2@.len() == back_count(args@.len() as int, *spec),
        r.0@ == upto(front_count(args@, *spec, *config, args@.len() - back_count(args@.len() as int, *spec))),
        groups_model(r.1@) == split_groups(args@, *spec, *config),
        positional_runs_ok(groups_model(r.1@)),
{
    let n = args.len();
    let back_count = if spec.back_positional < n { spec.back_positional } else { n };
    let m = n - back_count;
    let mut front: Vec<usize> = Vec::new();
    let mut groups: Vec<ArgGroup> = Vec::new();
    let mut cur: Vec<usize> = Vec::new();
    let mut i: usize = 0;
    let mut pos_count: usize = 0;
    proof {
        assert(front@ =~= upto(0));
    }
    while i < m && pos_count < spec.front_positional
        invariant
            m <= n == args@.len() < usize::MAX,
            i <= m,
            pos_count == i,
            i <= spec.front_positional,
            front@ == upto(i as int),
        decreases m - i,
    {
        front.push(i);
        pos_count = pos_count + 1;
        i = i + 1;
        proof {
            assert(front@ =~= upto(i as int));
        }
    }
    let ghost f = i as int;
    if i < m && spec.keywords.len() == 0 && spec.sections.len() == 0 {
        let mut has_keyword_sections = false;
        let mut k: usize = i;
        while k < m
            invariant
                i <= k <= m <= args@.len(),
                has_keyword_sections == exists|q: int| i <= q < k && (custom_holds(#[trigger] args@[q], *config) || args@[q].is_keyword),
            decreases m - k,
        {
            if is_custom_keyword(&args[k], config) || args[k].is_keyword {
                has_keyword_sections = true;
            }
            k = k + 1;
        }
        if has_keyword_sections && !args[i].is_keyword {
            front.push(i);
            i = i + 1;
            proof {
                assert(front@ =~= upto(i as int));
            }
        }
    }
    proof {
        assert(f == (if spec.front_positional < m { spec.front_positional as int } else { m as int }));
        assert(i == front_count(args@, *spec, *config, m as int));
    }
    let ghost fr = front@;
    let ghost target = split_loop(args@, *spec, *config, i as int, m as int, false, seq![], seq![]);
    proof {
        assert(fr + flatten(groups@) + cur@ =~= upto(i as int));
        assert(groups_model(groups@) =~= Seq::<GroupModel>::empty());
        assert(cur@ =~= Seq::<usize>::empty());
    }
    let mut once_seen = false;
    while i < m
        invariant
            m <= n == args@.len() < usize::MAX,
            i <= m,
            fr == front@,
            fr + flatten(groups@) + cur@ == upto(i as int),
            target == split_loop(args@, *spec, *config, i as int, m as int, once_seen, cur@, groups_model(groups@)),
            positional_runs_ok(groups_model(groups@)),
            groups@.len() > 0 ==> !(groups_model(groups@).last() is Positional),
            forall|k: int| 0 <= k < cur@.len() ==> cur@[k] < i,
        decreases m - i,
    {
        if is_cmd_line_keyword(&args[i], spec) {
            let ghost gm = groups_model(groups@);
            let ghost c0 = cur@;
            flush(&mut groups, &mut cur);
            proof {
                assert(fr + flatten(groups@) =~= upto(i as int));
                lemma_runs_flush(gm, c0);
            }
            if i + 1 < m {
                proof {
                    assert(seq![i, (i + 1) as usize] =~= upto(i + 2).subrange(i as int, i + 2));
                }
                push_group(&mut groups, ArgGroup::CmdLineKeyword { keyword: i, value: Some(i + 1) }, Ghost(fr), Ghost(i as int), Ghost(i + 2));
                proof {
                    lemma_runs_push(flushed(gm, c0), GroupModel::CmdLine(i, Some((i + 1) as usize)));
                }
                i = i + 2;
            } else {
                proof {
                    assert(seq![i] =~= upto(i + 1).subrange(i as int, i + 1));
                }
                push_group(&mut groups, ArgGroup::CmdLineKeyword { keyword: i, value: None }, Ghost(fr), Ghost(i as int), Ghost(i + 1));
                proof {
                    lemma_runs_push(flushed(gm, c0), GroupModel::CmdLine(i, None));
                }
                i = i + 1;
            }
            proof {
                assert(cur@ =~= Seq::<usize>::empty());
                assert(fr + flatten(groups@) + cur@ =~= fr + flatten(groups@));
            }
            continue;
        }
        let kw_type = get_keyword_type(&args[i], spec);
        let is_once = kw_type.is_some() && is_once_keyword_text(args[i].text.as_str().as_bytes(), spec);
        proof {
            assert(is_once == once_kw(args@[i as int], *spec));
        }
        if kw_type.is_some() && is_once && once_seen {
            let ghost before = cur@;
            cur.push(i);
            i = i + 1;
            proof {
                assert(fr + flatten(groups@) + cur@ =~= (fr + flatten(groups@) + before).push((i - 1) as usize));
                assert(upto(i as int) =~= upto(i - 1).push((i - 1) as usize));
            }
            continue;
        }
        if keyword_like(&args[i], spec, config, false) {
            if is_once {
                once_seen = true;
            }
            let ghost gm = groups_model(groups@);
            let ghost c0 = cur@;
            flush(&mut groups, &mut cur);
            proof {
                assert(fr + flatten(groups@) =~= upto(i as int));
                lemma_runs_flush(gm, c0);
            }
            let kw = i;
            let taken = match kw_type {
                None => take_multi_values(args, spec, config, kw, m, once_seen),
                Some(j) => match &spec.keywords[j].1 {
                    KwType::Option => (Vec::new(), kw + 1),
                    KwType::OneValue => take_one_value(args, spec, kw, m),
                    KwType::MultiValue => take_multi_values(args, spec, config, kw, m, once_seen),
                    KwType::Group(c, _) => take_group_values(args, spec, config, kw, m, *c),
                },
            };
            let (values, next) = taken;
            proof {
                if next == kw + 1 && values@.len() == 0 {
                    assert(values@ =~= upto(next as int).subrange(kw + 1, next as int));
                }
                assert(kw < next <= m);
                assert(next == kw_next(args@, *spec, *config, kw as int, m as int, once_seen));
                assert(values@ == upto(next as int).subrange(kw + 1, next as int));
                assert(seq![kw] + values@ =~= upto(next as int).subrange(kw as int, next as int));
            }
            push_group(&mut groups, ArgGroup::Keyword { keyword: kw, values }, Ghost(fr), Ghost(kw as int), Ghost(next as int));
            proof {
                lemma_runs_push(flushed(gm, c0), GroupModel::Keyword(kw, upto(next as int).subrange(kw + 1, next as int)));
            }
            i = next;
            proof {
                assert(cur@ =~= Seq::<usize>::empty());
                assert(fr + flatten(groups@) + cur@ =~= fr + flatten(groups@));
            }
        } else {
            let ghost before = cur@;
            cur.push(i);
            i = i + 1;
            proof {
                assert(fr + flatten(groups@) + cur@ =~= (fr + flatten(groups@) + before).push((i - 1) as usize));
                assert(upto(i as int) =~= upto(i - 1).push((i - 1) as usize));
            }
        }
    }
    let ghost gm = groups_model(groups@);
    let ghost c0 = cur@;
    flush(&mut groups, &mut cur);
    proof {
        assert(front@ + flatten(groups@) =~= upto(m as int));
        lemma_runs_flush(gm, c0);
    }
    let mut back: Vec<usize> = Vec::new();
    let mut b: usize = m;
    proof {
        assert(back@ =~= upto(b as int).subrange(m as int, b as int));
    }
    while b < n
        invariant
            m <= b <= n,
            back@ == upto(b as int).subrange(m as int, b as int),
        decreases n - b,
    {
        back.push(b);
        b = b + 1;
        proof {
            assert(back@ =~= upto(b as int).subrange(m as int, b as int));
        }
    }
    proof {
        lemma_upto_extend(m as int, n as int);
        assert(front@ + flatten(groups@) + back@ =~= upto(n as int));
    }
    (front, groups, back)
}

/// Adding a positional run keeps positional groups non-empty and apart, given
/// the groups so far do not end in one.
proof fn lemma_runs_flush(gs: Seq<GroupModel>, cur: Seq<usize>)
    requires
        positional_runs_ok(gs),
        gs.len() > 0 ==> !(gs.last() is Positional),
    ensures
        positional_runs_ok(flushed(gs, cur)),
{
    if cur.len() > 0 {
        lemma_runs_push(gs, GroupModel::Positional(cur));
    }
}

/// Adding a group keeps positional groups non-empty and apart.
proof fn lemma_runs_push(gs: Seq<GroupModel>, g: GroupModel)
    requires
        positional_runs_ok(gs),
        g is Positional ==> g->Positional_0.len() > 0 && (gs.len() > 0 ==> !(gs.last() is Positional)),
    ensures
        positional_runs_ok(gs.push(g)),
{
    let t = gs.push(g);
    assert forall|k: int| 0 <= k < t.len() && (#[trigger] t[k]) is Positional implies t[k]->Positional_0.len() > 0 by {
        if k < gs.len() {
            assert(t[k] == gs[k]);
        }
    }
    assert forall|k: int| 0 <= k < t.len() - 1 && (#[trigger] t[k]) is Positional implies !(t[k + 1] is Positional) by {
        assert(t[k] == gs[k]);
        if k + 1 < gs.len() {
            assert(t[k + 1] == gs[k + 1]);
        }
    }
}


/// The argument names a keyword or a section of the signature.
pub open spec fn is_kw_pos(a: FormattedArg, spec: CommandSpec) -> bool {
    names_keyword(a, spec) || names_section(a, spec)
}

/// Increasing indices below `bound`, each of an argument that names a keyword
/// or section of the signature.
pub open spec fn positions_ok(ps: Seq<usize>, args: Seq<FormattedArg>, spec: CommandSpec, bound: int) -> bool {
    &&& forall|k: int, l: int| 0 <= k < l < ps.len() ==> ps[k] < ps[l]
    &&& forall|k: int| 0 <= k < ps.len() ==> ps[k] < bound && is_kw_pos(args[ps[k] as int], spec)
}

proof fn lemma_positions_push(ps: Seq<usize>, args: Seq<FormattedArg>, spec: CommandSpec, i: usize)
    requires
        positions_ok(ps, args, spec, i as int),
        is_kw_pos(args[i as int], spec),
    ensures
        positions_ok(ps.push(i), args, spec, i + 1),
{
    assert forall|k: int| 0 <= k < ps.push(i).len() implies ps.push(i)[k] < i + 1 && is_kw_pos(args[ps.push(i)[k] as int], spec) by {
        if k < ps.len() {
            assert(ps.push(i)[k] == ps[k]);
        }
    }
}

proof fn lemma_positions_grow(ps: Seq<usize>, args: Seq<FormattedArg>, spec: CommandSpec, a: int, b: int)
    requires
        positions_ok(ps, args, spec, a),
        a <= b,
    ensures
        positions_ok(ps, args, spec, b),
{
}

/// The first name of the list that equals the text without regard to ASCII
/// case.
pub(crate) fn find_name(v: &Vec<(&'static str, KwType)>, t: &[u8]) -> (r: Option<usize>)
    ensures
        match r {
            Some(j) => j < v@.len() && ci_eq(v@[j as int].0.spec_bytes(), t@),
            None => forall|k: int| 0 <= k < v@.len() ==> !ci_eq(#[trigger] v@[k].0.spec_bytes(), t@),
        },
        match r {
            Some(j) => first_ci(list_names(*v), t@, 0) == Some(j as int),
            None => first_ci(list_names(*v), t@, 0) is None,
        },
{
    let mut j: usize = 0;
    while j < v.len()
        invariant
            j <= v@.len(),
            forall|k: int| 0 <= k < j ==> !ci_eq(#[trigger] v@[k].0.spec_bytes(), t@),
        decreases v@.len() - j,
    {
        if eq_ci(v[j].0.as_bytes(), t) {
            proof {
                assert forall|q: int| 0 <= q < j implies !ci_eq(#[trigger] list_names(*v)[q], t@) by {
                    assert(list_names(*v)[q] == v@[q].0.spec_bytes());
                }
                assert(list_names(*v)[j as int] == v@[j as int].0.spec_bytes());
                lemma_first_ci(list_names(*v), t@, 0, Some(j as int));
            }
            return Some(j);
        }
        j = j + 1;
    }
    proof {
        assert forall|q: int| 0 <= q < list_names(*v).len() implies !ci_eq(#[trigger] list_names(*v)[q], t@) by {
            assert(list_names(*v)[q] == v@[q].0.spec_bytes());
        }
        lemma_first_ci(list_names(*v), t@, 0, None);
    }
    None
}

/// The end of a one-value keyword's values at `kw` for casing; the options
/// among them are recorded.
fn kp_one_value(args: &Vec<FormattedArg>, spec: &CommandSpec, kw: usize, n: usize, positions: &mut Vec<usize>, Ghost(pre): Ghost<Seq<usize>>) -> (next: usize)
    requires
        kw < n == args@.len() < usize::MAX,
        positions_ok(old(positions)@, args@, *spec, kw + 1),
        pre.len() <= old(positions)@.len(),
        old(positions)@.subrange(0, pre.len() as int) == pre,
    ensures
        kw < next <= n,
        positions_ok(final(positions)@, args@, *spec, next as int),
        pre.len() <= final(positions)@.len(),
        final(positions)@.subrange(0, pre.len() as int) == pre,
        ({
            let j1 = if kw + 1 < n && compound_pair(*spec, text_bytes(args@[kw as int]), text_bytes(args@[kw + 1])) { kw + 2 } else { kw + 1 };
            let j2 = skip_options(args@, *spec, j1, n as int);
            &&& final(positions)@ == option_positions(args@, *spec, j1, n as int, old(positions)@)
            &&& next == (if j2 < n { j2 + 1 } else { j2 })
        }),
{
    let mut i = kw + 1;
    if i < n && is_compound_keyword(args[kw].text.as_str().as_bytes(), args[i].text.as_str().as_bytes(), spec) {
        proof {
            lemma_positions_grow(positions@, args@, *spec, i as int, i + 1);
        }
        i = i + 1;
    }
    let ghost j1 = i as int;
    let ghost a0 = old(positions)@;
    while i < n
        invariant
            n == args@.len() < usize::MAX,
            kw < i <= n,
            positions_ok(positions@, args@, *spec, i as int),
            pre.len() <= positions@.len(),
            positions@.subrange(0, pre.len() as int) == pre,
            skip_options(args@, *spec, j1, n as int) == skip_options(args@, *spec, i as int, n as int),
            option_positions(args@, *spec, j1, n as int, a0) == option_positions(args@, *spec, i as int, n as int, positions@),
        ensures
            kw < i <= n,
            positions_ok(positions@, args@, *spec, i as int),
            pre.len() <= positions@.len(),
            positions@.subrange(0, pre.len() as int) == pre,
            i == skip_options(args@, *spec, j1, n as int),
            positions@ == option_positions(args@, *spec, j1, n as int, a0),
        decreases n - i,
    {
        let t = get_keyword_type(&args[i], spec);
        let is_opt = match t {
            Some(q) => match &spec.keywords[q].1 {
                KwType::Option => true,
                _ => false,
            },
            None => false,
        };
        proof {
            assert(is_opt == is_option_kw(args@[i as int], *spec));
        }
        if !is_opt {
            break;
        }
        proof {
            if let Some(q) = t {
                assert(ci_eq(spec.keywords@[q as int].0.spec_bytes(), text_bytes(args@[i as int])));
            }
            lemma_positions_push(positions@, args@, *spec, i);
        }
        positions.push(i);
        proof {
            assert(positions@.subrange(0, pre.len() as int) =~= pre);
        }
        i = i + 1;
    }
    if i < n {
        proof {
            lemma_positions_grow(positions@, args@, *spec, i as int, i + 1);
        }
        i = i + 1;
    }
    i
}

/// The end of a multi-value keyword's values at `kw` for casing.
fn kp_multi(args: &Vec<FormattedArg>, spec: &CommandSpec, kw: usize, n: usize, once_seen: bool) -> (next: usize)
    requires
        kw < n == args@.len() < usize::MAX,
    ensures
        kw < next <= n,
        next == kp_multi_scan(args@, *spec, kw as int, kw + 1, n as int, once_seen, first_ci(sec_names(*spec), text_bytes(args@[kw as int]), 0)),
{
    let section = section_index(args[kw].text.as_str().as_bytes(), spec);
    let ghost sec = first_ci(sec_names(*spec), text_bytes(args@[kw as int]), 0);
    let ghost target = kp_multi_scan(args@, *spec, kw as int, kw + 1, n as int, once_seen, sec);
    let mut i = kw + 1;
    let mut val_count: usize = 0;
    while i < n
        invariant
            n == args@.len() < usize::MAX,
            kw < i <= n,
            (val_count == 0) == (i == kw + 1),
            section matches Some(si) ==> si < spec.sections@.len() && sec == Some(si as int),
            section is None ==> sec is None,
            target == kp_multi_scan(args@, *spec, kw as int, i as int, n as int, once_seen, sec),
        ensures
            kw < i <= n,
            i == target,
        decreases n - i,
    {
        let inner_kw = get_keyword_type(&args[i], spec);
        let blocked = inner_kw.is_some() && once_seen && is_once_keyword_text(args[i].text.as_str().as_bytes(), spec);
        if !blocked && (inner_kw.is_some() || is_section_keyword(&args[i], spec)) {
            let sub = match section {
                Some(si) => find_name(&spec.sections[si].2, args[i].text.as_str().as_bytes()),
                None => None,
            };
            if let Some(q) = sub {
                let si = section.unwrap();
                let one = match &spec.sections[si].2[q].1 {
                    KwType::OneValue => true,
                    _ => false,
                };
                let step: usize = if one && i + 1 < n { 2 } else { 1 };
                i = i + step;
                val_count = if val_count < n { val_count + 1 } else { val_count };
                continue;
            }
            if val_count == 0 && is_compound_keyword(args[kw].text.as_str().as_bytes(), args[i].text.as_str().as_bytes(), spec) {
                i = i + 1;
                val_count = 1;
                continue;
            }
            break;
        }
        i = i + 1;
        val_count = if val_count < n { val_count + 1 } else { val_count };
    }
    i
}

/// The end of a group keyword's values at `kw` for casing: its positional
/// values, then up to the next keyword or section.
fn kp_group(args: &Vec<FormattedArg>, spec: &CommandSpec, kw: usize, n: usize, front_count: usize) -> (next: usize)
    requires
        kw < n == args@.len() < usize::MAX,
    ensures
        kw < next <= n,
        next == kp_group_scan(args@, *spec, if kw + 1 + front_count < n { kw + 1 + front_count } else { n as int }, n as int),
{
    let mut i = kw + 1;
    let mut consumed: usize = 0;
    while consumed < front_count && i < n
        invariant
            kw < i <= n,
            i == kw + 1 + consumed,
            consumed <= front_count,
        decreases n - i,
    {
        i = i + 1;
        consumed = consumed + 1;
    }
    let ghost target = kp_group_scan(args@, *spec, i as int, n as int);
    while i < n
        invariant
            n == args@.len(),
            kw < i <= n,
            target == kp_group_scan(args@, *spec, i as int, n as int),
        ensures
            kw < i <= n,
            i == target,
        decreases n - i,
    {
        if get_keyword_type(&args[i], spec).is_some() || is_section_keyword(&args[i], spec) {
            break;
        }
        i = i + 1;
    }
    i
}

/// The indices of the arguments that are cased as keywords: keywords and
/// sections of the signature, skipping command-line keywords with their
/// value, values of one-value keywords, once-keywords seen before, and a
/// section's own sub-keywords and a compound continuation among the values.
/// The indices increase, each names a keyword or section of the signature,
/// and every such argument among the front positional ones is included.
pub fn compute_keyword_positions(args: &Vec<FormattedArg>, spec: &CommandSpec) -> (r: Vec<usize>)
    requires
        args@.len() < usize::MAX,
    ensures
        r@ == keyword_positions_spec(args@, *spec),
        positions_ok(r@, args@, *spec, args@.len() as int),
        forall|p: int| 0 <= p < args@.len() && p < spec.front_positional && #[trigger] is_kw_pos(args@[p], *spec)
            ==> r@.contains(p as usize),
{
    let n = args.len();
    let mut positions: Vec<usize> = Vec::new();
    let mut once_seen = false;
    let mut i: usize = 0;
    let mut pos_count: usize = 0;
    let ghost f = if spec.front_positional < n { spec.front_positional as int } else { n as int };
    while i < n && pos_count < spec.front_positional
        invariant
            n == args@.len() < usize::MAX,
            i <= n,
            pos_count == i,
            i <= spec.front_positional,
            f == (if spec.front_positional < n { spec.front_positional as int } else { n as int }),
            positions_ok(positions@, args@, *spec, i as int),
            forall|p: int| 0 <= p < i && #[trigger] is_kw_pos(args@[p], *spec) ==> positions@.contains(p as usize),
            front_positions(args@, *spec, 0, f, seq![]) == front_positions(args@, *spec, i as int, f, positions@),
        decreases n - i,
    {
        let kw = get_keyword_type(&args[i], spec);
        let sec = is_section_keyword(&args[i], spec);
        proof {
            assert((kw.is_some() || sec) == is_kw_pos(args@[i as int], *spec));
        }
        if kw.is_some() || sec {
            let ghost before = positions@;
            proof {
                lemma_positions_push(before, args@, *spec, i);
            }
            positions.push(i);
            proof {
                assert(positions@[before.len() as int] == i);
                assert forall|p: int| 0 <= p < i + 1 && #[trigger] is_kw_pos(args@[p], *spec) implies positions@.contains(p as usize) by {
                    if p < i {
                        let k = choose|k: int| 0 <= k < before.len() && before[k] == p as usize;
                        assert(positions@[k] == before[k]);
                    }
                }
            }
        } else {
            proof {
                lemma_positions_grow(positions@, args@, *spec, i as int, i + 1);
            }
        }
        pos_count = pos_count + 1;
        i = i + 1;
    }
    let ghost fend = i as int;
    let ghost pre = positions@;
    let ghost target = positions_loop(args@, *spec, i as int, n as int, false, positions@);
    proof {
        assert(fend == f);
        assert(target == keyword_positions_spec(args@, *spec));
    }
    while i < n
        invariant
            n == args@.len() < usize::MAX,
            fend <= i <= n,
            fend == (if spec.front_positional < n { spec.front_positional as int } else { n as int }),
            positions_ok(positions@, args@, *spec, i as int),
            pre.len() <= positions@.len(),
            positions@.subrange(0, pre.len() as int) == pre,
            forall|p: int| 0 <= p < fend && #[trigger] is_kw_pos(args@[p], *spec) ==> pre.contains(p as usize),
            target == positions_loop(args@, *spec, i as int, n as int, once_seen, positions@),
        decreases n - i,
    {
        if is_cmd_line_keyword(&args[i], spec) {
            let step: usize = if i + 1 < n { 2 } else { 1 };
            proof {
                lemma_positions_grow(positions@, args@, *spec, i as int, i + step);
            }
            i = i + step;
            continue;
        }
        let kw_type = get_keyword_type(&args[i], spec);
        let is_section = is_section_keyword(&args[i], spec);
        let is_once = kw_type.is_some() && is_once_keyword_text(args[i].text.as_str().as_bytes(), spec);
        proof {
            assert(is_once == once_kw(args@[i as int], *spec));
            assert((kw_type.is_some() || is_section) == is_kw_pos(args@[i as int], *spec));
        }
        if kw_type.is_some() && is_once && once_seen {
            proof {
                lemma_positions_grow(positions@, args@, *spec, i as int, i + 1);
            }
            i = i + 1;
            continue;
        }
        if kw_type.is_some() || is_section {
            if is_once {
                once_seen = true;
            }
            proof {
                lemma_positions_push(positions@, args@, *spec, i);
            }
            positions.push(i);
            proof {
                assert(positions@.subrange(0, pre.len() as int) =~= pre);
            }
            let kw_idx = i;
            let ghost p1 = positions@;
            let next: usize = match kw_type {
                Some(j) => match &spec.keywords[j].1 {
                    KwType::Option => kw_idx + 1,
                    KwType::OneValue => kp_one_value(args, spec, kw_idx, n, &mut positions, Ghost(pre)),
                    KwType::MultiValue => kp_multi(args, spec, kw_idx, n, once_seen),
                    KwType::Group(c, _) => kp_group(args, spec, kw_idx, n, *c),
                },
                None => kp_multi(args, spec, kw_idx, n, once_seen),
            };
            proof {
                if positions@ == p1 {
                    lemma_positions_grow(positions@, args@, *spec, kw_idx + 1, next as int);
                }
            }
            i = next;
        } else {
            proof {
                lemma_positions_grow(positions@, args@, *spec, i as int, i + 1);
            }
            i = i + 1;
        }
    }
    proof {
        assert forall|p: int| 0 <= p < args@.len() && p < spec.front_positional && #[trigger] is_kw_pos(args@[p], *spec)
            implies positions@.contains(p as usize) by {
            assert(pre.contains(p as usize));
            let k = choose|k: int| 0 <= k < pre.len() && pre[k] == p as usize;
            assert(positions@.subrange(0, pre.len() as int)[k] == pre[k]);
        }
    }
    positions
}


/// The number of positional values that follow a section keyword: that of the
/// first section named like the text, or none.
pub fn get_section_front_positional(keyword_text: &str, spec: &CommandSpec) -> (r: usize)
    ensures
        (exists|j: int| 0 <= j < spec.sections@.len() && ci_eq((#[trigger] spec.sections@[j]).0.spec_bytes(), keyword_text.spec_bytes()))
            ==> exists|j: int| 0 <= j < spec.sections@.len() && ci_eq(spec.sections@[j].0.spec_bytes(), keyword_text.spec_bytes())
                && (forall|k: int| 0 <= k < j ==> !ci_eq(#[trigger] spec.sections@[k].0.spec_bytes(), keyword_text.spec_bytes()))
                && r == spec.sections@[j].1,
        (forall|j: int| 0 <= j < spec.sections@.len() ==> !ci_eq(#[trigger] spec.sections@[j].0.spec_bytes(), keyword_text.spec_bytes()))
            ==> r == 0,
{
    match section_index(keyword_text.as_bytes(), spec) {
        Some(j) => spec.sections[j].1,
        None => 0,
    }
}

/// An argument whose trailing line comment can move behind the closing
/// parenthesis: not a comment itself, and with a trailing comment that is not
/// a bracket comment.
pub open spec fn deferrable(a: FormattedArg) -> bool {
    !is_comment(a) && !a.trailing_is_bracket && a.trailing_comment is Some
}

/// Takes the trailing comment off the last argument whose comment can be
/// deferred, and returns it; with no such argument, nothing changes.
pub fn extract_deferred_closing_comment(args: &mut Vec<FormattedArg>) -> (r: Option<String>)
    ensures
        match r {
            Some(c) => exists|k: int| 0 <= k < old(args)@.len() && deferrable(old(args)@[k])
                && (forall|q: int| k < q < old(args)@.len() ==> !deferrable(#[trigger] old(args)@[q]))
                && old(args)@[k].trailing_comment == Some(c)
                && final(args)@ == old(args)@.update(k, (FormattedArg { trailing_comment: None, ..old(args)@[k] })),
            None => (forall|q: int| 0 <= q < old(args)@.len() ==> !deferrable(#[trigger] old(args)@[q]))
                && final(args)@ == old(args)@,
        },
{
    let mut i: usize = args.len();
    while i > 0
        invariant
            i <= args@.len(),
            args@ == old(args)@,
            forall|q: int| i <= q < args@.len() ==> !deferrable(#[trigger] args@[q]),
        decreases i,
    {
        i = i - 1;
        let skip = starts_with_hash(&args[i]) || args[i].trailing_is_bracket || args[i].trailing_comment.is_none();
        if !skip {
            let ghost before = args@;
            let mut a = args.remove(i);
            let c = a.trailing_comment.take();
            args.insert(i, a);
            proof {
                assert(args@ =~= before.update(i as int, (FormattedArg { trailing_comment: None, ..before[i as int] })));
            }
            return c;
        }
    }
    None
}


/// The first of the names equal to the text without regard to ASCII case,
/// from index `k` on.
pub open spec fn first_ci(names: Seq<Seq<u8>>, t: Seq<u8>, k: int) -> Option<int>
    decreases names.len() - k,
{
    if k < 0 || k >= names.len() {
        None
    } else if ci_eq(names[k], t) {
        Some(k)
    } else {
        first_ci(names, t, k + 1)
    }
}

proof fn lemma_first_ci(names: Seq<Seq<u8>>, t: Seq<u8>, k: int, r: Option<int>)
    requires
        0 <= k <= names.len(),
        match r {
            Some(x) => k <= x < names.len() && ci_eq(names[x], t) && forall|q: int| k <= q < x ==> !ci_eq(#[trigger] names[q], t),
            None => forall|q: int| k <= q < names.len() ==> !ci_eq(#[trigger] names[q], t),
        },
    ensures
        first_ci(names, t, k) == r,
    decreases names.len() - k,
{
    if k < names.len() {
        if r != Some(k) {
            assert(!ci_eq(names[k], t));
            lemma_first_ci(names, t, k + 1, r);
        }
    }
}

/// The names of the signature's keywords.
pub open spec fn kw_names(spec: CommandSpec) -> Seq<Seq<u8>> {
    spec.keywords@.map_values(|e: (&'static str, KwType)| e.0.spec_bytes())
}

/// The names of the signature's sections.
pub open spec fn sec_names(spec: CommandSpec) -> Seq<Seq<u8>> {
    spec.sections@.map_values(|e: SectionDef| e.0.spec_bytes())
}

/// The index of the first keyword of the signature that the argument names
/// (groups and comments name none).
pub open spec fn kw_of(a: FormattedArg, spec: CommandSpec) -> Option<int> {
    if a.is_paren_group || is_comment(a) {
        None
    } else {
        first_ci(kw_names(spec), text_bytes(a), 0)
    }
}

/// The argument is an option keyword of the signature.
pub open spec fn is_option_kw(a: FormattedArg, spec: CommandSpec) -> bool {
    match kw_of(a, spec) {
        Some(q) => spec.keywords@[q].1 is Option,
        None => false,
    }
}

/// Keyword `k` followed by `v` forms a compound keyword of the signature.
pub open spec fn compound_pair(spec: CommandSpec, k: Seq<u8>, v: Seq<u8>) -> bool {
    exists|j: int| 0 <= j < spec.compound_keywords@.len()
        && ci_eq((#[trigger] spec.compound_keywords@[j]).0.spec_bytes(), k)
        && ci_eq(spec.compound_keywords@[j].1.spec_bytes(), v)
}

/// The argument is a command-line keyword.
pub open spec fn cmd_line(a: FormattedArg, spec: CommandSpec) -> bool {
    !a.is_paren_group && !is_comment(a) && names_hold(spec.command_line_keywords@, text_bytes(a))
}

/// The argument names a once-keyword of the signature.
pub open spec fn once_kw(a: FormattedArg, spec: CommandSpec) -> bool {
    names_keyword(a, spec) && names_hold(spec.once_keywords@, text_bytes(a))
}

/// The options from `j` on, up to `m`.
pub open spec fn skip_options(args: Seq<FormattedArg>, spec: CommandSpec, j: int, m: int) -> int
    decreases m - j,
{
    if 0 <= j < m && is_option_kw(args[j], spec) {
        skip_options(args, spec, j + 1, m)
    } else {
        j
    }
}

/// Where the values of a one-value keyword at `i` end: after a compound
/// continuation, the options that follow, and one value.
pub open spec fn one_value_next(args: Seq<FormattedArg>, spec: CommandSpec, i: int, m: int) -> int {
    let j1 = if i + 1 < m && compound_pair(spec, text_bytes(args[i]), text_bytes(args[i + 1])) { i + 2 } else { i + 1 };
    let j2 = skip_options(args, spec, j1, m);
    if j2 < m { j2 + 1 } else { j2 }
}

/// A keyword right after a comment ends a multi-value keyword's values.
pub open spec fn ends_values(a: FormattedArg, spec: CommandSpec, config: Configuration) -> bool {
    names_keyword(a, spec) || names_section(a, spec) || cmd_line(a, spec) || custom_holds(a, config)
        || (a.is_keyword && spec.keywords@.len() == 0 && spec.sections@.len() == 0)
}

/// Where the values of a multi-value keyword at `kw` end, scanning from `i`:
/// at a comment followed by a keyword, or at a keyword-like argument that is
/// neither a once-keyword seen before, a sub-keyword of the keyword's
/// section (`sec`), nor a compound continuation right after the keyword.
pub open spec fn multi_scan(
    args: Seq<FormattedArg>,
    spec: CommandSpec,
    config: Configuration,
    kw: int,
    i: int,
    m: int,
    once_seen: bool,
    sec: Option<int>,
) -> int
    decreases m - i,
{
    if i < 0 || i >= m {
        i
    } else if is_comment(args[i]) && i + 1 < m && ends_values(args[i + 1], spec, config) {
        i
    } else if !(once_kw(args[i], spec) && once_seen) && keyword_like_spec(args[i], spec, config, true) {
        let sub = match sec {
            Some(si) => in_kw_list(text_bytes(args[i]), spec.sections@[si].2, 0),
            None => false,
        };
        if sub || (i == kw + 1 && compound_pair(spec, text_bytes(args[kw]), text_bytes(args[i]))) {
            multi_scan(args, spec, config, kw, i + 1, m, once_seen, sec)
        } else {
            i
        }
    } else {
        multi_scan(args, spec, config, kw, i + 1, m, once_seen, sec)
    }
}

/// Up to the next keyword-like argument, from `i`.
pub open spec fn group_scan(args: Seq<FormattedArg>, spec: CommandSpec, config: Configuration, i: int, m: int) -> int
    decreases m - i,
{
    if i < 0 || i >= m || keyword_like_spec(args[i], spec, config, true) {
        i
    } else {
        group_scan(args, spec, config, i + 1, m)
    }
}

/// Where the values of the keyword at `i` end, by its kind: an option takes
/// none; a one-value keyword, see `one_value_next`; a group keyword its
/// positional values, then up to the next keyword; any other, see
/// `multi_scan`.
pub open spec fn kw_next(args: Seq<FormattedArg>, spec: CommandSpec, config: Configuration, i: int, m: int, once_seen: bool) -> int {
    let multi = multi_scan(args, spec, config, i, i + 1, m, once_seen, first_ci(sec_names(spec), text_bytes(args[i]), 0));
    match kw_of(args[i], spec) {
        None => multi,
        Some(j) => match spec.keywords@[j].1 {
            KwType::Option => i + 1,
            KwType::OneValue => one_value_next(args, spec, i, m),
            KwType::MultiValue => multi,
            KwType::Group(c, _) => group_scan(args, spec, config, if i + 1 + c < m { i + 1 + c } else { m }, m),
        },
    }
}

/// A group by its indices.
pub ghost enum GroupModel {
    Positional(Seq<usize>),
    Keyword(usize, Seq<usize>),
    CmdLine(usize, Option<usize>),
}

pub open spec fn group_model(g: ArgGroup) -> GroupModel {
    match g {
        ArgGroup::Positional(v) => GroupModel::Positional(v@),
        ArgGroup::Keyword { keyword, values } => GroupModel::Keyword(keyword, values@),
        ArgGroup::CmdLineKeyword { keyword, value } => GroupModel::CmdLine(keyword, value),
    }
}

pub open spec fn groups_model(gs: Seq<ArgGroup>) -> Seq<GroupModel> {
    gs.map_values(|g: ArgGroup| group_model(g))
}

/// The groups with the pending positional run added, if it is not empty.
pub open spec fn flushed(groups: Seq<GroupModel>, cur: Seq<usize>) -> Seq<GroupModel> {
    if cur.len() > 0 {
        groups.push(GroupModel::Positional(cur))
    } else {
        groups
    }
}

/// The groups formed from index `i` up to `m`, given those formed so far and
/// the pending positional run: a command-line keyword takes the next
/// argument; a once-keyword seen before is positional; a keyword-like
/// argument starts a keyword group that takes the values `kw_next` says;
/// any other argument is positional.
pub open spec fn split_loop(
    args: Seq<FormattedArg>,
    spec: CommandSpec,
    config: Configuration,
    i: int,
    m: int,
    once_seen: bool,
    cur: Seq<usize>,
    groups: Seq<GroupModel>,
) -> Seq<GroupModel>
    decreases m - i,
{
    if i < 0 || i >= m {
        flushed(groups, cur)
    } else if cmd_line(args[i], spec) {
        if i + 1 < m {
            split_loop(args, spec, config, i + 2, m, once_seen, seq![],
                flushed(groups, cur).push(GroupModel::CmdLine(i as usize, Some((i + 1) as usize))))
        } else {
            split_loop(args, spec, config, i + 1, m, once_seen, seq![], flushed(groups, cur).push(GroupModel::CmdLine(i as usize, None)))
        }
    } else if once_kw(args[i], spec) && once_seen {
        split_loop(args, spec, config, i + 1, m, once_seen, cur.push(i as usize), groups)
    } else if keyword_like_spec(args[i], spec, config, false) {
        let seen = once_seen || once_kw(args[i], spec);
        let next = kw_next(args, spec, config, i, m, seen);
        if i < next <= m {
            split_loop(args, spec, config, next, m, seen, seq![],
                flushed(groups, cur).push(GroupModel::Keyword(i as usize, upto(next).subrange(i + 1, next))))
        } else {
            flushed(groups, cur)
        }
    } else {
        split_loop(args, spec, config, i + 1, m, once_seen, cur.push(i as usize), groups)
    }
}

/// How many arguments stay at the back: at most `back_positional`.
pub open spec fn back_count(n: int, spec: CommandSpec) -> int {
    if spec.back_positional < n { spec.back_positional as int } else { n }
}

/// How many arguments stand in front: `front_positional` (at most `m`), and
/// one more when the signature has neither keywords nor sections, a custom
/// or lexer keyword follows, and the next argument is not one itself.
pub open spec fn front_count(args: Seq<FormattedArg>, spec: CommandSpec, config: Configuration, m: int) -> int {
    let f = if spec.front_positional < m { spec.front_positional as int } else { m };
    if f < m && spec.keywords@.len() == 0 && spec.sections@.len() == 0
        && (exists|q: int| f <= q < m && (custom_holds(#[trigger] args[q], config) || args[q].is_keyword))
        && !args[f].is_keyword {
        f + 1
    } else {
        f
    }
}

/// The groups of a command's arguments (see `split_loop`), between the front
/// and back positional ones.
pub open spec fn split_groups(args: Seq<FormattedArg>, spec: CommandSpec, config: Configuration) -> Seq<GroupModel> {
    let m = args.len() - back_count(args.len() as int, spec);
    split_loop(args, spec, config, front_count(args, spec, config, m), m, false, seq![], seq![])
}

/// Positional groups are never empty and never stand next to each other.
pub open spec fn positional_runs_ok(gs: Seq<GroupModel>) -> bool {
    &&& forall|k: int| 0 <= k < gs.len() && (#[trigger] gs[k]) is Positional ==> gs[k]->Positional_0.len() > 0
    &&& forall|k: int| 0 <= k < gs.len() - 1 && (#[trigger] gs[k]) is Positional ==> !(gs[k + 1] is Positional)
}


/// The names of a keyword list.
pub open spec fn list_names(v: Vec<(&'static str, KwType)>) -> Seq<Seq<u8>> {
    v@.map_values(|e: (&'static str, KwType)| e.0.spec_bytes())
}

/// The front positional arguments from `i` up to `f` that name a keyword or
/// section, after `acc`.
pub open spec fn front_positions(args: Seq<FormattedArg>, spec: CommandSpec, i: int, f: int, acc: Seq<usize>) -> Seq<usize>
    decreases f - i,
{
    if i < 0 || i >= f {
        acc
    } else {
        front_positions(args, spec, i + 1, f, if is_kw_pos(args[i], spec) { acc.push(i as usize) } else { acc })
    }
}

/// The options from `j` on, up to `n`, added to `acc`.
pub open spec fn option_positions(args: Seq<FormattedArg>, spec: CommandSpec, j: int, n: int, acc: Seq<usize>) -> Seq<usize>
    decreases n - j,
{
    if 0 <= j < n && is_option_kw(args[j], spec) {
        option_positions(args, spec, j + 1, n, acc.push(j as usize))
    } else {
        acc
    }
}

/// Where the values of a multi-value keyword at `kw` end for casing, from
/// `i`: at a keyword or section of the signature (not a once-keyword seen
/// before), unless it is a sub-keyword of the keyword's section (a one-value
/// one takes its value along) or a compound continuation right after it.
pub open spec fn kp_multi_scan(args: Seq<FormattedArg>, spec: CommandSpec, kw: int, i: int, n: int, seen: bool, sec: Option<int>) -> int
    decreases n - i,
{
    if i < 0 || i >= n {
        i
    } else if !(once_kw(args[i], spec) && seen) && is_kw_pos(args[i], spec) {
        let sub = match sec {
            Some(si) => first_ci(list_names(spec.sections@[si].2), text_bytes(args[i]), 0),
            None => None,
        };
        match sub {
            Some(q) => {
                let si = sec->0;
                let step = if spec.sections@[si].2@[q].1 is OneValue && i + 1 < n { 2int } else { 1int };
                kp_multi_scan(args, spec, kw, i + step, n, seen, sec)
            },
            None => if i == kw + 1 && compound_pair(spec, text_bytes(args[kw]), text_bytes(args[i])) {
                kp_multi_scan(args, spec, kw, i + 1, n, seen, sec)
            } else {
                i
            },
        }
    } else {
        kp_multi_scan(args, spec, kw, i + 1, n, seen, sec)
    }
}

/// Up to the next keyword or section of the signature, from `i`.
pub open spec fn kp_group_scan(args: Seq<FormattedArg>, spec: CommandSpec, i: int, n: int) -> int
    decreases n - i,
{
    if i < 0 || i >= n || is_kw_pos(args[i], spec) {
        i
    } else {
        kp_group_scan(args, spec, i + 1, n)
    }
}

/// The positions from index `i` on, after `acc`: command-line keywords are
/// skipped with their value, once-keywords seen before are skipped, a keyword
/// or section is recorded and its values skipped by its kind (for a one-value
/// keyword, the options among them are recorded too).
pub open spec fn positions_loop(args: Seq<FormattedArg>, spec: CommandSpec, i: int, n: int, seen: bool, acc: Seq<usize>) -> Seq<usize>
    decreases n - i,
{
    if i < 0 || i >= n {
        acc
    } else if cmd_line(args[i], spec) {
        positions_loop(args, spec, if i + 1 < n { i + 2 } else { i + 1 }, n, seen, acc)
    } else if once_kw(args[i], spec) && seen {
        positions_loop(args, spec, i + 1, n, seen, acc)
    } else if is_kw_pos(args[i], spec) {
        let s2 = seen || once_kw(args[i], spec);
        let a2 = acc.push(i as usize);
        let multi = kp_multi_scan(args, spec, i, i + 1, n, s2, first_ci(sec_names(spec), text_bytes(args[i]), 0));
        match kw_of(args[i], spec) {
            Some(j) => match spec.keywords@[j].1 {
                KwType::Option => positions_loop(args, spec, i + 1, n, s2, a2),
                KwType::OneValue => {
                    let j1 = if i + 1 < n && compound_pair(spec, text_bytes(args[i]), text_bytes(args[i + 1])) { i + 2 } else { i + 1 };
                    let j2 = skip_options(args, spec, j1, n);
                    let next = if j2 < n { j2 + 1 } else { j2 };
                    if i < next <= n {
                        positions_loop(args, spec, next, n, s2, option_positions(args, spec, j1, n, a2))
                    } else {
                        acc
                    }
                },
                KwType::MultiValue => if i < multi <= n { positions_loop(args, spec, multi, n, s2, a2) } else { acc },
                KwType::Group(c, _) => {
                    let g = kp_group_scan(args, spec, if i + 1 + c < n { i + 1 + c } else { n }, n);
                    if i < g <= n { positions_loop(args, spec, g, n, s2, a2) } else { acc }
                },
            },
            None => if i < multi <= n { positions_loop(args, spec, multi, n, s2, a2) } else { acc },
        }
    } else {
        positions_loop(args, spec, i + 1, n, seen, acc)
    }
}

/// The indices of the arguments cased as keywords; see `front_positions` and
/// `positions_loop`.
pub open spec fn keyword_positions_spec(args: Seq<FormattedArg>, spec: CommandSpec) -> Seq<usize> {
    let f = if spec.front_positional < args.len() { spec.front_positional as int } else { args.len() as int };
    positions_loop(args, spec, f, args.len() as int, false, front_positions(args, spec, 0, f, seq![]))
}

} // verus!
