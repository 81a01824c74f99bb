//! Casing of command names, keywords and literals, the lists that decide
//! which arguments are literals or sorted, and the visual indent that
//! continues a wrapped line.
use vstd::prelude::*;
use vstd::string::StringSliceAdditionalSpecFns;

use crate::arg_groups::{any_name, names_hold};
use crate::config::{CaseStyle, Configuration, IndentStyle, SortArguments};
use crate::signatures::{CommandKind, CommandSpec, KwType, SectionDef};
use crate::load::sbytes;
use crate::text::{
    ci_eq, eq_bytes, eq_ci, lemma_ascii_valid_utf8, lemma_lower_valid, lemma_str_valid, lemma_upper_valid, lower_seq,
    string_of, to_lower_vec, to_upper_vec, upper_seq,
};

verus! {

/// The bytes in the given case style: ASCII letters lowered or raised, the
/// rest unchanged; `Preserve` leaves them as they are.
pub open spec fn cased(b: Seq<u8>, style: CaseStyle) -> Seq<u8> {
    match style {
        CaseStyle::Lower => lower_seq(b),
        CaseStyle::Upper => upper_seq(b),
        CaseStyle::Preserve => b,
    }
}

fn cased_string(b: &[u8], style: CaseStyle) -> (r: String)
    requires
        vstd::utf8::valid_utf8(b@),
    ensures
        sbytes(r) == cased(b@, style),
{
    match style {
        CaseStyle::Lower => {
            let v = to_lower_vec(b);
            proof {
                lemma_lower_valid(b@);
            }
            string_of(v.as_slice())
        },
        CaseStyle::Upper => {
            let v = to_upper_vec(b);
            proof {
                lemma_upper_valid(b@);
            }
            string_of(v.as_slice())
        },
        CaseStyle::Preserve => string_of(b),
    }
}

/// The text in the given case style.
pub fn apply_case_owned(text: String, style: CaseStyle) -> (r: String)
    ensures
        sbytes(r) == cased(sbytes(text), style),
{
    match style {
        CaseStyle::Preserve => text,
        _ => {
            let t = text.as_str();
            proof {
                lemma_str_valid(t);
            }
            cased_string(t.as_bytes(), style)
        },
    }
}

/// A command name in the configured command case.
pub fn apply_command_case(name: &str, style: CaseStyle) -> (r: String)
    ensures
        sbytes(r) == cased(name.spec_bytes(), style),
{
    proof {
        lemma_str_valid(name);
    }
    cased_string(name.as_bytes(), style)
}

/// A keyword in the configured keyword case.
pub fn apply_keyword_case(text: &str, style: CaseStyle) -> (r: String)
    ensures
        sbytes(r) == cased(text.spec_bytes(), style),
{
    proof {
        lemma_str_valid(text);
    }
    cased_string(text.as_bytes(), style)
}

/// A literal (such as `ON` or `TRUE`) in the configured literal case.
pub fn apply_literal_case(text: &str, style: CaseStyle) -> (r: String)
    ensures
        sbytes(r) == cased(text.spec_bytes(), style),
{
    proof {
        lemma_str_valid(text);
    }
    cased_string(text.as_bytes(), style)
}

/// `n` copies of the byte `b`.
pub open spec fn repeat(b: u8, n: nat) -> Seq<u8> {
    Seq::new(n, |i: int| b)
}

/// The indent that brings a continued line to column `width`: spaces, or with
/// tab indentation as many tabs as fit and spaces for the rest.
pub open spec fn indent_prefix(width: nat, style: IndentStyle, tab_width: nat) -> Seq<u8> {
    if width == 0 {
        seq![]
    } else {
        match style {
            IndentStyle::Space => repeat(32u8, width),
            IndentStyle::Tab => repeat(9u8, width / tab_width) + repeat(32u8, width % tab_width),
        }
    }
}

fn push_repeat(out: &mut Vec<u8>, b: u8, n: usize)
    ensures
        final(out)@ == old(out)@ + repeat(b, n as nat),
{
    let mut k: usize = 0;
    let ghost start = out@;
    while k < n
        invariant
            k <= n,
            out@ == start + repeat(b, k as nat),
        decreases n - k,
    {
        out.push(b);
        k = k + 1;
        proof {
            assert(out@ =~= start + repeat(b, k as nat));
        }
    }
}

/// See `indent_prefix`; the tab width is the configured indent width.
pub fn visual_indent_prefix(width: usize, config: &Configuration) -> (r: String)
    requires
        width > 0 && config.indent_style == IndentStyle::Tab ==> config.indent_width > 0,
    ensures
        sbytes(r) == indent_prefix(width as nat, config.indent_style, config.indent_width as nat),
{
    let mut out: Vec<u8> = Vec::new();
    if width > 0 {
        match config.indent_style {
            IndentStyle::Space => {
                push_repeat(&mut out, 32u8, width);
            },
            IndentStyle::Tab => {
                let tab_width = config.indent_width as usize;
                push_repeat(&mut out, 9u8, width / tab_width);
                push_repeat(&mut out, 32u8, width % tab_width);
            },
        }
    }
    proof {
        assert(out@ =~= indent_prefix(width as nat, config.indent_style, config.indent_width as nat));
        lemma_ascii_valid_utf8(out@);
    }
    string_of(out.as_slice())
}

/// The literals subject to the literal case: booleans and the operators of
/// conditions.
pub open spec fn literal_list() -> Seq<&'static str> {
    seq![
        "AND", "COMMAND", "DEFINED", "EQUAL", "EXISTS", "FALSE", "GREATER_EQUAL", "GREATER", "IN_LIST",
        "IS_ABSOLUTE", "IS_DIRECTORY", "IS_NEWER_THAN", "IS_SYMLINK", "LESS_EQUAL", "LESS", "MATCHES",
        "NO", "NOT", "OFF", "ON", "OR", "PATH_EQUAL", "POLICY", "STREQUAL", "STRGREATER_EQUAL",
        "STRGREATER", "STRLESS_EQUAL", "STRLESS", "TARGET", "TEST", "TRUE", "VERSION_EQUAL",
        "VERSION_GREATER_EQUAL", "VERSION_GREATER", "VERSION_LESS_EQUAL", "VERSION_LESS", "YES",
    ]
}

pub(crate) fn literal_tokens() -> (r: Vec<&'static str>)
    ensures
        r@ == literal_list(),
{
    let r = vec![
        "AND", "COMMAND", "DEFINED", "EQUAL", "EXISTS", "FALSE", "GREATER_EQUAL", "GREATER", "IN_LIST",
        "IS_ABSOLUTE", "IS_DIRECTORY", "IS_NEWER_THAN", "IS_SYMLINK", "LESS_EQUAL", "LESS", "MATCHES",
        "NO", "NOT", "OFF", "ON", "OR", "PATH_EQUAL", "POLICY", "STREQUAL", "STRGREATER_EQUAL",
        "STRGREATER", "STRLESS_EQUAL", "STRLESS", "TARGET", "TEST", "TRUE", "VERSION_EQUAL",
        "VERSION_GREATER_EQUAL", "VERSION_GREATER", "VERSION_LESS_EQUAL", "VERSION_LESS", "YES",
    ];
    proof {
        assert(r@ =~= literal_list());
    }
    r
}

/// The commands whose argument groups may be sorted.
pub open spec fn sortable_list() -> Seq<&'static str> {
    seq![
        "target_link_libraries", "target_include_directories", "target_compile_options",
        "target_compile_definitions", "target_compile_features", "target_link_options", "target_sources",
        "find_package", "add_custom_command", "add_library", "add_executable",
    ]
}

fn sortable_commands() -> (r: Vec<&'static str>)
    ensures
        r@ == sortable_list(),
{
    let r = vec![
        "target_link_libraries", "target_include_directories", "target_compile_options",
        "target_compile_definitions", "target_compile_features", "target_link_options", "target_sources",
        "find_package", "add_custom_command", "add_library", "add_executable",
    ];
    proof {
        assert(r@ =~= sortable_list());
    }
    r
}

/// The keywords whose values are sorted when sorting is on.
pub open spec fn sort_group_list() -> Seq<&'static str> {
    seq!["PUBLIC", "PRIVATE", "INTERFACE", "COMPONENTS", "OPTIONAL_COMPONENTS", "SOURCES", "DEPENDS", "BYPRODUCTS"]
}

fn sort_group_keywords() -> (r: Vec<&'static str>)
    ensures
        r@ == sort_group_list(),
{
    let r = vec!["PUBLIC", "PRIVATE", "INTERFACE", "COMPONENTS", "OPTIONAL_COMPONENTS", "SOURCES", "DEPENDS", "BYPRODUCTS"];
    proof {
        assert(r@ =~= sort_group_list());
    }
    r
}

/// The text is one of the literals, without regard to ASCII case.
pub fn is_literal_token(text: &str) -> (r: bool)
    ensures
        r == names_hold(literal_list(), text.spec_bytes()),
{
    any_name(&literal_tokens(), text.as_bytes())
}

/// The command is one whose arguments may be sorted (without regard to case).
pub fn is_sortable_command(name: &str) -> (r: bool)
    ensures
        r == names_hold(sortable_list(), name.spec_bytes()),
{
    any_name(&sortable_commands(), name.as_bytes())
}

/// The keyword's values are sorted when sorting is on.
pub fn is_sort_group_keyword(text: &str) -> (r: bool)
    ensures
        r == names_hold(sort_group_list(), text.spec_bytes()),
{
    any_name(&sort_group_keywords(), text.as_bytes())
}

/// Whether the arguments of the command are sorted: never with sorting off;
/// otherwise for the sortable commands, and for any command once custom
/// keywords are configured.
pub fn should_sort_for_command(raw_name: &str, config: &Configuration) -> (r: bool)
    ensures
        r == (!(config.sort_arguments is Disabled)
            && (names_hold(sortable_list(), raw_name.spec_bytes()) || config.custom_keywords@.len() > 0)),
{
    match &config.sort_arguments {
        SortArguments::Disabled => false,
        _ => is_sortable_command(raw_name) || config.custom_keywords.len() > 0,
    }
}

/// A name among the keywords of a group keyword's sub-section.
pub open spec fn group_has(t: Seq<u8>, k: KwType) -> bool {
    match k {
        KwType::Group(_, g) => exists|m: int| 0 <= m < g@.len() && ci_eq((#[trigger] g@[m]).0.spec_bytes(), t),
        _ => false,
    }
}

/// The section's name, one of its sub-keywords, or a name within one of
/// their groups.
pub open spec fn in_section(t: Seq<u8>, s: SectionDef) -> bool {
    ||| ci_eq(s.0.spec_bytes(), t)
    ||| exists|k: int| 0 <= k < s.2@.len() && (ci_eq((#[trigger] s.2@[k]).0.spec_bytes(), t) || group_has(t, s.2@[k].1))
}

/// The text names something of the signature: a keyword, a section or
/// anything within one, a command-line, pair, property, flow or once
/// keyword, or either word of a compound keyword (without regard to ASCII
/// case).
pub open spec fn in_command_spec(t: Seq<u8>, spec: CommandSpec) -> bool {
    ||| exists|j: int| 0 <= j < spec.keywords@.len() && ci_eq((#[trigger] spec.keywords@[j]).0.spec_bytes(), t)
    ||| exists|j: int| 0 <= j < spec.sections@.len() && in_section(t, #[trigger] spec.sections@[j])
    ||| names_hold(spec.command_line_keywords@, t)
    ||| names_hold(spec.pair_keywords@, t)
    ||| names_hold(spec.property_keywords@, t)
    ||| names_hold(spec.flow_keywords@, t)
    ||| exists|j: int| 0 <= j < spec.compound_keywords@.len()
        && (ci_eq((#[trigger] spec.compound_keywords@[j]).0.spec_bytes(), t) || ci_eq(spec.compound_keywords@[j].1.spec_bytes(), t))
    ||| names_hold(spec.once_keywords@, t)
}

fn kw_names_have(v: &Vec<(&'static str, KwType)>, t: &[u8]) -> (r: bool)
    ensures
        r == exists|m: int| 0 <= m < v@.len() && ci_eq((#[trigger] v@[m]).0.spec_bytes(), t@),
{
    let mut m: usize = 0;
    while m < v.len()
        invariant
            m <= v@.len(),
            forall|k: int| 0 <= k < m ==> !ci_eq((#[trigger] v@[k]).0.spec_bytes(), t@),
        decreases v@.len() - m,
    {
        if eq_ci(v[m].0.as_bytes(), t) {
            return true;
        }
        m = m + 1;
    }
    false
}

fn section_has(s: &SectionDef, t: &[u8]) -> (r: bool)
    ensures
        r == in_section(t@, *s),
{
    if eq_ci(s.0.as_bytes(), t) {
        return true;
    }
    let mut k: usize = 0;
    while k < s.2.len()
        invariant
            k <= s.2@.len(),
            forall|q: int| 0 <= q < k ==> !(ci_eq((#[trigger] s.2@[q]).0.spec_bytes(), t@) || group_has(t@, s.2@[q].1)),
        decreases s.2@.len() - k,
    {
        if eq_ci(s.2[k].0.as_bytes(), t) {
            return true;
        }
        let in_group = match &s.2[k].1 {
            KwType::Group(_, g) => kw_names_have(g, t),
            _ => false,
        };
        if in_group {
            return true;
        }
        k = k + 1;
    }
    false
}

/// See `in_command_spec`.
pub fn is_in_command_spec(text: &str, spec: &CommandSpec) -> (r: bool)
    ensures
        r == in_command_spec(text.spec_bytes(), *spec),
{
    let t = text.as_bytes();
    if kw_names_have(&spec.keywords, t) {
        return true;
    }
    let mut j: usize = 0;
    while j < spec.sections.len()
        invariant
            j <= spec.sections@.len(),
            t@ == text.spec_bytes(),
            forall|q: int| 0 <= q < j ==> !in_section(t@, #[trigger] spec.sections@[q]),
        decreases spec.sections@.len() - j,
    {
        if section_has(&spec.sections[j], t) {
            return true;
        }
        j = j + 1;
    }
    if any_name(&spec.command_line_keywords, t) || any_name(&spec.pair_keywords, t)
        || any_name(&spec.property_keywords, t) || any_name(&spec.flow_keywords, t) {
        return true;
    }
    let mut c: usize = 0;
    while c < spec.compound_keywords.len()
        invariant
            c <= spec.compound_keywords@.len(),
            t@ == text.spec_bytes(),
            forall|q: int| 0 <= q < c ==> !(ci_eq((#[trigger] spec.compound_keywords@[q]).0.spec_bytes(), t@)
                || ci_eq(spec.compound_keywords@[q].1.spec_bytes(), t@)),
        decreases spec.compound_keywords@.len() - c,
    {
        if eq_ci(spec.compound_keywords[c].0.as_bytes(), t) || eq_ci(spec.compound_keywords[c].1.as_bytes(), t) {
            proof {
                assert(ci_eq(spec.compound_keywords@[c as int].0.spec_bytes(), t@) || ci_eq(spec.compound_keywords@[c as int].1.spec_bytes(), t@));
            }
            return true;
        }
        c = c + 1;
    }
    any_name(&spec.once_keywords, t)
}

/// The unary tests of conditions.
pub open spec fn unary_test_list() -> Seq<&'static str> {
    seq![
        "COMMAND", "POLICY", "TARGET", "TEST", "EXISTS", "IS_DIRECTORY", "IS_SYMLINK", "IS_ABSOLUTE",
        "DEFINED", "IS_READABLE", "IS_WRITABLE", "IS_EXECUTABLE",
    ]
}

/// A keyword of condition syntax: a unary test, `AND`, `OR` or `NOT`
/// (without regard to ASCII case).
pub open spec fn condition_keyword(t: Seq<u8>) -> bool {
    names_hold(unary_test_list(), t) || names_hold(seq!["AND", "OR", "NOT"], t)
}

/// See `condition_keyword`.
pub fn is_condition_keyword(text: &str) -> (r: bool)
    ensures
        r == condition_keyword(text.spec_bytes()),
{
    let unary = vec![
        "COMMAND", "POLICY", "TARGET", "TEST", "EXISTS", "IS_DIRECTORY", "IS_SYMLINK", "IS_ABSOLUTE",
        "DEFINED", "IS_READABLE", "IS_WRITABLE", "IS_EXECUTABLE",
    ];
    let logical = vec!["AND", "OR", "NOT"];
    proof {
        assert(unary@ =~= unary_test_list());
        assert(logical@ =~= seq!["AND", "OR", "NOT"]);
    }
    any_name(&unary, text.as_bytes()) || any_name(&logical, text.as_bytes())
}

/// Whether the text is cased as a keyword of the command: a custom keyword;
/// for a known command, a name of its signature or a sorted-group keyword; for
/// condition syntax, a condition keyword; for an unknown command, a
/// sorted-group keyword.
pub fn is_keyword_for_command(text: &str, cmd_kind: Option<&CommandKind>, config: &Configuration) -> (r: bool)
    ensures
        r == (custom_named(config.custom_keywords@, text.spec_bytes()) || match cmd_kind {
            Some(CommandKind::Known(spec)) => in_command_spec(text.spec_bytes(), *spec)
                || names_hold(sort_group_list(), text.spec_bytes()),
            Some(CommandKind::ConditionSyntax) => condition_keyword(text.spec_bytes()),
            None => names_hold(sort_group_list(), text.spec_bytes()),
        }),
{
    if custom_named_exec(&config.custom_keywords, text.as_bytes()) {
        return true;
    }
    match cmd_kind {
        Some(CommandKind::Known(spec)) => is_in_command_spec(text, spec) || is_sort_group_keyword(text),
        Some(CommandKind::ConditionSyntax) => is_condition_keyword(text),
        None => is_sort_group_keyword(text),
    }
}

/// Some string of the list equals the text without regard to ASCII case.
pub open spec fn custom_named(v: Seq<String>, t: Seq<u8>) -> bool {
    exists|k: int| 0 <= k < v.len() && ci_eq(sbytes(#[trigger] v[k]), t)
}

fn custom_named_exec(v: &Vec<String>, t: &[u8]) -> (r: bool)
    ensures
        r == custom_named(v@, t@),
{
    let mut k: usize = 0;
    while k < v.len()
        invariant
            k <= v@.len(),
            forall|q: int| 0 <= q < k ==> !ci_eq(sbytes(#[trigger] v@[q]), t@),
        decreases v@.len() - k,
    {
        if eq_ci(v[k].as_str().as_bytes(), t) {
            return true;
        }
        k = k + 1;
    }
    false
}


/// The order in which `sortKeywordSections` puts a command's sections: for
/// `target_link_libraries`, `target_sources` and `export` (named without
/// regard to ASCII case), none for any other command.
pub open spec fn section_order(name: Seq<u8>) -> Option<Seq<&'static str>> {
    if lower_seq(name) == "target_link_libraries".spec_bytes() {
        Some(seq!["PUBLIC", "INTERFACE", "PRIVATE", "LINK_PUBLIC", "LINK_PRIVATE", "LINK_INTERFACE_LIBRARIES"])
    } else if lower_seq(name) == "target_sources".spec_bytes() {
        Some(seq!["PUBLIC", "INTERFACE", "PRIVATE"])
    } else if lower_seq(name) == "export".spec_bytes() {
        Some(seq!["PACKAGE_DEPENDENCY", "TARGET", "VERSION"])
    } else {
        None
    }
}

/// See `section_order`.
pub fn canonical_section_order(cmd_name: &str) -> (r: Option<Vec<&'static str>>)
    ensures
        match r {
            Some(v) => section_order(cmd_name.spec_bytes()) == Some(v@),
            None => section_order(cmd_name.spec_bytes()) is None,
        },
{
    let lower = to_lower_vec(cmd_name.as_bytes());
    let l = lower.as_slice();
    if eq_bytes(l, "target_link_libraries".as_bytes()) {
        let v = vec!["PUBLIC", "INTERFACE", "PRIVATE", "LINK_PUBLIC", "LINK_PRIVATE", "LINK_INTERFACE_LIBRARIES"];
        proof {
            assert(v@ =~= seq!["PUBLIC", "INTERFACE", "PRIVATE", "LINK_PUBLIC", "LINK_PRIVATE", "LINK_INTERFACE_LIBRARIES"]);
        }
        Some(v)
    } else if eq_bytes(l, "target_sources".as_bytes()) {
        let v = vec!["PUBLIC", "INTERFACE", "PRIVATE"];
        proof {
            assert(v@ =~= seq!["PUBLIC", "INTERFACE", "PRIVATE"]);
        }
        Some(v)
    } else if eq_bytes(l, "export".as_bytes()) {
        let v = vec!["PACKAGE_DEPENDENCY", "TARGET", "VERSION"];
        proof {
            assert(v@ =~= seq!["PACKAGE_DEPENDENCY", "TARGET", "VERSION"]);
        }
        Some(v)
    } else {
        None
    }
}


/// The commands whose visibility sections keep their source order when
/// sections are sorted, named without regard to ASCII case.
pub open spec fn keeps_section_order(name: Seq<u8>) -> bool {
    ||| lower_seq(name) == "target_compile_definitions".spec_bytes()
    ||| lower_seq(name) == "target_compile_options".spec_bytes()
    ||| lower_seq(name) == "target_compile_features".spec_bytes()
    ||| lower_seq(name) == "target_link_options".spec_bytes()
    ||| lower_seq(name) == "target_include_directories".spec_bytes()
}

/// The visibility sections of those commands (see `keeps_section_order`),
/// none for any other command.
pub fn non_canonical_section_keywords(cmd_name: &str) -> (r: Option<Vec<&'static str>>)
    ensures
        match r {
            Some(v) => keeps_section_order(cmd_name.spec_bytes()) && v@ == seq!["PUBLIC", "INTERFACE", "PRIVATE"],
            None => !keeps_section_order(cmd_name.spec_bytes()),
        },
{
    let lower = to_lower_vec(cmd_name.as_bytes());
    let l = lower.as_slice();
    if eq_bytes(l, "target_compile_definitions".as_bytes()) || eq_bytes(l, "target_compile_options".as_bytes())
        || eq_bytes(l, "target_compile_features".as_bytes()) || eq_bytes(l, "target_link_options".as_bytes())
        || eq_bytes(l, "target_include_directories".as_bytes()) {
        let v = vec!["PUBLIC", "INTERFACE", "PRIVATE"];
        proof {
            assert(v@ =~= seq!["PUBLIC", "INTERFACE", "PRIVATE"]);
        }
        Some(v)
    } else {
        None
    }
}

} // verus!
