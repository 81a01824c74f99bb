//! A command signature's keyword lists as the layout asks them: pair,
//! property and flow keywords, a keyword's kind, a section's sub-keywords.
use vstd::prelude::*;
use vstd::string::StringSliceAdditionalSpecFns;

use crate::arg_groups::{any_name, find_name, first_ci, kw_names, names_hold, section_index, sec_names};
use crate::signatures::{CommandKind, CommandSpec, KwType};

verus! {

/// The keyword takes its values as key-value pairs (any ASCII case).
pub fn is_pair_keyword(keyword_text: &str, spec: &CommandSpec) -> (r: bool)
    ensures
        r == names_hold(spec.pair_keywords@, keyword_text.spec_bytes()),
{
    any_name(&spec.pair_keywords, keyword_text.as_bytes())
}

/// The keyword takes a property name and then its values (any ASCII case).
pub fn is_property_keyword(keyword_text: &str, spec: &CommandSpec) -> (r: bool)
    ensures
        r == names_hold(spec.property_keywords@, keyword_text.spec_bytes()),
{
    any_name(&spec.property_keywords, keyword_text.as_bytes())
}

/// The keyword's values flow to the line width (any ASCII case).
pub fn is_flow_keyword(keyword_text: &str, spec: &CommandSpec) -> (r: bool)
    ensures
        r == names_hold(spec.flow_keywords@, keyword_text.spec_bytes()),
{
    any_name(&spec.flow_keywords, keyword_text.as_bytes())
}

/// The kind of the first keyword of a known command's signature named like
/// the text; none for other commands.
pub fn lookup_kw_type<'a>(kw_text: &str, cmd_kind: Option<&'a CommandKind>) -> (r: Option<&'a KwType>)
    ensures
        match cmd_kind {
            Some(CommandKind::Known(spec)) => match first_ci(kw_names(*spec), kw_text.spec_bytes(), 0) {
                Some(j) => r matches Some(k) && *k == spec.keywords@[j].1,
                None => r is None,
            },
            _ => r is None,
        },
{
    match cmd_kind {
        Some(CommandKind::Known(spec)) => {
            let found = find_name(&spec.keywords, kw_text.as_bytes());
            proof {
                assert(crate::arg_groups::list_names(spec.keywords) == kw_names(*spec));
            }
            match found {
                Some(j) => Some(&spec.keywords[j].1),
                None => None,
            }
        },
        _ => None,
    }
}

/// The sub-keywords of the first section of the signature named like the
/// text.
pub fn get_section_keywords<'a>(keyword_text: &str, spec: &'a CommandSpec) -> (r: Option<&'a Vec<(&'static str, KwType)>>)
    ensures
        match first_ci(sec_names(*spec), keyword_text.spec_bytes(), 0) {
            Some(j) => r matches Some(v) && *v == spec.sections@[j].2,
            None => r is None,
        },
{
    match section_index(keyword_text.as_bytes(), spec) {
        Some(j) => Some(&spec.sections[j].2),
        None => None,
    }
}

} // verus!
