//! The table of known CMake commands: the positional arguments, keywords and
//! keyword sections of each.
use vstd::prelude::*;
use vstd::string::StringSliceAdditionalSpecFns;

use crate::text::{eq_bytes, lower_seq, to_lower_vec};

verus! {

/// How a keyword takes its values.
#[derive(Debug)]
pub enum KwType {
    Option,
    OneValue,
    MultiValue,
    /// A keyword that opens a nested sub-section: the number of positional
    /// values after it, and the sub-section's own keywords.
    Group(usize, Vec<(&'static str, KwType)>),
}

pub ghost enum KwModel {
    Option,
    OneValue,
    MultiValue,
    Group(nat, Seq<(Seq<char>, KwModel)>),
}

pub open spec fn kw_model(k: KwType) -> KwModel
    decreases k, 0int,
{
    match k {
        KwType::Option => KwModel::Option,
        KwType::OneValue => KwModel::OneValue,
        KwType::MultiValue => KwModel::MultiValue,
        KwType::Group(n, v) => KwModel::Group(n as nat, kws_model(v, 0)),
    }
}

/// The keywords from index `i` on, with their names as text.
pub open spec fn kws_model(v: Vec<(&'static str, KwType)>, i: int) -> Seq<(Seq<char>, KwModel)>
    decreases v, v@.len() - i,
{
    if i < 0 || i >= v@.len() {
        Seq::empty()
    } else {
        seq![(v@[i].0@, kw_model(v@[i].1))] + kws_model(v, i + 1)
    }
}

pub proof fn lemma_kws_model(v: Vec<(&'static str, KwType)>, i: int)
    requires
        0 <= i <= v@.len(),
    ensures
        kws_model(v, i).len() == v@.len() - i,
        forall|k: int|
            0 <= k < v@.len() - i ==> #[trigger] kws_model(v, i)[k] == (
                v@[i + k].0@,
                kw_model(v@[i + k].1),
            ),
    decreases v@.len() - i,
{
    if i < v@.len() {
        lemma_kws_model(v, i + 1);
        assert forall|k: int| 0 <= k < v@.len() - i implies #[trigger] kws_model(v, i)[k] == (
            v@[i + k].0@,
            kw_model(v@[i + k].1),
        ) by {
            if k > 0 {
                assert(kws_model(v, i)[k] == kws_model(v, i + 1)[k - 1]);
            }
        }
    }
}

/// A keyword that starts a section: its name, the number of positional
/// values after it, and the section's keywords.
pub type SectionDef = (&'static str, usize, Vec<(&'static str, KwType)>);

/// The sections from index `i` on.
pub open spec fn secs_model(v: Vec<SectionDef>, i: int) -> Seq<(Seq<char>, nat, Seq<(Seq<char>, KwModel)>)>
    decreases v@.len() - i,
{
    if i < 0 || i >= v@.len() {
        Seq::empty()
    } else {
        seq![(v@[i].0@, v@[i].1 as nat, kws_model(v@[i].2, 0))] + secs_model(v, i + 1)
    }
}

pub proof fn lemma_secs_model(v: Vec<SectionDef>, i: int)
    requires
        0 <= i <= v@.len(),
    ensures
        secs_model(v, i).len() == v@.len() - i,
        forall|k: int|
            0 <= k < v@.len() - i ==> #[trigger] secs_model(v, i)[k] == (
                v@[i + k].0@,
                v@[i + k].1 as nat,
                kws_model(v@[i + k].2, 0),
            ),
    decreases v@.len() - i,
{
    if i < v@.len() {
        lemma_secs_model(v, i + 1);
        assert forall|k: int| 0 <= k < v@.len() - i implies #[trigger] secs_model(v, i)[k] == (
            v@[i + k].0@,
            v@[i + k].1 as nat,
            kws_model(v@[i + k].2, 0),
        ) by {
            if k > 0 {
                assert(secs_model(v, i)[k] == secs_model(v, i + 1)[k - 1]);
            }
        }
    }
}

pub open spec fn strs_model(s: Seq<&'static str>) -> Seq<Seq<char>> {
    s.map_values(|x: &'static str| x@)
}

pub open spec fn pairs_model(s: Seq<(&'static str, &'static str)>) -> Seq<(Seq<char>, Seq<char>)> {
    s.map_values(|x: (&'static str, &'static str)| (x.0@, x.1@))
}

/// The argument structure of a command.
#[derive(Debug)]
pub struct CommandSpec {
    pub front_positional: usize,
    pub back_positional: usize,
    pub keywords: Vec<(&'static str, KwType)>,
    pub sections: Vec<SectionDef>,
    pub command_line_keywords: Vec<&'static str>,
    pub pair_keywords: Vec<&'static str>,
    /// Keywords whose first value is a property name and the rest its values.
    pub property_keywords: Vec<&'static str>,
    pub flow_keywords: Vec<&'static str>,
    pub flow_positional: bool,
    /// Keyword `A` directly followed by value `B` acts as one keyword `A B`.
    pub compound_keywords: Vec<(&'static str, &'static str)>,
    /// Keywords that count only at their first occurrence.
    pub once_keywords: Vec<&'static str>,
}

pub ghost struct SpecModel {
    pub front_positional: nat,
    pub back_positional: nat,
    pub keywords: Seq<(Seq<char>, KwModel)>,
    pub sections: Seq<(Seq<char>, nat, Seq<(Seq<char>, KwModel)>)>,
    pub command_line_keywords: Seq<Seq<char>>,
    pub pair_keywords: Seq<Seq<char>>,
    pub property_keywords: Seq<Seq<char>>,
    pub flow_keywords: Seq<Seq<char>>,
    pub flow_positional: bool,
    pub compound_keywords: Seq<(Seq<char>, Seq<char>)>,
    pub once_keywords: Seq<Seq<char>>,
}

impl CommandSpec {
    pub open spec fn model(&self) -> SpecModel {
        SpecModel {
            front_positional: self.front_positional as nat,
            back_positional: self.back_positional as nat,
            keywords: kws_model(self.keywords, 0),
            sections: secs_model(self.sections, 0),
            command_line_keywords: strs_model(self.command_line_keywords@),
            pair_keywords: strs_model(self.pair_keywords@),
            property_keywords: strs_model(self.property_keywords@),
            flow_keywords: strs_model(self.flow_keywords@),
            flow_positional: self.flow_positional,
            compound_keywords: pairs_model(self.compound_keywords@),
            once_keywords: strs_model(self.once_keywords@),
        }
    }
}

/// What the formatter knows of a command.
#[derive(Debug)]
pub enum CommandKind {
    Known(CommandSpec),
    /// `if`, `while` and their companions: arguments form a condition.
    ConditionSyntax,
}

pub ghost enum KindModel {
    Known(SpecModel),
    ConditionSyntax,
}

pub open spec fn set_kw_model() -> Seq<(Seq<char>, KwModel)> {
    seq![("PARENT_SCOPE"@, KwModel::Option), ("FORCE"@, KwModel::Option), ("TYPE"@, KwModel::OneValue), ("HELP"@, KwModel::OneValue), ("VALUE"@, KwModel::MultiValue)]
}

fn set_kw() -> (r: Vec<(&'static str, KwType)>)
    ensures
        kws_model(r, 0) == set_kw_model(),
{
    
    let r = vec![("PARENT_SCOPE", KwType::Option), ("FORCE", KwType::Option), ("TYPE", KwType::OneValue), ("HELP", KwType::OneValue), ("VALUE", KwType::MultiValue)];
    proof {
        lemma_kws_model(r, 0);
        assert(kws_model(r, 0) =~= set_kw_model());
    }
    r
}

pub open spec fn set_sections_model() -> Seq<(Seq<char>, nat, Seq<(Seq<char>, KwModel)>)> {
    seq![("CACHE"@, 1, Seq::empty())]
}

fn set_sections() -> (r: Vec<(&'static str, usize, Vec<(&'static str, KwType)>)>)
    ensures
        secs_model(r, 0) == set_sections_model(),
{
    let s0 = Vec::new();
    proof {
        lemma_kws_model(s0, 0);
        assert(kws_model(s0, 0) =~= Seq::empty());
    }
    let r = vec![("CACHE", 1, s0)];
    proof {
        lemma_secs_model(r, 0);
        assert(secs_model(r, 0) =~= set_sections_model());
    }
    r
}

pub open spec fn set_spec_model() -> SpecModel {
    SpecModel {
        front_positional: 1,
        back_positional: 0,
        keywords: set_kw_model(),
        sections: set_sections_model(),
        command_line_keywords: Seq::empty(),
        pair_keywords: Seq::empty(),
        property_keywords: Seq::empty(),
        flow_keywords: Seq::empty(),
        flow_positional: false,
        compound_keywords: Seq::empty(),
        once_keywords: Seq::empty(),
    }
}

fn set_spec() -> (r: CommandSpec)
    ensures
        r.model() == set_spec_model(),
{
    let g0 = set_kw();
    let kw = g0;
    let g2 = set_sections();
    let sections = g2;
    let r = CommandSpec {
        front_positional: 1,
        back_positional: 0,
        keywords: kw,
        sections: sections,
        command_line_keywords: Vec::new(),
        pair_keywords: Vec::new(),
        property_keywords: Vec::new(),
        flow_keywords: Vec::new(),
        flow_positional: false,
        compound_keywords: Vec::new(),
        once_keywords: Vec::new(),
    };
    proof {
        lemma_kws_model(r.keywords, 0);
        lemma_secs_model(r.sections, 0);
        let m = set_spec_model();
        assert(strs_model(r.command_line_keywords@) =~= m.command_line_keywords);
        assert(strs_model(r.pair_keywords@) =~= m.pair_keywords);
        assert(strs_model(r.property_keywords@) =~= m.property_keywords);
        assert(strs_model(r.flow_keywords@) =~= m.flow_keywords);
        assert(pairs_model(r.compound_keywords@) =~= m.compound_keywords);
        assert(strs_model(r.once_keywords@) =~= m.once_keywords);
        assert(r.model() == m);
    }
    r
}

pub open spec fn target_link_libraries_kw_model() -> Seq<(Seq<char>, KwModel)> {
    seq![("INTERFACE"@, KwModel::MultiValue), ("PUBLIC"@, KwModel::MultiValue), ("PRIVATE"@, KwModel::MultiValue), ("LINK_PRIVATE"@, KwModel::MultiValue), ("LINK_PUBLIC"@, KwModel::MultiValue), ("LINK_INTERFACE_LIBRARIES"@, KwModel::MultiValue)]
}

fn target_link_libraries_kw() -> (r: Vec<(&'static str, KwType)>)
    ensures
        kws_model(r, 0) == target_link_libraries_kw_model(),
{
    
    let r = vec![("INTERFACE", KwType::MultiValue), ("PUBLIC", KwType::MultiValue), ("PRIVATE", KwType::MultiValue), ("LINK_PRIVATE", KwType::MultiValue), ("LINK_PUBLIC", KwType::MultiValue), ("LINK_INTERFACE_LIBRARIES", KwType::MultiValue)];
    proof {
        lemma_kws_model(r, 0);
        assert(kws_model(r, 0) =~= target_link_libraries_kw_model());
    }
    r
}

pub open spec fn tll_sec_sub_model() -> Seq<(Seq<char>, KwModel)> {
    seq![("debug"@, KwModel::OneValue), ("optimized"@, KwModel::OneValue), ("general"@, KwModel::OneValue)]
}

fn tll_sec_sub() -> (r: Vec<(&'static str, KwType)>)
    ensures
        kws_model(r, 0) == tll_sec_sub_model(),
{
    
    let r = vec![("debug", KwType::OneValue), ("optimized", KwType::OneValue), ("general", KwType::OneValue)];
    proof {
        lemma_kws_model(r, 0);
        assert(kws_model(r, 0) =~= tll_sec_sub_model());
    }
    r
}

pub open spec fn target_link_libraries_sections_model() -> Seq<(Seq<char>, nat, Seq<(Seq<char>, KwModel)>)> {
    seq![("PUBLIC"@, 0, tll_sec_sub_model()), ("PRIVATE"@, 0, tll_sec_sub_model()), ("INTERFACE"@, 0, tll_sec_sub_model()), ("LINK_PUBLIC"@, 0, tll_sec_sub_model()), ("LINK_PRIVATE"@, 0, tll_sec_sub_model()), ("LINK_INTERFACE_LIBRARIES"@, 0, tll_sec_sub_model())]
}

fn target_link_libraries_sections() -> (r: Vec<(&'static str, usize, Vec<(&'static str, KwType)>)>)
    ensures
        secs_model(r, 0) == target_link_libraries_sections_model(),
{
    let g0 = tll_sec_sub();
    let s0 = g0;
    proof {
        lemma_kws_model(s0, 0);
        assert(kws_model(s0, 0) =~= tll_sec_sub_model());
    }
    let g3 = tll_sec_sub();
    let s3 = g3;
    proof {
        lemma_kws_model(s3, 0);
        assert(kws_model(s3, 0) =~= tll_sec_sub_model());
    }
    let g6 = tll_sec_sub();
    let s6 = g6;
    proof {
        lemma_kws_model(s6, 0);
        assert(kws_model(s6, 0) =~= tll_sec_sub_model());
    }
    let g9 = tll_sec_sub();
    let s9 = g9;
    proof {
        lemma_kws_model(s9, 0);
        assert(kws_model(s9, 0) =~= tll_sec_sub_model());
    }
    let g12 = tll_sec_sub();
    let s12 = g12;
    proof {
        lemma_kws_model(s12, 0);
        assert(kws_model(s12, 0) =~= tll_sec_sub_model());
    }
    let g15 = tll_sec_sub();
    let s15 = g15;
    proof {
        lemma_kws_model(s15, 0);
        assert(kws_model(s15, 0) =~= tll_sec_sub_model());
    }
    let r = vec![("PUBLIC", 0, s0), ("PRIVATE", 0, s3), ("INTERFACE", 0, s6), ("LINK_PUBLIC", 0, s9), ("LINK_PRIVATE", 0, s12), ("LINK_INTERFACE_LIBRARIES", 0, s15)];
    proof {
        lemma_secs_model(r, 0);
        assert(secs_model(r, 0) =~= target_link_libraries_sections_model());
    }
    r
}

pub open spec fn target_link_libraries_spec_model() -> SpecModel {
    SpecModel {
        front_positional: 1,
        back_positional: 0,
        keywords: target_link_libraries_kw_model(),
        sections: target_link_libraries_sections_model(),
        command_line_keywords: seq!["debug"@, "optimized"@, "general"@],
        pair_keywords: Seq::empty(),
        property_keywords: Seq::empty(),
        flow_keywords: Seq::empty(),
        flow_positional: false,
        compound_keywords: Seq::empty(),
        once_keywords: Seq::empty(),
    }
}

fn target_link_libraries_spec() -> (r: CommandSpec)
    ensures
        r.model() == target_link_libraries_spec_model(),
{
    let g0 = target_link_libraries_kw();
    let kw = g0;
    let g2 = target_link_libraries_sections();
    let sections = g2;
    let r = CommandSpec {
        front_positional: 1,
        back_positional: 0,
        keywords: kw,
        sections: sections,
        command_line_keywords: vec!["debug", "optimized", "general"],
        pair_keywords: Vec::new(),
        property_keywords: Vec::new(),
        flow_keywords: Vec::new(),
        flow_positional: false,
        compound_keywords: Vec::new(),
        once_keywords: Vec::new(),
    };
    proof {
        lemma_kws_model(r.keywords, 0);
        lemma_secs_model(r.sections, 0);
        let m = target_link_libraries_spec_model();
        assert(strs_model(r.command_line_keywords@) =~= m.command_line_keywords);
        assert(strs_model(r.pair_keywords@) =~= m.pair_keywords);
        assert(strs_model(r.property_keywords@) =~= m.property_keywords);
        assert(strs_model(r.flow_keywords@) =~= m.flow_keywords);
        assert(pairs_model(r.compound_keywords@) =~= m.compound_keywords);
        assert(strs_model(r.once_keywords@) =~= m.once_keywords);
        assert(r.model() == m);
    }
    r
}

pub open spec fn target_sources_kw_model() -> Seq<(Seq<char>, KwModel)> {
    seq![("INTERFACE"@, KwModel::MultiValue), ("PUBLIC"@, KwModel::MultiValue), ("PRIVATE"@, KwModel::MultiValue), ("FILE_SET"@, KwModel::Group(1, target_sources_file_set_group_kw_model()))]
}

fn target_sources_kw() -> (r: Vec<(&'static str, KwType)>)
    ensures
        kws_model(r, 0) == target_sources_kw_model(),
{
    let g0 = target_sources_file_set_group_kw();
    let r = vec![("INTERFACE", KwType::MultiValue), ("PUBLIC", KwType::MultiValue), ("PRIVATE", KwType::MultiValue), ("FILE_SET", KwType::Group(1, g0))];
    proof {
        lemma_kws_model(r, 0);
        assert(kws_model(r, 0) =~= target_sources_kw_model());
    }
    r
}

pub open spec fn target_sources_file_set_group_kw_model() -> Seq<(Seq<char>, KwModel)> {
    seq![("TYPE"@, KwModel::OneValue), ("BASE_DIRS"@, KwModel::MultiValue), ("FILES"@, KwModel::MultiValue)]
}

fn target_sources_file_set_group_kw() -> (r: Vec<(&'static str, KwType)>)
    ensures
        kws_model(r, 0) == target_sources_file_set_group_kw_model(),
{
    
    let r = vec![("TYPE", KwType::OneValue), ("BASE_DIRS", KwType::MultiValue), ("FILES", KwType::MultiValue)];
    proof {
        lemma_kws_model(r, 0);
        assert(kws_model(r, 0) =~= target_sources_file_set_group_kw_model());
    }
    r
}

pub open spec fn target_sources_file_set_sub_model() -> Seq<(Seq<char>, KwModel)> {
    seq![("FILE_SET"@, KwModel::Group(1, target_sources_file_set_group_kw_model()))]
}

fn target_sources_file_set_sub() -> (r: Vec<(&'static str, KwType)>)
    ensures
        kws_model(r, 0) == target_sources_file_set_sub_model(),
{
    let g0 = target_sources_file_set_group_kw();
    let r = vec![("FILE_SET", KwType::Group(1, g0))];
    proof {
        lemma_kws_model(r, 0);
        assert(kws_model(r, 0) =~= target_sources_file_set_sub_model());
    }
    r
}

pub open spec fn target_sources_sections_model() -> Seq<(Seq<char>, nat, Seq<(Seq<char>, KwModel)>)> {
    seq![("PUBLIC"@, 0, target_sources_file_set_sub_model()), ("PRIVATE"@, 0, target_sources_file_set_sub_model()), ("INTERFACE"@, 0, target_sources_file_set_sub_model())]
}

fn target_sources_sections() -> (r: Vec<(&'static str, usize, Vec<(&'static str, KwType)>)>)
    ensures
        secs_model(r, 0) == target_sources_sections_model(),
{
    let g0 = target_sources_file_set_sub();
    let s0 = g0;
    proof {
        lemma_kws_model(s0, 0);
        assert(kws_model(s0, 0) =~= target_sources_file_set_sub_model());
    }
    let g3 = target_sources_file_set_sub();
    let s3 = g3;
    proof {
        lemma_kws_model(s3, 0);
        assert(kws_model(s3, 0) =~= target_sources_file_set_sub_model());
    }
    let g6 = target_sources_file_set_sub();
    let s6 = g6;
    proof {
        lemma_kws_model(s6, 0);
        assert(kws_model(s6, 0) =~= target_sources_file_set_sub_model());
    }
    let r = vec![("PUBLIC", 0, s0), ("PRIVATE", 0, s3), ("INTERFACE", 0, s6)];
    proof {
        lemma_secs_model(r, 0);
        assert(secs_model(r, 0) =~= target_sources_sections_model());
    }
    r
}

pub open spec fn target_sources_spec_model() -> SpecModel {
    SpecModel {
        front_positional: 1,
        back_positional: 0,
        keywords: target_sources_kw_model(),
        sections: target_sources_sections_model(),
        command_line_keywords: Seq::empty(),
        pair_keywords: Seq::empty(),
        property_keywords: Seq::empty(),
        flow_keywords: Seq::empty(),
        flow_positional: false,
        compound_keywords: Seq::empty(),
        once_keywords: Seq::empty(),
    }
}

fn target_sources_spec() -> (r: CommandSpec)
    ensures
        r.model() == target_sources_spec_model(),
{
    let g0 = target_sources_kw();
    let kw = g0;
    let g2 = target_sources_sections();
    let sections = g2;
    let r = CommandSpec {
        front_positional: 1,
        back_positional: 0,
        keywords: kw,
        sections: sections,
        command_line_keywords: Vec::new(),
        pair_keywords: Vec::new(),
        property_keywords: Vec::new(),
        flow_keywords: Vec::new(),
        flow_positional: false,
        compound_keywords: Vec::new(),
        once_keywords: Vec::new(),
    };
    proof {
        lemma_kws_model(r.keywords, 0);
        lemma_secs_model(r.sections, 0);
        let m = target_sources_spec_model();
        assert(strs_model(r.command_line_keywords@) =~= m.command_line_keywords);
        assert(strs_model(r.pair_keywords@) =~= m.pair_keywords);
        assert(strs_model(r.property_keywords@) =~= m.property_keywords);
        assert(strs_model(r.flow_keywords@) =~= m.flow_keywords);
        assert(pairs_model(r.compound_keywords@) =~= m.compound_keywords);
        assert(strs_model(r.once_keywords@) =~= m.once_keywords);
        assert(r.model() == m);
    }
    r
}

pub open spec fn target_compile_definitions_kw_model() -> Seq<(Seq<char>, KwModel)> {
    seq![("INTERFACE"@, KwModel::MultiValue), ("PUBLIC"@, KwModel::MultiValue), ("PRIVATE"@, KwModel::MultiValue)]
}

fn target_compile_definitions_kw() -> (r: Vec<(&'static str, KwType)>)
    ensures
        kws_model(r, 0) == target_compile_definitions_kw_model(),
{
    
    let r = vec![("INTERFACE", KwType::MultiValue), ("PUBLIC", KwType::MultiValue), ("PRIVATE", KwType::MultiValue)];
    proof {
        lemma_kws_model(r, 0);
        assert(kws_model(r, 0) =~= target_compile_definitions_kw_model());
    }
    r
}

pub open spec fn target_compile_definitions_spec_model() -> SpecModel {
    SpecModel {
        front_positional: 1,
        back_positional: 0,
        keywords: target_compile_definitions_kw_model(),
        sections: Seq::empty(),
        command_line_keywords: Seq::empty(),
        pair_keywords: Seq::empty(),
        property_keywords: Seq::empty(),
        flow_keywords: Seq::empty(),
        flow_positional: false,
        compound_keywords: Seq::empty(),
        once_keywords: Seq::empty(),
    }
}

fn target_compile_definitions_spec() -> (r: CommandSpec)
    ensures
        r.model() == target_compile_definitions_spec_model(),
{
    let g0 = target_compile_definitions_kw();
    let kw = g0;
    let sections = Vec::new();
    let r = CommandSpec {
        front_positional: 1,
        back_positional: 0,
        keywords: kw,
        sections: sections,
        command_line_keywords: Vec::new(),
        pair_keywords: Vec::new(),
        property_keywords: Vec::new(),
        flow_keywords: Vec::new(),
        flow_positional: false,
        compound_keywords: Vec::new(),
        once_keywords: Vec::new(),
    };
    proof {
        lemma_kws_model(r.keywords, 0);
        lemma_secs_model(r.sections, 0);
        let m = target_compile_definitions_spec_model();
        assert(strs_model(r.command_line_keywords@) =~= m.command_line_keywords);
        assert(strs_model(r.pair_keywords@) =~= m.pair_keywords);
        assert(strs_model(r.property_keywords@) =~= m.property_keywords);
        assert(strs_model(r.flow_keywords@) =~= m.flow_keywords);
        assert(pairs_model(r.compound_keywords@) =~= m.compound_keywords);
        assert(strs_model(r.once_keywords@) =~= m.once_keywords);
        assert(r.model() == m);
    }
    r
}

pub open spec fn target_compile_options_kw_model() -> Seq<(Seq<char>, KwModel)> {
    seq![("BEFORE"@, KwModel::Option), ("INTERFACE"@, KwModel::MultiValue), ("PUBLIC"@, KwModel::MultiValue), ("PRIVATE"@, KwModel::MultiValue)]
}

fn target_compile_options_kw() -> (r: Vec<(&'static str, KwType)>)
    ensures
        kws_model(r, 0) == target_compile_options_kw_model(),
{
    
    let r = vec![("BEFORE", KwType::Option), ("INTERFACE", KwType::MultiValue), ("PUBLIC", KwType::MultiValue), ("PRIVATE", KwType::MultiValue)];
    proof {
        lemma_kws_model(r, 0);
        assert(kws_model(r, 0) =~= target_compile_options_kw_model());
    }
    r
}

pub open spec fn target_compile_options_spec_model() -> SpecModel {
    SpecModel {
        front_positional: 1,
        back_positional: 0,
        keywords: target_compile_options_kw_model(),
        sections: Seq::empty(),
        command_line_keywords: Seq::empty(),
        pair_keywords: Seq::empty(),
        property_keywords: Seq::empty(),
        flow_keywords: Seq::empty(),
        flow_positional: false,
        compound_keywords: Seq::empty(),
        once_keywords: Seq::empty(),
    }
}

fn target_compile_options_spec() -> (r: CommandSpec)
    ensures
        r.model() == target_compile_options_spec_model(),
{
    let g0 = target_compile_options_kw();
    let kw = g0;
    let sections = Vec::new();
    let r = CommandSpec {
        front_positional: 1,
        back_positional: 0,
        keywords: kw,
        sections: sections,
        command_line_keywords: Vec::new(),
        pair_keywords: Vec::new(),
        property_keywords: Vec::new(),
        flow_keywords: Vec::new(),
        flow_positional: false,
        compound_keywords: Vec::new(),
        once_keywords: Vec::new(),
    };
    proof {
        lemma_kws_model(r.keywords, 0);
        lemma_secs_model(r.sections, 0);
        let m = target_compile_options_spec_model();
        assert(strs_model(r.command_line_keywords@) =~= m.command_line_keywords);
        assert(strs_model(r.pair_keywords@) =~= m.pair_keywords);
        assert(strs_model(r.property_keywords@) =~= m.property_keywords);
        assert(strs_model(r.flow_keywords@) =~= m.flow_keywords);
        assert(pairs_model(r.compound_keywords@) =~= m.compound_keywords);
        assert(strs_model(r.once_keywords@) =~= m.once_keywords);
        assert(r.model() == m);
    }
    r
}

pub open spec fn target_compile_features_kw_model() -> Seq<(Seq<char>, KwModel)> {
    seq![("INTERFACE"@, KwModel::MultiValue), ("PUBLIC"@, KwModel::MultiValue), ("PRIVATE"@, KwModel::MultiValue)]
}

fn target_compile_features_kw() -> (r: Vec<(&'static str, KwType)>)
    ensures
        kws_model(r, 0) == target_compile_features_kw_model(),
{
    
    let r = vec![("INTERFACE", KwType::MultiValue), ("PUBLIC", KwType::MultiValue), ("PRIVATE", KwType::MultiValue)];
    proof {
        lemma_kws_model(r, 0);
        assert(kws_model(r, 0) =~= target_compile_features_kw_model());
    }
    r
}

pub open spec fn target_compile_features_spec_model() -> SpecModel {
    SpecModel {
        front_positional: 1,
        back_positional: 0,
        keywords: target_compile_features_kw_model(),
        sections: Seq::empty(),
        command_line_keywords: Seq::empty(),
        pair_keywords: Seq::empty(),
        property_keywords: Seq::empty(),
        flow_keywords: Seq::empty(),
        flow_positional: false,
        compound_keywords: Seq::empty(),
        once_keywords: Seq::empty(),
    }
}

fn target_compile_features_spec() -> (r: CommandSpec)
    ensures
        r.model() == target_compile_features_spec_model(),
{
    let g0 = target_compile_features_kw();
    let kw = g0;
    let sections = Vec::new();
    let r = CommandSpec {
        front_positional: 1,
        back_positional: 0,
        keywords: kw,
        sections: sections,
        command_line_keywords: Vec::new(),
        pair_keywords: Vec::new(),
        property_keywords: Vec::new(),
        flow_keywords: Vec::new(),
        flow_positional: false,
        compound_keywords: Vec::new(),
        once_keywords: Vec::new(),
    };
    proof {
        lemma_kws_model(r.keywords, 0);
        lemma_secs_model(r.sections, 0);
        let m = target_compile_features_spec_model();
        assert(strs_model(r.command_line_keywords@) =~= m.command_line_keywords);
        assert(strs_model(r.pair_keywords@) =~= m.pair_keywords);
        assert(strs_model(r.property_keywords@) =~= m.property_keywords);
        assert(strs_model(r.flow_keywords@) =~= m.flow_keywords);
        assert(pairs_model(r.compound_keywords@) =~= m.compound_keywords);
        assert(strs_model(r.once_keywords@) =~= m.once_keywords);
        assert(r.model() == m);
    }
    r
}

pub open spec fn target_include_directories_kw_model() -> Seq<(Seq<char>, KwModel)> {
    seq![("BEFORE"@, KwModel::Option), ("SYSTEM"@, KwModel::Option), ("AFTER"@, KwModel::Option), ("INTERFACE"@, KwModel::MultiValue), ("PUBLIC"@, KwModel::MultiValue), ("PRIVATE"@, KwModel::MultiValue)]
}

fn target_include_directories_kw() -> (r: Vec<(&'static str, KwType)>)
    ensures
        kws_model(r, 0) == target_include_directories_kw_model(),
{
    
    let r = vec![("BEFORE", KwType::Option), ("SYSTEM", KwType::Option), ("AFTER", KwType::Option), ("INTERFACE", KwType::MultiValue), ("PUBLIC", KwType::MultiValue), ("PRIVATE", KwType::MultiValue)];
    proof {
        lemma_kws_model(r, 0);
        assert(kws_model(r, 0) =~= target_include_directories_kw_model());
    }
    r
}

pub open spec fn target_include_directories_spec_model() -> SpecModel {
    SpecModel {
        front_positional: 1,
        back_positional: 0,
        keywords: target_include_directories_kw_model(),
        sections: Seq::empty(),
        command_line_keywords: Seq::empty(),
        pair_keywords: Seq::empty(),
        property_keywords: Seq::empty(),
        flow_keywords: Seq::empty(),
        flow_positional: false,
        compound_keywords: Seq::empty(),
        once_keywords: Seq::empty(),
    }
}

fn target_include_directories_spec() -> (r: CommandSpec)
    ensures
        r.model() == target_include_directories_spec_model(),
{
    let g0 = target_include_directories_kw();
    let kw = g0;
    let sections = Vec::new();
    let r = CommandSpec {
        front_positional: 1,
        back_positional: 0,
        keywords: kw,
        sections: sections,
        command_line_keywords: Vec::new(),
        pair_keywords: Vec::new(),
        property_keywords: Vec::new(),
        flow_keywords: Vec::new(),
        flow_positional: false,
        compound_keywords: Vec::new(),
        once_keywords: Vec::new(),
    };
    proof {
        lemma_kws_model(r.keywords, 0);
        lemma_secs_model(r.sections, 0);
        let m = target_include_directories_spec_model();
        assert(strs_model(r.command_line_keywords@) =~= m.command_line_keywords);
        assert(strs_model(r.pair_keywords@) =~= m.pair_keywords);
        assert(strs_model(r.property_keywords@) =~= m.property_keywords);
        assert(strs_model(r.flow_keywords@) =~= m.flow_keywords);
        assert(pairs_model(r.compound_keywords@) =~= m.compound_keywords);
        assert(strs_model(r.once_keywords@) =~= m.once_keywords);
        assert(r.model() == m);
    }
    r
}

pub open spec fn target_link_directories_kw_model() -> Seq<(Seq<char>, KwModel)> {
    seq![("BEFORE"@, KwModel::Option), ("INTERFACE"@, KwModel::MultiValue), ("PUBLIC"@, KwModel::MultiValue), ("PRIVATE"@, KwModel::MultiValue)]
}

fn target_link_directories_kw() -> (r: Vec<(&'static str, KwType)>)
    ensures
        kws_model(r, 0) == target_link_directories_kw_model(),
{
    
    let r = vec![("BEFORE", KwType::Option), ("INTERFACE", KwType::MultiValue), ("PUBLIC", KwType::MultiValue), ("PRIVATE", KwType::MultiValue)];
    proof {
        lemma_kws_model(r, 0);
        assert(kws_model(r, 0) =~= target_link_directories_kw_model());
    }
    r
}

pub open spec fn target_link_directories_spec_model() -> SpecModel {
    SpecModel {
        front_positional: 1,
        back_positional: 0,
        keywords: target_link_directories_kw_model(),
        sections: Seq::empty(),
        command_line_keywords: Seq::empty(),
        pair_keywords: Seq::empty(),
        property_keywords: Seq::empty(),
        flow_keywords: Seq::empty(),
        flow_positional: false,
        compound_keywords: Seq::empty(),
        once_keywords: Seq::empty(),
    }
}

fn target_link_directories_spec() -> (r: CommandSpec)
    ensures
        r.model() == target_link_directories_spec_model(),
{
    let g0 = target_link_directories_kw();
    let kw = g0;
    let sections = Vec::new();
    let r = CommandSpec {
        front_positional: 1,
        back_positional: 0,
        keywords: kw,
        sections: sections,
        command_line_keywords: Vec::new(),
        pair_keywords: Vec::new(),
        property_keywords: Vec::new(),
        flow_keywords: Vec::new(),
        flow_positional: false,
        compound_keywords: Vec::new(),
        once_keywords: Vec::new(),
    };
    proof {
        lemma_kws_model(r.keywords, 0);
        lemma_secs_model(r.sections, 0);
        let m = target_link_directories_spec_model();
        assert(strs_model(r.command_line_keywords@) =~= m.command_line_keywords);
        assert(strs_model(r.pair_keywords@) =~= m.pair_keywords);
        assert(strs_model(r.property_keywords@) =~= m.property_keywords);
        assert(strs_model(r.flow_keywords@) =~= m.flow_keywords);
        assert(pairs_model(r.compound_keywords@) =~= m.compound_keywords);
        assert(strs_model(r.once_keywords@) =~= m.once_keywords);
        assert(r.model() == m);
    }
    r
}

pub open spec fn target_link_options_kw_model() -> Seq<(Seq<char>, KwModel)> {
    seq![("BEFORE"@, KwModel::Option), ("INTERFACE"@, KwModel::MultiValue), ("PUBLIC"@, KwModel::MultiValue), ("PRIVATE"@, KwModel::MultiValue)]
}

fn target_link_options_kw() -> (r: Vec<(&'static str, KwType)>)
    ensures
        kws_model(r, 0) == target_link_options_kw_model(),
{
    
    let r = vec![("BEFORE", KwType::Option), ("INTERFACE", KwType::MultiValue), ("PUBLIC", KwType::MultiValue), ("PRIVATE", KwType::MultiValue)];
    proof {
        lemma_kws_model(r, 0);
        assert(kws_model(r, 0) =~= target_link_options_kw_model());
    }
    r
}

pub open spec fn target_link_options_spec_model() -> SpecModel {
    SpecModel {
        front_positional: 1,
        back_positional: 0,
        keywords: target_link_options_kw_model(),
        sections: Seq::empty(),
        command_line_keywords: Seq::empty(),
        pair_keywords: Seq::empty(),
        property_keywords: Seq::empty(),
        flow_keywords: Seq::empty(),
        flow_positional: false,
        compound_keywords: Seq::empty(),
        once_keywords: Seq::empty(),
    }
}

fn target_link_options_spec() -> (r: CommandSpec)
    ensures
        r.model() == target_link_options_spec_model(),
{
    let g0 = target_link_options_kw();
    let kw = g0;
    let sections = Vec::new();
    let r = CommandSpec {
        front_positional: 1,
        back_positional: 0,
        keywords: kw,
        sections: sections,
        command_line_keywords: Vec::new(),
        pair_keywords: Vec::new(),
        property_keywords: Vec::new(),
        flow_keywords: Vec::new(),
        flow_positional: false,
        compound_keywords: Vec::new(),
        once_keywords: Vec::new(),
    };
    proof {
        lemma_kws_model(r.keywords, 0);
        lemma_secs_model(r.sections, 0);
        let m = target_link_options_spec_model();
        assert(strs_model(r.command_line_keywords@) =~= m.command_line_keywords);
        assert(strs_model(r.pair_keywords@) =~= m.pair_keywords);
        assert(strs_model(r.property_keywords@) =~= m.property_keywords);
        assert(strs_model(r.flow_keywords@) =~= m.flow_keywords);
        assert(pairs_model(r.compound_keywords@) =~= m.compound_keywords);
        assert(strs_model(r.once_keywords@) =~= m.once_keywords);
        assert(r.model() == m);
    }
    r
}

pub open spec fn target_precompile_headers_kw_model() -> Seq<(Seq<char>, KwModel)> {
    seq![("REUSE_FROM"@, KwModel::OneValue), ("INTERFACE"@, KwModel::MultiValue), ("PUBLIC"@, KwModel::MultiValue), ("PRIVATE"@, KwModel::MultiValue)]
}

fn target_precompile_headers_kw() -> (r: Vec<(&'static str, KwType)>)
    ensures
        kws_model(r, 0) == target_precompile_headers_kw_model(),
{
    
    let r = vec![("REUSE_FROM", KwType::OneValue), ("INTERFACE", KwType::MultiValue), ("PUBLIC", KwType::MultiValue), ("PRIVATE", KwType::MultiValue)];
    proof {
        lemma_kws_model(r, 0);
        assert(kws_model(r, 0) =~= target_precompile_headers_kw_model());
    }
    r
}

pub open spec fn target_precompile_headers_spec_model() -> SpecModel {
    SpecModel {
        front_positional: 1,
        back_positional: 0,
        keywords: target_precompile_headers_kw_model(),
        sections: Seq::empty(),
        command_line_keywords: Seq::empty(),
        pair_keywords: Seq::empty(),
        property_keywords: Seq::empty(),
        flow_keywords: Seq::empty(),
        flow_positional: false,
        compound_keywords: Seq::empty(),
        once_keywords: Seq::empty(),
    }
}

fn target_precompile_headers_spec() -> (r: CommandSpec)
    ensures
        r.model() == target_precompile_headers_spec_model(),
{
    let g0 = target_precompile_headers_kw();
    let kw = g0;
    let sections = Vec::new();
    let r = CommandSpec {
        front_positional: 1,
        back_positional: 0,
        keywords: kw,
        sections: sections,
        command_line_keywords: Vec::new(),
        pair_keywords: Vec::new(),
        property_keywords: Vec::new(),
        flow_keywords: Vec::new(),
        flow_positional: false,
        compound_keywords: Vec::new(),
        once_keywords: Vec::new(),
    };
    proof {
        lemma_kws_model(r.keywords, 0);
        lemma_secs_model(r.sections, 0);
        let m = target_precompile_headers_spec_model();
        assert(strs_model(r.command_line_keywords@) =~= m.command_line_keywords);
        assert(strs_model(r.pair_keywords@) =~= m.pair_keywords);
        assert(strs_model(r.property_keywords@) =~= m.property_keywords);
        assert(strs_model(r.flow_keywords@) =~= m.flow_keywords);
        assert(pairs_model(r.compound_keywords@) =~= m.compound_keywords);
        assert(strs_model(r.once_keywords@) =~= m.once_keywords);
        assert(r.model() == m);
    }
    r
}

pub open spec fn add_executable_kw_model() -> Seq<(Seq<char>, KwModel)> {
    seq![("WIN32"@, KwModel::Option), ("MACOSX_BUNDLE"@, KwModel::Option), ("EXCLUDE_FROM_ALL"@, KwModel::Option), ("IMPORTED"@, KwModel::MultiValue), ("ALIAS"@, KwModel::OneValue)]
}

fn add_executable_kw() -> (r: Vec<(&'static str, KwType)>)
    ensures
        kws_model(r, 0) == add_executable_kw_model(),
{
    
    let r = vec![("WIN32", KwType::Option), ("MACOSX_BUNDLE", KwType::Option), ("EXCLUDE_FROM_ALL", KwType::Option), ("IMPORTED", KwType::MultiValue), ("ALIAS", KwType::OneValue)];
    proof {
        lemma_kws_model(r, 0);
        assert(kws_model(r, 0) =~= add_executable_kw_model());
    }
    r
}

pub open spec fn add_executable_spec_model() -> SpecModel {
    SpecModel {
        front_positional: 1,
        back_positional: 0,
        keywords: add_executable_kw_model(),
        sections: Seq::empty(),
        command_line_keywords: Seq::empty(),
        pair_keywords: Seq::empty(),
        property_keywords: Seq::empty(),
        flow_keywords: Seq::empty(),
        flow_positional: false,
        compound_keywords: Seq::empty(),
        once_keywords: Seq::empty(),
    }
}

fn add_executable_spec() -> (r: CommandSpec)
    ensures
        r.model() == add_executable_spec_model(),
{
    let g0 = add_executable_kw();
    let kw = g0;
    let sections = Vec::new();
    let r = CommandSpec {
        front_positional: 1,
        back_positional: 0,
        keywords: kw,
        sections: sections,
        command_line_keywords: Vec::new(),
        pair_keywords: Vec::new(),
        property_keywords: Vec::new(),
        flow_keywords: Vec::new(),
        flow_positional: false,
        compound_keywords: Vec::new(),
        once_keywords: Vec::new(),
    };
    proof {
        lemma_kws_model(r.keywords, 0);
        lemma_secs_model(r.sections, 0);
        let m = add_executable_spec_model();
        assert(strs_model(r.command_line_keywords@) =~= m.command_line_keywords);
        assert(strs_model(r.pair_keywords@) =~= m.pair_keywords);
        assert(strs_model(r.property_keywords@) =~= m.property_keywords);
        assert(strs_model(r.flow_keywords@) =~= m.flow_keywords);
        assert(pairs_model(r.compound_keywords@) =~= m.compound_keywords);
        assert(strs_model(r.once_keywords@) =~= m.once_keywords);
        assert(r.model() == m);
    }
    r
}

pub open spec fn add_library_kw_model() -> Seq<(Seq<char>, KwModel)> {
    seq![("STATIC"@, KwModel::Option), ("SHARED"@, KwModel::Option), ("MODULE"@, KwModel::Option), ("EXCLUDE_FROM_ALL"@, KwModel::Option), ("OBJECT"@, KwModel::Option), ("IMPORTED"@, KwModel::MultiValue), ("UNKNOWN"@, KwModel::Option), ("INTERFACE"@, KwModel::Option), ("ALIAS"@, KwModel::OneValue)]
}

fn add_library_kw() -> (r: Vec<(&'static str, KwType)>)
    ensures
        kws_model(r, 0) == add_library_kw_model(),
{
    
    let r = vec![("STATIC", KwType::Option), ("SHARED", KwType::Option), ("MODULE", KwType::Option), ("EXCLUDE_FROM_ALL", KwType::Option), ("OBJECT", KwType::Option), ("IMPORTED", KwType::MultiValue), ("UNKNOWN", KwType::Option), ("INTERFACE", KwType::Option), ("ALIAS", KwType::OneValue)];
    proof {
        lemma_kws_model(r, 0);
        assert(kws_model(r, 0) =~= add_library_kw_model());
    }
    r
}

pub open spec fn add_library_spec_model() -> SpecModel {
    SpecModel {
        front_positional: 1,
        back_positional: 0,
        keywords: add_library_kw_model(),
        sections: Seq::empty(),
        command_line_keywords: Seq::empty(),
        pair_keywords: Seq::empty(),
        property_keywords: Seq::empty(),
        flow_keywords: Seq::empty(),
        flow_positional: false,
        compound_keywords: Seq::empty(),
        once_keywords: Seq::empty(),
    }
}

fn add_library_spec() -> (r: CommandSpec)
    ensures
        r.model() == add_library_spec_model(),
{
    let g0 = add_library_kw();
    let kw = g0;
    let sections = Vec::new();
    let r = CommandSpec {
        front_positional: 1,
        back_positional: 0,
        keywords: kw,
        sections: sections,
        command_line_keywords: Vec::new(),
        pair_keywords: Vec::new(),
        property_keywords: Vec::new(),
        flow_keywords: Vec::new(),
        flow_positional: false,
        compound_keywords: Vec::new(),
        once_keywords: Vec::new(),
    };
    proof {
        lemma_kws_model(r.keywords, 0);
        lemma_secs_model(r.sections, 0);
        let m = add_library_spec_model();
        assert(strs_model(r.command_line_keywords@) =~= m.command_line_keywords);
        assert(strs_model(r.pair_keywords@) =~= m.pair_keywords);
        assert(strs_model(r.property_keywords@) =~= m.property_keywords);
        assert(strs_model(r.flow_keywords@) =~= m.flow_keywords);
        assert(pairs_model(r.compound_keywords@) =~= m.compound_keywords);
        assert(strs_model(r.once_keywords@) =~= m.once_keywords);
        assert(r.model() == m);
    }
    r
}

pub open spec fn add_test_kw_model() -> Seq<(Seq<char>, KwModel)> {
    seq![("COMMAND_EXPAND_LISTS"@, KwModel::Option), ("NAME"@, KwModel::OneValue), ("WORKING_DIRECTORY"@, KwModel::OneValue), ("COMMAND"@, KwModel::MultiValue), ("CONFIGURATIONS"@, KwModel::MultiValue)]
}

fn add_test_kw() -> (r: Vec<(&'static str, KwType)>)
    ensures
        kws_model(r, 0) == add_test_kw_model(),
{
    
    let r = vec![("COMMAND_EXPAND_LISTS", KwType::Option), ("NAME", KwType::OneValue), ("WORKING_DIRECTORY", KwType::OneValue), ("COMMAND", KwType::MultiValue), ("CONFIGURATIONS", KwType::MultiValue)];
    proof {
        lemma_kws_model(r, 0);
        assert(kws_model(r, 0) =~= add_test_kw_model());
    }
    r
}

pub open spec fn add_test_spec_model() -> SpecModel {
    SpecModel {
        front_positional: 0,
        back_positional: 0,
        keywords: add_test_kw_model(),
        sections: Seq::empty(),
        command_line_keywords: Seq::empty(),
        pair_keywords: Seq::empty(),
        property_keywords: Seq::empty(),
        flow_keywords: seq!["COMMAND"@],
        flow_positional: false,
        compound_keywords: Seq::empty(),
        once_keywords: Seq::empty(),
    }
}

fn add_test_spec() -> (r: CommandSpec)
    ensures
        r.model() == add_test_spec_model(),
{
    let g0 = add_test_kw();
    let kw = g0;
    let sections = Vec::new();
    let r = CommandSpec {
        front_positional: 0,
        back_positional: 0,
        keywords: kw,
        sections: sections,
        command_line_keywords: Vec::new(),
        pair_keywords: Vec::new(),
        property_keywords: Vec::new(),
        flow_keywords: vec!["COMMAND"],
        flow_positional: false,
        compound_keywords: Vec::new(),
        once_keywords: Vec::new(),
    };
    proof {
        lemma_kws_model(r.keywords, 0);
        lemma_secs_model(r.sections, 0);
        let m = add_test_spec_model();
        assert(strs_model(r.command_line_keywords@) =~= m.command_line_keywords);
        assert(strs_model(r.pair_keywords@) =~= m.pair_keywords);
        assert(strs_model(r.property_keywords@) =~= m.property_keywords);
        assert(strs_model(r.flow_keywords@) =~= m.flow_keywords);
        assert(pairs_model(r.compound_keywords@) =~= m.compound_keywords);
        assert(strs_model(r.once_keywords@) =~= m.once_keywords);
        assert(r.model() == m);
    }
    r
}

pub open spec fn project_kw_model() -> Seq<(Seq<char>, KwModel)> {
    seq![("VERSION"@, KwModel::OneValue), ("DESCRIPTION"@, KwModel::OneValue), ("HOMEPAGE_URL"@, KwModel::OneValue), ("COMPAT_VERSION"@, KwModel::OneValue), ("LANGUAGES"@, KwModel::MultiValue)]
}

fn project_kw() -> (r: Vec<(&'static str, KwType)>)
    ensures
        kws_model(r, 0) == project_kw_model(),
{
    
    let r = vec![("VERSION", KwType::OneValue), ("DESCRIPTION", KwType::OneValue), ("HOMEPAGE_URL", KwType::OneValue), ("COMPAT_VERSION", KwType::OneValue), ("LANGUAGES", KwType::MultiValue)];
    proof {
        lemma_kws_model(r, 0);
        assert(kws_model(r, 0) =~= project_kw_model());
    }
    r
}

pub open spec fn project_spec_model() -> SpecModel {
    SpecModel {
        front_positional: 1,
        back_positional: 0,
        keywords: project_kw_model(),
        sections: Seq::empty(),
        command_line_keywords: Seq::empty(),
        pair_keywords: Seq::empty(),
        property_keywords: Seq::empty(),
        flow_keywords: Seq::empty(),
        flow_positional: false,
        compound_keywords: Seq::empty(),
        once_keywords: Seq::empty(),
    }
}

fn project_spec() -> (r: CommandSpec)
    ensures
        r.model() == project_spec_model(),
{
    let g0 = project_kw();
    let kw = g0;
    let sections = Vec::new();
    let r = CommandSpec {
        front_positional: 1,
        back_positional: 0,
        keywords: kw,
        sections: sections,
        command_line_keywords: Vec::new(),
        pair_keywords: Vec::new(),
        property_keywords: Vec::new(),
        flow_keywords: Vec::new(),
        flow_positional: false,
        compound_keywords: Vec::new(),
        once_keywords: Vec::new(),
    };
    proof {
        lemma_kws_model(r.keywords, 0);
        lemma_secs_model(r.sections, 0);
        let m = project_spec_model();
        assert(strs_model(r.command_line_keywords@) =~= m.command_line_keywords);
        assert(strs_model(r.pair_keywords@) =~= m.pair_keywords);
        assert(strs_model(r.property_keywords@) =~= m.property_keywords);
        assert(strs_model(r.flow_keywords@) =~= m.flow_keywords);
        assert(pairs_model(r.compound_keywords@) =~= m.compound_keywords);
        assert(strs_model(r.once_keywords@) =~= m.once_keywords);
        assert(r.model() == m);
    }
    r
}

pub open spec fn message_kw_model() -> Seq<(Seq<char>, KwModel)> {
    seq![("FATAL_ERROR"@, KwModel::Option), ("SEND_ERROR"@, KwModel::Option), ("WARNING"@, KwModel::Option), ("AUTHOR_WARNING"@, KwModel::Option), ("DEPRECATION"@, KwModel::Option), ("NOTICE"@, KwModel::Option), ("STATUS"@, KwModel::Option), ("VERBOSE"@, KwModel::Option), ("DEBUG"@, KwModel::Option), ("TRACE"@, KwModel::Option), ("CHECK_START"@, KwModel::Option), ("CHECK_PASS"@, KwModel::Option), ("CHECK_FAIL"@, KwModel::Option), ("CONFIGURE_LOG"@, KwModel::Option)]
}

fn message_kw() -> (r: Vec<(&'static str, KwType)>)
    ensures
        kws_model(r, 0) == message_kw_model(),
{
    
    let r = vec![("FATAL_ERROR", KwType::Option), ("SEND_ERROR", KwType::Option), ("WARNING", KwType::Option), ("AUTHOR_WARNING", KwType::Option), ("DEPRECATION", KwType::Option), ("NOTICE", KwType::Option), ("STATUS", KwType::Option), ("VERBOSE", KwType::Option), ("DEBUG", KwType::Option), ("TRACE", KwType::Option), ("CHECK_START", KwType::Option), ("CHECK_PASS", KwType::Option), ("CHECK_FAIL", KwType::Option), ("CONFIGURE_LOG", KwType::Option)];
    proof {
        lemma_kws_model(r, 0);
        assert(kws_model(r, 0) =~= message_kw_model());
    }
    r
}

pub open spec fn message_spec_model() -> SpecModel {
    SpecModel {
        front_positional: 1,
        back_positional: 0,
        keywords: message_kw_model(),
        sections: Seq::empty(),
        command_line_keywords: Seq::empty(),
        pair_keywords: Seq::empty(),
        property_keywords: Seq::empty(),
        flow_keywords: Seq::empty(),
        flow_positional: false,
        compound_keywords: Seq::empty(),
        once_keywords: Seq::empty(),
    }
}

fn message_spec() -> (r: CommandSpec)
    ensures
        r.model() == message_spec_model(),
{
    let g0 = message_kw();
    let kw = g0;
    let sections = Vec::new();
    let r = CommandSpec {
        front_positional: 1,
        back_positional: 0,
        keywords: kw,
        sections: sections,
        command_line_keywords: Vec::new(),
        pair_keywords: Vec::new(),
        property_keywords: Vec::new(),
        flow_keywords: Vec::new(),
        flow_positional: false,
        compound_keywords: Vec::new(),
        once_keywords: Vec::new(),
    };
    proof {
        lemma_kws_model(r.keywords, 0);
        lemma_secs_model(r.sections, 0);
        let m = message_spec_model();
        assert(strs_model(r.command_line_keywords@) =~= m.command_line_keywords);
        assert(strs_model(r.pair_keywords@) =~= m.pair_keywords);
        assert(strs_model(r.property_keywords@) =~= m.property_keywords);
        assert(strs_model(r.flow_keywords@) =~= m.flow_keywords);
        assert(pairs_model(r.compound_keywords@) =~= m.compound_keywords);
        assert(strs_model(r.once_keywords@) =~= m.once_keywords);
        assert(r.model() == m);
    }
    r
}

pub open spec fn find_package_kw_model() -> Seq<(Seq<char>, KwModel)> {
    seq![("EXACT"@, KwModel::Option), ("QUIET"@, KwModel::Option), ("MODULE"@, KwModel::Option), ("CONFIG"@, KwModel::Option), ("NO_MODULE"@, KwModel::Option), ("NO_POLICY_SCOPE"@, KwModel::Option), ("NO_DEFAULT_PATH"@, KwModel::Option), ("NO_PACKAGE_ROOT_PATH"@, KwModel::Option), ("NO_CMAKE_PATH"@, KwModel::Option), ("NO_CMAKE_ENVIRONMENT_PATH"@, KwModel::Option), ("NO_SYSTEM_ENVIRONMENT_PATH"@, KwModel::Option), ("NO_CMAKE_PACKAGE_REGISTRY"@, KwModel::Option), ("NO_CMAKE_BUILDS_PATH"@, KwModel::Option), ("NO_CMAKE_SYSTEM_PATH"@, KwModel::Option), ("NO_CMAKE_SYSTEM_PACKAGE_REGISTRY"@, KwModel::Option), ("CMAKE_FIND_ROOT_PATH_BOTH"@, KwModel::Option), ("ONLY_CMAKE_FIND_ROOT_PATH"@, KwModel::Option), ("NO_CMAKE_FIND_ROOT_PATH"@, KwModel::Option), ("NO_CMAKE_INSTALL_PREFIX"@, KwModel::Option), ("GLOBAL"@, KwModel::Option), ("COMPONENTS"@, KwModel::MultiValue), ("OPTIONAL_COMPONENTS"@, KwModel::MultiValue), ("NAMES"@, KwModel::MultiValue), ("CONFIGS"@, KwModel::MultiValue), ("HINTS"@, KwModel::MultiValue), ("PATHS"@, KwModel::MultiValue), ("PATH_SUFFIXES"@, KwModel::MultiValue), ("REQUIRED"@, KwModel::MultiValue)]
}

fn find_package_kw() -> (r: Vec<(&'static str, KwType)>)
    ensures
        kws_model(r, 0) == find_package_kw_model(),
{
    
    let r = vec![("EXACT", KwType::Option), ("QUIET", KwType::Option), ("MODULE", KwType::Option), ("CONFIG", KwType::Option), ("NO_MODULE", KwType::Option), ("NO_POLICY_SCOPE", KwType::Option), ("NO_DEFAULT_PATH", KwType::Option), ("NO_PACKAGE_ROOT_PATH", KwType::Option), ("NO_CMAKE_PATH", KwType::Option), ("NO_CMAKE_ENVIRONMENT_PATH", KwType::Option), ("NO_SYSTEM_ENVIRONMENT_PATH", KwType::Option), ("NO_CMAKE_PACKAGE_REGISTRY", KwType::Option), ("NO_CMAKE_BUILDS_PATH", KwType::Option), ("NO_CMAKE_SYSTEM_PATH", KwType::Option), ("NO_CMAKE_SYSTEM_PACKAGE_REGISTRY", KwType::Option), ("CMAKE_FIND_ROOT_PATH_BOTH", KwType::Option), ("ONLY_CMAKE_FIND_ROOT_PATH", KwType::Option), ("NO_CMAKE_FIND_ROOT_PATH", KwType::Option), ("NO_CMAKE_INSTALL_PREFIX", KwType::Option), ("GLOBAL", KwType::Option), ("COMPONENTS", KwType::MultiValue), ("OPTIONAL_COMPONENTS", KwType::MultiValue), ("NAMES", KwType::MultiValue), ("CONFIGS", KwType::MultiValue), ("HINTS", KwType::MultiValue), ("PATHS", KwType::MultiValue), ("PATH_SUFFIXES", KwType::MultiValue), ("REQUIRED", KwType::MultiValue)];
    proof {
        lemma_kws_model(r, 0);
        assert(kws_model(r, 0) =~= find_package_kw_model());
    }
    r
}

pub open spec fn find_package_spec_model() -> SpecModel {
    SpecModel {
        front_positional: 2,
        back_positional: 0,
        keywords: find_package_kw_model(),
        sections: Seq::empty(),
        command_line_keywords: Seq::empty(),
        pair_keywords: Seq::empty(),
        property_keywords: Seq::empty(),
        flow_keywords: Seq::empty(),
        flow_positional: false,
        compound_keywords: Seq::empty(),
        once_keywords: Seq::empty(),
    }
}

fn find_package_spec() -> (r: CommandSpec)
    ensures
        r.model() == find_package_spec_model(),
{
    let g0 = find_package_kw();
    let kw = g0;
    let sections = Vec::new();
    let r = CommandSpec {
        front_positional: 2,
        back_positional: 0,
        keywords: kw,
        sections: sections,
        command_line_keywords: Vec::new(),
        pair_keywords: Vec::new(),
        property_keywords: Vec::new(),
        flow_keywords: Vec::new(),
        flow_positional: false,
        compound_keywords: Vec::new(),
        once_keywords: Vec::new(),
    };
    proof {
        lemma_kws_model(r.keywords, 0);
        lemma_secs_model(r.sections, 0);
        let m = find_package_spec_model();
        assert(strs_model(r.command_line_keywords@) =~= m.command_line_keywords);
        assert(strs_model(r.pair_keywords@) =~= m.pair_keywords);
        assert(strs_model(r.property_keywords@) =~= m.property_keywords);
        assert(strs_model(r.flow_keywords@) =~= m.flow_keywords);
        assert(pairs_model(r.compound_keywords@) =~= m.compound_keywords);
        assert(strs_model(r.once_keywords@) =~= m.once_keywords);
        assert(r.model() == m);
    }
    r
}

pub open spec fn find_library_kw_model() -> Seq<(Seq<char>, KwModel)> {
    seq![("NAMES_PER_DIR"@, KwModel::Option), ("NO_DEFAULT_PATH"@, KwModel::Option), ("NO_PACKAGE_ROOT_PATH"@, KwModel::Option), ("NO_CMAKE_PATH"@, KwModel::Option), ("NO_CMAKE_ENVIRONMENT_PATH"@, KwModel::Option), ("NO_SYSTEM_ENVIRONMENT_PATH"@, KwModel::Option), ("NO_CMAKE_SYSTEM_PATH"@, KwModel::Option), ("CMAKE_FIND_ROOT_PATH_BOTH"@, KwModel::Option), ("ONLY_CMAKE_FIND_ROOT_PATH"@, KwModel::Option), ("NO_CMAKE_FIND_ROOT_PATH"@, KwModel::Option), ("REQUIRED"@, KwModel::Option), ("NO_CMAKE_INSTALL_PREFIX"@, KwModel::Option), ("DOC"@, KwModel::OneValue), ("ENV"@, KwModel::OneValue), ("VALIDATOR"@, KwModel::OneValue), ("NAMES"@, KwModel::MultiValue), ("HINTS"@, KwModel::MultiValue), ("PATHS"@, KwModel::MultiValue), ("PATH_SUFFIXES"@, KwModel::MultiValue)]
}

fn find_library_kw() -> (r: Vec<(&'static str, KwType)>)
    ensures
        kws_model(r, 0) == find_library_kw_model(),
{
    
    let r = vec![("NAMES_PER_DIR", KwType::Option), ("NO_DEFAULT_PATH", KwType::Option), ("NO_PACKAGE_ROOT_PATH", KwType::Option), ("NO_CMAKE_PATH", KwType::Option), ("NO_CMAKE_ENVIRONMENT_PATH", KwType::Option), ("NO_SYSTEM_ENVIRONMENT_PATH", KwType::Option), ("NO_CMAKE_SYSTEM_PATH", KwType::Option), ("CMAKE_FIND_ROOT_PATH_BOTH", KwType::Option), ("ONLY_CMAKE_FIND_ROOT_PATH", KwType::Option), ("NO_CMAKE_FIND_ROOT_PATH", KwType::Option), ("REQUIRED", KwType::Option), ("NO_CMAKE_INSTALL_PREFIX", KwType::Option), ("DOC", KwType::OneValue), ("ENV", KwType::OneValue), ("VALIDATOR", KwType::OneValue), ("NAMES", KwType::MultiValue), ("HINTS", KwType::MultiValue), ("PATHS", KwType::MultiValue), ("PATH_SUFFIXES", KwType::MultiValue)];
    proof {
        lemma_kws_model(r, 0);
        assert(kws_model(r, 0) =~= find_library_kw_model());
    }
    r
}

pub open spec fn find_library_spec_model() -> SpecModel {
    SpecModel {
        front_positional: 2,
        back_positional: 0,
        keywords: find_library_kw_model(),
        sections: Seq::empty(),
        command_line_keywords: Seq::empty(),
        pair_keywords: Seq::empty(),
        property_keywords: Seq::empty(),
        flow_keywords: Seq::empty(),
        flow_positional: false,
        compound_keywords: Seq::empty(),
        once_keywords: Seq::empty(),
    }
}

fn find_library_spec() -> (r: CommandSpec)
    ensures
        r.model() == find_library_spec_model(),
{
    let g0 = find_library_kw();
    let kw = g0;
    let sections = Vec::new();
    let r = CommandSpec {
        front_positional: 2,
        back_positional: 0,
        keywords: kw,
        sections: sections,
        command_line_keywords: Vec::new(),
        pair_keywords: Vec::new(),
        property_keywords: Vec::new(),
        flow_keywords: Vec::new(),
        flow_positional: false,
        compound_keywords: Vec::new(),
        once_keywords: Vec::new(),
    };
    proof {
        lemma_kws_model(r.keywords, 0);
        lemma_secs_model(r.sections, 0);
        let m = find_library_spec_model();
        assert(strs_model(r.command_line_keywords@) =~= m.command_line_keywords);
        assert(strs_model(r.pair_keywords@) =~= m.pair_keywords);
        assert(strs_model(r.property_keywords@) =~= m.property_keywords);
        assert(strs_model(r.flow_keywords@) =~= m.flow_keywords);
        assert(pairs_model(r.compound_keywords@) =~= m.compound_keywords);
        assert(strs_model(r.once_keywords@) =~= m.once_keywords);
        assert(r.model() == m);
    }
    r
}

pub open spec fn find_file_kw_model() -> Seq<(Seq<char>, KwModel)> {
    seq![("NO_DEFAULT_PATH"@, KwModel::Option), ("NO_PACKAGE_ROOT_PATH"@, KwModel::Option), ("NO_CMAKE_PATH"@, KwModel::Option), ("NO_CMAKE_ENVIRONMENT_PATH"@, KwModel::Option), ("NO_SYSTEM_ENVIRONMENT_PATH"@, KwModel::Option), ("NO_CMAKE_SYSTEM_PATH"@, KwModel::Option), ("CMAKE_FIND_ROOT_PATH_BOTH"@, KwModel::Option), ("ONLY_CMAKE_FIND_ROOT_PATH"@, KwModel::Option), ("NO_CMAKE_FIND_ROOT_PATH"@, KwModel::Option), ("REQUIRED"@, KwModel::Option), ("NO_CMAKE_INSTALL_PREFIX"@, KwModel::Option), ("DOC"@, KwModel::OneValue), ("ENV"@, KwModel::OneValue), ("VALIDATOR"@, KwModel::OneValue), ("NAMES"@, KwModel::MultiValue), ("HINTS"@, KwModel::MultiValue), ("PATHS"@, KwModel::MultiValue), ("PATH_SUFFIXES"@, KwModel::MultiValue)]
}

fn find_file_kw() -> (r: Vec<(&'static str, KwType)>)
    ensures
        kws_model(r, 0) == find_file_kw_model(),
{
    
    let r = vec![("NO_DEFAULT_PATH", KwType::Option), ("NO_PACKAGE_ROOT_PATH", KwType::Option), ("NO_CMAKE_PATH", KwType::Option), ("NO_CMAKE_ENVIRONMENT_PATH", KwType::Option), ("NO_SYSTEM_ENVIRONMENT_PATH", KwType::Option), ("NO_CMAKE_SYSTEM_PATH", KwType::Option), ("CMAKE_FIND_ROOT_PATH_BOTH", KwType::Option), ("ONLY_CMAKE_FIND_ROOT_PATH", KwType::Option), ("NO_CMAKE_FIND_ROOT_PATH", KwType::Option), ("REQUIRED", KwType::Option), ("NO_CMAKE_INSTALL_PREFIX", KwType::Option), ("DOC", KwType::OneValue), ("ENV", KwType::OneValue), ("VALIDATOR", KwType::OneValue), ("NAMES", KwType::MultiValue), ("HINTS", KwType::MultiValue), ("PATHS", KwType::MultiValue), ("PATH_SUFFIXES", KwType::MultiValue)];
    proof {
        lemma_kws_model(r, 0);
        assert(kws_model(r, 0) =~= find_file_kw_model());
    }
    r
}

pub open spec fn find_file_spec_model() -> SpecModel {
    SpecModel {
        front_positional: 2,
        back_positional: 0,
        keywords: find_file_kw_model(),
        sections: Seq::empty(),
        command_line_keywords: Seq::empty(),
        pair_keywords: Seq::empty(),
        property_keywords: Seq::empty(),
        flow_keywords: Seq::empty(),
        flow_positional: false,
        compound_keywords: Seq::empty(),
        once_keywords: Seq::empty(),
    }
}

fn find_file_spec() -> (r: CommandSpec)
    ensures
        r.model() == find_file_spec_model(),
{
    let g0 = find_file_kw();
    let kw = g0;
    let sections = Vec::new();
    let r = CommandSpec {
        front_positional: 2,
        back_positional: 0,
        keywords: kw,
        sections: sections,
        command_line_keywords: Vec::new(),
        pair_keywords: Vec::new(),
        property_keywords: Vec::new(),
        flow_keywords: Vec::new(),
        flow_positional: false,
        compound_keywords: Vec::new(),
        once_keywords: Vec::new(),
    };
    proof {
        lemma_kws_model(r.keywords, 0);
        lemma_secs_model(r.sections, 0);
        let m = find_file_spec_model();
        assert(strs_model(r.command_line_keywords@) =~= m.command_line_keywords);
        assert(strs_model(r.pair_keywords@) =~= m.pair_keywords);
        assert(strs_model(r.property_keywords@) =~= m.property_keywords);
        assert(strs_model(r.flow_keywords@) =~= m.flow_keywords);
        assert(pairs_model(r.compound_keywords@) =~= m.compound_keywords);
        assert(strs_model(r.once_keywords@) =~= m.once_keywords);
        assert(r.model() == m);
    }
    r
}

pub open spec fn find_path_spec_model() -> SpecModel {
    SpecModel {
        front_positional: 2,
        back_positional: 0,
        keywords: find_file_kw_model(),
        sections: Seq::empty(),
        command_line_keywords: Seq::empty(),
        pair_keywords: Seq::empty(),
        property_keywords: Seq::empty(),
        flow_keywords: Seq::empty(),
        flow_positional: false,
        compound_keywords: Seq::empty(),
        once_keywords: Seq::empty(),
    }
}

fn find_path_spec() -> (r: CommandSpec)
    ensures
        r.model() == find_path_spec_model(),
{
    let g0 = find_file_kw();
    let kw = g0;
    let sections = Vec::new();
    let r = CommandSpec {
        front_positional: 2,
        back_positional: 0,
        keywords: kw,
        sections: sections,
        command_line_keywords: Vec::new(),
        pair_keywords: Vec::new(),
        property_keywords: Vec::new(),
        flow_keywords: Vec::new(),
        flow_positional: false,
        compound_keywords: Vec::new(),
        once_keywords: Vec::new(),
    };
    proof {
        lemma_kws_model(r.keywords, 0);
        lemma_secs_model(r.sections, 0);
        let m = find_path_spec_model();
        assert(strs_model(r.command_line_keywords@) =~= m.command_line_keywords);
        assert(strs_model(r.pair_keywords@) =~= m.pair_keywords);
        assert(strs_model(r.property_keywords@) =~= m.property_keywords);
        assert(strs_model(r.flow_keywords@) =~= m.flow_keywords);
        assert(pairs_model(r.compound_keywords@) =~= m.compound_keywords);
        assert(strs_model(r.once_keywords@) =~= m.once_keywords);
        assert(r.model() == m);
    }
    r
}

pub open spec fn find_program_spec_model() -> SpecModel {
    SpecModel {
        front_positional: 2,
        back_positional: 0,
        keywords: find_library_kw_model(),
        sections: Seq::empty(),
        command_line_keywords: Seq::empty(),
        pair_keywords: Seq::empty(),
        property_keywords: Seq::empty(),
        flow_keywords: Seq::empty(),
        flow_positional: false,
        compound_keywords: Seq::empty(),
        once_keywords: Seq::empty(),
    }
}

fn find_program_spec() -> (r: CommandSpec)
    ensures
        r.model() == find_program_spec_model(),
{
    let g0 = find_library_kw();
    let kw = g0;
    let sections = Vec::new();
    let r = CommandSpec {
        front_positional: 2,
        back_positional: 0,
        keywords: kw,
        sections: sections,
        command_line_keywords: Vec::new(),
        pair_keywords: Vec::new(),
        property_keywords: Vec::new(),
        flow_keywords: Vec::new(),
        flow_positional: false,
        compound_keywords: Vec::new(),
        once_keywords: Vec::new(),
    };
    proof {
        lemma_kws_model(r.keywords, 0);
        lemma_secs_model(r.sections, 0);
        let m = find_program_spec_model();
        assert(strs_model(r.command_line_keywords@) =~= m.command_line_keywords);
        assert(strs_model(r.pair_keywords@) =~= m.pair_keywords);
        assert(strs_model(r.property_keywords@) =~= m.property_keywords);
        assert(strs_model(r.flow_keywords@) =~= m.flow_keywords);
        assert(pairs_model(r.compound_keywords@) =~= m.compound_keywords);
        assert(strs_model(r.once_keywords@) =~= m.once_keywords);
        assert(r.model() == m);
    }
    r
}

pub open spec fn execute_process_kw_model() -> Seq<(Seq<char>, KwModel)> {
    seq![("OUTPUT_QUIET"@, KwModel::Option), ("ERROR_QUIET"@, KwModel::Option), ("OUTPUT_STRIP_TRAILING_WHITESPACE"@, KwModel::Option), ("ERROR_STRIP_TRAILING_WHITESPACE"@, KwModel::Option), ("ECHO_OUTPUT_VARIABLE"@, KwModel::Option), ("ECHO_ERROR_VARIABLE"@, KwModel::Option), ("WORKING_DIRECTORY"@, KwModel::OneValue), ("TIMEOUT"@, KwModel::OneValue), ("RESULT_VARIABLE"@, KwModel::OneValue), ("RESULTS_VARIABLE"@, KwModel::OneValue), ("OUTPUT_VARIABLE"@, KwModel::OneValue), ("ERROR_VARIABLE"@, KwModel::OneValue), ("INPUT_FILE"@, KwModel::OneValue), ("OUTPUT_FILE"@, KwModel::OneValue), ("ERROR_FILE"@, KwModel::OneValue), ("COMMAND_ECHO"@, KwModel::OneValue), ("ENCODING"@, KwModel::OneValue), ("COMMAND_ERROR_IS_FATAL"@, KwModel::OneValue), ("COMMAND"@, KwModel::MultiValue)]
}

fn execute_process_kw() -> (r: Vec<(&'static str, KwType)>)
    ensures
        kws_model(r, 0) == execute_process_kw_model(),
{
    
    let r = vec![("OUTPUT_QUIET", KwType::Option), ("ERROR_QUIET", KwType::Option), ("OUTPUT_STRIP_TRAILING_WHITESPACE", KwType::Option), ("ERROR_STRIP_TRAILING_WHITESPACE", KwType::Option), ("ECHO_OUTPUT_VARIABLE", KwType::Option), ("ECHO_ERROR_VARIABLE", KwType::Option), ("WORKING_DIRECTORY", KwType::OneValue), ("TIMEOUT", KwType::OneValue), ("RESULT_VARIABLE", KwType::OneValue), ("RESULTS_VARIABLE", KwType::OneValue), ("OUTPUT_VARIABLE", KwType::OneValue), ("ERROR_VARIABLE", KwType::OneValue), ("INPUT_FILE", KwType::OneValue), ("OUTPUT_FILE", KwType::OneValue), ("ERROR_FILE", KwType::OneValue), ("COMMAND_ECHO", KwType::OneValue), ("ENCODING", KwType::OneValue), ("COMMAND_ERROR_IS_FATAL", KwType::OneValue), ("COMMAND", KwType::MultiValue)];
    proof {
        lemma_kws_model(r, 0);
        assert(kws_model(r, 0) =~= execute_process_kw_model());
    }
    r
}

pub open spec fn execute_process_spec_model() -> SpecModel {
    SpecModel {
        front_positional: 0,
        back_positional: 0,
        keywords: execute_process_kw_model(),
        sections: Seq::empty(),
        command_line_keywords: Seq::empty(),
        pair_keywords: Seq::empty(),
        property_keywords: Seq::empty(),
        flow_keywords: seq!["COMMAND"@],
        flow_positional: false,
        compound_keywords: Seq::empty(),
        once_keywords: Seq::empty(),
    }
}

fn execute_process_spec() -> (r: CommandSpec)
    ensures
        r.model() == execute_process_spec_model(),
{
    let g0 = execute_process_kw();
    let kw = g0;
    let sections = Vec::new();
    let r = CommandSpec {
        front_positional: 0,
        back_positional: 0,
        keywords: kw,
        sections: sections,
        command_line_keywords: Vec::new(),
        pair_keywords: Vec::new(),
        property_keywords: Vec::new(),
        flow_keywords: vec!["COMMAND"],
        flow_positional: false,
        compound_keywords: Vec::new(),
        once_keywords: Vec::new(),
    };
    proof {
        lemma_kws_model(r.keywords, 0);
        lemma_secs_model(r.sections, 0);
        let m = execute_process_spec_model();
        assert(strs_model(r.command_line_keywords@) =~= m.command_line_keywords);
        assert(strs_model(r.pair_keywords@) =~= m.pair_keywords);
        assert(strs_model(r.property_keywords@) =~= m.property_keywords);
        assert(strs_model(r.flow_keywords@) =~= m.flow_keywords);
        assert(pairs_model(r.compound_keywords@) =~= m.compound_keywords);
        assert(strs_model(r.once_keywords@) =~= m.once_keywords);
        assert(r.model() == m);
    }
    r
}

pub open spec fn cmake_parse_arguments_kw_model() -> Seq<(Seq<char>, KwModel)> {
    seq![("PARSE_ARGV"@, KwModel::OneValue)]
}

fn cmake_parse_arguments_kw() -> (r: Vec<(&'static str, KwType)>)
    ensures
        kws_model(r, 0) == cmake_parse_arguments_kw_model(),
{
    
    let r = vec![("PARSE_ARGV", KwType::OneValue)];
    proof {
        lemma_kws_model(r, 0);
        assert(kws_model(r, 0) =~= cmake_parse_arguments_kw_model());
    }
    r
}

pub open spec fn cmake_parse_arguments_spec_model() -> SpecModel {
    SpecModel {
        front_positional: 4,
        back_positional: 0,
        keywords: cmake_parse_arguments_kw_model(),
        sections: Seq::empty(),
        command_line_keywords: Seq::empty(),
        pair_keywords: Seq::empty(),
        property_keywords: Seq::empty(),
        flow_keywords: Seq::empty(),
        flow_positional: false,
        compound_keywords: Seq::empty(),
        once_keywords: Seq::empty(),
    }
}

fn cmake_parse_arguments_spec() -> (r: CommandSpec)
    ensures
        r.model() == cmake_parse_arguments_spec_model(),
{
    let g0 = cmake_parse_arguments_kw();
    let kw = g0;
    let sections = Vec::new();
    let r = CommandSpec {
        front_positional: 4,
        back_positional: 0,
        keywords: kw,
        sections: sections,
        command_line_keywords: Vec::new(),
        pair_keywords: Vec::new(),
        property_keywords: Vec::new(),
        flow_keywords: Vec::new(),
        flow_positional: false,
        compound_keywords: Vec::new(),
        once_keywords: Vec::new(),
    };
    proof {
        lemma_kws_model(r.keywords, 0);
        lemma_secs_model(r.sections, 0);
        let m = cmake_parse_arguments_spec_model();
        assert(strs_model(r.command_line_keywords@) =~= m.command_line_keywords);
        assert(strs_model(r.pair_keywords@) =~= m.pair_keywords);
        assert(strs_model(r.property_keywords@) =~= m.property_keywords);
        assert(strs_model(r.flow_keywords@) =~= m.flow_keywords);
        assert(pairs_model(r.compound_keywords@) =~= m.compound_keywords);
        assert(strs_model(r.once_keywords@) =~= m.once_keywords);
        assert(r.model() == m);
    }
    r
}

pub open spec fn define_property_kw_model() -> Seq<(Seq<char>, KwModel)> {
    seq![("GLOBAL"@, KwModel::Option), ("DIRECTORY"@, KwModel::Option), ("TARGET"@, KwModel::Option), ("SOURCE"@, KwModel::Option), ("TEST"@, KwModel::Option), ("VARIABLE"@, KwModel::Option), ("CACHED_VARIABLE"@, KwModel::Option), ("INHERITED"@, KwModel::Option), ("PROPERTY"@, KwModel::OneValue), ("INITIALIZE_FROM_VARIABLE"@, KwModel::OneValue), ("BRIEF_DOCS"@, KwModel::MultiValue), ("FULL_DOCS"@, KwModel::MultiValue)]
}

fn define_property_kw() -> (r: Vec<(&'static str, KwType)>)
    ensures
        kws_model(r, 0) == define_property_kw_model(),
{
    
    let r = vec![("GLOBAL", KwType::Option), ("DIRECTORY", KwType::Option), ("TARGET", KwType::Option), ("SOURCE", KwType::Option), ("TEST", KwType::Option), ("VARIABLE", KwType::Option), ("CACHED_VARIABLE", KwType::Option), ("INHERITED", KwType::Option), ("PROPERTY", KwType::OneValue), ("INITIALIZE_FROM_VARIABLE", KwType::OneValue), ("BRIEF_DOCS", KwType::MultiValue), ("FULL_DOCS", KwType::MultiValue)];
    proof {
        lemma_kws_model(r, 0);
        assert(kws_model(r, 0) =~= define_property_kw_model());
    }
    r
}

pub open spec fn define_property_spec_model() -> SpecModel {
    SpecModel {
        front_positional: 0,
        back_positional: 0,
        keywords: define_property_kw_model(),
        sections: Seq::empty(),
        command_line_keywords: Seq::empty(),
        pair_keywords: Seq::empty(),
        property_keywords: Seq::empty(),
        flow_keywords: Seq::empty(),
        flow_positional: false,
        compound_keywords: Seq::empty(),
        once_keywords: Seq::empty(),
    }
}

fn define_property_spec() -> (r: CommandSpec)
    ensures
        r.model() == define_property_spec_model(),
{
    let g0 = define_property_kw();
    let kw = g0;
    let sections = Vec::new();
    let r = CommandSpec {
        front_positional: 0,
        back_positional: 0,
        keywords: kw,
        sections: sections,
        command_line_keywords: Vec::new(),
        pair_keywords: Vec::new(),
        property_keywords: Vec::new(),
        flow_keywords: Vec::new(),
        flow_positional: false,
        compound_keywords: Vec::new(),
        once_keywords: Vec::new(),
    };
    proof {
        lemma_kws_model(r.keywords, 0);
        lemma_secs_model(r.sections, 0);
        let m = define_property_spec_model();
        assert(strs_model(r.command_line_keywords@) =~= m.command_line_keywords);
        assert(strs_model(r.pair_keywords@) =~= m.pair_keywords);
        assert(strs_model(r.property_keywords@) =~= m.property_keywords);
        assert(strs_model(r.flow_keywords@) =~= m.flow_keywords);
        assert(pairs_model(r.compound_keywords@) =~= m.compound_keywords);
        assert(strs_model(r.once_keywords@) =~= m.once_keywords);
        assert(r.model() == m);
    }
    r
}

pub open spec fn get_property_kw_model() -> Seq<(Seq<char>, KwModel)> {
    seq![("GLOBAL"@, KwModel::Option), ("VARIABLE"@, KwModel::Option), ("SET"@, KwModel::Option), ("DEFINED"@, KwModel::Option), ("BRIEF_DOCS"@, KwModel::Option), ("FULL_DOCS"@, KwModel::Option), ("TARGET"@, KwModel::OneValue), ("INSTALL"@, KwModel::OneValue), ("TEST"@, KwModel::OneValue), ("CACHE"@, KwModel::OneValue), ("PROPERTY"@, KwModel::OneValue), ("TARGET_DIRECTORY"@, KwModel::OneValue), ("SOURCE"@, KwModel::OneValue), ("DIRECTORY"@, KwModel::MultiValue)]
}

fn get_property_kw() -> (r: Vec<(&'static str, KwType)>)
    ensures
        kws_model(r, 0) == get_property_kw_model(),
{
    
    let r = vec![("GLOBAL", KwType::Option), ("VARIABLE", KwType::Option), ("SET", KwType::Option), ("DEFINED", KwType::Option), ("BRIEF_DOCS", KwType::Option), ("FULL_DOCS", KwType::Option), ("TARGET", KwType::OneValue), ("INSTALL", KwType::OneValue), ("TEST", KwType::OneValue), ("CACHE", KwType::OneValue), ("PROPERTY", KwType::OneValue), ("TARGET_DIRECTORY", KwType::OneValue), ("SOURCE", KwType::OneValue), ("DIRECTORY", KwType::MultiValue)];
    proof {
        lemma_kws_model(r, 0);
        assert(kws_model(r, 0) =~= get_property_kw_model());
    }
    r
}

pub open spec fn get_property_spec_model() -> SpecModel {
    SpecModel {
        front_positional: 1,
        back_positional: 0,
        keywords: get_property_kw_model(),
        sections: Seq::empty(),
        command_line_keywords: Seq::empty(),
        pair_keywords: Seq::empty(),
        property_keywords: Seq::empty(),
        flow_keywords: Seq::empty(),
        flow_positional: false,
        compound_keywords: Seq::empty(),
        once_keywords: Seq::empty(),
    }
}

fn get_property_spec() -> (r: CommandSpec)
    ensures
        r.model() == get_property_spec_model(),
{
    let g0 = get_property_kw();
    let kw = g0;
    let sections = Vec::new();
    let r = CommandSpec {
        front_positional: 1,
        back_positional: 0,
        keywords: kw,
        sections: sections,
        command_line_keywords: Vec::new(),
        pair_keywords: Vec::new(),
        property_keywords: Vec::new(),
        flow_keywords: Vec::new(),
        flow_positional: false,
        compound_keywords: Vec::new(),
        once_keywords: Vec::new(),
    };
    proof {
        lemma_kws_model(r.keywords, 0);
        lemma_secs_model(r.sections, 0);
        let m = get_property_spec_model();
        assert(strs_model(r.command_line_keywords@) =~= m.command_line_keywords);
        assert(strs_model(r.pair_keywords@) =~= m.pair_keywords);
        assert(strs_model(r.property_keywords@) =~= m.property_keywords);
        assert(strs_model(r.flow_keywords@) =~= m.flow_keywords);
        assert(pairs_model(r.compound_keywords@) =~= m.compound_keywords);
        assert(strs_model(r.once_keywords@) =~= m.once_keywords);
        assert(r.model() == m);
    }
    r
}

pub open spec fn set_property_kw_model() -> Seq<(Seq<char>, KwModel)> {
    seq![("GLOBAL"@, KwModel::Option), ("APPEND"@, KwModel::Option), ("APPEND_STRING"@, KwModel::Option), ("DIRECTORY"@, KwModel::MultiValue), ("TARGET_DIRECTORY"@, KwModel::OneValue), ("TARGET_DIRECTORIES"@, KwModel::MultiValue), ("TARGET"@, KwModel::MultiValue), ("SOURCE"@, KwModel::MultiValue), ("INSTALL"@, KwModel::MultiValue), ("TEST"@, KwModel::MultiValue), ("CACHE"@, KwModel::MultiValue), ("PROPERTY"@, KwModel::MultiValue)]
}

fn set_property_kw() -> (r: Vec<(&'static str, KwType)>)
    ensures
        kws_model(r, 0) == set_property_kw_model(),
{
    
    let r = vec![("GLOBAL", KwType::Option), ("APPEND", KwType::Option), ("APPEND_STRING", KwType::Option), ("DIRECTORY", KwType::MultiValue), ("TARGET_DIRECTORY", KwType::OneValue), ("TARGET_DIRECTORIES", KwType::MultiValue), ("TARGET", KwType::MultiValue), ("SOURCE", KwType::MultiValue), ("INSTALL", KwType::MultiValue), ("TEST", KwType::MultiValue), ("CACHE", KwType::MultiValue), ("PROPERTY", KwType::MultiValue)];
    proof {
        lemma_kws_model(r, 0);
        assert(kws_model(r, 0) =~= set_property_kw_model());
    }
    r
}

pub open spec fn set_property_spec_model() -> SpecModel {
    SpecModel {
        front_positional: 0,
        back_positional: 0,
        keywords: set_property_kw_model(),
        sections: Seq::empty(),
        command_line_keywords: Seq::empty(),
        pair_keywords: Seq::empty(),
        property_keywords: seq!["PROPERTY"@],
        flow_keywords: Seq::empty(),
        flow_positional: false,
        compound_keywords: Seq::empty(),
        once_keywords: Seq::empty(),
    }
}

fn set_property_spec() -> (r: CommandSpec)
    ensures
        r.model() == set_property_spec_model(),
{
    let g0 = set_property_kw();
    let kw = g0;
    let sections = Vec::new();
    let r = CommandSpec {
        front_positional: 0,
        back_positional: 0,
        keywords: kw,
        sections: sections,
        command_line_keywords: Vec::new(),
        pair_keywords: Vec::new(),
        property_keywords: vec!["PROPERTY"],
        flow_keywords: Vec::new(),
        flow_positional: false,
        compound_keywords: Vec::new(),
        once_keywords: Vec::new(),
    };
    proof {
        lemma_kws_model(r.keywords, 0);
        lemma_secs_model(r.sections, 0);
        let m = set_property_spec_model();
        assert(strs_model(r.command_line_keywords@) =~= m.command_line_keywords);
        assert(strs_model(r.pair_keywords@) =~= m.pair_keywords);
        assert(strs_model(r.property_keywords@) =~= m.property_keywords);
        assert(strs_model(r.flow_keywords@) =~= m.flow_keywords);
        assert(pairs_model(r.compound_keywords@) =~= m.compound_keywords);
        assert(strs_model(r.once_keywords@) =~= m.once_keywords);
        assert(r.model() == m);
    }
    r
}

pub open spec fn export_kw_model() -> Seq<(Seq<char>, KwModel)> {
    seq![("APPEND"@, KwModel::Option), ("EXPORT_LINK_INTERFACE_LIBRARIES"@, KwModel::Option), ("EXPORT_PACKAGE_DEPENDENCIES"@, KwModel::Option), ("NO_PROJECT_METADATA"@, KwModel::Option), ("LOWER_CASE_FILE"@, KwModel::Option), ("EXPORT"@, KwModel::OneValue), ("NAMESPACE"@, KwModel::OneValue), ("FILE"@, KwModel::OneValue), ("PACKAGE_INFO"@, KwModel::OneValue), ("PROJECT"@, KwModel::OneValue), ("APPENDIX"@, KwModel::OneValue), ("LICENSE"@, KwModel::OneValue), ("DEFAULT_LICENSE"@, KwModel::OneValue), ("DESCRIPTION"@, KwModel::OneValue), ("HOMEPAGE_URL"@, KwModel::OneValue), ("PACKAGE"@, KwModel::OneValue), ("SETUP"@, KwModel::OneValue), ("ANDROID_MK"@, KwModel::OneValue), ("TARGETS"@, KwModel::MultiValue), ("DEFAULT_TARGETS"@, KwModel::MultiValue), ("DEFAULT_CONFIGURATIONS"@, KwModel::MultiValue), ("PACKAGE_DEPENDENCY"@, KwModel::MultiValue), ("TARGET"@, KwModel::MultiValue), ("VERSION"@, KwModel::MultiValue)]
}

fn export_kw() -> (r: Vec<(&'static str, KwType)>)
    ensures
        kws_model(r, 0) == export_kw_model(),
{
    
    let r = vec![("APPEND", KwType::Option), ("EXPORT_LINK_INTERFACE_LIBRARIES", KwType::Option), ("EXPORT_PACKAGE_DEPENDENCIES", KwType::Option), ("NO_PROJECT_METADATA", KwType::Option), ("LOWER_CASE_FILE", KwType::Option), ("EXPORT", KwType::OneValue), ("NAMESPACE", KwType::OneValue), ("FILE", KwType::OneValue), ("PACKAGE_INFO", KwType::OneValue), ("PROJECT", KwType::OneValue), ("APPENDIX", KwType::OneValue), ("LICENSE", KwType::OneValue), ("DEFAULT_LICENSE", KwType::OneValue), ("DESCRIPTION", KwType::OneValue), ("HOMEPAGE_URL", KwType::OneValue), ("PACKAGE", KwType::OneValue), ("SETUP", KwType::OneValue), ("ANDROID_MK", KwType::OneValue), ("TARGETS", KwType::MultiValue), ("DEFAULT_TARGETS", KwType::MultiValue), ("DEFAULT_CONFIGURATIONS", KwType::MultiValue), ("PACKAGE_DEPENDENCY", KwType::MultiValue), ("TARGET", KwType::MultiValue), ("VERSION", KwType::MultiValue)];
    proof {
        lemma_kws_model(r, 0);
        assert(kws_model(r, 0) =~= export_kw_model());
    }
    r
}

pub open spec fn export_sections_model() -> Seq<(Seq<char>, nat, Seq<(Seq<char>, KwModel)>)> {
    seq![("PACKAGE_DEPENDENCY"@, 0, seq![("ENABLED"@, KwModel::OneValue), ("EXTRA_ARGS"@, KwModel::MultiValue)]), ("TARGET"@, 0, seq![("XCFRAMEWORK_LOCATION"@, KwModel::OneValue)]), ("VERSION"@, 1, seq![("COMPAT_VERSION"@, KwModel::OneValue), ("VERSION_SCHEMA"@, KwModel::OneValue)])]
}

fn export_sections() -> (r: Vec<(&'static str, usize, Vec<(&'static str, KwType)>)>)
    ensures
        secs_model(r, 0) == export_sections_model(),
{
    let s0 = vec![("ENABLED", KwType::OneValue), ("EXTRA_ARGS", KwType::MultiValue)];
    proof {
        lemma_kws_model(s0, 0);
        assert(kws_model(s0, 0) =~= seq![("ENABLED"@, KwModel::OneValue), ("EXTRA_ARGS"@, KwModel::MultiValue)]);
    }
    let s2 = vec![("XCFRAMEWORK_LOCATION", KwType::OneValue)];
    proof {
        lemma_kws_model(s2, 0);
        assert(kws_model(s2, 0) =~= seq![("XCFRAMEWORK_LOCATION"@, KwModel::OneValue)]);
    }
    let s4 = vec![("COMPAT_VERSION", KwType::OneValue), ("VERSION_SCHEMA", KwType::OneValue)];
    proof {
        lemma_kws_model(s4, 0);
        assert(kws_model(s4, 0) =~= seq![("COMPAT_VERSION"@, KwModel::OneValue), ("VERSION_SCHEMA"@, KwModel::OneValue)]);
    }
    let r = vec![("PACKAGE_DEPENDENCY", 0, s0), ("TARGET", 0, s2), ("VERSION", 1, s4)];
    proof {
        lemma_secs_model(r, 0);
        assert(secs_model(r, 0) =~= export_sections_model());
    }
    r
}

pub open spec fn export_spec_model() -> SpecModel {
    SpecModel {
        front_positional: 0,
        back_positional: 0,
        keywords: export_kw_model(),
        sections: export_sections_model(),
        command_line_keywords: Seq::empty(),
        pair_keywords: Seq::empty(),
        property_keywords: Seq::empty(),
        flow_keywords: Seq::empty(),
        flow_positional: false,
        compound_keywords: Seq::empty(),
        once_keywords: Seq::empty(),
    }
}

fn export_spec() -> (r: CommandSpec)
    ensures
        r.model() == export_spec_model(),
{
    let g0 = export_kw();
    let kw = g0;
    let g2 = export_sections();
    let sections = g2;
    let r = CommandSpec {
        front_positional: 0,
        back_positional: 0,
        keywords: kw,
        sections: sections,
        command_line_keywords: Vec::new(),
        pair_keywords: Vec::new(),
        property_keywords: Vec::new(),
        flow_keywords: Vec::new(),
        flow_positional: false,
        compound_keywords: Vec::new(),
        once_keywords: Vec::new(),
    };
    proof {
        lemma_kws_model(r.keywords, 0);
        lemma_secs_model(r.sections, 0);
        let m = export_spec_model();
        assert(strs_model(r.command_line_keywords@) =~= m.command_line_keywords);
        assert(strs_model(r.pair_keywords@) =~= m.pair_keywords);
        assert(strs_model(r.property_keywords@) =~= m.property_keywords);
        assert(strs_model(r.flow_keywords@) =~= m.flow_keywords);
        assert(pairs_model(r.compound_keywords@) =~= m.compound_keywords);
        assert(strs_model(r.once_keywords@) =~= m.once_keywords);
        assert(r.model() == m);
    }
    r
}

pub open spec fn foreach_kw_model() -> Seq<(Seq<char>, KwModel)> {
    seq![("IN"@, KwModel::Option), ("RANGE"@, KwModel::MultiValue), ("LISTS"@, KwModel::MultiValue), ("ITEMS"@, KwModel::MultiValue), ("ZIP_LISTS"@, KwModel::MultiValue)]
}

fn foreach_kw() -> (r: Vec<(&'static str, KwType)>)
    ensures
        kws_model(r, 0) == foreach_kw_model(),
{
    
    let r = vec![("IN", KwType::Option), ("RANGE", KwType::MultiValue), ("LISTS", KwType::MultiValue), ("ITEMS", KwType::MultiValue), ("ZIP_LISTS", KwType::MultiValue)];
    proof {
        lemma_kws_model(r, 0);
        assert(kws_model(r, 0) =~= foreach_kw_model());
    }
    r
}

pub open spec fn foreach_spec_model() -> SpecModel {
    SpecModel {
        front_positional: 0,
        back_positional: 0,
        keywords: foreach_kw_model(),
        sections: Seq::empty(),
        command_line_keywords: Seq::empty(),
        pair_keywords: Seq::empty(),
        property_keywords: Seq::empty(),
        flow_keywords: Seq::empty(),
        flow_positional: false,
        compound_keywords: Seq::empty(),
        once_keywords: Seq::empty(),
    }
}

fn foreach_spec() -> (r: CommandSpec)
    ensures
        r.model() == foreach_spec_model(),
{
    let g0 = foreach_kw();
    let kw = g0;
    let sections = Vec::new();
    let r = CommandSpec {
        front_positional: 0,
        back_positional: 0,
        keywords: kw,
        sections: sections,
        command_line_keywords: Vec::new(),
        pair_keywords: Vec::new(),
        property_keywords: Vec::new(),
        flow_keywords: Vec::new(),
        flow_positional: false,
        compound_keywords: Vec::new(),
        once_keywords: Vec::new(),
    };
    proof {
        lemma_kws_model(r.keywords, 0);
        lemma_secs_model(r.sections, 0);
        let m = foreach_spec_model();
        assert(strs_model(r.command_line_keywords@) =~= m.command_line_keywords);
        assert(strs_model(r.pair_keywords@) =~= m.pair_keywords);
        assert(strs_model(r.property_keywords@) =~= m.property_keywords);
        assert(strs_model(r.flow_keywords@) =~= m.flow_keywords);
        assert(pairs_model(r.compound_keywords@) =~= m.compound_keywords);
        assert(strs_model(r.once_keywords@) =~= m.once_keywords);
        assert(r.model() == m);
    }
    r
}

pub open spec fn function_spec_model() -> SpecModel {
    SpecModel {
        front_positional: 1,
        back_positional: 0,
        keywords: Seq::empty(),
        sections: Seq::empty(),
        command_line_keywords: Seq::empty(),
        pair_keywords: Seq::empty(),
        property_keywords: Seq::empty(),
        flow_keywords: Seq::empty(),
        flow_positional: false,
        compound_keywords: Seq::empty(),
        once_keywords: Seq::empty(),
    }
}

fn function_spec() -> (r: CommandSpec)
    ensures
        r.model() == function_spec_model(),
{
    let kw = Vec::new();
    let sections = Vec::new();
    let r = CommandSpec {
        front_positional: 1,
        back_positional: 0,
        keywords: kw,
        sections: sections,
        command_line_keywords: Vec::new(),
        pair_keywords: Vec::new(),
        property_keywords: Vec::new(),
        flow_keywords: Vec::new(),
        flow_positional: false,
        compound_keywords: Vec::new(),
        once_keywords: Vec::new(),
    };
    proof {
        lemma_kws_model(r.keywords, 0);
        lemma_secs_model(r.sections, 0);
        let m = function_spec_model();
        assert(strs_model(r.command_line_keywords@) =~= m.command_line_keywords);
        assert(strs_model(r.pair_keywords@) =~= m.pair_keywords);
        assert(strs_model(r.property_keywords@) =~= m.property_keywords);
        assert(strs_model(r.flow_keywords@) =~= m.flow_keywords);
        assert(pairs_model(r.compound_keywords@) =~= m.compound_keywords);
        assert(strs_model(r.once_keywords@) =~= m.once_keywords);
        assert(r.model() == m);
    }
    r
}

pub open spec fn macro_spec_model() -> SpecModel {
    SpecModel {
        front_positional: 1,
        back_positional: 0,
        keywords: Seq::empty(),
        sections: Seq::empty(),
        command_line_keywords: Seq::empty(),
        pair_keywords: Seq::empty(),
        property_keywords: Seq::empty(),
        flow_keywords: Seq::empty(),
        flow_positional: false,
        compound_keywords: Seq::empty(),
        once_keywords: Seq::empty(),
    }
}

fn macro_spec() -> (r: CommandSpec)
    ensures
        r.model() == macro_spec_model(),
{
    let kw = Vec::new();
    let sections = Vec::new();
    let r = CommandSpec {
        front_positional: 1,
        back_positional: 0,
        keywords: kw,
        sections: sections,
        command_line_keywords: Vec::new(),
        pair_keywords: Vec::new(),
        property_keywords: Vec::new(),
        flow_keywords: Vec::new(),
        flow_positional: false,
        compound_keywords: Vec::new(),
        once_keywords: Vec::new(),
    };
    proof {
        lemma_kws_model(r.keywords, 0);
        lemma_secs_model(r.sections, 0);
        let m = macro_spec_model();
        assert(strs_model(r.command_line_keywords@) =~= m.command_line_keywords);
        assert(strs_model(r.pair_keywords@) =~= m.pair_keywords);
        assert(strs_model(r.property_keywords@) =~= m.property_keywords);
        assert(strs_model(r.flow_keywords@) =~= m.flow_keywords);
        assert(pairs_model(r.compound_keywords@) =~= m.compound_keywords);
        assert(strs_model(r.once_keywords@) =~= m.once_keywords);
        assert(r.model() == m);
    }
    r
}

pub open spec fn cmake_minimum_required_kw_model() -> Seq<(Seq<char>, KwModel)> {
    seq![("FATAL_ERROR"@, KwModel::Option), ("VERSION"@, KwModel::OneValue)]
}

fn cmake_minimum_required_kw() -> (r: Vec<(&'static str, KwType)>)
    ensures
        kws_model(r, 0) == cmake_minimum_required_kw_model(),
{
    
    let r = vec![("FATAL_ERROR", KwType::Option), ("VERSION", KwType::OneValue)];
    proof {
        lemma_kws_model(r, 0);
        assert(kws_model(r, 0) =~= cmake_minimum_required_kw_model());
    }
    r
}

pub open spec fn cmake_minimum_required_spec_model() -> SpecModel {
    SpecModel {
        front_positional: 0,
        back_positional: 0,
        keywords: cmake_minimum_required_kw_model(),
        sections: Seq::empty(),
        command_line_keywords: Seq::empty(),
        pair_keywords: Seq::empty(),
        property_keywords: Seq::empty(),
        flow_keywords: Seq::empty(),
        flow_positional: false,
        compound_keywords: Seq::empty(),
        once_keywords: Seq::empty(),
    }
}

fn cmake_minimum_required_spec() -> (r: CommandSpec)
    ensures
        r.model() == cmake_minimum_required_spec_model(),
{
    let g0 = cmake_minimum_required_kw();
    let kw = g0;
    let sections = Vec::new();
    let r = CommandSpec {
        front_positional: 0,
        back_positional: 0,
        keywords: kw,
        sections: sections,
        command_line_keywords: Vec::new(),
        pair_keywords: Vec::new(),
        property_keywords: Vec::new(),
        flow_keywords: Vec::new(),
        flow_positional: false,
        compound_keywords: Vec::new(),
        once_keywords: Vec::new(),
    };
    proof {
        lemma_kws_model(r.keywords, 0);
        lemma_secs_model(r.sections, 0);
        let m = cmake_minimum_required_spec_model();
        assert(strs_model(r.command_line_keywords@) =~= m.command_line_keywords);
        assert(strs_model(r.pair_keywords@) =~= m.pair_keywords);
        assert(strs_model(r.property_keywords@) =~= m.property_keywords);
        assert(strs_model(r.flow_keywords@) =~= m.flow_keywords);
        assert(pairs_model(r.compound_keywords@) =~= m.compound_keywords);
        assert(strs_model(r.once_keywords@) =~= m.once_keywords);
        assert(r.model() == m);
    }
    r
}

pub open spec fn configure_file_kw_model() -> Seq<(Seq<char>, KwModel)> {
    seq![("COPYONLY"@, KwModel::Option), ("ESCAPE_QUOTES"@, KwModel::Option), ("@ONLY"@, KwModel::Option), ("NO_SOURCE_PERMISSIONS"@, KwModel::Option), ("USE_SOURCE_PERMISSIONS"@, KwModel::Option), ("NEWLINE_STYLE"@, KwModel::OneValue), ("FILE_PERMISSIONS"@, KwModel::MultiValue)]
}

fn configure_file_kw() -> (r: Vec<(&'static str, KwType)>)
    ensures
        kws_model(r, 0) == configure_file_kw_model(),
{
    
    let r = vec![("COPYONLY", KwType::Option), ("ESCAPE_QUOTES", KwType::Option), ("@ONLY", KwType::Option), ("NO_SOURCE_PERMISSIONS", KwType::Option), ("USE_SOURCE_PERMISSIONS", KwType::Option), ("NEWLINE_STYLE", KwType::OneValue), ("FILE_PERMISSIONS", KwType::MultiValue)];
    proof {
        lemma_kws_model(r, 0);
        assert(kws_model(r, 0) =~= configure_file_kw_model());
    }
    r
}

pub open spec fn configure_file_spec_model() -> SpecModel {
    SpecModel {
        front_positional: 2,
        back_positional: 0,
        keywords: configure_file_kw_model(),
        sections: Seq::empty(),
        command_line_keywords: Seq::empty(),
        pair_keywords: Seq::empty(),
        property_keywords: Seq::empty(),
        flow_keywords: Seq::empty(),
        flow_positional: false,
        compound_keywords: Seq::empty(),
        once_keywords: Seq::empty(),
    }
}

fn configure_file_spec() -> (r: CommandSpec)
    ensures
        r.model() == configure_file_spec_model(),
{
    let g0 = configure_file_kw();
    let kw = g0;
    let sections = Vec::new();
    let r = CommandSpec {
        front_positional: 2,
        back_positional: 0,
        keywords: kw,
        sections: sections,
        command_line_keywords: Vec::new(),
        pair_keywords: Vec::new(),
        property_keywords: Vec::new(),
        flow_keywords: Vec::new(),
        flow_positional: false,
        compound_keywords: Vec::new(),
        once_keywords: Vec::new(),
    };
    proof {
        lemma_kws_model(r.keywords, 0);
        lemma_secs_model(r.sections, 0);
        let m = configure_file_spec_model();
        assert(strs_model(r.command_line_keywords@) =~= m.command_line_keywords);
        assert(strs_model(r.pair_keywords@) =~= m.pair_keywords);
        assert(strs_model(r.property_keywords@) =~= m.property_keywords);
        assert(strs_model(r.flow_keywords@) =~= m.flow_keywords);
        assert(pairs_model(r.compound_keywords@) =~= m.compound_keywords);
        assert(strs_model(r.once_keywords@) =~= m.once_keywords);
        assert(r.model() == m);
    }
    r
}

pub open spec fn include_kw_model() -> Seq<(Seq<char>, KwModel)> {
    seq![("OPTIONAL"@, KwModel::Option), ("NO_POLICY_SCOPE"@, KwModel::Option), ("RESULT_VARIABLE"@, KwModel::OneValue)]
}

fn include_kw() -> (r: Vec<(&'static str, KwType)>)
    ensures
        kws_model(r, 0) == include_kw_model(),
{
    
    let r = vec![("OPTIONAL", KwType::Option), ("NO_POLICY_SCOPE", KwType::Option), ("RESULT_VARIABLE", KwType::OneValue)];
    proof {
        lemma_kws_model(r, 0);
        assert(kws_model(r, 0) =~= include_kw_model());
    }
    r
}

pub open spec fn include_spec_model() -> SpecModel {
    SpecModel {
        front_positional: 1,
        back_positional: 0,
        keywords: include_kw_model(),
        sections: Seq::empty(),
        command_line_keywords: Seq::empty(),
        pair_keywords: Seq::empty(),
        property_keywords: Seq::empty(),
        flow_keywords: Seq::empty(),
        flow_positional: false,
        compound_keywords: Seq::empty(),
        once_keywords: Seq::empty(),
    }
}

fn include_spec() -> (r: CommandSpec)
    ensures
        r.model() == include_spec_model(),
{
    let g0 = include_kw();
    let kw = g0;
    let sections = Vec::new();
    let r = CommandSpec {
        front_positional: 1,
        back_positional: 0,
        keywords: kw,
        sections: sections,
        command_line_keywords: Vec::new(),
        pair_keywords: Vec::new(),
        property_keywords: Vec::new(),
        flow_keywords: Vec::new(),
        flow_positional: false,
        compound_keywords: Vec::new(),
        once_keywords: Vec::new(),
    };
    proof {
        lemma_kws_model(r.keywords, 0);
        lemma_secs_model(r.sections, 0);
        let m = include_spec_model();
        assert(strs_model(r.command_line_keywords@) =~= m.command_line_keywords);
        assert(strs_model(r.pair_keywords@) =~= m.pair_keywords);
        assert(strs_model(r.property_keywords@) =~= m.property_keywords);
        assert(strs_model(r.flow_keywords@) =~= m.flow_keywords);
        assert(pairs_model(r.compound_keywords@) =~= m.compound_keywords);
        assert(strs_model(r.once_keywords@) =~= m.once_keywords);
        assert(r.model() == m);
    }
    r
}

pub open spec fn math_kw_model() -> Seq<(Seq<char>, KwModel)> {
    seq![("OUTPUT_FORMAT"@, KwModel::OneValue)]
}

fn math_kw() -> (r: Vec<(&'static str, KwType)>)
    ensures
        kws_model(r, 0) == math_kw_model(),
{
    
    let r = vec![("OUTPUT_FORMAT", KwType::OneValue)];
    proof {
        lemma_kws_model(r, 0);
        assert(kws_model(r, 0) =~= math_kw_model());
    }
    r
}

pub open spec fn math_spec_model() -> SpecModel {
    SpecModel {
        front_positional: 3,
        back_positional: 0,
        keywords: math_kw_model(),
        sections: Seq::empty(),
        command_line_keywords: Seq::empty(),
        pair_keywords: Seq::empty(),
        property_keywords: Seq::empty(),
        flow_keywords: Seq::empty(),
        flow_positional: false,
        compound_keywords: Seq::empty(),
        once_keywords: Seq::empty(),
    }
}

fn math_spec() -> (r: CommandSpec)
    ensures
        r.model() == math_spec_model(),
{
    let g0 = math_kw();
    let kw = g0;
    let sections = Vec::new();
    let r = CommandSpec {
        front_positional: 3,
        back_positional: 0,
        keywords: kw,
        sections: sections,
        command_line_keywords: Vec::new(),
        pair_keywords: Vec::new(),
        property_keywords: Vec::new(),
        flow_keywords: Vec::new(),
        flow_positional: false,
        compound_keywords: Vec::new(),
        once_keywords: Vec::new(),
    };
    proof {
        lemma_kws_model(r.keywords, 0);
        lemma_secs_model(r.sections, 0);
        let m = math_spec_model();
        assert(strs_model(r.command_line_keywords@) =~= m.command_line_keywords);
        assert(strs_model(r.pair_keywords@) =~= m.pair_keywords);
        assert(strs_model(r.property_keywords@) =~= m.property_keywords);
        assert(strs_model(r.flow_keywords@) =~= m.flow_keywords);
        assert(pairs_model(r.compound_keywords@) =~= m.compound_keywords);
        assert(strs_model(r.once_keywords@) =~= m.once_keywords);
        assert(r.model() == m);
    }
    r
}

pub open spec fn add_subdirectory_kw_model() -> Seq<(Seq<char>, KwModel)> {
    seq![("EXCLUDE_FROM_ALL"@, KwModel::Option), ("SYSTEM"@, KwModel::Option)]
}

fn add_subdirectory_kw() -> (r: Vec<(&'static str, KwType)>)
    ensures
        kws_model(r, 0) == add_subdirectory_kw_model(),
{
    
    let r = vec![("EXCLUDE_FROM_ALL", KwType::Option), ("SYSTEM", KwType::Option)];
    proof {
        lemma_kws_model(r, 0);
        assert(kws_model(r, 0) =~= add_subdirectory_kw_model());
    }
    r
}

pub open spec fn add_subdirectory_spec_model() -> SpecModel {
    SpecModel {
        front_positional: 2,
        back_positional: 0,
        keywords: add_subdirectory_kw_model(),
        sections: Seq::empty(),
        command_line_keywords: Seq::empty(),
        pair_keywords: Seq::empty(),
        property_keywords: Seq::empty(),
        flow_keywords: Seq::empty(),
        flow_positional: false,
        compound_keywords: Seq::empty(),
        once_keywords: Seq::empty(),
    }
}

fn add_subdirectory_spec() -> (r: CommandSpec)
    ensures
        r.model() == add_subdirectory_spec_model(),
{
    let g0 = add_subdirectory_kw();
    let kw = g0;
    let sections = Vec::new();
    let r = CommandSpec {
        front_positional: 2,
        back_positional: 0,
        keywords: kw,
        sections: sections,
        command_line_keywords: Vec::new(),
        pair_keywords: Vec::new(),
        property_keywords: Vec::new(),
        flow_keywords: Vec::new(),
        flow_positional: false,
        compound_keywords: Vec::new(),
        once_keywords: Vec::new(),
    };
    proof {
        lemma_kws_model(r.keywords, 0);
        lemma_secs_model(r.sections, 0);
        let m = add_subdirectory_spec_model();
        assert(strs_model(r.command_line_keywords@) =~= m.command_line_keywords);
        assert(strs_model(r.pair_keywords@) =~= m.pair_keywords);
        assert(strs_model(r.property_keywords@) =~= m.property_keywords);
        assert(strs_model(r.flow_keywords@) =~= m.flow_keywords);
        assert(pairs_model(r.compound_keywords@) =~= m.compound_keywords);
        assert(strs_model(r.once_keywords@) =~= m.once_keywords);
        assert(r.model() == m);
    }
    r
}

pub open spec fn string_kw_model() -> Seq<(Seq<char>, KwModel)> {
    seq![("REVERSE"@, KwModel::Option), ("@ONLY"@, KwModel::Option), ("ESCAPE_QUOTES"@, KwModel::Option), ("UTC"@, KwModel::Option), ("UPPER"@, KwModel::Option), ("TOLOWER"@, KwModel::OneValue), ("TOUPPER"@, KwModel::OneValue), ("STRIP"@, KwModel::OneValue), ("GENEX_STRIP"@, KwModel::OneValue), ("INCLUDE"@, KwModel::Option), ("EXCLUDE"@, KwModel::Option), ("FIND"@, KwModel::OneValue), ("REPLACE"@, KwModel::OneValue), ("APPEND"@, KwModel::OneValue), ("PREPEND"@, KwModel::OneValue), ("CONCAT"@, KwModel::OneValue), ("JOIN"@, KwModel::OneValue), ("LENGTH"@, KwModel::OneValue), ("SUBSTRING"@, KwModel::OneValue), ("REPEAT"@, KwModel::OneValue), ("MD5"@, KwModel::OneValue), ("SHA1"@, KwModel::OneValue), ("SHA224"@, KwModel::OneValue), ("SHA256"@, KwModel::OneValue), ("SHA384"@, KwModel::OneValue), ("SHA512"@, KwModel::OneValue), ("SHA3_224"@, KwModel::OneValue), ("SHA3_256"@, KwModel::OneValue), ("SHA3_384"@, KwModel::OneValue), ("SHA3_512"@, KwModel::OneValue), ("CONFIGURE"@, KwModel::OneValue), ("MAKE_C_IDENTIFIER"@, KwModel::OneValue), ("RANDOM"@, KwModel::Option), ("TIMESTAMP"@, KwModel::OneValue), ("UUID"@, KwModel::OneValue), ("NAMESPACE"@, KwModel::OneValue), ("NAME"@, KwModel::OneValue), ("TYPE"@, KwModel::OneValue), ("REGEX"@, KwModel::OneValue), ("MATCH"@, KwModel::OneValue), ("MATCHALL"@, KwModel::OneValue), ("COMPARE"@, KwModel::OneValue), ("LESS"@, KwModel::OneValue), ("GREATER"@, KwModel::OneValue), ("EQUAL"@, KwModel::OneValue), ("NOTEQUAL"@, KwModel::OneValue), ("LESS_EQUAL"@, KwModel::OneValue), ("GREATER_EQUAL"@, KwModel::OneValue), ("HEX"@, KwModel::OneValue), ("ASCII"@, KwModel::MultiValue), ("JSON"@, KwModel::OneValue), ("ERROR_VARIABLE"@, KwModel::OneValue), ("GET"@, KwModel::OneValue), ("MEMBER"@, KwModel::OneValue), ("REMOVE"@, KwModel::OneValue), ("SET"@, KwModel::OneValue), ("ALPHABET"@, KwModel::OneValue), ("RANDOM_SEED"@, KwModel::OneValue), ("OUTPUT_VARIABLE"@, KwModel::OneValue), ("QUOTE"@, KwModel::OneValue), ("FILTER"@, KwModel::OneValue)]
}

fn string_kw() -> (r: Vec<(&'static str, KwType)>)
    ensures
        kws_model(r, 0) == string_kw_model(),
{
    
    let r = vec![("REVERSE", KwType::Option), ("@ONLY", KwType::Option), ("ESCAPE_QUOTES", KwType::Option), ("UTC", KwType::Option), ("UPPER", KwType::Option), ("TOLOWER", KwType::OneValue), ("TOUPPER", KwType::OneValue), ("STRIP", KwType::OneValue), ("GENEX_STRIP", KwType::OneValue), ("INCLUDE", KwType::Option), ("EXCLUDE", KwType::Option), ("FIND", KwType::OneValue), ("REPLACE", KwType::OneValue), ("APPEND", KwType::OneValue), ("PREPEND", KwType::OneValue), ("CONCAT", KwType::OneValue), ("JOIN", KwType::OneValue), ("LENGTH", KwType::OneValue), ("SUBSTRING", KwType::OneValue), ("REPEAT", KwType::OneValue), ("MD5", KwType::OneValue), ("SHA1", KwType::OneValue), ("SHA224", KwType::OneValue), ("SHA256", KwType::OneValue), ("SHA384", KwType::OneValue), ("SHA512", KwType::OneValue), ("SHA3_224", KwType::OneValue), ("SHA3_256", KwType::OneValue), ("SHA3_384", KwType::OneValue), ("SHA3_512", KwType::OneValue), ("CONFIGURE", KwType::OneValue), ("MAKE_C_IDENTIFIER", KwType::OneValue), ("RANDOM", KwType::Option), ("TIMESTAMP", KwType::OneValue), ("UUID", KwType::OneValue), ("NAMESPACE", KwType::OneValue), ("NAME", KwType::OneValue), ("TYPE", KwType::OneValue), ("REGEX", KwType::OneValue), ("MATCH", KwType::OneValue), ("MATCHALL", KwType::OneValue), ("COMPARE", KwType::OneValue), ("LESS", KwType::OneValue), ("GREATER", KwType::OneValue), ("EQUAL", KwType::OneValue), ("NOTEQUAL", KwType::OneValue), ("LESS_EQUAL", KwType::OneValue), ("GREATER_EQUAL", KwType::OneValue), ("HEX", KwType::OneValue), ("ASCII", KwType::MultiValue), ("JSON", KwType::OneValue), ("ERROR_VARIABLE", KwType::OneValue), ("GET", KwType::OneValue), ("MEMBER", KwType::OneValue), ("REMOVE", KwType::OneValue), ("SET", KwType::OneValue), ("ALPHABET", KwType::OneValue), ("RANDOM_SEED", KwType::OneValue), ("OUTPUT_VARIABLE", KwType::OneValue), ("QUOTE", KwType::OneValue), ("FILTER", KwType::OneValue)];
    proof {
        lemma_kws_model(r, 0);
        assert(kws_model(r, 0) =~= string_kw_model());
    }
    r
}

pub open spec fn string_spec_model() -> SpecModel {
    SpecModel {
        front_positional: 0,
        back_positional: 0,
        keywords: string_kw_model(),
        sections: Seq::empty(),
        command_line_keywords: Seq::empty(),
        pair_keywords: Seq::empty(),
        property_keywords: Seq::empty(),
        flow_keywords: Seq::empty(),
        flow_positional: false,
        compound_keywords: seq![("REGEX"@, "MATCH"@), ("REGEX"@, "MATCHALL"@), ("REGEX"@, "REPLACE"@), ("REGEX"@, "QUOTE"@)],
        once_keywords: Seq::empty(),
    }
}

fn string_spec() -> (r: CommandSpec)
    ensures
        r.model() == string_spec_model(),
{
    let g0 = string_kw();
    let kw = g0;
    let sections = Vec::new();
    let r = CommandSpec {
        front_positional: 0,
        back_positional: 0,
        keywords: kw,
        sections: sections,
        command_line_keywords: Vec::new(),
        pair_keywords: Vec::new(),
        property_keywords: Vec::new(),
        flow_keywords: Vec::new(),
        flow_positional: false,
        compound_keywords: vec![("REGEX", "MATCH"), ("REGEX", "MATCHALL"), ("REGEX", "REPLACE"), ("REGEX", "QUOTE")],
        once_keywords: Vec::new(),
    };
    proof {
        lemma_kws_model(r.keywords, 0);
        lemma_secs_model(r.sections, 0);
        let m = string_spec_model();
        assert(strs_model(r.command_line_keywords@) =~= m.command_line_keywords);
        assert(strs_model(r.pair_keywords@) =~= m.pair_keywords);
        assert(strs_model(r.property_keywords@) =~= m.property_keywords);
        assert(strs_model(r.flow_keywords@) =~= m.flow_keywords);
        assert(pairs_model(r.compound_keywords@) =~= m.compound_keywords);
        assert(strs_model(r.once_keywords@) =~= m.once_keywords);
        assert(r.model() == m);
    }
    r
}

pub open spec fn list_kw_model() -> Seq<(Seq<char>, KwModel)> {
    seq![("INCLUDE"@, KwModel::Option), ("EXCLUDE"@, KwModel::Option), ("TOLOWER"@, KwModel::Option), ("TOUPPER"@, KwModel::Option), ("STRIP"@, KwModel::Option), ("GENEX_STRIP"@, KwModel::Option), ("LENGTH"@, KwModel::OneValue), ("GET"@, KwModel::OneValue), ("JOIN"@, KwModel::OneValue), ("SUBLIST"@, KwModel::OneValue), ("FIND"@, KwModel::OneValue), ("APPEND"@, KwModel::OneValue), ("FILTER"@, KwModel::OneValue), ("INSERT"@, KwModel::OneValue), ("POP_BACK"@, KwModel::OneValue), ("POP_FRONT"@, KwModel::OneValue), ("PREPEND"@, KwModel::OneValue), ("REMOVE_ITEM"@, KwModel::OneValue), ("REMOVE_AT"@, KwModel::OneValue), ("REMOVE_DUPLICATES"@, KwModel::OneValue), ("TRANSFORM"@, KwModel::OneValue), ("REVERSE"@, KwModel::OneValue), ("SORT"@, KwModel::OneValue), ("COMPARE"@, KwModel::OneValue), ("CASE"@, KwModel::OneValue), ("ORDER"@, KwModel::OneValue), ("OUTPUT_VARIABLE"@, KwModel::OneValue), ("REGEX"@, KwModel::OneValue), ("REPLACE"@, KwModel::MultiValue), ("AT"@, KwModel::MultiValue), ("FOR"@, KwModel::MultiValue)]
}

fn list_kw() -> (r: Vec<(&'static str, KwType)>)
    ensures
        kws_model(r, 0) == list_kw_model(),
{
    
    let r = vec![("INCLUDE", KwType::Option), ("EXCLUDE", KwType::Option), ("TOLOWER", KwType::Option), ("TOUPPER", KwType::Option), ("STRIP", KwType::Option), ("GENEX_STRIP", KwType::Option), ("LENGTH", KwType::OneValue), ("GET", KwType::OneValue), ("JOIN", KwType::OneValue), ("SUBLIST", KwType::OneValue), ("FIND", KwType::OneValue), ("APPEND", KwType::OneValue), ("FILTER", KwType::OneValue), ("INSERT", KwType::OneValue), ("POP_BACK", KwType::OneValue), ("POP_FRONT", KwType::OneValue), ("PREPEND", KwType::OneValue), ("REMOVE_ITEM", KwType::OneValue), ("REMOVE_AT", KwType::OneValue), ("REMOVE_DUPLICATES", KwType::OneValue), ("TRANSFORM", KwType::OneValue), ("REVERSE", KwType::OneValue), ("SORT", KwType::OneValue), ("COMPARE", KwType::OneValue), ("CASE", KwType::OneValue), ("ORDER", KwType::OneValue), ("OUTPUT_VARIABLE", KwType::OneValue), ("REGEX", KwType::OneValue), ("REPLACE", KwType::MultiValue), ("AT", KwType::MultiValue), ("FOR", KwType::MultiValue)];
    proof {
        lemma_kws_model(r, 0);
        assert(kws_model(r, 0) =~= list_kw_model());
    }
    r
}

pub open spec fn list_replace_sec_sub_model() -> Seq<(Seq<char>, KwModel)> {
    seq![("REGEX"@, KwModel::OneValue)]
}

fn list_replace_sec_sub() -> (r: Vec<(&'static str, KwType)>)
    ensures
        kws_model(r, 0) == list_replace_sec_sub_model(),
{
    
    let r = vec![("REGEX", KwType::OneValue)];
    proof {
        lemma_kws_model(r, 0);
        assert(kws_model(r, 0) =~= list_replace_sec_sub_model());
    }
    r
}

pub open spec fn list_sections_model() -> Seq<(Seq<char>, nat, Seq<(Seq<char>, KwModel)>)> {
    seq![("REPLACE"@, 0, list_replace_sec_sub_model())]
}

fn list_sections() -> (r: Vec<(&'static str, usize, Vec<(&'static str, KwType)>)>)
    ensures
        secs_model(r, 0) == list_sections_model(),
{
    let g0 = list_replace_sec_sub();
    let s0 = g0;
    proof {
        lemma_kws_model(s0, 0);
        assert(kws_model(s0, 0) =~= list_replace_sec_sub_model());
    }
    let r = vec![("REPLACE", 0, s0)];
    proof {
        lemma_secs_model(r, 0);
        assert(secs_model(r, 0) =~= list_sections_model());
    }
    r
}

pub open spec fn list_spec_model() -> SpecModel {
    SpecModel {
        front_positional: 0,
        back_positional: 0,
        keywords: list_kw_model(),
        sections: list_sections_model(),
        command_line_keywords: Seq::empty(),
        pair_keywords: Seq::empty(),
        property_keywords: Seq::empty(),
        flow_keywords: Seq::empty(),
        flow_positional: false,
        compound_keywords: Seq::empty(),
        once_keywords: Seq::empty(),
    }
}

fn list_spec() -> (r: CommandSpec)
    ensures
        r.model() == list_spec_model(),
{
    let g0 = list_kw();
    let kw = g0;
    let g2 = list_sections();
    let sections = g2;
    let r = CommandSpec {
        front_positional: 0,
        back_positional: 0,
        keywords: kw,
        sections: sections,
        command_line_keywords: Vec::new(),
        pair_keywords: Vec::new(),
        property_keywords: Vec::new(),
        flow_keywords: Vec::new(),
        flow_positional: false,
        compound_keywords: Vec::new(),
        once_keywords: Vec::new(),
    };
    proof {
        lemma_kws_model(r.keywords, 0);
        lemma_secs_model(r.sections, 0);
        let m = list_spec_model();
        assert(strs_model(r.command_line_keywords@) =~= m.command_line_keywords);
        assert(strs_model(r.pair_keywords@) =~= m.pair_keywords);
        assert(strs_model(r.property_keywords@) =~= m.property_keywords);
        assert(strs_model(r.flow_keywords@) =~= m.flow_keywords);
        assert(pairs_model(r.compound_keywords@) =~= m.compound_keywords);
        assert(strs_model(r.once_keywords@) =~= m.once_keywords);
        assert(r.model() == m);
    }
    r
}

pub open spec fn file_kw_model() -> Seq<(Seq<char>, KwModel)> {
    seq![("HEX"@, KwModel::Option), ("NEWLINE_CONSUME"@, KwModel::Option), ("NO_HEX_CONVERSION"@, KwModel::Option), ("CONFIGURE_DEPENDS"@, KwModel::Option), ("FOLLOW_SYMLINKS"@, KwModel::Option), ("NO_SOURCE_PERMISSIONS"@, KwModel::Option), ("USE_SOURCE_PERMISSIONS"@, KwModel::Option), ("FOLLOW_SYMLINK_CHAIN"@, KwModel::Option), ("FILES_MATCHING"@, KwModel::Option), ("EXCLUDE"@, KwModel::Option), ("NO_REPLACE"@, KwModel::Option), ("ONLY_IF_DIFFERENT"@, KwModel::Option), ("COPY_ON_ERROR"@, KwModel::Option), ("SYMBOLIC"@, KwModel::Option), ("VERBOSE"@, KwModel::Option), ("EXPAND_TILDE"@, KwModel::Option), ("LIST_ONLY"@, KwModel::Option), ("SHOW_PROGRESS"@, KwModel::Option), ("DIRECTORY"@, KwModel::Option), ("RELEASE"@, KwModel::Option), ("READ"@, KwModel::OneValue), ("STRINGS"@, KwModel::OneValue), ("TIMESTAMP"@, KwModel::OneValue), ("WRITE"@, KwModel::OneValue), ("APPEND"@, KwModel::OneValue), ("INPUT"@, KwModel::OneValue), ("CONTENT"@, KwModel::OneValue), ("CONDITION"@, KwModel::OneValue), ("NEWLINE_STYLE"@, KwModel::OneValue), ("GLOB"@, KwModel::OneValue), ("GLOB_RECURSE"@, KwModel::OneValue), ("LIST_DIRECTORIES"@, KwModel::OneValue), ("RELATIVE"@, KwModel::OneValue), ("RENAME"@, KwModel::OneValue), ("RESULT"@, KwModel::OneValue), ("COPY_FILE"@, KwModel::OneValue), ("SIZE"@, KwModel::OneValue), ("READ_SYMLINK"@, KwModel::OneValue), ("REAL_PATH"@, KwModel::OneValue), ("RELATIVE_PATH"@, KwModel::Option), ("TO_CMAKE_PATH"@, KwModel::Option), ("TO_NATIVE_PATH"@, KwModel::Option), ("DOWNLOAD"@, KwModel::OneValue), ("UPLOAD"@, KwModel::OneValue), ("LOCK"@, KwModel::OneValue), ("GUARD"@, KwModel::OneValue), ("RESULT_VARIABLE"@, KwModel::OneValue), ("TIMEOUT"@, KwModel::OneValue), ("ENCODING"@, KwModel::OneValue), ("DESTINATION"@, KwModel::OneValue), ("PATTERN"@, KwModel::OneValue), ("REGEX"@, KwModel::OneValue), ("OFFSET"@, KwModel::OneValue), ("LIMIT"@, KwModel::OneValue), ("LENGTH_MAXIMUM"@, KwModel::OneValue), ("LENGTH_MINIMUM"@, KwModel::OneValue), ("LIMIT_COUNT"@, KwModel::OneValue), ("LIMIT_INPUT"@, KwModel::OneValue), ("LIMIT_OUTPUT"@, KwModel::OneValue), ("INACTIVITY_TIMEOUT"@, KwModel::OneValue), ("LOG"@, KwModel::OneValue), ("STATUS"@, KwModel::OneValue), ("USERPWD"@, KwModel::OneValue), ("HTTPHEADER"@, KwModel::OneValue), ("NETRC"@, KwModel::OneValue), ("NETRC_FILE"@, KwModel::OneValue), ("EXPECTED_HASH"@, KwModel::OneValue), ("EXPECTED_MD5"@, KwModel::OneValue), ("TLS_VERIFY"@, KwModel::OneValue), ("TLS_CAINFO"@, KwModel::OneValue), ("RANGE_START"@, KwModel::OneValue), ("RANGE_END"@, KwModel::OneValue), ("TLS_VERSION"@, KwModel::OneValue), ("COMPRESSION"@, KwModel::OneValue), ("COMPRESSION_LEVEL"@, KwModel::OneValue), ("MTIME"@, KwModel::OneValue), ("WORKING_DIRECTORY"@, KwModel::OneValue), ("RESOLVED_DEPENDENCIES_VAR"@, KwModel::OneValue), ("UNRESOLVED_DEPENDENCIES_VAR"@, KwModel::OneValue), ("CONFLICTING_DEPENDENCIES_PREFIX"@, KwModel::OneValue), ("BUNDLE_EXECUTABLE"@, KwModel::OneValue), ("BASE_DIRECTORY"@, KwModel::OneValue), ("TO_CMAKE_PATH_LIST"@, KwModel::OneValue), ("TO_NATIVE_PATH_LIST"@, KwModel::OneValue), ("COPY"@, KwModel::MultiValue), ("INSTALL"@, KwModel::MultiValue), ("FILE_PERMISSIONS"@, KwModel::MultiValue), ("DIRECTORY_PERMISSIONS"@, KwModel::MultiValue), ("PERMISSIONS"@, KwModel::MultiValue), ("CREATE_LINK"@, KwModel::MultiValue), ("CHMOD"@, KwModel::MultiValue), ("CHMOD_RECURSE"@, KwModel::MultiValue), ("MAKE_DIRECTORY"@, KwModel::MultiValue), ("ARCHIVE_CREATE"@, KwModel::MultiValue), ("ARCHIVE_EXTRACT"@, KwModel::MultiValue), ("PATHS"@, KwModel::MultiValue), ("PATTERNS"@, KwModel::MultiValue), ("EXECUTABLES"@, KwModel::MultiValue), ("LIBRARIES"@, KwModel::MultiValue), ("MODULES"@, KwModel::MultiValue), ("DIRECTORIES"@, KwModel::MultiValue), ("PRE_INCLUDE_REGEXES"@, KwModel::MultiValue), ("PRE_EXCLUDE_REGEXES"@, KwModel::MultiValue), ("POST_INCLUDE_REGEXES"@, KwModel::MultiValue), ("POST_EXCLUDE_REGEXES"@, KwModel::MultiValue), ("POST_INCLUDE_FILES"@, KwModel::MultiValue), ("POST_EXCLUDE_FILES"@, KwModel::MultiValue), ("REMOVE"@, KwModel::Option), ("REMOVE_RECURSE"@, KwModel::Option), ("TOUCH"@, KwModel::Option), ("TOUCH_NOCREATE"@, KwModel::Option), ("GET_RUNTIME_DEPENDENCIES"@, KwModel::MultiValue), ("MD5"@, KwModel::OneValue), ("SHA1"@, KwModel::OneValue), ("SHA224"@, KwModel::OneValue), ("SHA256"@, KwModel::OneValue), ("SHA384"@, KwModel::OneValue), ("SHA512"@, KwModel::OneValue), ("SHA3_224"@, KwModel::OneValue), ("SHA3_256"@, KwModel::OneValue), ("SHA3_384"@, KwModel::OneValue), ("SHA3_512"@, KwModel::OneValue), ("GENERATE"@, KwModel::MultiValue)]
}

fn file_kw() -> (r: Vec<(&'static str, KwType)>)
    ensures
        kws_model(r, 0) == file_kw_model(),
{
    
    let r = vec![("HEX", KwType::Option), ("NEWLINE_CONSUME", KwType::Option), ("NO_HEX_CONVERSION", KwType::Option), ("CONFIGURE_DEPENDS", KwType::Option), ("FOLLOW_SYMLINKS", KwType::Option), ("NO_SOURCE_PERMISSIONS", KwType::Option), ("USE_SOURCE_PERMISSIONS", KwType::Option), ("FOLLOW_SYMLINK_CHAIN", KwType::Option), ("FILES_MATCHING", KwType::Option), ("EXCLUDE", KwType::Option), ("NO_REPLACE", KwType::Option), ("ONLY_IF_DIFFERENT", KwType::Option), ("COPY_ON_ERROR", KwType::Option), ("SYMBOLIC", KwType::Option), ("VERBOSE", KwType::Option), ("EXPAND_TILDE", KwType::Option), ("LIST_ONLY", KwType::Option), ("SHOW_PROGRESS", KwType::Option), ("DIRECTORY", KwType::Option), ("RELEASE", KwType::Option), ("READ", KwType::OneValue), ("STRINGS", KwType::OneValue), ("TIMESTAMP", KwType::OneValue), ("WRITE", KwType::OneValue), ("APPEND", KwType::OneValue), ("INPUT", KwType::OneValue), ("CONTENT", KwType::OneValue), ("CONDITION", KwType::OneValue), ("NEWLINE_STYLE", KwType::OneValue), ("GLOB", KwType::OneValue), ("GLOB_RECURSE", KwType::OneValue), ("LIST_DIRECTORIES", KwType::OneValue), ("RELATIVE", KwType::OneValue), ("RENAME", KwType::OneValue), ("RESULT", KwType::OneValue), ("COPY_FILE", KwType::OneValue), ("SIZE", KwType::OneValue), ("READ_SYMLINK", KwType::OneValue), ("REAL_PATH", KwType::OneValue), ("RELATIVE_PATH", KwType::Option), ("TO_CMAKE_PATH", KwType::Option), ("TO_NATIVE_PATH", KwType::Option), ("DOWNLOAD", KwType::OneValue), ("UPLOAD", KwType::OneValue), ("LOCK", KwType::OneValue), ("GUARD", KwType::OneValue), ("RESULT_VARIABLE", KwType::OneValue), ("TIMEOUT", KwType::OneValue), ("ENCODING", KwType::OneValue), ("DESTINATION", KwType::OneValue), ("PATTERN", KwType::OneValue), ("REGEX", KwType::OneValue), ("OFFSET", KwType::OneValue), ("LIMIT", KwType::OneValue), ("LENGTH_MAXIMUM", KwType::OneValue), ("LENGTH_MINIMUM", KwType::OneValue), ("LIMIT_COUNT", KwType::OneValue), ("LIMIT_INPUT", KwType::OneValue), ("LIMIT_OUTPUT", KwType::OneValue), ("INACTIVITY_TIMEOUT", KwType::OneValue), ("LOG", KwType::OneValue), ("STATUS", KwType::OneValue), ("USERPWD", KwType::OneValue), ("HTTPHEADER", KwType::OneValue), ("NETRC", KwType::OneValue), ("NETRC_FILE", KwType::OneValue), ("EXPECTED_HASH", KwType::OneValue), ("EXPECTED_MD5", KwType::OneValue), ("TLS_VERIFY", KwType::OneValue), ("TLS_CAINFO", KwType::OneValue), ("RANGE_START", KwType::OneValue), ("RANGE_END", KwType::OneValue), ("TLS_VERSION", KwType::OneValue), ("COMPRESSION", KwType::OneValue), ("COMPRESSION_LEVEL", KwType::OneValue), ("MTIME", KwType::OneValue), ("WORKING_DIRECTORY", KwType::OneValue), ("RESOLVED_DEPENDENCIES_VAR", KwType::OneValue), ("UNRESOLVED_DEPENDENCIES_VAR", KwType::OneValue), ("CONFLICTING_DEPENDENCIES_PREFIX", KwType::OneValue), ("BUNDLE_EXECUTABLE", KwType::OneValue), ("BASE_DIRECTORY", KwType::OneValue), ("TO_CMAKE_PATH_LIST", KwType::OneValue), ("TO_NATIVE_PATH_LIST", KwType::OneValue), ("COPY", KwType::MultiValue), ("INSTALL", KwType::MultiValue), ("FILE_PERMISSIONS", KwType::MultiValue), ("DIRECTORY_PERMISSIONS", KwType::MultiValue), ("PERMISSIONS", KwType::MultiValue), ("CREATE_LINK", KwType::MultiValue), ("CHMOD", KwType::MultiValue), ("CHMOD_RECURSE", KwType::MultiValue), ("MAKE_DIRECTORY", KwType::MultiValue), ("ARCHIVE_CREATE", KwType::MultiValue), ("ARCHIVE_EXTRACT", KwType::MultiValue), ("PATHS", KwType::MultiValue), ("PATTERNS", KwType::MultiValue), ("EXECUTABLES", KwType::MultiValue), ("LIBRARIES", KwType::MultiValue), ("MODULES", KwType::MultiValue), ("DIRECTORIES", KwType::MultiValue), ("PRE_INCLUDE_REGEXES", KwType::MultiValue), ("PRE_EXCLUDE_REGEXES", KwType::MultiValue), ("POST_INCLUDE_REGEXES", KwType::MultiValue), ("POST_EXCLUDE_REGEXES", KwType::MultiValue), ("POST_INCLUDE_FILES", KwType::MultiValue), ("POST_EXCLUDE_FILES", KwType::MultiValue), ("REMOVE", KwType::Option), ("REMOVE_RECURSE", KwType::Option), ("TOUCH", KwType::Option), ("TOUCH_NOCREATE", KwType::Option), ("GET_RUNTIME_DEPENDENCIES", KwType::MultiValue), ("MD5", KwType::OneValue), ("SHA1", KwType::OneValue), ("SHA224", KwType::OneValue), ("SHA256", KwType::OneValue), ("SHA384", KwType::OneValue), ("SHA512", KwType::OneValue), ("SHA3_224", KwType::OneValue), ("SHA3_256", KwType::OneValue), ("SHA3_384", KwType::OneValue), ("SHA3_512", KwType::OneValue), ("GENERATE", KwType::MultiValue)];
    proof {
        lemma_kws_model(r, 0);
        assert(kws_model(r, 0) =~= file_kw_model());
    }
    r
}

pub open spec fn file_spec_model() -> SpecModel {
    SpecModel {
        front_positional: 0,
        back_positional: 0,
        keywords: file_kw_model(),
        sections: Seq::empty(),
        command_line_keywords: Seq::empty(),
        pair_keywords: Seq::empty(),
        property_keywords: Seq::empty(),
        flow_keywords: Seq::empty(),
        flow_positional: false,
        compound_keywords: seq![("GENERATE"@, "OUTPUT"@)],
        once_keywords: seq!["GLOB"@, "GLOB_RECURSE"@],
    }
}

fn file_spec() -> (r: CommandSpec)
    ensures
        r.model() == file_spec_model(),
{
    let g0 = file_kw();
    let kw = g0;
    let sections = Vec::new();
    let r = CommandSpec {
        front_positional: 0,
        back_positional: 0,
        keywords: kw,
        sections: sections,
        command_line_keywords: Vec::new(),
        pair_keywords: Vec::new(),
        property_keywords: Vec::new(),
        flow_keywords: Vec::new(),
        flow_positional: false,
        compound_keywords: vec![("GENERATE", "OUTPUT")],
        once_keywords: vec!["GLOB", "GLOB_RECURSE"],
    };
    proof {
        lemma_kws_model(r.keywords, 0);
        lemma_secs_model(r.sections, 0);
        let m = file_spec_model();
        assert(strs_model(r.command_line_keywords@) =~= m.command_line_keywords);
        assert(strs_model(r.pair_keywords@) =~= m.pair_keywords);
        assert(strs_model(r.property_keywords@) =~= m.property_keywords);
        assert(strs_model(r.flow_keywords@) =~= m.flow_keywords);
        assert(pairs_model(r.compound_keywords@) =~= m.compound_keywords);
        assert(strs_model(r.once_keywords@) =~= m.once_keywords);
        assert(r.model() == m);
    }
    r
}

pub open spec fn install_kw_model() -> Seq<(Seq<char>, KwModel)> {
    seq![("OPTIONAL"@, KwModel::Option), ("EXCLUDE_FROM_ALL"@, KwModel::Option), ("NAMELINK_ONLY"@, KwModel::Option), ("NAMELINK_SKIP"@, KwModel::Option), ("USE_SOURCE_PERMISSIONS"@, KwModel::Option), ("MESSAGE_NEVER"@, KwModel::Option), ("FILES_MATCHING"@, KwModel::Option), ("EXCLUDE_EMPTY_DIRECTORIES"@, KwModel::Option), ("EXPORT_LINK_INTERFACE_LIBRARIES"@, KwModel::Option), ("EXPORT_PACKAGE_DEPENDENCIES"@, KwModel::Option), ("ALL_COMPONENTS"@, KwModel::Option), ("LOWER_CASE_FILE"@, KwModel::Option), ("TYPE"@, KwModel::OneValue), ("DESTINATION"@, KwModel::OneValue), ("COMPONENT"@, KwModel::OneValue), ("NAMELINK_COMPONENT"@, KwModel::OneValue), ("EXPORT"@, KwModel::OneValue), ("RUNTIME_DEPENDENCY_SET"@, KwModel::OneValue), ("RENAME"@, KwModel::OneValue), ("SCRIPT"@, KwModel::OneValue), ("CODE"@, KwModel::OneValue), ("NAMESPACE"@, KwModel::OneValue), ("FILE"@, KwModel::OneValue), ("PACKAGE_INFO"@, KwModel::OneValue), ("APPENDIX"@, KwModel::OneValue), ("DEFAULT_LICENSE"@, KwModel::OneValue), ("LICENSE"@, KwModel::OneValue), ("DESCRIPTION"@, KwModel::OneValue), ("HOMEPAGE_URL"@, KwModel::OneValue), ("PROJECT"@, KwModel::OneValue), ("TARGETS"@, KwModel::MultiValue), ("FILES"@, KwModel::MultiValue), ("PROGRAMS"@, KwModel::MultiValue), ("DIRECTORY"@, KwModel::MultiValue), ("PERMISSIONS"@, KwModel::MultiValue), ("CONFIGURATIONS"@, KwModel::MultiValue), ("ARCHIVE"@, KwModel::MultiValue), ("LIBRARY"@, KwModel::MultiValue), ("RUNTIME"@, KwModel::MultiValue), ("OBJECTS"@, KwModel::MultiValue), ("FRAMEWORK"@, KwModel::MultiValue), ("BUNDLE"@, KwModel::MultiValue), ("PUBLIC_HEADER"@, KwModel::MultiValue), ("PRIVATE_HEADER"@, KwModel::MultiValue), ("RESOURCE"@, KwModel::MultiValue), ("CXX_MODULES_BMI"@, KwModel::MultiValue), ("FILE_SET"@, KwModel::MultiValue), ("INCLUDES"@, KwModel::MultiValue), ("EXPORT_ANDROID_MK"@, KwModel::MultiValue), ("IMPORTED_RUNTIME_ARTIFACTS"@, KwModel::MultiValue), ("RUNTIME_DEPENDENCIES"@, KwModel::MultiValue), ("FILE_PERMISSIONS"@, KwModel::MultiValue), ("DIRECTORY_PERMISSIONS"@, KwModel::MultiValue), ("DEFAULT_TARGETS"@, KwModel::MultiValue), ("DEFAULT_CONFIGURATIONS"@, KwModel::MultiValue), ("PATTERN"@, KwModel::MultiValue), ("REGEX"@, KwModel::MultiValue), ("VERSION"@, KwModel::MultiValue), ("COMPAT_VERSION"@, KwModel::MultiValue), ("VERSION_SCHEMA"@, KwModel::MultiValue)]
}

fn install_kw() -> (r: Vec<(&'static str, KwType)>)
    ensures
        kws_model(r, 0) == install_kw_model(),
{
    
    let r = vec![("OPTIONAL", KwType::Option), ("EXCLUDE_FROM_ALL", KwType::Option), ("NAMELINK_ONLY", KwType::Option), ("NAMELINK_SKIP", KwType::Option), ("USE_SOURCE_PERMISSIONS", KwType::Option), ("MESSAGE_NEVER", KwType::Option), ("FILES_MATCHING", KwType::Option), ("EXCLUDE_EMPTY_DIRECTORIES", KwType::Option), ("EXPORT_LINK_INTERFACE_LIBRARIES", KwType::Option), ("EXPORT_PACKAGE_DEPENDENCIES", KwType::Option), ("ALL_COMPONENTS", KwType::Option), ("LOWER_CASE_FILE", KwType::Option), ("TYPE", KwType::OneValue), ("DESTINATION", KwType::OneValue), ("COMPONENT", KwType::OneValue), ("NAMELINK_COMPONENT", KwType::OneValue), ("EXPORT", KwType::OneValue), ("RUNTIME_DEPENDENCY_SET", KwType::OneValue), ("RENAME", KwType::OneValue), ("SCRIPT", KwType::OneValue), ("CODE", KwType::OneValue), ("NAMESPACE", KwType::OneValue), ("FILE", KwType::OneValue), ("PACKAGE_INFO", KwType::OneValue), ("APPENDIX", KwType::OneValue), ("DEFAULT_LICENSE", KwType::OneValue), ("LICENSE", KwType::OneValue), ("DESCRIPTION", KwType::OneValue), ("HOMEPAGE_URL", KwType::OneValue), ("PROJECT", KwType::OneValue), ("TARGETS", KwType::MultiValue), ("FILES", KwType::MultiValue), ("PROGRAMS", KwType::MultiValue), ("DIRECTORY", KwType::MultiValue), ("PERMISSIONS", KwType::MultiValue), ("CONFIGURATIONS", KwType::MultiValue), ("ARCHIVE", KwType::MultiValue), ("LIBRARY", KwType::MultiValue), ("RUNTIME", KwType::MultiValue), ("OBJECTS", KwType::MultiValue), ("FRAMEWORK", KwType::MultiValue), ("BUNDLE", KwType::MultiValue), ("PUBLIC_HEADER", KwType::MultiValue), ("PRIVATE_HEADER", KwType::MultiValue), ("RESOURCE", KwType::MultiValue), ("CXX_MODULES_BMI", KwType::MultiValue), ("FILE_SET", KwType::MultiValue), ("INCLUDES", KwType::MultiValue), ("EXPORT_ANDROID_MK", KwType::MultiValue), ("IMPORTED_RUNTIME_ARTIFACTS", KwType::MultiValue), ("RUNTIME_DEPENDENCIES", KwType::MultiValue), ("FILE_PERMISSIONS", KwType::MultiValue), ("DIRECTORY_PERMISSIONS", KwType::MultiValue), ("DEFAULT_TARGETS", KwType::MultiValue), ("DEFAULT_CONFIGURATIONS", KwType::MultiValue), ("PATTERN", KwType::MultiValue), ("REGEX", KwType::MultiValue), ("VERSION", KwType::MultiValue), ("COMPAT_VERSION", KwType::MultiValue), ("VERSION_SCHEMA", KwType::MultiValue)];
    proof {
        lemma_kws_model(r, 0);
        assert(kws_model(r, 0) =~= install_kw_model());
    }
    r
}

pub open spec fn install_artifact_sec_sub_model() -> Seq<(Seq<char>, KwModel)> {
    seq![("DESTINATION"@, KwModel::OneValue), ("COMPONENT"@, KwModel::OneValue), ("NAMELINK_COMPONENT"@, KwModel::OneValue), ("OPTIONAL"@, KwModel::Option), ("EXCLUDE_FROM_ALL"@, KwModel::Option), ("NAMELINK_ONLY"@, KwModel::Option), ("NAMELINK_SKIP"@, KwModel::Option), ("PERMISSIONS"@, KwModel::MultiValue), ("CONFIGURATIONS"@, KwModel::MultiValue)]
}

fn install_artifact_sec_sub() -> (r: Vec<(&'static str, KwType)>)
    ensures
        kws_model(r, 0) == install_artifact_sec_sub_model(),
{
    
    let r = vec![("DESTINATION", KwType::OneValue), ("COMPONENT", KwType::OneValue), ("NAMELINK_COMPONENT", KwType::OneValue), ("OPTIONAL", KwType::Option), ("EXCLUDE_FROM_ALL", KwType::Option), ("NAMELINK_ONLY", KwType::Option), ("NAMELINK_SKIP", KwType::Option), ("PERMISSIONS", KwType::MultiValue), ("CONFIGURATIONS", KwType::MultiValue)];
    proof {
        lemma_kws_model(r, 0);
        assert(kws_model(r, 0) =~= install_artifact_sec_sub_model());
    }
    r
}

pub open spec fn install_pattern_sec_sub_model() -> Seq<(Seq<char>, KwModel)> {
    seq![("EXCLUDE"@, KwModel::Option), ("PERMISSIONS"@, KwModel::MultiValue)]
}

fn install_pattern_sec_sub() -> (r: Vec<(&'static str, KwType)>)
    ensures
        kws_model(r, 0) == install_pattern_sec_sub_model(),
{
    
    let r = vec![("EXCLUDE", KwType::Option), ("PERMISSIONS", KwType::MultiValue)];
    proof {
        lemma_kws_model(r, 0);
        assert(kws_model(r, 0) =~= install_pattern_sec_sub_model());
    }
    r
}

pub open spec fn install_version_sec_sub_model() -> Seq<(Seq<char>, KwModel)> {
    seq![("COMPAT_VERSION"@, KwModel::OneValue), ("VERSION_SCHEMA"@, KwModel::OneValue)]
}

fn install_version_sec_sub() -> (r: Vec<(&'static str, KwType)>)
    ensures
        kws_model(r, 0) == install_version_sec_sub_model(),
{
    
    let r = vec![("COMPAT_VERSION", KwType::OneValue), ("VERSION_SCHEMA", KwType::OneValue)];
    proof {
        lemma_kws_model(r, 0);
        assert(kws_model(r, 0) =~= install_version_sec_sub_model());
    }
    r
}

pub open spec fn install_sections_model() -> Seq<(Seq<char>, nat, Seq<(Seq<char>, KwModel)>)> {
    seq![("ARCHIVE"@, 0, install_artifact_sec_sub_model()), ("LIBRARY"@, 0, install_artifact_sec_sub_model()), ("RUNTIME"@, 0, install_artifact_sec_sub_model()), ("OBJECTS"@, 0, install_artifact_sec_sub_model()), ("FRAMEWORK"@, 0, install_artifact_sec_sub_model()), ("BUNDLE"@, 0, install_artifact_sec_sub_model()), ("PUBLIC_HEADER"@, 0, install_artifact_sec_sub_model()), ("PRIVATE_HEADER"@, 0, install_artifact_sec_sub_model()), ("RESOURCE"@, 0, install_artifact_sec_sub_model()), ("FILE_SET"@, 1, install_artifact_sec_sub_model()), ("PATTERN"@, 1, install_pattern_sec_sub_model()), ("REGEX"@, 1, install_pattern_sec_sub_model()), ("VERSION"@, 1, install_version_sec_sub_model())]
}

fn install_sections() -> (r: Vec<(&'static str, usize, Vec<(&'static str, KwType)>)>)
    ensures
        secs_model(r, 0) == install_sections_model(),
{
    let g0 = install_artifact_sec_sub();
    let s0 = g0;
    proof {
        lemma_kws_model(s0, 0);
        assert(kws_model(s0, 0) =~= install_artifact_sec_sub_model());
    }
    let g3 = install_artifact_sec_sub();
    let s3 = g3;
    proof {
        lemma_kws_model(s3, 0);
        assert(kws_model(s3, 0) =~= install_artifact_sec_sub_model());
    }
    let g6 = install_artifact_sec_sub();
    let s6 = g6;
    proof {
        lemma_kws_model(s6, 0);
        assert(kws_model(s6, 0) =~= install_artifact_sec_sub_model());
    }
    let g9 = install_artifact_sec_sub();
    let s9 = g9;
    proof {
        lemma_kws_model(s9, 0);
        assert(kws_model(s9, 0) =~= install_artifact_sec_sub_model());
    }
    let g12 = install_artifact_sec_sub();
    let s12 = g12;
    proof {
        lemma_kws_model(s12, 0);
        assert(kws_model(s12, 0) =~= install_artifact_sec_sub_model());
    }
    let g15 = install_artifact_sec_sub();
    let s15 = g15;
    proof {
        lemma_kws_model(s15, 0);
        assert(kws_model(s15, 0) =~= install_artifact_sec_sub_model());
    }
    let g18 = install_artifact_sec_sub();
    let s18 = g18;
    proof {
        lemma_kws_model(s18, 0);
        assert(kws_model(s18, 0) =~= install_artifact_sec_sub_model());
    }
    let g21 = install_artifact_sec_sub();
    let s21 = g21;
    proof {
        lemma_kws_model(s21, 0);
        assert(kws_model(s21, 0) =~= install_artifact_sec_sub_model());
    }
    let g24 = install_artifact_sec_sub();
    let s24 = g24;
    proof {
        lemma_kws_model(s24, 0);
        assert(kws_model(s24, 0) =~= install_artifact_sec_sub_model());
    }
    let g27 = install_artifact_sec_sub();
    let s27 = g27;
    proof {
        lemma_kws_model(s27, 0);
        assert(kws_model(s27, 0) =~= install_artifact_sec_sub_model());
    }
    let g30 = install_pattern_sec_sub();
    let s30 = g30;
    proof {
        lemma_kws_model(s30, 0);
        assert(kws_model(s30, 0) =~= install_pattern_sec_sub_model());
    }
    let g33 = install_pattern_sec_sub();
    let s33 = g33;
    proof {
        lemma_kws_model(s33, 0);
        assert(kws_model(s33, 0) =~= install_pattern_sec_sub_model());
    }
    let g36 = install_version_sec_sub();
    let s36 = g36;
    proof {
        lemma_kws_model(s36, 0);
        assert(kws_model(s36, 0) =~= install_version_sec_sub_model());
    }
    let r = vec![("ARCHIVE", 0, s0), ("LIBRARY", 0, s3), ("RUNTIME", 0, s6), ("OBJECTS", 0, s9), ("FRAMEWORK", 0, s12), ("BUNDLE", 0, s15), ("PUBLIC_HEADER", 0, s18), ("PRIVATE_HEADER", 0, s21), ("RESOURCE", 0, s24), ("FILE_SET", 1, s27), ("PATTERN", 1, s30), ("REGEX", 1, s33), ("VERSION", 1, s36)];
    proof {
        lemma_secs_model(r, 0);
        assert(secs_model(r, 0) =~= install_sections_model());
    }
    r
}

pub open spec fn install_spec_model() -> SpecModel {
    SpecModel {
        front_positional: 0,
        back_positional: 0,
        keywords: install_kw_model(),
        sections: install_sections_model(),
        command_line_keywords: Seq::empty(),
        pair_keywords: Seq::empty(),
        property_keywords: Seq::empty(),
        flow_keywords: Seq::empty(),
        flow_positional: false,
        compound_keywords: seq![("INCLUDES"@, "DESTINATION"@)],
        once_keywords: Seq::empty(),
    }
}

fn install_spec() -> (r: CommandSpec)
    ensures
        r.model() == install_spec_model(),
{
    let g0 = install_kw();
    let kw = g0;
    let g2 = install_sections();
    let sections = g2;
    let r = CommandSpec {
        front_positional: 0,
        back_positional: 0,
        keywords: kw,
        sections: sections,
        command_line_keywords: Vec::new(),
        pair_keywords: Vec::new(),
        property_keywords: Vec::new(),
        flow_keywords: Vec::new(),
        flow_positional: false,
        compound_keywords: vec![("INCLUDES", "DESTINATION")],
        once_keywords: Vec::new(),
    };
    proof {
        lemma_kws_model(r.keywords, 0);
        lemma_secs_model(r.sections, 0);
        let m = install_spec_model();
        assert(strs_model(r.command_line_keywords@) =~= m.command_line_keywords);
        assert(strs_model(r.pair_keywords@) =~= m.pair_keywords);
        assert(strs_model(r.property_keywords@) =~= m.property_keywords);
        assert(strs_model(r.flow_keywords@) =~= m.flow_keywords);
        assert(pairs_model(r.compound_keywords@) =~= m.compound_keywords);
        assert(strs_model(r.once_keywords@) =~= m.once_keywords);
        assert(r.model() == m);
    }
    r
}

pub open spec fn add_custom_command_kw_model() -> Seq<(Seq<char>, KwModel)> {
    seq![("VERBATIM"@, KwModel::Option), ("APPEND"@, KwModel::Option), ("USES_TERMINAL"@, KwModel::Option), ("COMMAND_EXPAND_LISTS"@, KwModel::Option), ("DEPENDS_EXPLICIT_ONLY"@, KwModel::Option), ("CODEGEN"@, KwModel::Option), ("PRE_BUILD"@, KwModel::Option), ("PRE_LINK"@, KwModel::Option), ("POST_BUILD"@, KwModel::Option), ("TARGET"@, KwModel::OneValue), ("MAIN_DEPENDENCY"@, KwModel::OneValue), ("WORKING_DIRECTORY"@, KwModel::OneValue), ("COMMENT"@, KwModel::OneValue), ("DEPFILE"@, KwModel::OneValue), ("JOB_POOL"@, KwModel::OneValue), ("JOB_SERVER_AWARE"@, KwModel::OneValue), ("OUTPUT"@, KwModel::MultiValue), ("COMMAND"@, KwModel::MultiValue), ("ARGS"@, KwModel::MultiValue), ("DEPENDS"@, KwModel::MultiValue), ("BYPRODUCTS"@, KwModel::MultiValue), ("IMPLICIT_DEPENDS"@, KwModel::MultiValue)]
}

fn add_custom_command_kw() -> (r: Vec<(&'static str, KwType)>)
    ensures
        kws_model(r, 0) == add_custom_command_kw_model(),
{
    
    let r = vec![("VERBATIM", KwType::Option), ("APPEND", KwType::Option), ("USES_TERMINAL", KwType::Option), ("COMMAND_EXPAND_LISTS", KwType::Option), ("DEPENDS_EXPLICIT_ONLY", KwType::Option), ("CODEGEN", KwType::Option), ("PRE_BUILD", KwType::Option), ("PRE_LINK", KwType::Option), ("POST_BUILD", KwType::Option), ("TARGET", KwType::OneValue), ("MAIN_DEPENDENCY", KwType::OneValue), ("WORKING_DIRECTORY", KwType::OneValue), ("COMMENT", KwType::OneValue), ("DEPFILE", KwType::OneValue), ("JOB_POOL", KwType::OneValue), ("JOB_SERVER_AWARE", KwType::OneValue), ("OUTPUT", KwType::MultiValue), ("COMMAND", KwType::MultiValue), ("ARGS", KwType::MultiValue), ("DEPENDS", KwType::MultiValue), ("BYPRODUCTS", KwType::MultiValue), ("IMPLICIT_DEPENDS", KwType::MultiValue)];
    proof {
        lemma_kws_model(r, 0);
        assert(kws_model(r, 0) =~= add_custom_command_kw_model());
    }
    r
}

pub open spec fn add_custom_command_spec_model() -> SpecModel {
    SpecModel {
        front_positional: 0,
        back_positional: 0,
        keywords: add_custom_command_kw_model(),
        sections: Seq::empty(),
        command_line_keywords: Seq::empty(),
        pair_keywords: seq!["IMPLICIT_DEPENDS"@],
        property_keywords: Seq::empty(),
        flow_keywords: seq!["COMMAND"@, "ARGS"@],
        flow_positional: false,
        compound_keywords: Seq::empty(),
        once_keywords: Seq::empty(),
    }
}

fn add_custom_command_spec() -> (r: CommandSpec)
    ensures
        r.model() == add_custom_command_spec_model(),
{
    let g0 = add_custom_command_kw();
    let kw = g0;
    let sections = Vec::new();
    let r = CommandSpec {
        front_positional: 0,
        back_positional: 0,
        keywords: kw,
        sections: sections,
        command_line_keywords: Vec::new(),
        pair_keywords: vec!["IMPLICIT_DEPENDS"],
        property_keywords: Vec::new(),
        flow_keywords: vec!["COMMAND", "ARGS"],
        flow_positional: false,
        compound_keywords: Vec::new(),
        once_keywords: Vec::new(),
    };
    proof {
        lemma_kws_model(r.keywords, 0);
        lemma_secs_model(r.sections, 0);
        let m = add_custom_command_spec_model();
        assert(strs_model(r.command_line_keywords@) =~= m.command_line_keywords);
        assert(strs_model(r.pair_keywords@) =~= m.pair_keywords);
        assert(strs_model(r.property_keywords@) =~= m.property_keywords);
        assert(strs_model(r.flow_keywords@) =~= m.flow_keywords);
        assert(pairs_model(r.compound_keywords@) =~= m.compound_keywords);
        assert(strs_model(r.once_keywords@) =~= m.once_keywords);
        assert(r.model() == m);
    }
    r
}

pub open spec fn add_custom_target_kw_model() -> Seq<(Seq<char>, KwModel)> {
    seq![("ALL"@, KwModel::Option), ("VERBATIM"@, KwModel::Option), ("USES_TERMINAL"@, KwModel::Option), ("COMMAND_EXPAND_LISTS"@, KwModel::Option), ("WORKING_DIRECTORY"@, KwModel::OneValue), ("COMMENT"@, KwModel::OneValue), ("JOB_POOL"@, KwModel::OneValue), ("JOB_SERVER_AWARE"@, KwModel::OneValue), ("COMMAND"@, KwModel::MultiValue), ("DEPENDS"@, KwModel::MultiValue), ("BYPRODUCTS"@, KwModel::MultiValue), ("SOURCES"@, KwModel::MultiValue)]
}

fn add_custom_target_kw() -> (r: Vec<(&'static str, KwType)>)
    ensures
        kws_model(r, 0) == add_custom_target_kw_model(),
{
    
    let r = vec![("ALL", KwType::Option), ("VERBATIM", KwType::Option), ("USES_TERMINAL", KwType::Option), ("COMMAND_EXPAND_LISTS", KwType::Option), ("WORKING_DIRECTORY", KwType::OneValue), ("COMMENT", KwType::OneValue), ("JOB_POOL", KwType::OneValue), ("JOB_SERVER_AWARE", KwType::OneValue), ("COMMAND", KwType::MultiValue), ("DEPENDS", KwType::MultiValue), ("BYPRODUCTS", KwType::MultiValue), ("SOURCES", KwType::MultiValue)];
    proof {
        lemma_kws_model(r, 0);
        assert(kws_model(r, 0) =~= add_custom_target_kw_model());
    }
    r
}

pub open spec fn add_custom_target_spec_model() -> SpecModel {
    SpecModel {
        front_positional: 1,
        back_positional: 0,
        keywords: add_custom_target_kw_model(),
        sections: Seq::empty(),
        command_line_keywords: Seq::empty(),
        pair_keywords: Seq::empty(),
        property_keywords: Seq::empty(),
        flow_keywords: seq!["COMMAND"@],
        flow_positional: true,
        compound_keywords: Seq::empty(),
        once_keywords: Seq::empty(),
    }
}

fn add_custom_target_spec() -> (r: CommandSpec)
    ensures
        r.model() == add_custom_target_spec_model(),
{
    let g0 = add_custom_target_kw();
    let kw = g0;
    let sections = Vec::new();
    let r = CommandSpec {
        front_positional: 1,
        back_positional: 0,
        keywords: kw,
        sections: sections,
        command_line_keywords: Vec::new(),
        pair_keywords: Vec::new(),
        property_keywords: Vec::new(),
        flow_keywords: vec!["COMMAND"],
        flow_positional: true,
        compound_keywords: Vec::new(),
        once_keywords: Vec::new(),
    };
    proof {
        lemma_kws_model(r.keywords, 0);
        lemma_secs_model(r.sections, 0);
        let m = add_custom_target_spec_model();
        assert(strs_model(r.command_line_keywords@) =~= m.command_line_keywords);
        assert(strs_model(r.pair_keywords@) =~= m.pair_keywords);
        assert(strs_model(r.property_keywords@) =~= m.property_keywords);
        assert(strs_model(r.flow_keywords@) =~= m.flow_keywords);
        assert(pairs_model(r.compound_keywords@) =~= m.compound_keywords);
        assert(strs_model(r.once_keywords@) =~= m.once_keywords);
        assert(r.model() == m);
    }
    r
}

pub open spec fn try_compile_kw_model() -> Seq<(Seq<char>, KwModel)> {
    seq![("NO_CACHE"@, KwModel::Option), ("NO_LOG"@, KwModel::Option), ("OUTPUT_VARIABLE"@, KwModel::OneValue), ("COPY_FILE"@, KwModel::OneValue), ("COPY_FILE_ERROR"@, KwModel::OneValue), ("C_STANDARD"@, KwModel::OneValue), ("C_STANDARD_REQUIRED"@, KwModel::OneValue), ("C_EXTENSIONS"@, KwModel::OneValue), ("CXX_STANDARD"@, KwModel::OneValue), ("CXX_STANDARD_REQUIRED"@, KwModel::OneValue), ("CXX_EXTENSIONS"@, KwModel::OneValue), ("OBJC_STANDARD"@, KwModel::OneValue), ("OBJC_STANDARD_REQUIRED"@, KwModel::OneValue), ("OBJC_EXTENSIONS"@, KwModel::OneValue), ("OBJCXX_STANDARD"@, KwModel::OneValue), ("OBJCXX_STANDARD_REQUIRED"@, KwModel::OneValue), ("OBJCXX_EXTENSIONS"@, KwModel::OneValue), ("CUDA_STANDARD"@, KwModel::OneValue), ("CUDA_STANDARD_REQUIRED"@, KwModel::OneValue), ("CUDA_EXTENSIONS"@, KwModel::OneValue), ("PROJECT"@, KwModel::OneValue), ("SOURCE_DIR"@, KwModel::OneValue), ("BINARY_DIR"@, KwModel::OneValue), ("TARGET"@, KwModel::OneValue), ("LOG_DESCRIPTION"@, KwModel::OneValue), ("SOURCES_TYPE"@, KwModel::OneValue), ("LINKER_LANGUAGE"@, KwModel::OneValue), ("SOURCES"@, KwModel::MultiValue), ("CMAKE_FLAGS"@, KwModel::MultiValue), ("COMPILE_DEFINITIONS"@, KwModel::MultiValue), ("LINK_OPTIONS"@, KwModel::MultiValue), ("LINK_LIBRARIES"@, KwModel::MultiValue), ("SOURCE_FROM_CONTENT"@, KwModel::MultiValue), ("SOURCE_FROM_VAR"@, KwModel::MultiValue), ("SOURCE_FROM_FILE"@, KwModel::MultiValue)]
}

fn try_compile_kw() -> (r: Vec<(&'static str, KwType)>)
    ensures
        kws_model(r, 0) == try_compile_kw_model(),
{
    
    let r = vec![("NO_CACHE", KwType::Option), ("NO_LOG", KwType::Option), ("OUTPUT_VARIABLE", KwType::OneValue), ("COPY_FILE", KwType::OneValue), ("COPY_FILE_ERROR", KwType::OneValue), ("C_STANDARD", KwType::OneValue), ("C_STANDARD_REQUIRED", KwType::OneValue), ("C_EXTENSIONS", KwType::OneValue), ("CXX_STANDARD", KwType::OneValue), ("CXX_STANDARD_REQUIRED", KwType::OneValue), ("CXX_EXTENSIONS", KwType::OneValue), ("OBJC_STANDARD", KwType::OneValue), ("OBJC_STANDARD_REQUIRED", KwType::OneValue), ("OBJC_EXTENSIONS", KwType::OneValue), ("OBJCXX_STANDARD", KwType::OneValue), ("OBJCXX_STANDARD_REQUIRED", KwType::OneValue), ("OBJCXX_EXTENSIONS", KwType::OneValue), ("CUDA_STANDARD", KwType::OneValue), ("CUDA_STANDARD_REQUIRED", KwType::OneValue), ("CUDA_EXTENSIONS", KwType::OneValue), ("PROJECT", KwType::OneValue), ("SOURCE_DIR", KwType::OneValue), ("BINARY_DIR", KwType::OneValue), ("TARGET", KwType::OneValue), ("LOG_DESCRIPTION", KwType::OneValue), ("SOURCES_TYPE", KwType::OneValue), ("LINKER_LANGUAGE", KwType::OneValue), ("SOURCES", KwType::MultiValue), ("CMAKE_FLAGS", KwType::MultiValue), ("COMPILE_DEFINITIONS", KwType::MultiValue), ("LINK_OPTIONS", KwType::MultiValue), ("LINK_LIBRARIES", KwType::MultiValue), ("SOURCE_FROM_CONTENT", KwType::MultiValue), ("SOURCE_FROM_VAR", KwType::MultiValue), ("SOURCE_FROM_FILE", KwType::MultiValue)];
    proof {
        lemma_kws_model(r, 0);
        assert(kws_model(r, 0) =~= try_compile_kw_model());
    }
    r
}

pub open spec fn try_compile_spec_model() -> SpecModel {
    SpecModel {
        front_positional: 5,
        back_positional: 0,
        keywords: try_compile_kw_model(),
        sections: Seq::empty(),
        command_line_keywords: Seq::empty(),
        pair_keywords: Seq::empty(),
        property_keywords: Seq::empty(),
        flow_keywords: Seq::empty(),
        flow_positional: false,
        compound_keywords: Seq::empty(),
        once_keywords: Seq::empty(),
    }
}

fn try_compile_spec() -> (r: CommandSpec)
    ensures
        r.model() == try_compile_spec_model(),
{
    let g0 = try_compile_kw();
    let kw = g0;
    let sections = Vec::new();
    let r = CommandSpec {
        front_positional: 5,
        back_positional: 0,
        keywords: kw,
        sections: sections,
        command_line_keywords: Vec::new(),
        pair_keywords: Vec::new(),
        property_keywords: Vec::new(),
        flow_keywords: Vec::new(),
        flow_positional: false,
        compound_keywords: Vec::new(),
        once_keywords: Vec::new(),
    };
    proof {
        lemma_kws_model(r.keywords, 0);
        lemma_secs_model(r.sections, 0);
        let m = try_compile_spec_model();
        assert(strs_model(r.command_line_keywords@) =~= m.command_line_keywords);
        assert(strs_model(r.pair_keywords@) =~= m.pair_keywords);
        assert(strs_model(r.property_keywords@) =~= m.property_keywords);
        assert(strs_model(r.flow_keywords@) =~= m.flow_keywords);
        assert(pairs_model(r.compound_keywords@) =~= m.compound_keywords);
        assert(strs_model(r.once_keywords@) =~= m.once_keywords);
        assert(r.model() == m);
    }
    r
}

pub open spec fn try_run_kw_model() -> Seq<(Seq<char>, KwModel)> {
    seq![("NO_CACHE"@, KwModel::Option), ("NO_LOG"@, KwModel::Option), ("COMPILE_OUTPUT_VARIABLE"@, KwModel::OneValue), ("RUN_OUTPUT_VARIABLE"@, KwModel::OneValue), ("OUTPUT_VARIABLE"@, KwModel::OneValue), ("WORKING_DIRECTORY"@, KwModel::OneValue), ("COPY_FILE"@, KwModel::OneValue), ("COPY_FILE_ERROR"@, KwModel::OneValue), ("CMAKE_FLAGS"@, KwModel::MultiValue), ("COMPILE_DEFINITIONS"@, KwModel::MultiValue), ("LINK_OPTIONS"@, KwModel::MultiValue), ("LINK_LIBRARIES"@, KwModel::MultiValue), ("ARGS"@, KwModel::MultiValue), ("SOURCES"@, KwModel::MultiValue), ("SOURCE_FROM_CONTENT"@, KwModel::MultiValue), ("SOURCE_FROM_VAR"@, KwModel::MultiValue), ("SOURCE_FROM_FILE"@, KwModel::MultiValue)]
}

fn try_run_kw() -> (r: Vec<(&'static str, KwType)>)
    ensures
        kws_model(r, 0) == try_run_kw_model(),
{
    
    let r = vec![("NO_CACHE", KwType::Option), ("NO_LOG", KwType::Option), ("COMPILE_OUTPUT_VARIABLE", KwType::OneValue), ("RUN_OUTPUT_VARIABLE", KwType::OneValue), ("OUTPUT_VARIABLE", KwType::OneValue), ("WORKING_DIRECTORY", KwType::OneValue), ("COPY_FILE", KwType::OneValue), ("COPY_FILE_ERROR", KwType::OneValue), ("CMAKE_FLAGS", KwType::MultiValue), ("COMPILE_DEFINITIONS", KwType::MultiValue), ("LINK_OPTIONS", KwType::MultiValue), ("LINK_LIBRARIES", KwType::MultiValue), ("ARGS", KwType::MultiValue), ("SOURCES", KwType::MultiValue), ("SOURCE_FROM_CONTENT", KwType::MultiValue), ("SOURCE_FROM_VAR", KwType::MultiValue), ("SOURCE_FROM_FILE", KwType::MultiValue)];
    proof {
        lemma_kws_model(r, 0);
        assert(kws_model(r, 0) =~= try_run_kw_model());
    }
    r
}

pub open spec fn try_run_spec_model() -> SpecModel {
    SpecModel {
        front_positional: 4,
        back_positional: 0,
        keywords: try_run_kw_model(),
        sections: Seq::empty(),
        command_line_keywords: Seq::empty(),
        pair_keywords: Seq::empty(),
        property_keywords: Seq::empty(),
        flow_keywords: Seq::empty(),
        flow_positional: false,
        compound_keywords: Seq::empty(),
        once_keywords: Seq::empty(),
    }
}

fn try_run_spec() -> (r: CommandSpec)
    ensures
        r.model() == try_run_spec_model(),
{
    let g0 = try_run_kw();
    let kw = g0;
    let sections = Vec::new();
    let r = CommandSpec {
        front_positional: 4,
        back_positional: 0,
        keywords: kw,
        sections: sections,
        command_line_keywords: Vec::new(),
        pair_keywords: Vec::new(),
        property_keywords: Vec::new(),
        flow_keywords: Vec::new(),
        flow_positional: false,
        compound_keywords: Vec::new(),
        once_keywords: Vec::new(),
    };
    proof {
        lemma_kws_model(r.keywords, 0);
        lemma_secs_model(r.sections, 0);
        let m = try_run_spec_model();
        assert(strs_model(r.command_line_keywords@) =~= m.command_line_keywords);
        assert(strs_model(r.pair_keywords@) =~= m.pair_keywords);
        assert(strs_model(r.property_keywords@) =~= m.property_keywords);
        assert(strs_model(r.flow_keywords@) =~= m.flow_keywords);
        assert(pairs_model(r.compound_keywords@) =~= m.compound_keywords);
        assert(strs_model(r.once_keywords@) =~= m.once_keywords);
        assert(r.model() == m);
    }
    r
}

pub open spec fn source_group_kw_model() -> Seq<(Seq<char>, KwModel)> {
    seq![("REGULAR_EXPRESSION"@, KwModel::OneValue), ("TREE"@, KwModel::OneValue), ("PREFIX"@, KwModel::OneValue), ("FILES"@, KwModel::MultiValue)]
}

fn source_group_kw() -> (r: Vec<(&'static str, KwType)>)
    ensures
        kws_model(r, 0) == source_group_kw_model(),
{
    
    let r = vec![("REGULAR_EXPRESSION", KwType::OneValue), ("TREE", KwType::OneValue), ("PREFIX", KwType::OneValue), ("FILES", KwType::MultiValue)];
    proof {
        lemma_kws_model(r, 0);
        assert(kws_model(r, 0) =~= source_group_kw_model());
    }
    r
}

pub open spec fn source_group_spec_model() -> SpecModel {
    SpecModel {
        front_positional: 1,
        back_positional: 0,
        keywords: source_group_kw_model(),
        sections: Seq::empty(),
        command_line_keywords: Seq::empty(),
        pair_keywords: Seq::empty(),
        property_keywords: Seq::empty(),
        flow_keywords: Seq::empty(),
        flow_positional: false,
        compound_keywords: Seq::empty(),
        once_keywords: Seq::empty(),
    }
}

fn source_group_spec() -> (r: CommandSpec)
    ensures
        r.model() == source_group_spec_model(),
{
    let g0 = source_group_kw();
    let kw = g0;
    let sections = Vec::new();
    let r = CommandSpec {
        front_positional: 1,
        back_positional: 0,
        keywords: kw,
        sections: sections,
        command_line_keywords: Vec::new(),
        pair_keywords: Vec::new(),
        property_keywords: Vec::new(),
        flow_keywords: Vec::new(),
        flow_positional: false,
        compound_keywords: Vec::new(),
        once_keywords: Vec::new(),
    };
    proof {
        lemma_kws_model(r.keywords, 0);
        lemma_secs_model(r.sections, 0);
        let m = source_group_spec_model();
        assert(strs_model(r.command_line_keywords@) =~= m.command_line_keywords);
        assert(strs_model(r.pair_keywords@) =~= m.pair_keywords);
        assert(strs_model(r.property_keywords@) =~= m.property_keywords);
        assert(strs_model(r.flow_keywords@) =~= m.flow_keywords);
        assert(pairs_model(r.compound_keywords@) =~= m.compound_keywords);
        assert(strs_model(r.once_keywords@) =~= m.once_keywords);
        assert(r.model() == m);
    }
    r
}

pub open spec fn set_target_properties_kw_model() -> Seq<(Seq<char>, KwModel)> {
    seq![("PROPERTIES"@, KwModel::MultiValue)]
}

fn set_target_properties_kw() -> (r: Vec<(&'static str, KwType)>)
    ensures
        kws_model(r, 0) == set_target_properties_kw_model(),
{
    
    let r = vec![("PROPERTIES", KwType::MultiValue)];
    proof {
        lemma_kws_model(r, 0);
        assert(kws_model(r, 0) =~= set_target_properties_kw_model());
    }
    r
}

pub open spec fn set_target_properties_spec_model() -> SpecModel {
    SpecModel {
        front_positional: 1,
        back_positional: 0,
        keywords: set_target_properties_kw_model(),
        sections: Seq::empty(),
        command_line_keywords: Seq::empty(),
        pair_keywords: seq!["PROPERTIES"@],
        property_keywords: Seq::empty(),
        flow_keywords: Seq::empty(),
        flow_positional: false,
        compound_keywords: Seq::empty(),
        once_keywords: Seq::empty(),
    }
}

fn set_target_properties_spec() -> (r: CommandSpec)
    ensures
        r.model() == set_target_properties_spec_model(),
{
    let g0 = set_target_properties_kw();
    let kw = g0;
    let sections = Vec::new();
    let r = CommandSpec {
        front_positional: 1,
        back_positional: 0,
        keywords: kw,
        sections: sections,
        command_line_keywords: Vec::new(),
        pair_keywords: vec!["PROPERTIES"],
        property_keywords: Vec::new(),
        flow_keywords: Vec::new(),
        flow_positional: false,
        compound_keywords: Vec::new(),
        once_keywords: Vec::new(),
    };
    proof {
        lemma_kws_model(r.keywords, 0);
        lemma_secs_model(r.sections, 0);
        let m = set_target_properties_spec_model();
        assert(strs_model(r.command_line_keywords@) =~= m.command_line_keywords);
        assert(strs_model(r.pair_keywords@) =~= m.pair_keywords);
        assert(strs_model(r.property_keywords@) =~= m.property_keywords);
        assert(strs_model(r.flow_keywords@) =~= m.flow_keywords);
        assert(pairs_model(r.compound_keywords@) =~= m.compound_keywords);
        assert(strs_model(r.once_keywords@) =~= m.once_keywords);
        assert(r.model() == m);
    }
    r
}

pub open spec fn set_source_files_properties_kw_model() -> Seq<(Seq<char>, KwModel)> {
    seq![("PROPERTIES"@, KwModel::MultiValue), ("DIRECTORY"@, KwModel::MultiValue), ("TARGET_DIRECTORY"@, KwModel::MultiValue)]
}

fn set_source_files_properties_kw() -> (r: Vec<(&'static str, KwType)>)
    ensures
        kws_model(r, 0) == set_source_files_properties_kw_model(),
{
    
    let r = vec![("PROPERTIES", KwType::MultiValue), ("DIRECTORY", KwType::MultiValue), ("TARGET_DIRECTORY", KwType::MultiValue)];
    proof {
        lemma_kws_model(r, 0);
        assert(kws_model(r, 0) =~= set_source_files_properties_kw_model());
    }
    r
}

pub open spec fn set_source_files_properties_spec_model() -> SpecModel {
    SpecModel {
        front_positional: 0,
        back_positional: 0,
        keywords: set_source_files_properties_kw_model(),
        sections: Seq::empty(),
        command_line_keywords: Seq::empty(),
        pair_keywords: seq!["PROPERTIES"@],
        property_keywords: Seq::empty(),
        flow_keywords: Seq::empty(),
        flow_positional: false,
        compound_keywords: Seq::empty(),
        once_keywords: Seq::empty(),
    }
}

fn set_source_files_properties_spec() -> (r: CommandSpec)
    ensures
        r.model() == set_source_files_properties_spec_model(),
{
    let g0 = set_source_files_properties_kw();
    let kw = g0;
    let sections = Vec::new();
    let r = CommandSpec {
        front_positional: 0,
        back_positional: 0,
        keywords: kw,
        sections: sections,
        command_line_keywords: Vec::new(),
        pair_keywords: vec!["PROPERTIES"],
        property_keywords: Vec::new(),
        flow_keywords: Vec::new(),
        flow_positional: false,
        compound_keywords: Vec::new(),
        once_keywords: Vec::new(),
    };
    proof {
        lemma_kws_model(r.keywords, 0);
        lemma_secs_model(r.sections, 0);
        let m = set_source_files_properties_spec_model();
        assert(strs_model(r.command_line_keywords@) =~= m.command_line_keywords);
        assert(strs_model(r.pair_keywords@) =~= m.pair_keywords);
        assert(strs_model(r.property_keywords@) =~= m.property_keywords);
        assert(strs_model(r.flow_keywords@) =~= m.flow_keywords);
        assert(pairs_model(r.compound_keywords@) =~= m.compound_keywords);
        assert(strs_model(r.once_keywords@) =~= m.once_keywords);
        assert(r.model() == m);
    }
    r
}

pub open spec fn set_tests_properties_kw_model() -> Seq<(Seq<char>, KwModel)> {
    seq![("DIRECTORY"@, KwModel::OneValue), ("PROPERTIES"@, KwModel::MultiValue)]
}

fn set_tests_properties_kw() -> (r: Vec<(&'static str, KwType)>)
    ensures
        kws_model(r, 0) == set_tests_properties_kw_model(),
{
    
    let r = vec![("DIRECTORY", KwType::OneValue), ("PROPERTIES", KwType::MultiValue)];
    proof {
        lemma_kws_model(r, 0);
        assert(kws_model(r, 0) =~= set_tests_properties_kw_model());
    }
    r
}

pub open spec fn set_tests_properties_spec_model() -> SpecModel {
    SpecModel {
        front_positional: 0,
        back_positional: 0,
        keywords: set_tests_properties_kw_model(),
        sections: Seq::empty(),
        command_line_keywords: Seq::empty(),
        pair_keywords: seq!["PROPERTIES"@],
        property_keywords: Seq::empty(),
        flow_keywords: Seq::empty(),
        flow_positional: false,
        compound_keywords: Seq::empty(),
        once_keywords: Seq::empty(),
    }
}

fn set_tests_properties_spec() -> (r: CommandSpec)
    ensures
        r.model() == set_tests_properties_spec_model(),
{
    let g0 = set_tests_properties_kw();
    let kw = g0;
    let sections = Vec::new();
    let r = CommandSpec {
        front_positional: 0,
        back_positional: 0,
        keywords: kw,
        sections: sections,
        command_line_keywords: Vec::new(),
        pair_keywords: vec!["PROPERTIES"],
        property_keywords: Vec::new(),
        flow_keywords: Vec::new(),
        flow_positional: false,
        compound_keywords: Vec::new(),
        once_keywords: Vec::new(),
    };
    proof {
        lemma_kws_model(r.keywords, 0);
        lemma_secs_model(r.sections, 0);
        let m = set_tests_properties_spec_model();
        assert(strs_model(r.command_line_keywords@) =~= m.command_line_keywords);
        assert(strs_model(r.pair_keywords@) =~= m.pair_keywords);
        assert(strs_model(r.property_keywords@) =~= m.property_keywords);
        assert(strs_model(r.flow_keywords@) =~= m.flow_keywords);
        assert(pairs_model(r.compound_keywords@) =~= m.compound_keywords);
        assert(strs_model(r.once_keywords@) =~= m.once_keywords);
        assert(r.model() == m);
    }
    r
}

pub open spec fn set_directory_properties_kw_model() -> Seq<(Seq<char>, KwModel)> {
    seq![("PROPERTIES"@, KwModel::MultiValue)]
}

fn set_directory_properties_kw() -> (r: Vec<(&'static str, KwType)>)
    ensures
        kws_model(r, 0) == set_directory_properties_kw_model(),
{
    
    let r = vec![("PROPERTIES", KwType::MultiValue)];
    proof {
        lemma_kws_model(r, 0);
        assert(kws_model(r, 0) =~= set_directory_properties_kw_model());
    }
    r
}

pub open spec fn set_directory_properties_spec_model() -> SpecModel {
    SpecModel {
        front_positional: 0,
        back_positional: 0,
        keywords: set_directory_properties_kw_model(),
        sections: Seq::empty(),
        command_line_keywords: Seq::empty(),
        pair_keywords: seq!["PROPERTIES"@],
        property_keywords: Seq::empty(),
        flow_keywords: Seq::empty(),
        flow_positional: false,
        compound_keywords: Seq::empty(),
        once_keywords: Seq::empty(),
    }
}

fn set_directory_properties_spec() -> (r: CommandSpec)
    ensures
        r.model() == set_directory_properties_spec_model(),
{
    let g0 = set_directory_properties_kw();
    let kw = g0;
    let sections = Vec::new();
    let r = CommandSpec {
        front_positional: 0,
        back_positional: 0,
        keywords: kw,
        sections: sections,
        command_line_keywords: Vec::new(),
        pair_keywords: vec!["PROPERTIES"],
        property_keywords: Vec::new(),
        flow_keywords: Vec::new(),
        flow_positional: false,
        compound_keywords: Vec::new(),
        once_keywords: Vec::new(),
    };
    proof {
        lemma_kws_model(r.keywords, 0);
        lemma_secs_model(r.sections, 0);
        let m = set_directory_properties_spec_model();
        assert(strs_model(r.command_line_keywords@) =~= m.command_line_keywords);
        assert(strs_model(r.pair_keywords@) =~= m.pair_keywords);
        assert(strs_model(r.property_keywords@) =~= m.property_keywords);
        assert(strs_model(r.flow_keywords@) =~= m.flow_keywords);
        assert(pairs_model(r.compound_keywords@) =~= m.compound_keywords);
        assert(strs_model(r.once_keywords@) =~= m.once_keywords);
        assert(r.model() == m);
    }
    r
}

pub open spec fn set_package_properties_kw_model() -> Seq<(Seq<char>, KwModel)> {
    seq![("PROPERTIES"@, KwModel::MultiValue)]
}

fn set_package_properties_kw() -> (r: Vec<(&'static str, KwType)>)
    ensures
        kws_model(r, 0) == set_package_properties_kw_model(),
{
    
    let r = vec![("PROPERTIES", KwType::MultiValue)];
    proof {
        lemma_kws_model(r, 0);
        assert(kws_model(r, 0) =~= set_package_properties_kw_model());
    }
    r
}

pub open spec fn set_package_properties_sections_model() -> Seq<(Seq<char>, nat, Seq<(Seq<char>, KwModel)>)> {
    seq![("PROPERTIES"@, 0, seq![("URL"@, KwModel::OneValue), ("DESCRIPTION"@, KwModel::OneValue), ("TYPE"@, KwModel::OneValue), ("PURPOSE"@, KwModel::OneValue)])]
}

fn set_package_properties_sections() -> (r: Vec<(&'static str, usize, Vec<(&'static str, KwType)>)>)
    ensures
        secs_model(r, 0) == set_package_properties_sections_model(),
{
    let s0 = vec![("URL", KwType::OneValue), ("DESCRIPTION", KwType::OneValue), ("TYPE", KwType::OneValue), ("PURPOSE", KwType::OneValue)];
    proof {
        lemma_kws_model(s0, 0);
        assert(kws_model(s0, 0) =~= seq![("URL"@, KwModel::OneValue), ("DESCRIPTION"@, KwModel::OneValue), ("TYPE"@, KwModel::OneValue), ("PURPOSE"@, KwModel::OneValue)]);
    }
    let r = vec![("PROPERTIES", 0, s0)];
    proof {
        lemma_secs_model(r, 0);
        assert(secs_model(r, 0) =~= set_package_properties_sections_model());
    }
    r
}

pub open spec fn set_package_properties_spec_model() -> SpecModel {
    SpecModel {
        front_positional: 1,
        back_positional: 0,
        keywords: set_package_properties_kw_model(),
        sections: set_package_properties_sections_model(),
        command_line_keywords: Seq::empty(),
        pair_keywords: Seq::empty(),
        property_keywords: Seq::empty(),
        flow_keywords: Seq::empty(),
        flow_positional: false,
        compound_keywords: Seq::empty(),
        once_keywords: Seq::empty(),
    }
}

fn set_package_properties_spec() -> (r: CommandSpec)
    ensures
        r.model() == set_package_properties_spec_model(),
{
    let g0 = set_package_properties_kw();
    let kw = g0;
    let g2 = set_package_properties_sections();
    let sections = g2;
    let r = CommandSpec {
        front_positional: 1,
        back_positional: 0,
        keywords: kw,
        sections: sections,
        command_line_keywords: Vec::new(),
        pair_keywords: Vec::new(),
        property_keywords: Vec::new(),
        flow_keywords: Vec::new(),
        flow_positional: false,
        compound_keywords: Vec::new(),
        once_keywords: Vec::new(),
    };
    proof {
        lemma_kws_model(r.keywords, 0);
        lemma_secs_model(r.sections, 0);
        let m = set_package_properties_spec_model();
        assert(strs_model(r.command_line_keywords@) =~= m.command_line_keywords);
        assert(strs_model(r.pair_keywords@) =~= m.pair_keywords);
        assert(strs_model(r.property_keywords@) =~= m.property_keywords);
        assert(strs_model(r.flow_keywords@) =~= m.flow_keywords);
        assert(pairs_model(r.compound_keywords@) =~= m.compound_keywords);
        assert(strs_model(r.once_keywords@) =~= m.once_keywords);
        assert(r.model() == m);
    }
    r
}

pub open spec fn get_directory_property_kw_model() -> Seq<(Seq<char>, KwModel)> {
    seq![("DIRECTORY"@, KwModel::OneValue), ("DEFINITION"@, KwModel::OneValue)]
}

fn get_directory_property_kw() -> (r: Vec<(&'static str, KwType)>)
    ensures
        kws_model(r, 0) == get_directory_property_kw_model(),
{
    
    let r = vec![("DIRECTORY", KwType::OneValue), ("DEFINITION", KwType::OneValue)];
    proof {
        lemma_kws_model(r, 0);
        assert(kws_model(r, 0) =~= get_directory_property_kw_model());
    }
    r
}

pub open spec fn get_directory_property_spec_model() -> SpecModel {
    SpecModel {
        front_positional: 1,
        back_positional: 0,
        keywords: get_directory_property_kw_model(),
        sections: Seq::empty(),
        command_line_keywords: Seq::empty(),
        pair_keywords: Seq::empty(),
        property_keywords: Seq::empty(),
        flow_keywords: Seq::empty(),
        flow_positional: false,
        compound_keywords: Seq::empty(),
        once_keywords: Seq::empty(),
    }
}

fn get_directory_property_spec() -> (r: CommandSpec)
    ensures
        r.model() == get_directory_property_spec_model(),
{
    let g0 = get_directory_property_kw();
    let kw = g0;
    let sections = Vec::new();
    let r = CommandSpec {
        front_positional: 1,
        back_positional: 0,
        keywords: kw,
        sections: sections,
        command_line_keywords: Vec::new(),
        pair_keywords: Vec::new(),
        property_keywords: Vec::new(),
        flow_keywords: Vec::new(),
        flow_positional: false,
        compound_keywords: Vec::new(),
        once_keywords: Vec::new(),
    };
    proof {
        lemma_kws_model(r.keywords, 0);
        lemma_secs_model(r.sections, 0);
        let m = get_directory_property_spec_model();
        assert(strs_model(r.command_line_keywords@) =~= m.command_line_keywords);
        assert(strs_model(r.pair_keywords@) =~= m.pair_keywords);
        assert(strs_model(r.property_keywords@) =~= m.property_keywords);
        assert(strs_model(r.flow_keywords@) =~= m.flow_keywords);
        assert(pairs_model(r.compound_keywords@) =~= m.compound_keywords);
        assert(strs_model(r.once_keywords@) =~= m.once_keywords);
        assert(r.model() == m);
    }
    r
}

pub open spec fn get_filename_component_kw_model() -> Seq<(Seq<char>, KwModel)> {
    seq![("DIRECTORY"@, KwModel::Option), ("NAME"@, KwModel::Option), ("EXT"@, KwModel::Option), ("NAME_WE"@, KwModel::Option), ("LAST_EXT"@, KwModel::Option), ("NAME_WLE"@, KwModel::Option), ("PATH"@, KwModel::Option), ("PROGRAM"@, KwModel::Option), ("CACHE"@, KwModel::Option), ("BASE_DIR"@, KwModel::OneValue), ("PROGRAM_ARGS"@, KwModel::OneValue)]
}

fn get_filename_component_kw() -> (r: Vec<(&'static str, KwType)>)
    ensures
        kws_model(r, 0) == get_filename_component_kw_model(),
{
    
    let r = vec![("DIRECTORY", KwType::Option), ("NAME", KwType::Option), ("EXT", KwType::Option), ("NAME_WE", KwType::Option), ("LAST_EXT", KwType::Option), ("NAME_WLE", KwType::Option), ("PATH", KwType::Option), ("PROGRAM", KwType::Option), ("CACHE", KwType::Option), ("BASE_DIR", KwType::OneValue), ("PROGRAM_ARGS", KwType::OneValue)];
    proof {
        lemma_kws_model(r, 0);
        assert(kws_model(r, 0) =~= get_filename_component_kw_model());
    }
    r
}

pub open spec fn get_filename_component_spec_model() -> SpecModel {
    SpecModel {
        front_positional: 3,
        back_positional: 0,
        keywords: get_filename_component_kw_model(),
        sections: Seq::empty(),
        command_line_keywords: Seq::empty(),
        pair_keywords: Seq::empty(),
        property_keywords: Seq::empty(),
        flow_keywords: Seq::empty(),
        flow_positional: false,
        compound_keywords: Seq::empty(),
        once_keywords: Seq::empty(),
    }
}

fn get_filename_component_spec() -> (r: CommandSpec)
    ensures
        r.model() == get_filename_component_spec_model(),
{
    let g0 = get_filename_component_kw();
    let kw = g0;
    let sections = Vec::new();
    let r = CommandSpec {
        front_positional: 3,
        back_positional: 0,
        keywords: kw,
        sections: sections,
        command_line_keywords: Vec::new(),
        pair_keywords: Vec::new(),
        property_keywords: Vec::new(),
        flow_keywords: Vec::new(),
        flow_positional: false,
        compound_keywords: Vec::new(),
        once_keywords: Vec::new(),
    };
    proof {
        lemma_kws_model(r.keywords, 0);
        lemma_secs_model(r.sections, 0);
        let m = get_filename_component_spec_model();
        assert(strs_model(r.command_line_keywords@) =~= m.command_line_keywords);
        assert(strs_model(r.pair_keywords@) =~= m.pair_keywords);
        assert(strs_model(r.property_keywords@) =~= m.property_keywords);
        assert(strs_model(r.flow_keywords@) =~= m.flow_keywords);
        assert(pairs_model(r.compound_keywords@) =~= m.compound_keywords);
        assert(strs_model(r.once_keywords@) =~= m.once_keywords);
        assert(r.model() == m);
    }
    r
}

pub open spec fn gtest_discover_tests_kw_model() -> Seq<(Seq<char>, KwModel)> {
    seq![("NO_PRETTY_TYPES"@, KwModel::Option), ("NO_PRETTY_VALUES"@, KwModel::Option), ("WORKING_DIRECTORY"@, KwModel::OneValue), ("TEST_PREFIX"@, KwModel::OneValue), ("TEST_SUFFIX"@, KwModel::OneValue), ("TEST_FILTER"@, KwModel::OneValue), ("TEST_LIST"@, KwModel::OneValue), ("DISCOVERY_TIMEOUT"@, KwModel::OneValue), ("XML_OUTPUT_DIR"@, KwModel::OneValue), ("DISCOVERY_MODE"@, KwModel::OneValue), ("EXTRA_ARGS"@, KwModel::MultiValue), ("PROPERTIES"@, KwModel::MultiValue), ("DISCOVERY_EXTRA_ARGS"@, KwModel::MultiValue)]
}

fn gtest_discover_tests_kw() -> (r: Vec<(&'static str, KwType)>)
    ensures
        kws_model(r, 0) == gtest_discover_tests_kw_model(),
{
    
    let r = vec![("NO_PRETTY_TYPES", KwType::Option), ("NO_PRETTY_VALUES", KwType::Option), ("WORKING_DIRECTORY", KwType::OneValue), ("TEST_PREFIX", KwType::OneValue), ("TEST_SUFFIX", KwType::OneValue), ("TEST_FILTER", KwType::OneValue), ("TEST_LIST", KwType::OneValue), ("DISCOVERY_TIMEOUT", KwType::OneValue), ("XML_OUTPUT_DIR", KwType::OneValue), ("DISCOVERY_MODE", KwType::OneValue), ("EXTRA_ARGS", KwType::MultiValue), ("PROPERTIES", KwType::MultiValue), ("DISCOVERY_EXTRA_ARGS", KwType::MultiValue)];
    proof {
        lemma_kws_model(r, 0);
        assert(kws_model(r, 0) =~= gtest_discover_tests_kw_model());
    }
    r
}

pub open spec fn gtest_discover_tests_spec_model() -> SpecModel {
    SpecModel {
        front_positional: 1,
        back_positional: 0,
        keywords: gtest_discover_tests_kw_model(),
        sections: Seq::empty(),
        command_line_keywords: Seq::empty(),
        pair_keywords: seq!["PROPERTIES"@],
        property_keywords: Seq::empty(),
        flow_keywords: seq!["EXTRA_ARGS"@, "DISCOVERY_EXTRA_ARGS"@],
        flow_positional: false,
        compound_keywords: Seq::empty(),
        once_keywords: Seq::empty(),
    }
}

fn gtest_discover_tests_spec() -> (r: CommandSpec)
    ensures
        r.model() == gtest_discover_tests_spec_model(),
{
    let g0 = gtest_discover_tests_kw();
    let kw = g0;
    let sections = Vec::new();
    let r = CommandSpec {
        front_positional: 1,
        back_positional: 0,
        keywords: kw,
        sections: sections,
        command_line_keywords: Vec::new(),
        pair_keywords: vec!["PROPERTIES"],
        property_keywords: Vec::new(),
        flow_keywords: vec!["EXTRA_ARGS", "DISCOVERY_EXTRA_ARGS"],
        flow_positional: false,
        compound_keywords: Vec::new(),
        once_keywords: Vec::new(),
    };
    proof {
        lemma_kws_model(r.keywords, 0);
        lemma_secs_model(r.sections, 0);
        let m = gtest_discover_tests_spec_model();
        assert(strs_model(r.command_line_keywords@) =~= m.command_line_keywords);
        assert(strs_model(r.pair_keywords@) =~= m.pair_keywords);
        assert(strs_model(r.property_keywords@) =~= m.property_keywords);
        assert(strs_model(r.flow_keywords@) =~= m.flow_keywords);
        assert(pairs_model(r.compound_keywords@) =~= m.compound_keywords);
        assert(strs_model(r.once_keywords@) =~= m.once_keywords);
        assert(r.model() == m);
    }
    r
}

pub open spec fn build_command_kw_model() -> Seq<(Seq<char>, KwModel)> {
    seq![("CONFIGURATION"@, KwModel::OneValue), ("TARGET"@, KwModel::OneValue), ("PROJECT_NAME"@, KwModel::OneValue), ("PARALLEL_LEVEL"@, KwModel::OneValue)]
}

fn build_command_kw() -> (r: Vec<(&'static str, KwType)>)
    ensures
        kws_model(r, 0) == build_command_kw_model(),
{
    
    let r = vec![("CONFIGURATION", KwType::OneValue), ("TARGET", KwType::OneValue), ("PROJECT_NAME", KwType::OneValue), ("PARALLEL_LEVEL", KwType::OneValue)];
    proof {
        lemma_kws_model(r, 0);
        assert(kws_model(r, 0) =~= build_command_kw_model());
    }
    r
}

pub open spec fn build_command_spec_model() -> SpecModel {
    SpecModel {
        front_positional: 1,
        back_positional: 0,
        keywords: build_command_kw_model(),
        sections: Seq::empty(),
        command_line_keywords: Seq::empty(),
        pair_keywords: Seq::empty(),
        property_keywords: Seq::empty(),
        flow_keywords: Seq::empty(),
        flow_positional: false,
        compound_keywords: Seq::empty(),
        once_keywords: Seq::empty(),
    }
}

fn build_command_spec() -> (r: CommandSpec)
    ensures
        r.model() == build_command_spec_model(),
{
    let g0 = build_command_kw();
    let kw = g0;
    let sections = Vec::new();
    let r = CommandSpec {
        front_positional: 1,
        back_positional: 0,
        keywords: kw,
        sections: sections,
        command_line_keywords: Vec::new(),
        pair_keywords: Vec::new(),
        property_keywords: Vec::new(),
        flow_keywords: Vec::new(),
        flow_positional: false,
        compound_keywords: Vec::new(),
        once_keywords: Vec::new(),
    };
    proof {
        lemma_kws_model(r.keywords, 0);
        lemma_secs_model(r.sections, 0);
        let m = build_command_spec_model();
        assert(strs_model(r.command_line_keywords@) =~= m.command_line_keywords);
        assert(strs_model(r.pair_keywords@) =~= m.pair_keywords);
        assert(strs_model(r.property_keywords@) =~= m.property_keywords);
        assert(strs_model(r.flow_keywords@) =~= m.flow_keywords);
        assert(pairs_model(r.compound_keywords@) =~= m.compound_keywords);
        assert(strs_model(r.once_keywords@) =~= m.once_keywords);
        assert(r.model() == m);
    }
    r
}

pub open spec fn cmake_host_system_information_kw_model() -> Seq<(Seq<char>, KwModel)> {
    seq![("RESULT"@, KwModel::OneValue), ("VALUE"@, KwModel::OneValue), ("VIEW"@, KwModel::OneValue), ("SEPARATOR"@, KwModel::OneValue), ("ERROR_VARIABLE"@, KwModel::OneValue), ("QUERY"@, KwModel::MultiValue)]
}

fn cmake_host_system_information_kw() -> (r: Vec<(&'static str, KwType)>)
    ensures
        kws_model(r, 0) == cmake_host_system_information_kw_model(),
{
    
    let r = vec![("RESULT", KwType::OneValue), ("VALUE", KwType::OneValue), ("VIEW", KwType::OneValue), ("SEPARATOR", KwType::OneValue), ("ERROR_VARIABLE", KwType::OneValue), ("QUERY", KwType::MultiValue)];
    proof {
        lemma_kws_model(r, 0);
        assert(kws_model(r, 0) =~= cmake_host_system_information_kw_model());
    }
    r
}

pub open spec fn cmake_host_system_information_spec_model() -> SpecModel {
    SpecModel {
        front_positional: 0,
        back_positional: 0,
        keywords: cmake_host_system_information_kw_model(),
        sections: Seq::empty(),
        command_line_keywords: Seq::empty(),
        pair_keywords: Seq::empty(),
        property_keywords: Seq::empty(),
        flow_keywords: Seq::empty(),
        flow_positional: false,
        compound_keywords: seq![("QUERY"@, "WINDOWS_REGISTRY"@)],
        once_keywords: Seq::empty(),
    }
}

fn cmake_host_system_information_spec() -> (r: CommandSpec)
    ensures
        r.model() == cmake_host_system_information_spec_model(),
{
    let g0 = cmake_host_system_information_kw();
    let kw = g0;
    let sections = Vec::new();
    let r = CommandSpec {
        front_positional: 0,
        back_positional: 0,
        keywords: kw,
        sections: sections,
        command_line_keywords: Vec::new(),
        pair_keywords: Vec::new(),
        property_keywords: Vec::new(),
        flow_keywords: Vec::new(),
        flow_positional: false,
        compound_keywords: vec![("QUERY", "WINDOWS_REGISTRY")],
        once_keywords: Vec::new(),
    };
    proof {
        lemma_kws_model(r.keywords, 0);
        lemma_secs_model(r.sections, 0);
        let m = cmake_host_system_information_spec_model();
        assert(strs_model(r.command_line_keywords@) =~= m.command_line_keywords);
        assert(strs_model(r.pair_keywords@) =~= m.pair_keywords);
        assert(strs_model(r.property_keywords@) =~= m.property_keywords);
        assert(strs_model(r.flow_keywords@) =~= m.flow_keywords);
        assert(pairs_model(r.compound_keywords@) =~= m.compound_keywords);
        assert(strs_model(r.once_keywords@) =~= m.once_keywords);
        assert(r.model() == m);
    }
    r
}

pub open spec fn cmake_language_kw_model() -> Seq<(Seq<char>, KwModel)> {
    seq![("ON"@, KwModel::Option), ("OFF"@, KwModel::Option), ("EXPAND"@, KwModel::Option), ("TRACE"@, KwModel::Option), ("CALL"@, KwModel::OneValue), ("GET_CALL_IDS"@, KwModel::OneValue), ("SET_DEPENDENCY_PROVIDER"@, KwModel::OneValue), ("GET_MESSAGE_LOG_LEVEL"@, KwModel::OneValue), ("EXIT"@, KwModel::OneValue), ("DIRECTORY"@, KwModel::OneValue), ("ID"@, KwModel::OneValue), ("ID_VAR"@, KwModel::OneValue), ("DEFER"@, KwModel::MultiValue), ("GET_CALL"@, KwModel::MultiValue), ("CANCEL_CALL"@, KwModel::MultiValue), ("SUPPORTED_METHODS"@, KwModel::MultiValue), ("EVAL"@, KwModel::MultiValue)]
}

fn cmake_language_kw() -> (r: Vec<(&'static str, KwType)>)
    ensures
        kws_model(r, 0) == cmake_language_kw_model(),
{
    
    let r = vec![("ON", KwType::Option), ("OFF", KwType::Option), ("EXPAND", KwType::Option), ("TRACE", KwType::Option), ("CALL", KwType::OneValue), ("GET_CALL_IDS", KwType::OneValue), ("SET_DEPENDENCY_PROVIDER", KwType::OneValue), ("GET_MESSAGE_LOG_LEVEL", KwType::OneValue), ("EXIT", KwType::OneValue), ("DIRECTORY", KwType::OneValue), ("ID", KwType::OneValue), ("ID_VAR", KwType::OneValue), ("DEFER", KwType::MultiValue), ("GET_CALL", KwType::MultiValue), ("CANCEL_CALL", KwType::MultiValue), ("SUPPORTED_METHODS", KwType::MultiValue), ("EVAL", KwType::MultiValue)];
    proof {
        lemma_kws_model(r, 0);
        assert(kws_model(r, 0) =~= cmake_language_kw_model());
    }
    r
}

pub open spec fn cmake_language_spec_model() -> SpecModel {
    SpecModel {
        front_positional: 0,
        back_positional: 0,
        keywords: cmake_language_kw_model(),
        sections: Seq::empty(),
        command_line_keywords: Seq::empty(),
        pair_keywords: Seq::empty(),
        property_keywords: Seq::empty(),
        flow_keywords: Seq::empty(),
        flow_positional: false,
        compound_keywords: seq![("EVAL"@, "CODE"@)],
        once_keywords: Seq::empty(),
    }
}

fn cmake_language_spec() -> (r: CommandSpec)
    ensures
        r.model() == cmake_language_spec_model(),
{
    let g0 = cmake_language_kw();
    let kw = g0;
    let sections = Vec::new();
    let r = CommandSpec {
        front_positional: 0,
        back_positional: 0,
        keywords: kw,
        sections: sections,
        command_line_keywords: Vec::new(),
        pair_keywords: Vec::new(),
        property_keywords: Vec::new(),
        flow_keywords: Vec::new(),
        flow_positional: false,
        compound_keywords: vec![("EVAL", "CODE")],
        once_keywords: Vec::new(),
    };
    proof {
        lemma_kws_model(r.keywords, 0);
        lemma_secs_model(r.sections, 0);
        let m = cmake_language_spec_model();
        assert(strs_model(r.command_line_keywords@) =~= m.command_line_keywords);
        assert(strs_model(r.pair_keywords@) =~= m.pair_keywords);
        assert(strs_model(r.property_keywords@) =~= m.property_keywords);
        assert(strs_model(r.flow_keywords@) =~= m.flow_keywords);
        assert(pairs_model(r.compound_keywords@) =~= m.compound_keywords);
        assert(strs_model(r.once_keywords@) =~= m.once_keywords);
        assert(r.model() == m);
    }
    r
}

pub open spec fn cmake_path_kw_model() -> Seq<(Seq<char>, KwModel)> {
    seq![("LAST_ONLY"@, KwModel::Option), ("NORMALIZE"@, KwModel::Option), ("HASH"@, KwModel::Option), ("GET"@, KwModel::OneValue), ("ROOT_NAME"@, KwModel::OneValue), ("ROOT_DIRECTORY"@, KwModel::OneValue), ("ROOT_PATH"@, KwModel::OneValue), ("FILENAME"@, KwModel::OneValue), ("EXTENSION"@, KwModel::OneValue), ("STEM"@, KwModel::OneValue), ("RELATIVE_PART"@, KwModel::OneValue), ("PARENT_PATH"@, KwModel::OneValue), ("APPEND"@, KwModel::OneValue), ("APPEND_STRING"@, KwModel::OneValue), ("REMOVE_FILENAME"@, KwModel::OneValue), ("REPLACE_FILENAME"@, KwModel::OneValue), ("REMOVE_EXTENSION"@, KwModel::OneValue), ("REPLACE_EXTENSION"@, KwModel::OneValue), ("NORMAL_PATH"@, KwModel::OneValue), ("RELATIVE_PATH"@, KwModel::OneValue), ("ABSOLUTE_PATH"@, KwModel::OneValue), ("BASE_DIRECTORY"@, KwModel::OneValue), ("OUTPUT_VARIABLE"@, KwModel::OneValue), ("NATIVE_PATH"@, KwModel::OneValue), ("CONVERT"@, KwModel::OneValue), ("TO_CMAKE_PATH_LIST"@, KwModel::OneValue), ("TO_NATIVE_PATH_LIST"@, KwModel::OneValue)]
}

fn cmake_path_kw() -> (r: Vec<(&'static str, KwType)>)
    ensures
        kws_model(r, 0) == cmake_path_kw_model(),
{
    
    let r = vec![("LAST_ONLY", KwType::Option), ("NORMALIZE", KwType::Option), ("HASH", KwType::Option), ("GET", KwType::OneValue), ("ROOT_NAME", KwType::OneValue), ("ROOT_DIRECTORY", KwType::OneValue), ("ROOT_PATH", KwType::OneValue), ("FILENAME", KwType::OneValue), ("EXTENSION", KwType::OneValue), ("STEM", KwType::OneValue), ("RELATIVE_PART", KwType::OneValue), ("PARENT_PATH", KwType::OneValue), ("APPEND", KwType::OneValue), ("APPEND_STRING", KwType::OneValue), ("REMOVE_FILENAME", KwType::OneValue), ("REPLACE_FILENAME", KwType::OneValue), ("REMOVE_EXTENSION", KwType::OneValue), ("REPLACE_EXTENSION", KwType::OneValue), ("NORMAL_PATH", KwType::OneValue), ("RELATIVE_PATH", KwType::OneValue), ("ABSOLUTE_PATH", KwType::OneValue), ("BASE_DIRECTORY", KwType::OneValue), ("OUTPUT_VARIABLE", KwType::OneValue), ("NATIVE_PATH", KwType::OneValue), ("CONVERT", KwType::OneValue), ("TO_CMAKE_PATH_LIST", KwType::OneValue), ("TO_NATIVE_PATH_LIST", KwType::OneValue)];
    proof {
        lemma_kws_model(r, 0);
        assert(kws_model(r, 0) =~= cmake_path_kw_model());
    }
    r
}

pub open spec fn cmake_path_spec_model() -> SpecModel {
    SpecModel {
        front_positional: 0,
        back_positional: 0,
        keywords: cmake_path_kw_model(),
        sections: Seq::empty(),
        command_line_keywords: Seq::empty(),
        pair_keywords: Seq::empty(),
        property_keywords: Seq::empty(),
        flow_keywords: Seq::empty(),
        flow_positional: false,
        compound_keywords: seq![("EXTENSION"@, "LAST_ONLY"@), ("STEM"@, "LAST_ONLY"@)],
        once_keywords: Seq::empty(),
    }
}

fn cmake_path_spec() -> (r: CommandSpec)
    ensures
        r.model() == cmake_path_spec_model(),
{
    let g0 = cmake_path_kw();
    let kw = g0;
    let sections = Vec::new();
    let r = CommandSpec {
        front_positional: 0,
        back_positional: 0,
        keywords: kw,
        sections: sections,
        command_line_keywords: Vec::new(),
        pair_keywords: Vec::new(),
        property_keywords: Vec::new(),
        flow_keywords: Vec::new(),
        flow_positional: false,
        compound_keywords: vec![("EXTENSION", "LAST_ONLY"), ("STEM", "LAST_ONLY")],
        once_keywords: Vec::new(),
    };
    proof {
        lemma_kws_model(r.keywords, 0);
        lemma_secs_model(r.sections, 0);
        let m = cmake_path_spec_model();
        assert(strs_model(r.command_line_keywords@) =~= m.command_line_keywords);
        assert(strs_model(r.pair_keywords@) =~= m.pair_keywords);
        assert(strs_model(r.property_keywords@) =~= m.property_keywords);
        assert(strs_model(r.flow_keywords@) =~= m.flow_keywords);
        assert(pairs_model(r.compound_keywords@) =~= m.compound_keywords);
        assert(strs_model(r.once_keywords@) =~= m.once_keywords);
        assert(r.model() == m);
    }
    r
}

pub open spec fn cmake_pkg_config_kw_model() -> Seq<(Seq<char>, KwModel)> {
    seq![("REQUIRED"@, KwModel::Option), ("EXACT"@, KwModel::Option), ("QUIET"@, KwModel::Option), ("STRICTNESS"@, KwModel::Option), ("EXTRACT"@, KwModel::MultiValue), ("POPULATE"@, KwModel::MultiValue), ("IMPORT"@, KwModel::MultiValue), ("PREFIX"@, KwModel::OneValue), ("NAME"@, KwModel::OneValue), ("ENV_MODE"@, KwModel::OneValue), ("PC_PATH"@, KwModel::MultiValue)]
}

fn cmake_pkg_config_kw() -> (r: Vec<(&'static str, KwType)>)
    ensures
        kws_model(r, 0) == cmake_pkg_config_kw_model(),
{
    
    let r = vec![("REQUIRED", KwType::Option), ("EXACT", KwType::Option), ("QUIET", KwType::Option), ("STRICTNESS", KwType::Option), ("EXTRACT", KwType::MultiValue), ("POPULATE", KwType::MultiValue), ("IMPORT", KwType::MultiValue), ("PREFIX", KwType::OneValue), ("NAME", KwType::OneValue), ("ENV_MODE", KwType::OneValue), ("PC_PATH", KwType::MultiValue)];
    proof {
        lemma_kws_model(r, 0);
        assert(kws_model(r, 0) =~= cmake_pkg_config_kw_model());
    }
    r
}

pub open spec fn cmake_pkg_config_spec_model() -> SpecModel {
    SpecModel {
        front_positional: 0,
        back_positional: 0,
        keywords: cmake_pkg_config_kw_model(),
        sections: Seq::empty(),
        command_line_keywords: Seq::empty(),
        pair_keywords: Seq::empty(),
        property_keywords: Seq::empty(),
        flow_keywords: Seq::empty(),
        flow_positional: false,
        compound_keywords: Seq::empty(),
        once_keywords: Seq::empty(),
    }
}

fn cmake_pkg_config_spec() -> (r: CommandSpec)
    ensures
        r.model() == cmake_pkg_config_spec_model(),
{
    let g0 = cmake_pkg_config_kw();
    let kw = g0;
    let sections = Vec::new();
    let r = CommandSpec {
        front_positional: 0,
        back_positional: 0,
        keywords: kw,
        sections: sections,
        command_line_keywords: Vec::new(),
        pair_keywords: Vec::new(),
        property_keywords: Vec::new(),
        flow_keywords: Vec::new(),
        flow_positional: false,
        compound_keywords: Vec::new(),
        once_keywords: Vec::new(),
    };
    proof {
        lemma_kws_model(r.keywords, 0);
        lemma_secs_model(r.sections, 0);
        let m = cmake_pkg_config_spec_model();
        assert(strs_model(r.command_line_keywords@) =~= m.command_line_keywords);
        assert(strs_model(r.pair_keywords@) =~= m.pair_keywords);
        assert(strs_model(r.property_keywords@) =~= m.property_keywords);
        assert(strs_model(r.flow_keywords@) =~= m.flow_keywords);
        assert(pairs_model(r.compound_keywords@) =~= m.compound_keywords);
        assert(strs_model(r.once_keywords@) =~= m.once_keywords);
        assert(r.model() == m);
    }
    r
}

pub open spec fn separate_arguments_kw_model() -> Seq<(Seq<char>, KwModel)> {
    seq![("PROGRAM"@, KwModel::Option), ("SEPARATE_ARGS"@, KwModel::Option), ("UNIX_COMMAND"@, KwModel::Option), ("WINDOWS_COMMAND"@, KwModel::Option), ("NATIVE_COMMAND"@, KwModel::Option)]
}

fn separate_arguments_kw() -> (r: Vec<(&'static str, KwType)>)
    ensures
        kws_model(r, 0) == separate_arguments_kw_model(),
{
    
    let r = vec![("PROGRAM", KwType::Option), ("SEPARATE_ARGS", KwType::Option), ("UNIX_COMMAND", KwType::Option), ("WINDOWS_COMMAND", KwType::Option), ("NATIVE_COMMAND", KwType::Option)];
    proof {
        lemma_kws_model(r, 0);
        assert(kws_model(r, 0) =~= separate_arguments_kw_model());
    }
    r
}

pub open spec fn separate_arguments_spec_model() -> SpecModel {
    SpecModel {
        front_positional: 2,
        back_positional: 0,
        keywords: separate_arguments_kw_model(),
        sections: Seq::empty(),
        command_line_keywords: Seq::empty(),
        pair_keywords: Seq::empty(),
        property_keywords: Seq::empty(),
        flow_keywords: Seq::empty(),
        flow_positional: false,
        compound_keywords: Seq::empty(),
        once_keywords: Seq::empty(),
    }
}

fn separate_arguments_spec() -> (r: CommandSpec)
    ensures
        r.model() == separate_arguments_spec_model(),
{
    let g0 = separate_arguments_kw();
    let kw = g0;
    let sections = Vec::new();
    let r = CommandSpec {
        front_positional: 2,
        back_positional: 0,
        keywords: kw,
        sections: sections,
        command_line_keywords: Vec::new(),
        pair_keywords: Vec::new(),
        property_keywords: Vec::new(),
        flow_keywords: Vec::new(),
        flow_positional: false,
        compound_keywords: Vec::new(),
        once_keywords: Vec::new(),
    };
    proof {
        lemma_kws_model(r.keywords, 0);
        lemma_secs_model(r.sections, 0);
        let m = separate_arguments_spec_model();
        assert(strs_model(r.command_line_keywords@) =~= m.command_line_keywords);
        assert(strs_model(r.pair_keywords@) =~= m.pair_keywords);
        assert(strs_model(r.property_keywords@) =~= m.property_keywords);
        assert(strs_model(r.flow_keywords@) =~= m.flow_keywords);
        assert(pairs_model(r.compound_keywords@) =~= m.compound_keywords);
        assert(strs_model(r.once_keywords@) =~= m.once_keywords);
        assert(r.model() == m);
    }
    r
}

pub open spec fn enable_language_kw_model() -> Seq<(Seq<char>, KwModel)> {
    seq![("OPTIONAL"@, KwModel::Option)]
}

fn enable_language_kw() -> (r: Vec<(&'static str, KwType)>)
    ensures
        kws_model(r, 0) == enable_language_kw_model(),
{
    
    let r = vec![("OPTIONAL", KwType::Option)];
    proof {
        lemma_kws_model(r, 0);
        assert(kws_model(r, 0) =~= enable_language_kw_model());
    }
    r
}

pub open spec fn enable_language_spec_model() -> SpecModel {
    SpecModel {
        front_positional: 0,
        back_positional: 0,
        keywords: enable_language_kw_model(),
        sections: Seq::empty(),
        command_line_keywords: Seq::empty(),
        pair_keywords: Seq::empty(),
        property_keywords: Seq::empty(),
        flow_keywords: Seq::empty(),
        flow_positional: false,
        compound_keywords: Seq::empty(),
        once_keywords: Seq::empty(),
    }
}

fn enable_language_spec() -> (r: CommandSpec)
    ensures
        r.model() == enable_language_spec_model(),
{
    let g0 = enable_language_kw();
    let kw = g0;
    let sections = Vec::new();
    let r = CommandSpec {
        front_positional: 0,
        back_positional: 0,
        keywords: kw,
        sections: sections,
        command_line_keywords: Vec::new(),
        pair_keywords: Vec::new(),
        property_keywords: Vec::new(),
        flow_keywords: Vec::new(),
        flow_positional: false,
        compound_keywords: Vec::new(),
        once_keywords: Vec::new(),
    };
    proof {
        lemma_kws_model(r.keywords, 0);
        lemma_secs_model(r.sections, 0);
        let m = enable_language_spec_model();
        assert(strs_model(r.command_line_keywords@) =~= m.command_line_keywords);
        assert(strs_model(r.pair_keywords@) =~= m.pair_keywords);
        assert(strs_model(r.property_keywords@) =~= m.property_keywords);
        assert(strs_model(r.flow_keywords@) =~= m.flow_keywords);
        assert(pairs_model(r.compound_keywords@) =~= m.compound_keywords);
        assert(strs_model(r.once_keywords@) =~= m.once_keywords);
        assert(r.model() == m);
    }
    r
}

pub open spec fn mark_as_advanced_kw_model() -> Seq<(Seq<char>, KwModel)> {
    seq![("CLEAR"@, KwModel::Option), ("FORCE"@, KwModel::Option)]
}

fn mark_as_advanced_kw() -> (r: Vec<(&'static str, KwType)>)
    ensures
        kws_model(r, 0) == mark_as_advanced_kw_model(),
{
    
    let r = vec![("CLEAR", KwType::Option), ("FORCE", KwType::Option)];
    proof {
        lemma_kws_model(r, 0);
        assert(kws_model(r, 0) =~= mark_as_advanced_kw_model());
    }
    r
}

pub open spec fn mark_as_advanced_spec_model() -> SpecModel {
    SpecModel {
        front_positional: 0,
        back_positional: 0,
        keywords: mark_as_advanced_kw_model(),
        sections: Seq::empty(),
        command_line_keywords: Seq::empty(),
        pair_keywords: Seq::empty(),
        property_keywords: Seq::empty(),
        flow_keywords: Seq::empty(),
        flow_positional: false,
        compound_keywords: Seq::empty(),
        once_keywords: Seq::empty(),
    }
}

fn mark_as_advanced_spec() -> (r: CommandSpec)
    ensures
        r.model() == mark_as_advanced_spec_model(),
{
    let g0 = mark_as_advanced_kw();
    let kw = g0;
    let sections = Vec::new();
    let r = CommandSpec {
        front_positional: 0,
        back_positional: 0,
        keywords: kw,
        sections: sections,
        command_line_keywords: Vec::new(),
        pair_keywords: Vec::new(),
        property_keywords: Vec::new(),
        flow_keywords: Vec::new(),
        flow_positional: false,
        compound_keywords: Vec::new(),
        once_keywords: Vec::new(),
    };
    proof {
        lemma_kws_model(r.keywords, 0);
        lemma_secs_model(r.sections, 0);
        let m = mark_as_advanced_spec_model();
        assert(strs_model(r.command_line_keywords@) =~= m.command_line_keywords);
        assert(strs_model(r.pair_keywords@) =~= m.pair_keywords);
        assert(strs_model(r.property_keywords@) =~= m.property_keywords);
        assert(strs_model(r.flow_keywords@) =~= m.flow_keywords);
        assert(pairs_model(r.compound_keywords@) =~= m.compound_keywords);
        assert(strs_model(r.once_keywords@) =~= m.once_keywords);
        assert(r.model() == m);
    }
    r
}

pub open spec fn option_spec_model() -> SpecModel {
    SpecModel {
        front_positional: 0,
        back_positional: 0,
        keywords: Seq::empty(),
        sections: Seq::empty(),
        command_line_keywords: Seq::empty(),
        pair_keywords: Seq::empty(),
        property_keywords: Seq::empty(),
        flow_keywords: Seq::empty(),
        flow_positional: false,
        compound_keywords: Seq::empty(),
        once_keywords: Seq::empty(),
    }
}

fn option_spec() -> (r: CommandSpec)
    ensures
        r.model() == option_spec_model(),
{
    let kw = Vec::new();
    let sections = Vec::new();
    let r = CommandSpec {
        front_positional: 0,
        back_positional: 0,
        keywords: kw,
        sections: sections,
        command_line_keywords: Vec::new(),
        pair_keywords: Vec::new(),
        property_keywords: Vec::new(),
        flow_keywords: Vec::new(),
        flow_positional: false,
        compound_keywords: Vec::new(),
        once_keywords: Vec::new(),
    };
    proof {
        lemma_kws_model(r.keywords, 0);
        lemma_secs_model(r.sections, 0);
        let m = option_spec_model();
        assert(strs_model(r.command_line_keywords@) =~= m.command_line_keywords);
        assert(strs_model(r.pair_keywords@) =~= m.pair_keywords);
        assert(strs_model(r.property_keywords@) =~= m.property_keywords);
        assert(strs_model(r.flow_keywords@) =~= m.flow_keywords);
        assert(pairs_model(r.compound_keywords@) =~= m.compound_keywords);
        assert(strs_model(r.once_keywords@) =~= m.once_keywords);
        assert(r.model() == m);
    }
    r
}

pub open spec fn unset_kw_model() -> Seq<(Seq<char>, KwModel)> {
    seq![("CACHE"@, KwModel::Option), ("PARENT_SCOPE"@, KwModel::Option)]
}

fn unset_kw() -> (r: Vec<(&'static str, KwType)>)
    ensures
        kws_model(r, 0) == unset_kw_model(),
{
    
    let r = vec![("CACHE", KwType::Option), ("PARENT_SCOPE", KwType::Option)];
    proof {
        lemma_kws_model(r, 0);
        assert(kws_model(r, 0) =~= unset_kw_model());
    }
    r
}

pub open spec fn unset_spec_model() -> SpecModel {
    SpecModel {
        front_positional: 1,
        back_positional: 0,
        keywords: unset_kw_model(),
        sections: Seq::empty(),
        command_line_keywords: Seq::empty(),
        pair_keywords: Seq::empty(),
        property_keywords: Seq::empty(),
        flow_keywords: Seq::empty(),
        flow_positional: false,
        compound_keywords: Seq::empty(),
        once_keywords: Seq::empty(),
    }
}

fn unset_spec() -> (r: CommandSpec)
    ensures
        r.model() == unset_spec_model(),
{
    let g0 = unset_kw();
    let kw = g0;
    let sections = Vec::new();
    let r = CommandSpec {
        front_positional: 1,
        back_positional: 0,
        keywords: kw,
        sections: sections,
        command_line_keywords: Vec::new(),
        pair_keywords: Vec::new(),
        property_keywords: Vec::new(),
        flow_keywords: Vec::new(),
        flow_positional: false,
        compound_keywords: Vec::new(),
        once_keywords: Vec::new(),
    };
    proof {
        lemma_kws_model(r.keywords, 0);
        lemma_secs_model(r.sections, 0);
        let m = unset_spec_model();
        assert(strs_model(r.command_line_keywords@) =~= m.command_line_keywords);
        assert(strs_model(r.pair_keywords@) =~= m.pair_keywords);
        assert(strs_model(r.property_keywords@) =~= m.property_keywords);
        assert(strs_model(r.flow_keywords@) =~= m.flow_keywords);
        assert(pairs_model(r.compound_keywords@) =~= m.compound_keywords);
        assert(strs_model(r.once_keywords@) =~= m.once_keywords);
        assert(r.model() == m);
    }
    r
}

pub open spec fn block_kw_model() -> Seq<(Seq<char>, KwModel)> {
    seq![("SCOPE_FOR"@, KwModel::MultiValue), ("PROPAGATE"@, KwModel::MultiValue)]
}

fn block_kw() -> (r: Vec<(&'static str, KwType)>)
    ensures
        kws_model(r, 0) == block_kw_model(),
{
    
    let r = vec![("SCOPE_FOR", KwType::MultiValue), ("PROPAGATE", KwType::MultiValue)];
    proof {
        lemma_kws_model(r, 0);
        assert(kws_model(r, 0) =~= block_kw_model());
    }
    r
}

pub open spec fn block_spec_model() -> SpecModel {
    SpecModel {
        front_positional: 0,
        back_positional: 0,
        keywords: block_kw_model(),
        sections: Seq::empty(),
        command_line_keywords: Seq::empty(),
        pair_keywords: Seq::empty(),
        property_keywords: Seq::empty(),
        flow_keywords: Seq::empty(),
        flow_positional: false,
        compound_keywords: Seq::empty(),
        once_keywords: Seq::empty(),
    }
}

fn block_spec() -> (r: CommandSpec)
    ensures
        r.model() == block_spec_model(),
{
    let g0 = block_kw();
    let kw = g0;
    let sections = Vec::new();
    let r = CommandSpec {
        front_positional: 0,
        back_positional: 0,
        keywords: kw,
        sections: sections,
        command_line_keywords: Vec::new(),
        pair_keywords: Vec::new(),
        property_keywords: Vec::new(),
        flow_keywords: Vec::new(),
        flow_positional: false,
        compound_keywords: Vec::new(),
        once_keywords: Vec::new(),
    };
    proof {
        lemma_kws_model(r.keywords, 0);
        lemma_secs_model(r.sections, 0);
        let m = block_spec_model();
        assert(strs_model(r.command_line_keywords@) =~= m.command_line_keywords);
        assert(strs_model(r.pair_keywords@) =~= m.pair_keywords);
        assert(strs_model(r.property_keywords@) =~= m.property_keywords);
        assert(strs_model(r.flow_keywords@) =~= m.flow_keywords);
        assert(pairs_model(r.compound_keywords@) =~= m.compound_keywords);
        assert(strs_model(r.once_keywords@) =~= m.once_keywords);
        assert(r.model() == m);
    }
    r
}

pub open spec fn return_kw_model() -> Seq<(Seq<char>, KwModel)> {
    seq![("PROPAGATE"@, KwModel::MultiValue)]
}

fn return_kw() -> (r: Vec<(&'static str, KwType)>)
    ensures
        kws_model(r, 0) == return_kw_model(),
{
    
    let r = vec![("PROPAGATE", KwType::MultiValue)];
    proof {
        lemma_kws_model(r, 0);
        assert(kws_model(r, 0) =~= return_kw_model());
    }
    r
}

pub open spec fn return_spec_model() -> SpecModel {
    SpecModel {
        front_positional: 0,
        back_positional: 0,
        keywords: return_kw_model(),
        sections: Seq::empty(),
        command_line_keywords: Seq::empty(),
        pair_keywords: Seq::empty(),
        property_keywords: Seq::empty(),
        flow_keywords: Seq::empty(),
        flow_positional: false,
        compound_keywords: Seq::empty(),
        once_keywords: Seq::empty(),
    }
}

fn return_spec() -> (r: CommandSpec)
    ensures
        r.model() == return_spec_model(),
{
    let g0 = return_kw();
    let kw = g0;
    let sections = Vec::new();
    let r = CommandSpec {
        front_positional: 0,
        back_positional: 0,
        keywords: kw,
        sections: sections,
        command_line_keywords: Vec::new(),
        pair_keywords: Vec::new(),
        property_keywords: Vec::new(),
        flow_keywords: Vec::new(),
        flow_positional: false,
        compound_keywords: Vec::new(),
        once_keywords: Vec::new(),
    };
    proof {
        lemma_kws_model(r.keywords, 0);
        lemma_secs_model(r.sections, 0);
        let m = return_spec_model();
        assert(strs_model(r.command_line_keywords@) =~= m.command_line_keywords);
        assert(strs_model(r.pair_keywords@) =~= m.pair_keywords);
        assert(strs_model(r.property_keywords@) =~= m.property_keywords);
        assert(strs_model(r.flow_keywords@) =~= m.flow_keywords);
        assert(pairs_model(r.compound_keywords@) =~= m.compound_keywords);
        assert(strs_model(r.once_keywords@) =~= m.once_keywords);
        assert(r.model() == m);
    }
    r
}

pub open spec fn include_directories_kw_model() -> Seq<(Seq<char>, KwModel)> {
    seq![("AFTER"@, KwModel::Option), ("BEFORE"@, KwModel::Option), ("SYSTEM"@, KwModel::Option)]
}

fn include_directories_kw() -> (r: Vec<(&'static str, KwType)>)
    ensures
        kws_model(r, 0) == include_directories_kw_model(),
{
    
    let r = vec![("AFTER", KwType::Option), ("BEFORE", KwType::Option), ("SYSTEM", KwType::Option)];
    proof {
        lemma_kws_model(r, 0);
        assert(kws_model(r, 0) =~= include_directories_kw_model());
    }
    r
}

pub open spec fn include_directories_spec_model() -> SpecModel {
    SpecModel {
        front_positional: 0,
        back_positional: 0,
        keywords: include_directories_kw_model(),
        sections: Seq::empty(),
        command_line_keywords: Seq::empty(),
        pair_keywords: Seq::empty(),
        property_keywords: Seq::empty(),
        flow_keywords: Seq::empty(),
        flow_positional: false,
        compound_keywords: Seq::empty(),
        once_keywords: Seq::empty(),
    }
}

fn include_directories_spec() -> (r: CommandSpec)
    ensures
        r.model() == include_directories_spec_model(),
{
    let g0 = include_directories_kw();
    let kw = g0;
    let sections = Vec::new();
    let r = CommandSpec {
        front_positional: 0,
        back_positional: 0,
        keywords: kw,
        sections: sections,
        command_line_keywords: Vec::new(),
        pair_keywords: Vec::new(),
        property_keywords: Vec::new(),
        flow_keywords: Vec::new(),
        flow_positional: false,
        compound_keywords: Vec::new(),
        once_keywords: Vec::new(),
    };
    proof {
        lemma_kws_model(r.keywords, 0);
        lemma_secs_model(r.sections, 0);
        let m = include_directories_spec_model();
        assert(strs_model(r.command_line_keywords@) =~= m.command_line_keywords);
        assert(strs_model(r.pair_keywords@) =~= m.pair_keywords);
        assert(strs_model(r.property_keywords@) =~= m.property_keywords);
        assert(strs_model(r.flow_keywords@) =~= m.flow_keywords);
        assert(pairs_model(r.compound_keywords@) =~= m.compound_keywords);
        assert(strs_model(r.once_keywords@) =~= m.once_keywords);
        assert(r.model() == m);
    }
    r
}

pub open spec fn link_directories_kw_model() -> Seq<(Seq<char>, KwModel)> {
    seq![("AFTER"@, KwModel::Option), ("BEFORE"@, KwModel::Option)]
}

fn link_directories_kw() -> (r: Vec<(&'static str, KwType)>)
    ensures
        kws_model(r, 0) == link_directories_kw_model(),
{
    
    let r = vec![("AFTER", KwType::Option), ("BEFORE", KwType::Option)];
    proof {
        lemma_kws_model(r, 0);
        assert(kws_model(r, 0) =~= link_directories_kw_model());
    }
    r
}

pub open spec fn link_directories_spec_model() -> SpecModel {
    SpecModel {
        front_positional: 0,
        back_positional: 0,
        keywords: link_directories_kw_model(),
        sections: Seq::empty(),
        command_line_keywords: Seq::empty(),
        pair_keywords: Seq::empty(),
        property_keywords: Seq::empty(),
        flow_keywords: Seq::empty(),
        flow_positional: false,
        compound_keywords: Seq::empty(),
        once_keywords: Seq::empty(),
    }
}

fn link_directories_spec() -> (r: CommandSpec)
    ensures
        r.model() == link_directories_spec_model(),
{
    let g0 = link_directories_kw();
    let kw = g0;
    let sections = Vec::new();
    let r = CommandSpec {
        front_positional: 0,
        back_positional: 0,
        keywords: kw,
        sections: sections,
        command_line_keywords: Vec::new(),
        pair_keywords: Vec::new(),
        property_keywords: Vec::new(),
        flow_keywords: Vec::new(),
        flow_positional: false,
        compound_keywords: Vec::new(),
        once_keywords: Vec::new(),
    };
    proof {
        lemma_kws_model(r.keywords, 0);
        lemma_secs_model(r.sections, 0);
        let m = link_directories_spec_model();
        assert(strs_model(r.command_line_keywords@) =~= m.command_line_keywords);
        assert(strs_model(r.pair_keywords@) =~= m.pair_keywords);
        assert(strs_model(r.property_keywords@) =~= m.property_keywords);
        assert(strs_model(r.flow_keywords@) =~= m.flow_keywords);
        assert(pairs_model(r.compound_keywords@) =~= m.compound_keywords);
        assert(strs_model(r.once_keywords@) =~= m.once_keywords);
        assert(r.model() == m);
    }
    r
}

pub open spec fn link_libraries_sections_model() -> Seq<(Seq<char>, nat, Seq<(Seq<char>, KwModel)>)> {
    seq![("PUBLIC"@, 0, tll_sec_sub_model()), ("PRIVATE"@, 0, tll_sec_sub_model()), ("INTERFACE"@, 0, tll_sec_sub_model()), ("LINK_PUBLIC"@, 0, tll_sec_sub_model()), ("LINK_PRIVATE"@, 0, tll_sec_sub_model()), ("LINK_INTERFACE_LIBRARIES"@, 0, tll_sec_sub_model())]
}

fn link_libraries_sections() -> (r: Vec<(&'static str, usize, Vec<(&'static str, KwType)>)>)
    ensures
        secs_model(r, 0) == link_libraries_sections_model(),
{
    let g0 = tll_sec_sub();
    let s0 = g0;
    proof {
        lemma_kws_model(s0, 0);
        assert(kws_model(s0, 0) =~= tll_sec_sub_model());
    }
    let g3 = tll_sec_sub();
    let s3 = g3;
    proof {
        lemma_kws_model(s3, 0);
        assert(kws_model(s3, 0) =~= tll_sec_sub_model());
    }
    let g6 = tll_sec_sub();
    let s6 = g6;
    proof {
        lemma_kws_model(s6, 0);
        assert(kws_model(s6, 0) =~= tll_sec_sub_model());
    }
    let g9 = tll_sec_sub();
    let s9 = g9;
    proof {
        lemma_kws_model(s9, 0);
        assert(kws_model(s9, 0) =~= tll_sec_sub_model());
    }
    let g12 = tll_sec_sub();
    let s12 = g12;
    proof {
        lemma_kws_model(s12, 0);
        assert(kws_model(s12, 0) =~= tll_sec_sub_model());
    }
    let g15 = tll_sec_sub();
    let s15 = g15;
    proof {
        lemma_kws_model(s15, 0);
        assert(kws_model(s15, 0) =~= tll_sec_sub_model());
    }
    let r = vec![("PUBLIC", 0, s0), ("PRIVATE", 0, s3), ("INTERFACE", 0, s6), ("LINK_PUBLIC", 0, s9), ("LINK_PRIVATE", 0, s12), ("LINK_INTERFACE_LIBRARIES", 0, s15)];
    proof {
        lemma_secs_model(r, 0);
        assert(secs_model(r, 0) =~= link_libraries_sections_model());
    }
    r
}

pub open spec fn link_libraries_spec_model() -> SpecModel {
    SpecModel {
        front_positional: 0,
        back_positional: 0,
        keywords: Seq::empty(),
        sections: link_libraries_sections_model(),
        command_line_keywords: seq!["debug"@, "optimized"@, "general"@],
        pair_keywords: Seq::empty(),
        property_keywords: Seq::empty(),
        flow_keywords: Seq::empty(),
        flow_positional: false,
        compound_keywords: Seq::empty(),
        once_keywords: Seq::empty(),
    }
}

fn link_libraries_spec() -> (r: CommandSpec)
    ensures
        r.model() == link_libraries_spec_model(),
{
    let kw = Vec::new();
    let g1 = link_libraries_sections();
    let sections = g1;
    let r = CommandSpec {
        front_positional: 0,
        back_positional: 0,
        keywords: kw,
        sections: sections,
        command_line_keywords: vec!["debug", "optimized", "general"],
        pair_keywords: Vec::new(),
        property_keywords: Vec::new(),
        flow_keywords: Vec::new(),
        flow_positional: false,
        compound_keywords: Vec::new(),
        once_keywords: Vec::new(),
    };
    proof {
        lemma_kws_model(r.keywords, 0);
        lemma_secs_model(r.sections, 0);
        let m = link_libraries_spec_model();
        assert(strs_model(r.command_line_keywords@) =~= m.command_line_keywords);
        assert(strs_model(r.pair_keywords@) =~= m.pair_keywords);
        assert(strs_model(r.property_keywords@) =~= m.property_keywords);
        assert(strs_model(r.flow_keywords@) =~= m.flow_keywords);
        assert(pairs_model(r.compound_keywords@) =~= m.compound_keywords);
        assert(strs_model(r.once_keywords@) =~= m.once_keywords);
        assert(r.model() == m);
    }
    r
}

pub open spec fn include_external_msproject_kw_model() -> Seq<(Seq<char>, KwModel)> {
    seq![("TYPE"@, KwModel::OneValue), ("GUID"@, KwModel::OneValue), ("PLATFORM"@, KwModel::OneValue)]
}

fn include_external_msproject_kw() -> (r: Vec<(&'static str, KwType)>)
    ensures
        kws_model(r, 0) == include_external_msproject_kw_model(),
{
    
    let r = vec![("TYPE", KwType::OneValue), ("GUID", KwType::OneValue), ("PLATFORM", KwType::OneValue)];
    proof {
        lemma_kws_model(r, 0);
        assert(kws_model(r, 0) =~= include_external_msproject_kw_model());
    }
    r
}

pub open spec fn include_external_msproject_spec_model() -> SpecModel {
    SpecModel {
        front_positional: 2,
        back_positional: 0,
        keywords: include_external_msproject_kw_model(),
        sections: Seq::empty(),
        command_line_keywords: Seq::empty(),
        pair_keywords: Seq::empty(),
        property_keywords: Seq::empty(),
        flow_keywords: Seq::empty(),
        flow_positional: false,
        compound_keywords: Seq::empty(),
        once_keywords: Seq::empty(),
    }
}

fn include_external_msproject_spec() -> (r: CommandSpec)
    ensures
        r.model() == include_external_msproject_spec_model(),
{
    let g0 = include_external_msproject_kw();
    let kw = g0;
    let sections = Vec::new();
    let r = CommandSpec {
        front_positional: 2,
        back_positional: 0,
        keywords: kw,
        sections: sections,
        command_line_keywords: Vec::new(),
        pair_keywords: Vec::new(),
        property_keywords: Vec::new(),
        flow_keywords: Vec::new(),
        flow_positional: false,
        compound_keywords: Vec::new(),
        once_keywords: Vec::new(),
    };
    proof {
        lemma_kws_model(r.keywords, 0);
        lemma_secs_model(r.sections, 0);
        let m = include_external_msproject_spec_model();
        assert(strs_model(r.command_line_keywords@) =~= m.command_line_keywords);
        assert(strs_model(r.pair_keywords@) =~= m.pair_keywords);
        assert(strs_model(r.property_keywords@) =~= m.property_keywords);
        assert(strs_model(r.flow_keywords@) =~= m.flow_keywords);
        assert(pairs_model(r.compound_keywords@) =~= m.compound_keywords);
        assert(strs_model(r.once_keywords@) =~= m.once_keywords);
        assert(r.model() == m);
    }
    r
}

pub open spec fn load_cache_kw_model() -> Seq<(Seq<char>, KwModel)> {
    seq![("READ_WITH_PREFIX"@, KwModel::OneValue), ("EXCLUDE"@, KwModel::MultiValue), ("INCLUDE_INTERNALS"@, KwModel::MultiValue)]
}

fn load_cache_kw() -> (r: Vec<(&'static str, KwType)>)
    ensures
        kws_model(r, 0) == load_cache_kw_model(),
{
    
    let r = vec![("READ_WITH_PREFIX", KwType::OneValue), ("EXCLUDE", KwType::MultiValue), ("INCLUDE_INTERNALS", KwType::MultiValue)];
    proof {
        lemma_kws_model(r, 0);
        assert(kws_model(r, 0) =~= load_cache_kw_model());
    }
    r
}

pub open spec fn load_cache_spec_model() -> SpecModel {
    SpecModel {
        front_positional: 0,
        back_positional: 0,
        keywords: load_cache_kw_model(),
        sections: Seq::empty(),
        command_line_keywords: Seq::empty(),
        pair_keywords: Seq::empty(),
        property_keywords: Seq::empty(),
        flow_keywords: Seq::empty(),
        flow_positional: false,
        compound_keywords: Seq::empty(),
        once_keywords: Seq::empty(),
    }
}

fn load_cache_spec() -> (r: CommandSpec)
    ensures
        r.model() == load_cache_spec_model(),
{
    let g0 = load_cache_kw();
    let kw = g0;
    let sections = Vec::new();
    let r = CommandSpec {
        front_positional: 0,
        back_positional: 0,
        keywords: kw,
        sections: sections,
        command_line_keywords: Vec::new(),
        pair_keywords: Vec::new(),
        property_keywords: Vec::new(),
        flow_keywords: Vec::new(),
        flow_positional: false,
        compound_keywords: Vec::new(),
        once_keywords: Vec::new(),
    };
    proof {
        lemma_kws_model(r.keywords, 0);
        lemma_secs_model(r.sections, 0);
        let m = load_cache_spec_model();
        assert(strs_model(r.command_line_keywords@) =~= m.command_line_keywords);
        assert(strs_model(r.pair_keywords@) =~= m.pair_keywords);
        assert(strs_model(r.property_keywords@) =~= m.property_keywords);
        assert(strs_model(r.flow_keywords@) =~= m.flow_keywords);
        assert(pairs_model(r.compound_keywords@) =~= m.compound_keywords);
        assert(strs_model(r.once_keywords@) =~= m.once_keywords);
        assert(r.model() == m);
    }
    r
}

pub open spec fn create_test_sourcelist_kw_model() -> Seq<(Seq<char>, KwModel)> {
    seq![("EXTRA_INCLUDE"@, KwModel::OneValue), ("FUNCTION"@, KwModel::OneValue)]
}

fn create_test_sourcelist_kw() -> (r: Vec<(&'static str, KwType)>)
    ensures
        kws_model(r, 0) == create_test_sourcelist_kw_model(),
{
    
    let r = vec![("EXTRA_INCLUDE", KwType::OneValue), ("FUNCTION", KwType::OneValue)];
    proof {
        lemma_kws_model(r, 0);
        assert(kws_model(r, 0) =~= create_test_sourcelist_kw_model());
    }
    r
}

pub open spec fn create_test_sourcelist_spec_model() -> SpecModel {
    SpecModel {
        front_positional: 2,
        back_positional: 0,
        keywords: create_test_sourcelist_kw_model(),
        sections: Seq::empty(),
        command_line_keywords: Seq::empty(),
        pair_keywords: Seq::empty(),
        property_keywords: Seq::empty(),
        flow_keywords: Seq::empty(),
        flow_positional: false,
        compound_keywords: Seq::empty(),
        once_keywords: Seq::empty(),
    }
}

fn create_test_sourcelist_spec() -> (r: CommandSpec)
    ensures
        r.model() == create_test_sourcelist_spec_model(),
{
    let g0 = create_test_sourcelist_kw();
    let kw = g0;
    let sections = Vec::new();
    let r = CommandSpec {
        front_positional: 2,
        back_positional: 0,
        keywords: kw,
        sections: sections,
        command_line_keywords: Vec::new(),
        pair_keywords: Vec::new(),
        property_keywords: Vec::new(),
        flow_keywords: Vec::new(),
        flow_positional: false,
        compound_keywords: Vec::new(),
        once_keywords: Vec::new(),
    };
    proof {
        lemma_kws_model(r.keywords, 0);
        lemma_secs_model(r.sections, 0);
        let m = create_test_sourcelist_spec_model();
        assert(strs_model(r.command_line_keywords@) =~= m.command_line_keywords);
        assert(strs_model(r.pair_keywords@) =~= m.pair_keywords);
        assert(strs_model(r.property_keywords@) =~= m.property_keywords);
        assert(strs_model(r.flow_keywords@) =~= m.flow_keywords);
        assert(pairs_model(r.compound_keywords@) =~= m.compound_keywords);
        assert(strs_model(r.once_keywords@) =~= m.once_keywords);
        assert(r.model() == m);
    }
    r
}

pub open spec fn ctest_build_kw_model() -> Seq<(Seq<char>, KwModel)> {
    seq![("APPEND"@, KwModel::Option), ("QUIET"@, KwModel::Option), ("BUILD"@, KwModel::OneValue), ("CONFIGURATION"@, KwModel::OneValue), ("FLAGS"@, KwModel::OneValue), ("PROJECT_NAME"@, KwModel::OneValue), ("TARGET"@, KwModel::OneValue), ("NUMBER_ERRORS"@, KwModel::OneValue), ("NUMBER_WARNINGS"@, KwModel::OneValue), ("RETURN_VALUE"@, KwModel::OneValue), ("CAPTURE_CMAKE_ERROR"@, KwModel::OneValue), ("PARALLEL_LEVEL"@, KwModel::OneValue)]
}

fn ctest_build_kw() -> (r: Vec<(&'static str, KwType)>)
    ensures
        kws_model(r, 0) == ctest_build_kw_model(),
{
    
    let r = vec![("APPEND", KwType::Option), ("QUIET", KwType::Option), ("BUILD", KwType::OneValue), ("CONFIGURATION", KwType::OneValue), ("FLAGS", KwType::OneValue), ("PROJECT_NAME", KwType::OneValue), ("TARGET", KwType::OneValue), ("NUMBER_ERRORS", KwType::OneValue), ("NUMBER_WARNINGS", KwType::OneValue), ("RETURN_VALUE", KwType::OneValue), ("CAPTURE_CMAKE_ERROR", KwType::OneValue), ("PARALLEL_LEVEL", KwType::OneValue)];
    proof {
        lemma_kws_model(r, 0);
        assert(kws_model(r, 0) =~= ctest_build_kw_model());
    }
    r
}

pub open spec fn ctest_build_spec_model() -> SpecModel {
    SpecModel {
        front_positional: 0,
        back_positional: 0,
        keywords: ctest_build_kw_model(),
        sections: Seq::empty(),
        command_line_keywords: Seq::empty(),
        pair_keywords: Seq::empty(),
        property_keywords: Seq::empty(),
        flow_keywords: Seq::empty(),
        flow_positional: false,
        compound_keywords: Seq::empty(),
        once_keywords: Seq::empty(),
    }
}

fn ctest_build_spec() -> (r: CommandSpec)
    ensures
        r.model() == ctest_build_spec_model(),
{
    let g0 = ctest_build_kw();
    let kw = g0;
    let sections = Vec::new();
    let r = CommandSpec {
        front_positional: 0,
        back_positional: 0,
        keywords: kw,
        sections: sections,
        command_line_keywords: Vec::new(),
        pair_keywords: Vec::new(),
        property_keywords: Vec::new(),
        flow_keywords: Vec::new(),
        flow_positional: false,
        compound_keywords: Vec::new(),
        once_keywords: Vec::new(),
    };
    proof {
        lemma_kws_model(r.keywords, 0);
        lemma_secs_model(r.sections, 0);
        let m = ctest_build_spec_model();
        assert(strs_model(r.command_line_keywords@) =~= m.command_line_keywords);
        assert(strs_model(r.pair_keywords@) =~= m.pair_keywords);
        assert(strs_model(r.property_keywords@) =~= m.property_keywords);
        assert(strs_model(r.flow_keywords@) =~= m.flow_keywords);
        assert(pairs_model(r.compound_keywords@) =~= m.compound_keywords);
        assert(strs_model(r.once_keywords@) =~= m.once_keywords);
        assert(r.model() == m);
    }
    r
}

pub open spec fn ctest_configure_kw_model() -> Seq<(Seq<char>, KwModel)> {
    seq![("APPEND"@, KwModel::Option), ("QUIET"@, KwModel::Option), ("BUILD"@, KwModel::OneValue), ("SOURCE"@, KwModel::OneValue), ("RETURN_VALUE"@, KwModel::OneValue), ("CAPTURE_CMAKE_ERROR"@, KwModel::OneValue), ("OPTIONS"@, KwModel::MultiValue)]
}

fn ctest_configure_kw() -> (r: Vec<(&'static str, KwType)>)
    ensures
        kws_model(r, 0) == ctest_configure_kw_model(),
{
    
    let r = vec![("APPEND", KwType::Option), ("QUIET", KwType::Option), ("BUILD", KwType::OneValue), ("SOURCE", KwType::OneValue), ("RETURN_VALUE", KwType::OneValue), ("CAPTURE_CMAKE_ERROR", KwType::OneValue), ("OPTIONS", KwType::MultiValue)];
    proof {
        lemma_kws_model(r, 0);
        assert(kws_model(r, 0) =~= ctest_configure_kw_model());
    }
    r
}

pub open spec fn ctest_configure_spec_model() -> SpecModel {
    SpecModel {
        front_positional: 0,
        back_positional: 0,
        keywords: ctest_configure_kw_model(),
        sections: Seq::empty(),
        command_line_keywords: Seq::empty(),
        pair_keywords: Seq::empty(),
        property_keywords: Seq::empty(),
        flow_keywords: Seq::empty(),
        flow_positional: false,
        compound_keywords: Seq::empty(),
        once_keywords: Seq::empty(),
    }
}

fn ctest_configure_spec() -> (r: CommandSpec)
    ensures
        r.model() == ctest_configure_spec_model(),
{
    let g0 = ctest_configure_kw();
    let kw = g0;
    let sections = Vec::new();
    let r = CommandSpec {
        front_positional: 0,
        back_positional: 0,
        keywords: kw,
        sections: sections,
        command_line_keywords: Vec::new(),
        pair_keywords: Vec::new(),
        property_keywords: Vec::new(),
        flow_keywords: Vec::new(),
        flow_positional: false,
        compound_keywords: Vec::new(),
        once_keywords: Vec::new(),
    };
    proof {
        lemma_kws_model(r.keywords, 0);
        lemma_secs_model(r.sections, 0);
        let m = ctest_configure_spec_model();
        assert(strs_model(r.command_line_keywords@) =~= m.command_line_keywords);
        assert(strs_model(r.pair_keywords@) =~= m.pair_keywords);
        assert(strs_model(r.property_keywords@) =~= m.property_keywords);
        assert(strs_model(r.flow_keywords@) =~= m.flow_keywords);
        assert(pairs_model(r.compound_keywords@) =~= m.compound_keywords);
        assert(strs_model(r.once_keywords@) =~= m.once_keywords);
        assert(r.model() == m);
    }
    r
}

pub open spec fn ctest_coverage_kw_model() -> Seq<(Seq<char>, KwModel)> {
    seq![("APPEND"@, KwModel::Option), ("QUIET"@, KwModel::Option), ("BUILD"@, KwModel::OneValue), ("RETURN_VALUE"@, KwModel::OneValue), ("CAPTURE_CMAKE_ERROR"@, KwModel::OneValue), ("LABELS"@, KwModel::MultiValue)]
}

fn ctest_coverage_kw() -> (r: Vec<(&'static str, KwType)>)
    ensures
        kws_model(r, 0) == ctest_coverage_kw_model(),
{
    
    let r = vec![("APPEND", KwType::Option), ("QUIET", KwType::Option), ("BUILD", KwType::OneValue), ("RETURN_VALUE", KwType::OneValue), ("CAPTURE_CMAKE_ERROR", KwType::OneValue), ("LABELS", KwType::MultiValue)];
    proof {
        lemma_kws_model(r, 0);
        assert(kws_model(r, 0) =~= ctest_coverage_kw_model());
    }
    r
}

pub open spec fn ctest_coverage_spec_model() -> SpecModel {
    SpecModel {
        front_positional: 0,
        back_positional: 0,
        keywords: ctest_coverage_kw_model(),
        sections: Seq::empty(),
        command_line_keywords: Seq::empty(),
        pair_keywords: Seq::empty(),
        property_keywords: Seq::empty(),
        flow_keywords: Seq::empty(),
        flow_positional: false,
        compound_keywords: Seq::empty(),
        once_keywords: Seq::empty(),
    }
}

fn ctest_coverage_spec() -> (r: CommandSpec)
    ensures
        r.model() == ctest_coverage_spec_model(),
{
    let g0 = ctest_coverage_kw();
    let kw = g0;
    let sections = Vec::new();
    let r = CommandSpec {
        front_positional: 0,
        back_positional: 0,
        keywords: kw,
        sections: sections,
        command_line_keywords: Vec::new(),
        pair_keywords: Vec::new(),
        property_keywords: Vec::new(),
        flow_keywords: Vec::new(),
        flow_positional: false,
        compound_keywords: Vec::new(),
        once_keywords: Vec::new(),
    };
    proof {
        lemma_kws_model(r.keywords, 0);
        lemma_secs_model(r.sections, 0);
        let m = ctest_coverage_spec_model();
        assert(strs_model(r.command_line_keywords@) =~= m.command_line_keywords);
        assert(strs_model(r.pair_keywords@) =~= m.pair_keywords);
        assert(strs_model(r.property_keywords@) =~= m.property_keywords);
        assert(strs_model(r.flow_keywords@) =~= m.flow_keywords);
        assert(pairs_model(r.compound_keywords@) =~= m.compound_keywords);
        assert(strs_model(r.once_keywords@) =~= m.once_keywords);
        assert(r.model() == m);
    }
    r
}

pub open spec fn ctest_empty_binary_directory_spec_model() -> SpecModel {
    SpecModel {
        front_positional: 1,
        back_positional: 0,
        keywords: Seq::empty(),
        sections: Seq::empty(),
        command_line_keywords: Seq::empty(),
        pair_keywords: Seq::empty(),
        property_keywords: Seq::empty(),
        flow_keywords: Seq::empty(),
        flow_positional: false,
        compound_keywords: Seq::empty(),
        once_keywords: Seq::empty(),
    }
}

fn ctest_empty_binary_directory_spec() -> (r: CommandSpec)
    ensures
        r.model() == ctest_empty_binary_directory_spec_model(),
{
    let kw = Vec::new();
    let sections = Vec::new();
    let r = CommandSpec {
        front_positional: 1,
        back_positional: 0,
        keywords: kw,
        sections: sections,
        command_line_keywords: Vec::new(),
        pair_keywords: Vec::new(),
        property_keywords: Vec::new(),
        flow_keywords: Vec::new(),
        flow_positional: false,
        compound_keywords: Vec::new(),
        once_keywords: Vec::new(),
    };
    proof {
        lemma_kws_model(r.keywords, 0);
        lemma_secs_model(r.sections, 0);
        let m = ctest_empty_binary_directory_spec_model();
        assert(strs_model(r.command_line_keywords@) =~= m.command_line_keywords);
        assert(strs_model(r.pair_keywords@) =~= m.pair_keywords);
        assert(strs_model(r.property_keywords@) =~= m.property_keywords);
        assert(strs_model(r.flow_keywords@) =~= m.flow_keywords);
        assert(pairs_model(r.compound_keywords@) =~= m.compound_keywords);
        assert(strs_model(r.once_keywords@) =~= m.once_keywords);
        assert(r.model() == m);
    }
    r
}

pub open spec fn ctest_memcheck_kw_model() -> Seq<(Seq<char>, KwModel)> {
    seq![("APPEND"@, KwModel::Option), ("QUIET"@, KwModel::Option), ("BUILD"@, KwModel::OneValue), ("START"@, KwModel::OneValue), ("END"@, KwModel::OneValue), ("STRIDE"@, KwModel::OneValue), ("EXCLUDE"@, KwModel::OneValue), ("INCLUDE"@, KwModel::OneValue), ("EXCLUDE_LABEL"@, KwModel::OneValue), ("INCLUDE_LABEL"@, KwModel::OneValue), ("EXCLUDE_FIXTURE"@, KwModel::OneValue), ("EXCLUDE_FIXTURE_SETUP"@, KwModel::OneValue), ("EXCLUDE_FIXTURE_CLEANUP"@, KwModel::OneValue), ("PARALLEL_LEVEL"@, KwModel::OneValue), ("TEST_LOAD"@, KwModel::OneValue), ("SCHEDULE_RANDOM"@, KwModel::OneValue), ("STOP_TIME"@, KwModel::OneValue), ("RETURN_VALUE"@, KwModel::OneValue), ("DEFECT_COUNT"@, KwModel::OneValue), ("CAPTURE_CMAKE_ERROR"@, KwModel::OneValue)]
}

fn ctest_memcheck_kw() -> (r: Vec<(&'static str, KwType)>)
    ensures
        kws_model(r, 0) == ctest_memcheck_kw_model(),
{
    
    let r = vec![("APPEND", KwType::Option), ("QUIET", KwType::Option), ("BUILD", KwType::OneValue), ("START", KwType::OneValue), ("END", KwType::OneValue), ("STRIDE", KwType::OneValue), ("EXCLUDE", KwType::OneValue), ("INCLUDE", KwType::OneValue), ("EXCLUDE_LABEL", KwType::OneValue), ("INCLUDE_LABEL", KwType::OneValue), ("EXCLUDE_FIXTURE", KwType::OneValue), ("EXCLUDE_FIXTURE_SETUP", KwType::OneValue), ("EXCLUDE_FIXTURE_CLEANUP", KwType::OneValue), ("PARALLEL_LEVEL", KwType::OneValue), ("TEST_LOAD", KwType::OneValue), ("SCHEDULE_RANDOM", KwType::OneValue), ("STOP_TIME", KwType::OneValue), ("RETURN_VALUE", KwType::OneValue), ("DEFECT_COUNT", KwType::OneValue), ("CAPTURE_CMAKE_ERROR", KwType::OneValue)];
    proof {
        lemma_kws_model(r, 0);
        assert(kws_model(r, 0) =~= ctest_memcheck_kw_model());
    }
    r
}

pub open spec fn ctest_memcheck_spec_model() -> SpecModel {
    SpecModel {
        front_positional: 0,
        back_positional: 0,
        keywords: ctest_memcheck_kw_model(),
        sections: Seq::empty(),
        command_line_keywords: Seq::empty(),
        pair_keywords: Seq::empty(),
        property_keywords: Seq::empty(),
        flow_keywords: Seq::empty(),
        flow_positional: false,
        compound_keywords: Seq::empty(),
        once_keywords: Seq::empty(),
    }
}

fn ctest_memcheck_spec() -> (r: CommandSpec)
    ensures
        r.model() == ctest_memcheck_spec_model(),
{
    let g0 = ctest_memcheck_kw();
    let kw = g0;
    let sections = Vec::new();
    let r = CommandSpec {
        front_positional: 0,
        back_positional: 0,
        keywords: kw,
        sections: sections,
        command_line_keywords: Vec::new(),
        pair_keywords: Vec::new(),
        property_keywords: Vec::new(),
        flow_keywords: Vec::new(),
        flow_positional: false,
        compound_keywords: Vec::new(),
        once_keywords: Vec::new(),
    };
    proof {
        lemma_kws_model(r.keywords, 0);
        lemma_secs_model(r.sections, 0);
        let m = ctest_memcheck_spec_model();
        assert(strs_model(r.command_line_keywords@) =~= m.command_line_keywords);
        assert(strs_model(r.pair_keywords@) =~= m.pair_keywords);
        assert(strs_model(r.property_keywords@) =~= m.property_keywords);
        assert(strs_model(r.flow_keywords@) =~= m.flow_keywords);
        assert(pairs_model(r.compound_keywords@) =~= m.compound_keywords);
        assert(strs_model(r.once_keywords@) =~= m.once_keywords);
        assert(r.model() == m);
    }
    r
}

pub open spec fn ctest_read_custom_files_spec_model() -> SpecModel {
    SpecModel {
        front_positional: 0,
        back_positional: 0,
        keywords: Seq::empty(),
        sections: Seq::empty(),
        command_line_keywords: Seq::empty(),
        pair_keywords: Seq::empty(),
        property_keywords: Seq::empty(),
        flow_keywords: Seq::empty(),
        flow_positional: false,
        compound_keywords: Seq::empty(),
        once_keywords: Seq::empty(),
    }
}

fn ctest_read_custom_files_spec() -> (r: CommandSpec)
    ensures
        r.model() == ctest_read_custom_files_spec_model(),
{
    let kw = Vec::new();
    let sections = Vec::new();
    let r = CommandSpec {
        front_positional: 0,
        back_positional: 0,
        keywords: kw,
        sections: sections,
        command_line_keywords: Vec::new(),
        pair_keywords: Vec::new(),
        property_keywords: Vec::new(),
        flow_keywords: Vec::new(),
        flow_positional: false,
        compound_keywords: Vec::new(),
        once_keywords: Vec::new(),
    };
    proof {
        lemma_kws_model(r.keywords, 0);
        lemma_secs_model(r.sections, 0);
        let m = ctest_read_custom_files_spec_model();
        assert(strs_model(r.command_line_keywords@) =~= m.command_line_keywords);
        assert(strs_model(r.pair_keywords@) =~= m.pair_keywords);
        assert(strs_model(r.property_keywords@) =~= m.property_keywords);
        assert(strs_model(r.flow_keywords@) =~= m.flow_keywords);
        assert(pairs_model(r.compound_keywords@) =~= m.compound_keywords);
        assert(strs_model(r.once_keywords@) =~= m.once_keywords);
        assert(r.model() == m);
    }
    r
}

pub open spec fn ctest_run_script_kw_model() -> Seq<(Seq<char>, KwModel)> {
    seq![("NEW_PROCESS"@, KwModel::Option), ("RETURN_VALUE"@, KwModel::OneValue)]
}

fn ctest_run_script_kw() -> (r: Vec<(&'static str, KwType)>)
    ensures
        kws_model(r, 0) == ctest_run_script_kw_model(),
{
    
    let r = vec![("NEW_PROCESS", KwType::Option), ("RETURN_VALUE", KwType::OneValue)];
    proof {
        lemma_kws_model(r, 0);
        assert(kws_model(r, 0) =~= ctest_run_script_kw_model());
    }
    r
}

pub open spec fn ctest_run_script_spec_model() -> SpecModel {
    SpecModel {
        front_positional: 0,
        back_positional: 0,
        keywords: ctest_run_script_kw_model(),
        sections: Seq::empty(),
        command_line_keywords: Seq::empty(),
        pair_keywords: Seq::empty(),
        property_keywords: Seq::empty(),
        flow_keywords: Seq::empty(),
        flow_positional: false,
        compound_keywords: Seq::empty(),
        once_keywords: Seq::empty(),
    }
}

fn ctest_run_script_spec() -> (r: CommandSpec)
    ensures
        r.model() == ctest_run_script_spec_model(),
{
    let g0 = ctest_run_script_kw();
    let kw = g0;
    let sections = Vec::new();
    let r = CommandSpec {
        front_positional: 0,
        back_positional: 0,
        keywords: kw,
        sections: sections,
        command_line_keywords: Vec::new(),
        pair_keywords: Vec::new(),
        property_keywords: Vec::new(),
        flow_keywords: Vec::new(),
        flow_positional: false,
        compound_keywords: Vec::new(),
        once_keywords: Vec::new(),
    };
    proof {
        lemma_kws_model(r.keywords, 0);
        lemma_secs_model(r.sections, 0);
        let m = ctest_run_script_spec_model();
        assert(strs_model(r.command_line_keywords@) =~= m.command_line_keywords);
        assert(strs_model(r.pair_keywords@) =~= m.pair_keywords);
        assert(strs_model(r.property_keywords@) =~= m.property_keywords);
        assert(strs_model(r.flow_keywords@) =~= m.flow_keywords);
        assert(pairs_model(r.compound_keywords@) =~= m.compound_keywords);
        assert(strs_model(r.once_keywords@) =~= m.once_keywords);
        assert(r.model() == m);
    }
    r
}

pub open spec fn ctest_sleep_spec_model() -> SpecModel {
    SpecModel {
        front_positional: 3,
        back_positional: 0,
        keywords: Seq::empty(),
        sections: Seq::empty(),
        command_line_keywords: Seq::empty(),
        pair_keywords: Seq::empty(),
        property_keywords: Seq::empty(),
        flow_keywords: Seq::empty(),
        flow_positional: false,
        compound_keywords: Seq::empty(),
        once_keywords: Seq::empty(),
    }
}

fn ctest_sleep_spec() -> (r: CommandSpec)
    ensures
        r.model() == ctest_sleep_spec_model(),
{
    let kw = Vec::new();
    let sections = Vec::new();
    let r = CommandSpec {
        front_positional: 3,
        back_positional: 0,
        keywords: kw,
        sections: sections,
        command_line_keywords: Vec::new(),
        pair_keywords: Vec::new(),
        property_keywords: Vec::new(),
        flow_keywords: Vec::new(),
        flow_positional: false,
        compound_keywords: Vec::new(),
        once_keywords: Vec::new(),
    };
    proof {
        lemma_kws_model(r.keywords, 0);
        lemma_secs_model(r.sections, 0);
        let m = ctest_sleep_spec_model();
        assert(strs_model(r.command_line_keywords@) =~= m.command_line_keywords);
        assert(strs_model(r.pair_keywords@) =~= m.pair_keywords);
        assert(strs_model(r.property_keywords@) =~= m.property_keywords);
        assert(strs_model(r.flow_keywords@) =~= m.flow_keywords);
        assert(pairs_model(r.compound_keywords@) =~= m.compound_keywords);
        assert(strs_model(r.once_keywords@) =~= m.once_keywords);
        assert(r.model() == m);
    }
    r
}

pub open spec fn ctest_start_kw_model() -> Seq<(Seq<char>, KwModel)> {
    seq![("QUIET"@, KwModel::Option), ("APPEND"@, KwModel::Option), ("GROUP"@, KwModel::OneValue)]
}

fn ctest_start_kw() -> (r: Vec<(&'static str, KwType)>)
    ensures
        kws_model(r, 0) == ctest_start_kw_model(),
{
    
    let r = vec![("QUIET", KwType::Option), ("APPEND", KwType::Option), ("GROUP", KwType::OneValue)];
    proof {
        lemma_kws_model(r, 0);
        assert(kws_model(r, 0) =~= ctest_start_kw_model());
    }
    r
}

pub open spec fn ctest_start_spec_model() -> SpecModel {
    SpecModel {
        front_positional: 2,
        back_positional: 0,
        keywords: ctest_start_kw_model(),
        sections: Seq::empty(),
        command_line_keywords: Seq::empty(),
        pair_keywords: Seq::empty(),
        property_keywords: Seq::empty(),
        flow_keywords: Seq::empty(),
        flow_positional: false,
        compound_keywords: Seq::empty(),
        once_keywords: Seq::empty(),
    }
}

fn ctest_start_spec() -> (r: CommandSpec)
    ensures
        r.model() == ctest_start_spec_model(),
{
    let g0 = ctest_start_kw();
    let kw = g0;
    let sections = Vec::new();
    let r = CommandSpec {
        front_positional: 2,
        back_positional: 0,
        keywords: kw,
        sections: sections,
        command_line_keywords: Vec::new(),
        pair_keywords: Vec::new(),
        property_keywords: Vec::new(),
        flow_keywords: Vec::new(),
        flow_positional: false,
        compound_keywords: Vec::new(),
        once_keywords: Vec::new(),
    };
    proof {
        lemma_kws_model(r.keywords, 0);
        lemma_secs_model(r.sections, 0);
        let m = ctest_start_spec_model();
        assert(strs_model(r.command_line_keywords@) =~= m.command_line_keywords);
        assert(strs_model(r.pair_keywords@) =~= m.pair_keywords);
        assert(strs_model(r.property_keywords@) =~= m.property_keywords);
        assert(strs_model(r.flow_keywords@) =~= m.flow_keywords);
        assert(pairs_model(r.compound_keywords@) =~= m.compound_keywords);
        assert(strs_model(r.once_keywords@) =~= m.once_keywords);
        assert(r.model() == m);
    }
    r
}

pub open spec fn ctest_submit_kw_model() -> Seq<(Seq<char>, KwModel)> {
    seq![("QUIET"@, KwModel::Option), ("CDASH_UPLOAD"@, KwModel::OneValue), ("CDASH_UPLOAD_TYPE"@, KwModel::OneValue), ("SUBMIT_URL"@, KwModel::OneValue), ("BUILD_ID"@, KwModel::OneValue), ("RETRY_COUNT"@, KwModel::OneValue), ("RETRY_DELAY"@, KwModel::OneValue), ("RETURN_VALUE"@, KwModel::OneValue), ("CAPTURE_CMAKE_ERROR"@, KwModel::OneValue), ("PARTS"@, KwModel::MultiValue), ("FILES"@, KwModel::MultiValue), ("HTTPHEADER"@, KwModel::MultiValue)]
}

fn ctest_submit_kw() -> (r: Vec<(&'static str, KwType)>)
    ensures
        kws_model(r, 0) == ctest_submit_kw_model(),
{
    
    let r = vec![("QUIET", KwType::Option), ("CDASH_UPLOAD", KwType::OneValue), ("CDASH_UPLOAD_TYPE", KwType::OneValue), ("SUBMIT_URL", KwType::OneValue), ("BUILD_ID", KwType::OneValue), ("RETRY_COUNT", KwType::OneValue), ("RETRY_DELAY", KwType::OneValue), ("RETURN_VALUE", KwType::OneValue), ("CAPTURE_CMAKE_ERROR", KwType::OneValue), ("PARTS", KwType::MultiValue), ("FILES", KwType::MultiValue), ("HTTPHEADER", KwType::MultiValue)];
    proof {
        lemma_kws_model(r, 0);
        assert(kws_model(r, 0) =~= ctest_submit_kw_model());
    }
    r
}

pub open spec fn ctest_submit_spec_model() -> SpecModel {
    SpecModel {
        front_positional: 0,
        back_positional: 0,
        keywords: ctest_submit_kw_model(),
        sections: Seq::empty(),
        command_line_keywords: Seq::empty(),
        pair_keywords: Seq::empty(),
        property_keywords: Seq::empty(),
        flow_keywords: Seq::empty(),
        flow_positional: false,
        compound_keywords: Seq::empty(),
        once_keywords: Seq::empty(),
    }
}

fn ctest_submit_spec() -> (r: CommandSpec)
    ensures
        r.model() == ctest_submit_spec_model(),
{
    let g0 = ctest_submit_kw();
    let kw = g0;
    let sections = Vec::new();
    let r = CommandSpec {
        front_positional: 0,
        back_positional: 0,
        keywords: kw,
        sections: sections,
        command_line_keywords: Vec::new(),
        pair_keywords: Vec::new(),
        property_keywords: Vec::new(),
        flow_keywords: Vec::new(),
        flow_positional: false,
        compound_keywords: Vec::new(),
        once_keywords: Vec::new(),
    };
    proof {
        lemma_kws_model(r.keywords, 0);
        lemma_secs_model(r.sections, 0);
        let m = ctest_submit_spec_model();
        assert(strs_model(r.command_line_keywords@) =~= m.command_line_keywords);
        assert(strs_model(r.pair_keywords@) =~= m.pair_keywords);
        assert(strs_model(r.property_keywords@) =~= m.property_keywords);
        assert(strs_model(r.flow_keywords@) =~= m.flow_keywords);
        assert(pairs_model(r.compound_keywords@) =~= m.compound_keywords);
        assert(strs_model(r.once_keywords@) =~= m.once_keywords);
        assert(r.model() == m);
    }
    r
}

pub open spec fn ctest_test_kw_model() -> Seq<(Seq<char>, KwModel)> {
    seq![("APPEND"@, KwModel::Option), ("QUIET"@, KwModel::Option), ("BUILD"@, KwModel::OneValue), ("START"@, KwModel::OneValue), ("END"@, KwModel::OneValue), ("STRIDE"@, KwModel::OneValue), ("EXCLUDE"@, KwModel::OneValue), ("INCLUDE"@, KwModel::OneValue), ("EXCLUDE_LABEL"@, KwModel::OneValue), ("INCLUDE_LABEL"@, KwModel::OneValue), ("EXCLUDE_FIXTURE"@, KwModel::OneValue), ("EXCLUDE_FIXTURE_SETUP"@, KwModel::OneValue), ("EXCLUDE_FIXTURE_CLEANUP"@, KwModel::OneValue), ("PARALLEL_LEVEL"@, KwModel::OneValue), ("RESOURCE_SPEC_FILE"@, KwModel::OneValue), ("TEST_LOAD"@, KwModel::OneValue), ("SCHEDULE_RANDOM"@, KwModel::OneValue), ("STOP_TIME"@, KwModel::OneValue), ("RETURN_VALUE"@, KwModel::OneValue), ("CAPTURE_CMAKE_ERROR"@, KwModel::OneValue), ("INCLUDE_FROM_FILE"@, KwModel::OneValue), ("EXCLUDE_FROM_FILE"@, KwModel::OneValue)]
}

fn ctest_test_kw() -> (r: Vec<(&'static str, KwType)>)
    ensures
        kws_model(r, 0) == ctest_test_kw_model(),
{
    
    let r = vec![("APPEND", KwType::Option), ("QUIET", KwType::Option), ("BUILD", KwType::OneValue), ("START", KwType::OneValue), ("END", KwType::OneValue), ("STRIDE", KwType::OneValue), ("EXCLUDE", KwType::OneValue), ("INCLUDE", KwType::OneValue), ("EXCLUDE_LABEL", KwType::OneValue), ("INCLUDE_LABEL", KwType::OneValue), ("EXCLUDE_FIXTURE", KwType::OneValue), ("EXCLUDE_FIXTURE_SETUP", KwType::OneValue), ("EXCLUDE_FIXTURE_CLEANUP", KwType::OneValue), ("PARALLEL_LEVEL", KwType::OneValue), ("RESOURCE_SPEC_FILE", KwType::OneValue), ("TEST_LOAD", KwType::OneValue), ("SCHEDULE_RANDOM", KwType::OneValue), ("STOP_TIME", KwType::OneValue), ("RETURN_VALUE", KwType::OneValue), ("CAPTURE_CMAKE_ERROR", KwType::OneValue), ("INCLUDE_FROM_FILE", KwType::OneValue), ("EXCLUDE_FROM_FILE", KwType::OneValue)];
    proof {
        lemma_kws_model(r, 0);
        assert(kws_model(r, 0) =~= ctest_test_kw_model());
    }
    r
}

pub open spec fn ctest_test_spec_model() -> SpecModel {
    SpecModel {
        front_positional: 0,
        back_positional: 0,
        keywords: ctest_test_kw_model(),
        sections: Seq::empty(),
        command_line_keywords: Seq::empty(),
        pair_keywords: Seq::empty(),
        property_keywords: Seq::empty(),
        flow_keywords: Seq::empty(),
        flow_positional: false,
        compound_keywords: Seq::empty(),
        once_keywords: Seq::empty(),
    }
}

fn ctest_test_spec() -> (r: CommandSpec)
    ensures
        r.model() == ctest_test_spec_model(),
{
    let g0 = ctest_test_kw();
    let kw = g0;
    let sections = Vec::new();
    let r = CommandSpec {
        front_positional: 0,
        back_positional: 0,
        keywords: kw,
        sections: sections,
        command_line_keywords: Vec::new(),
        pair_keywords: Vec::new(),
        property_keywords: Vec::new(),
        flow_keywords: Vec::new(),
        flow_positional: false,
        compound_keywords: Vec::new(),
        once_keywords: Vec::new(),
    };
    proof {
        lemma_kws_model(r.keywords, 0);
        lemma_secs_model(r.sections, 0);
        let m = ctest_test_spec_model();
        assert(strs_model(r.command_line_keywords@) =~= m.command_line_keywords);
        assert(strs_model(r.pair_keywords@) =~= m.pair_keywords);
        assert(strs_model(r.property_keywords@) =~= m.property_keywords);
        assert(strs_model(r.flow_keywords@) =~= m.flow_keywords);
        assert(pairs_model(r.compound_keywords@) =~= m.compound_keywords);
        assert(strs_model(r.once_keywords@) =~= m.once_keywords);
        assert(r.model() == m);
    }
    r
}

pub open spec fn ctest_update_kw_model() -> Seq<(Seq<char>, KwModel)> {
    seq![("QUIET"@, KwModel::Option), ("SOURCE"@, KwModel::OneValue), ("RETURN_VALUE"@, KwModel::OneValue), ("CAPTURE_CMAKE_ERROR"@, KwModel::OneValue)]
}

fn ctest_update_kw() -> (r: Vec<(&'static str, KwType)>)
    ensures
        kws_model(r, 0) == ctest_update_kw_model(),
{
    
    let r = vec![("QUIET", KwType::Option), ("SOURCE", KwType::OneValue), ("RETURN_VALUE", KwType::OneValue), ("CAPTURE_CMAKE_ERROR", KwType::OneValue)];
    proof {
        lemma_kws_model(r, 0);
        assert(kws_model(r, 0) =~= ctest_update_kw_model());
    }
    r
}

pub open spec fn ctest_update_spec_model() -> SpecModel {
    SpecModel {
        front_positional: 0,
        back_positional: 0,
        keywords: ctest_update_kw_model(),
        sections: Seq::empty(),
        command_line_keywords: Seq::empty(),
        pair_keywords: Seq::empty(),
        property_keywords: Seq::empty(),
        flow_keywords: Seq::empty(),
        flow_positional: false,
        compound_keywords: Seq::empty(),
        once_keywords: Seq::empty(),
    }
}

fn ctest_update_spec() -> (r: CommandSpec)
    ensures
        r.model() == ctest_update_spec_model(),
{
    let g0 = ctest_update_kw();
    let kw = g0;
    let sections = Vec::new();
    let r = CommandSpec {
        front_positional: 0,
        back_positional: 0,
        keywords: kw,
        sections: sections,
        command_line_keywords: Vec::new(),
        pair_keywords: Vec::new(),
        property_keywords: Vec::new(),
        flow_keywords: Vec::new(),
        flow_positional: false,
        compound_keywords: Vec::new(),
        once_keywords: Vec::new(),
    };
    proof {
        lemma_kws_model(r.keywords, 0);
        lemma_secs_model(r.sections, 0);
        let m = ctest_update_spec_model();
        assert(strs_model(r.command_line_keywords@) =~= m.command_line_keywords);
        assert(strs_model(r.pair_keywords@) =~= m.pair_keywords);
        assert(strs_model(r.property_keywords@) =~= m.property_keywords);
        assert(strs_model(r.flow_keywords@) =~= m.flow_keywords);
        assert(pairs_model(r.compound_keywords@) =~= m.compound_keywords);
        assert(strs_model(r.once_keywords@) =~= m.once_keywords);
        assert(r.model() == m);
    }
    r
}

pub open spec fn ctest_upload_kw_model() -> Seq<(Seq<char>, KwModel)> {
    seq![("QUIET"@, KwModel::Option), ("CAPTURE_CMAKE_ERROR"@, KwModel::OneValue), ("FILES"@, KwModel::MultiValue)]
}

fn ctest_upload_kw() -> (r: Vec<(&'static str, KwType)>)
    ensures
        kws_model(r, 0) == ctest_upload_kw_model(),
{
    
    let r = vec![("QUIET", KwType::Option), ("CAPTURE_CMAKE_ERROR", KwType::OneValue), ("FILES", KwType::MultiValue)];
    proof {
        lemma_kws_model(r, 0);
        assert(kws_model(r, 0) =~= ctest_upload_kw_model());
    }
    r
}

pub open spec fn ctest_upload_spec_model() -> SpecModel {
    SpecModel {
        front_positional: 0,
        back_positional: 0,
        keywords: ctest_upload_kw_model(),
        sections: Seq::empty(),
        command_line_keywords: Seq::empty(),
        pair_keywords: Seq::empty(),
        property_keywords: Seq::empty(),
        flow_keywords: Seq::empty(),
        flow_positional: false,
        compound_keywords: Seq::empty(),
        once_keywords: Seq::empty(),
    }
}

fn ctest_upload_spec() -> (r: CommandSpec)
    ensures
        r.model() == ctest_upload_spec_model(),
{
    let g0 = ctest_upload_kw();
    let kw = g0;
    let sections = Vec::new();
    let r = CommandSpec {
        front_positional: 0,
        back_positional: 0,
        keywords: kw,
        sections: sections,
        command_line_keywords: Vec::new(),
        pair_keywords: Vec::new(),
        property_keywords: Vec::new(),
        flow_keywords: Vec::new(),
        flow_positional: false,
        compound_keywords: Vec::new(),
        once_keywords: Vec::new(),
    };
    proof {
        lemma_kws_model(r.keywords, 0);
        lemma_secs_model(r.sections, 0);
        let m = ctest_upload_spec_model();
        assert(strs_model(r.command_line_keywords@) =~= m.command_line_keywords);
        assert(strs_model(r.pair_keywords@) =~= m.pair_keywords);
        assert(strs_model(r.property_keywords@) =~= m.property_keywords);
        assert(strs_model(r.flow_keywords@) =~= m.flow_keywords);
        assert(pairs_model(r.compound_keywords@) =~= m.compound_keywords);
        assert(strs_model(r.once_keywords@) =~= m.once_keywords);
        assert(r.model() == m);
    }
    r
}

pub open spec fn no_kw_model() -> Seq<(Seq<char>, KwModel)> {
    Seq::empty()
}

fn no_kw() -> (r: Vec<(&'static str, KwType)>)
    ensures
        kws_model(r, 0) == no_kw_model(),
{
    
    let r = Vec::new();
    proof {
        lemma_kws_model(r, 0);
        assert(kws_model(r, 0) =~= no_kw_model());
    }
    r
}

pub open spec fn no_kw_spec_model() -> SpecModel {
    SpecModel {
        front_positional: 1,
        back_positional: 0,
        keywords: no_kw_model(),
        sections: Seq::empty(),
        command_line_keywords: Seq::empty(),
        pair_keywords: Seq::empty(),
        property_keywords: Seq::empty(),
        flow_keywords: Seq::empty(),
        flow_positional: false,
        compound_keywords: Seq::empty(),
        once_keywords: Seq::empty(),
    }
}

fn no_kw_spec() -> (r: CommandSpec)
    ensures
        r.model() == no_kw_spec_model(),
{
    let g0 = no_kw();
    let kw = g0;
    let sections = Vec::new();
    let r = CommandSpec {
        front_positional: 1,
        back_positional: 0,
        keywords: kw,
        sections: sections,
        command_line_keywords: Vec::new(),
        pair_keywords: Vec::new(),
        property_keywords: Vec::new(),
        flow_keywords: Vec::new(),
        flow_positional: false,
        compound_keywords: Vec::new(),
        once_keywords: Vec::new(),
    };
    proof {
        lemma_kws_model(r.keywords, 0);
        lemma_secs_model(r.sections, 0);
        let m = no_kw_spec_model();
        assert(strs_model(r.command_line_keywords@) =~= m.command_line_keywords);
        assert(strs_model(r.pair_keywords@) =~= m.pair_keywords);
        assert(strs_model(r.property_keywords@) =~= m.property_keywords);
        assert(strs_model(r.flow_keywords@) =~= m.flow_keywords);
        assert(pairs_model(r.compound_keywords@) =~= m.compound_keywords);
        assert(strs_model(r.once_keywords@) =~= m.once_keywords);
        assert(r.model() == m);
    }
    r
}

pub open spec fn add_compile_definitions_spec_model() -> SpecModel {
    SpecModel {
        front_positional: 0,
        back_positional: 0,
        keywords: no_kw_model(),
        sections: Seq::empty(),
        command_line_keywords: Seq::empty(),
        pair_keywords: Seq::empty(),
        property_keywords: Seq::empty(),
        flow_keywords: Seq::empty(),
        flow_positional: false,
        compound_keywords: Seq::empty(),
        once_keywords: Seq::empty(),
    }
}

fn add_compile_definitions_spec() -> (r: CommandSpec)
    ensures
        r.model() == add_compile_definitions_spec_model(),
{
    let g0 = no_kw();
    let kw = g0;
    let sections = Vec::new();
    let r = CommandSpec {
        front_positional: 0,
        back_positional: 0,
        keywords: kw,
        sections: sections,
        command_line_keywords: Vec::new(),
        pair_keywords: Vec::new(),
        property_keywords: Vec::new(),
        flow_keywords: Vec::new(),
        flow_positional: false,
        compound_keywords: Vec::new(),
        once_keywords: Vec::new(),
    };
    proof {
        lemma_kws_model(r.keywords, 0);
        lemma_secs_model(r.sections, 0);
        let m = add_compile_definitions_spec_model();
        assert(strs_model(r.command_line_keywords@) =~= m.command_line_keywords);
        assert(strs_model(r.pair_keywords@) =~= m.pair_keywords);
        assert(strs_model(r.property_keywords@) =~= m.property_keywords);
        assert(strs_model(r.flow_keywords@) =~= m.flow_keywords);
        assert(pairs_model(r.compound_keywords@) =~= m.compound_keywords);
        assert(strs_model(r.once_keywords@) =~= m.once_keywords);
        assert(r.model() == m);
    }
    r
}

pub open spec fn add_compile_options_spec_model() -> SpecModel {
    SpecModel {
        front_positional: 0,
        back_positional: 0,
        keywords: no_kw_model(),
        sections: Seq::empty(),
        command_line_keywords: Seq::empty(),
        pair_keywords: Seq::empty(),
        property_keywords: Seq::empty(),
        flow_keywords: Seq::empty(),
        flow_positional: false,
        compound_keywords: Seq::empty(),
        once_keywords: Seq::empty(),
    }
}

fn add_compile_options_spec() -> (r: CommandSpec)
    ensures
        r.model() == add_compile_options_spec_model(),
{
    let g0 = no_kw();
    let kw = g0;
    let sections = Vec::new();
    let r = CommandSpec {
        front_positional: 0,
        back_positional: 0,
        keywords: kw,
        sections: sections,
        command_line_keywords: Vec::new(),
        pair_keywords: Vec::new(),
        property_keywords: Vec::new(),
        flow_keywords: Vec::new(),
        flow_positional: false,
        compound_keywords: Vec::new(),
        once_keywords: Vec::new(),
    };
    proof {
        lemma_kws_model(r.keywords, 0);
        lemma_secs_model(r.sections, 0);
        let m = add_compile_options_spec_model();
        assert(strs_model(r.command_line_keywords@) =~= m.command_line_keywords);
        assert(strs_model(r.pair_keywords@) =~= m.pair_keywords);
        assert(strs_model(r.property_keywords@) =~= m.property_keywords);
        assert(strs_model(r.flow_keywords@) =~= m.flow_keywords);
        assert(pairs_model(r.compound_keywords@) =~= m.compound_keywords);
        assert(strs_model(r.once_keywords@) =~= m.once_keywords);
        assert(r.model() == m);
    }
    r
}

pub open spec fn add_definitions_spec_model() -> SpecModel {
    SpecModel {
        front_positional: 0,
        back_positional: 0,
        keywords: no_kw_model(),
        sections: Seq::empty(),
        command_line_keywords: Seq::empty(),
        pair_keywords: Seq::empty(),
        property_keywords: Seq::empty(),
        flow_keywords: Seq::empty(),
        flow_positional: false,
        compound_keywords: Seq::empty(),
        once_keywords: Seq::empty(),
    }
}

fn add_definitions_spec() -> (r: CommandSpec)
    ensures
        r.model() == add_definitions_spec_model(),
{
    let g0 = no_kw();
    let kw = g0;
    let sections = Vec::new();
    let r = CommandSpec {
        front_positional: 0,
        back_positional: 0,
        keywords: kw,
        sections: sections,
        command_line_keywords: Vec::new(),
        pair_keywords: Vec::new(),
        property_keywords: Vec::new(),
        flow_keywords: Vec::new(),
        flow_positional: false,
        compound_keywords: Vec::new(),
        once_keywords: Vec::new(),
    };
    proof {
        lemma_kws_model(r.keywords, 0);
        lemma_secs_model(r.sections, 0);
        let m = add_definitions_spec_model();
        assert(strs_model(r.command_line_keywords@) =~= m.command_line_keywords);
        assert(strs_model(r.pair_keywords@) =~= m.pair_keywords);
        assert(strs_model(r.property_keywords@) =~= m.property_keywords);
        assert(strs_model(r.flow_keywords@) =~= m.flow_keywords);
        assert(pairs_model(r.compound_keywords@) =~= m.compound_keywords);
        assert(strs_model(r.once_keywords@) =~= m.once_keywords);
        assert(r.model() == m);
    }
    r
}

pub open spec fn add_dependencies_spec_model() -> SpecModel {
    SpecModel {
        front_positional: 1,
        back_positional: 0,
        keywords: no_kw_model(),
        sections: Seq::empty(),
        command_line_keywords: Seq::empty(),
        pair_keywords: Seq::empty(),
        property_keywords: Seq::empty(),
        flow_keywords: Seq::empty(),
        flow_positional: false,
        compound_keywords: Seq::empty(),
        once_keywords: Seq::empty(),
    }
}

fn add_dependencies_spec() -> (r: CommandSpec)
    ensures
        r.model() == add_dependencies_spec_model(),
{
    let g0 = no_kw();
    let kw = g0;
    let sections = Vec::new();
    let r = CommandSpec {
        front_positional: 1,
        back_positional: 0,
        keywords: kw,
        sections: sections,
        command_line_keywords: Vec::new(),
        pair_keywords: Vec::new(),
        property_keywords: Vec::new(),
        flow_keywords: Vec::new(),
        flow_positional: false,
        compound_keywords: Vec::new(),
        once_keywords: Vec::new(),
    };
    proof {
        lemma_kws_model(r.keywords, 0);
        lemma_secs_model(r.sections, 0);
        let m = add_dependencies_spec_model();
        assert(strs_model(r.command_line_keywords@) =~= m.command_line_keywords);
        assert(strs_model(r.pair_keywords@) =~= m.pair_keywords);
        assert(strs_model(r.property_keywords@) =~= m.property_keywords);
        assert(strs_model(r.flow_keywords@) =~= m.flow_keywords);
        assert(pairs_model(r.compound_keywords@) =~= m.compound_keywords);
        assert(strs_model(r.once_keywords@) =~= m.once_keywords);
        assert(r.model() == m);
    }
    r
}

pub open spec fn add_link_options_spec_model() -> SpecModel {
    SpecModel {
        front_positional: 0,
        back_positional: 0,
        keywords: no_kw_model(),
        sections: Seq::empty(),
        command_line_keywords: Seq::empty(),
        pair_keywords: Seq::empty(),
        property_keywords: Seq::empty(),
        flow_keywords: Seq::empty(),
        flow_positional: false,
        compound_keywords: Seq::empty(),
        once_keywords: Seq::empty(),
    }
}

fn add_link_options_spec() -> (r: CommandSpec)
    ensures
        r.model() == add_link_options_spec_model(),
{
    let g0 = no_kw();
    let kw = g0;
    let sections = Vec::new();
    let r = CommandSpec {
        front_positional: 0,
        back_positional: 0,
        keywords: kw,
        sections: sections,
        command_line_keywords: Vec::new(),
        pair_keywords: Vec::new(),
        property_keywords: Vec::new(),
        flow_keywords: Vec::new(),
        flow_positional: false,
        compound_keywords: Vec::new(),
        once_keywords: Vec::new(),
    };
    proof {
        lemma_kws_model(r.keywords, 0);
        lemma_secs_model(r.sections, 0);
        let m = add_link_options_spec_model();
        assert(strs_model(r.command_line_keywords@) =~= m.command_line_keywords);
        assert(strs_model(r.pair_keywords@) =~= m.pair_keywords);
        assert(strs_model(r.property_keywords@) =~= m.property_keywords);
        assert(strs_model(r.flow_keywords@) =~= m.flow_keywords);
        assert(pairs_model(r.compound_keywords@) =~= m.compound_keywords);
        assert(strs_model(r.once_keywords@) =~= m.once_keywords);
        assert(r.model() == m);
    }
    r
}

pub open spec fn aux_source_directory_spec_model() -> SpecModel {
    SpecModel {
        front_positional: 2,
        back_positional: 0,
        keywords: no_kw_model(),
        sections: Seq::empty(),
        command_line_keywords: Seq::empty(),
        pair_keywords: Seq::empty(),
        property_keywords: Seq::empty(),
        flow_keywords: Seq::empty(),
        flow_positional: false,
        compound_keywords: Seq::empty(),
        once_keywords: Seq::empty(),
    }
}

fn aux_source_directory_spec() -> (r: CommandSpec)
    ensures
        r.model() == aux_source_directory_spec_model(),
{
    let g0 = no_kw();
    let kw = g0;
    let sections = Vec::new();
    let r = CommandSpec {
        front_positional: 2,
        back_positional: 0,
        keywords: kw,
        sections: sections,
        command_line_keywords: Vec::new(),
        pair_keywords: Vec::new(),
        property_keywords: Vec::new(),
        flow_keywords: Vec::new(),
        flow_positional: false,
        compound_keywords: Vec::new(),
        once_keywords: Vec::new(),
    };
    proof {
        lemma_kws_model(r.keywords, 0);
        lemma_secs_model(r.sections, 0);
        let m = aux_source_directory_spec_model();
        assert(strs_model(r.command_line_keywords@) =~= m.command_line_keywords);
        assert(strs_model(r.pair_keywords@) =~= m.pair_keywords);
        assert(strs_model(r.property_keywords@) =~= m.property_keywords);
        assert(strs_model(r.flow_keywords@) =~= m.flow_keywords);
        assert(pairs_model(r.compound_keywords@) =~= m.compound_keywords);
        assert(strs_model(r.once_keywords@) =~= m.once_keywords);
        assert(r.model() == m);
    }
    r
}

pub open spec fn enable_testing_spec_model() -> SpecModel {
    SpecModel {
        front_positional: 0,
        back_positional: 0,
        keywords: no_kw_model(),
        sections: Seq::empty(),
        command_line_keywords: Seq::empty(),
        pair_keywords: Seq::empty(),
        property_keywords: Seq::empty(),
        flow_keywords: Seq::empty(),
        flow_positional: false,
        compound_keywords: Seq::empty(),
        once_keywords: Seq::empty(),
    }
}

fn enable_testing_spec() -> (r: CommandSpec)
    ensures
        r.model() == enable_testing_spec_model(),
{
    let g0 = no_kw();
    let kw = g0;
    let sections = Vec::new();
    let r = CommandSpec {
        front_positional: 0,
        back_positional: 0,
        keywords: kw,
        sections: sections,
        command_line_keywords: Vec::new(),
        pair_keywords: Vec::new(),
        property_keywords: Vec::new(),
        flow_keywords: Vec::new(),
        flow_positional: false,
        compound_keywords: Vec::new(),
        once_keywords: Vec::new(),
    };
    proof {
        lemma_kws_model(r.keywords, 0);
        lemma_secs_model(r.sections, 0);
        let m = enable_testing_spec_model();
        assert(strs_model(r.command_line_keywords@) =~= m.command_line_keywords);
        assert(strs_model(r.pair_keywords@) =~= m.pair_keywords);
        assert(strs_model(r.property_keywords@) =~= m.property_keywords);
        assert(strs_model(r.flow_keywords@) =~= m.flow_keywords);
        assert(pairs_model(r.compound_keywords@) =~= m.compound_keywords);
        assert(strs_model(r.once_keywords@) =~= m.once_keywords);
        assert(r.model() == m);
    }
    r
}

pub open spec fn fltk_wrap_ui_spec_model() -> SpecModel {
    SpecModel {
        front_positional: 1,
        back_positional: 0,
        keywords: no_kw_model(),
        sections: Seq::empty(),
        command_line_keywords: Seq::empty(),
        pair_keywords: Seq::empty(),
        property_keywords: Seq::empty(),
        flow_keywords: Seq::empty(),
        flow_positional: false,
        compound_keywords: Seq::empty(),
        once_keywords: Seq::empty(),
    }
}

fn fltk_wrap_ui_spec() -> (r: CommandSpec)
    ensures
        r.model() == fltk_wrap_ui_spec_model(),
{
    let g0 = no_kw();
    let kw = g0;
    let sections = Vec::new();
    let r = CommandSpec {
        front_positional: 1,
        back_positional: 0,
        keywords: kw,
        sections: sections,
        command_line_keywords: Vec::new(),
        pair_keywords: Vec::new(),
        property_keywords: Vec::new(),
        flow_keywords: Vec::new(),
        flow_positional: false,
        compound_keywords: Vec::new(),
        once_keywords: Vec::new(),
    };
    proof {
        lemma_kws_model(r.keywords, 0);
        lemma_secs_model(r.sections, 0);
        let m = fltk_wrap_ui_spec_model();
        assert(strs_model(r.command_line_keywords@) =~= m.command_line_keywords);
        assert(strs_model(r.pair_keywords@) =~= m.pair_keywords);
        assert(strs_model(r.property_keywords@) =~= m.property_keywords);
        assert(strs_model(r.flow_keywords@) =~= m.flow_keywords);
        assert(pairs_model(r.compound_keywords@) =~= m.compound_keywords);
        assert(strs_model(r.once_keywords@) =~= m.once_keywords);
        assert(r.model() == m);
    }
    r
}

pub open spec fn get_source_file_property_spec_model() -> SpecModel {
    SpecModel {
        front_positional: 3,
        back_positional: 0,
        keywords: no_kw_model(),
        sections: Seq::empty(),
        command_line_keywords: Seq::empty(),
        pair_keywords: Seq::empty(),
        property_keywords: Seq::empty(),
        flow_keywords: Seq::empty(),
        flow_positional: false,
        compound_keywords: Seq::empty(),
        once_keywords: Seq::empty(),
    }
}

fn get_source_file_property_spec() -> (r: CommandSpec)
    ensures
        r.model() == get_source_file_property_spec_model(),
{
    let g0 = no_kw();
    let kw = g0;
    let sections = Vec::new();
    let r = CommandSpec {
        front_positional: 3,
        back_positional: 0,
        keywords: kw,
        sections: sections,
        command_line_keywords: Vec::new(),
        pair_keywords: Vec::new(),
        property_keywords: Vec::new(),
        flow_keywords: Vec::new(),
        flow_positional: false,
        compound_keywords: Vec::new(),
        once_keywords: Vec::new(),
    };
    proof {
        lemma_kws_model(r.keywords, 0);
        lemma_secs_model(r.sections, 0);
        let m = get_source_file_property_spec_model();
        assert(strs_model(r.command_line_keywords@) =~= m.command_line_keywords);
        assert(strs_model(r.pair_keywords@) =~= m.pair_keywords);
        assert(strs_model(r.property_keywords@) =~= m.property_keywords);
        assert(strs_model(r.flow_keywords@) =~= m.flow_keywords);
        assert(pairs_model(r.compound_keywords@) =~= m.compound_keywords);
        assert(strs_model(r.once_keywords@) =~= m.once_keywords);
        assert(r.model() == m);
    }
    r
}

pub open spec fn get_target_property_spec_model() -> SpecModel {
    SpecModel {
        front_positional: 3,
        back_positional: 0,
        keywords: no_kw_model(),
        sections: Seq::empty(),
        command_line_keywords: Seq::empty(),
        pair_keywords: Seq::empty(),
        property_keywords: Seq::empty(),
        flow_keywords: Seq::empty(),
        flow_positional: false,
        compound_keywords: Seq::empty(),
        once_keywords: Seq::empty(),
    }
}

fn get_target_property_spec() -> (r: CommandSpec)
    ensures
        r.model() == get_target_property_spec_model(),
{
    let g0 = no_kw();
    let kw = g0;
    let sections = Vec::new();
    let r = CommandSpec {
        front_positional: 3,
        back_positional: 0,
        keywords: kw,
        sections: sections,
        command_line_keywords: Vec::new(),
        pair_keywords: Vec::new(),
        property_keywords: Vec::new(),
        flow_keywords: Vec::new(),
        flow_positional: false,
        compound_keywords: Vec::new(),
        once_keywords: Vec::new(),
    };
    proof {
        lemma_kws_model(r.keywords, 0);
        lemma_secs_model(r.sections, 0);
        let m = get_target_property_spec_model();
        assert(strs_model(r.command_line_keywords@) =~= m.command_line_keywords);
        assert(strs_model(r.pair_keywords@) =~= m.pair_keywords);
        assert(strs_model(r.property_keywords@) =~= m.property_keywords);
        assert(strs_model(r.flow_keywords@) =~= m.flow_keywords);
        assert(pairs_model(r.compound_keywords@) =~= m.compound_keywords);
        assert(strs_model(r.once_keywords@) =~= m.once_keywords);
        assert(r.model() == m);
    }
    r
}

pub open spec fn get_test_property_spec_model() -> SpecModel {
    SpecModel {
        front_positional: 3,
        back_positional: 0,
        keywords: no_kw_model(),
        sections: Seq::empty(),
        command_line_keywords: Seq::empty(),
        pair_keywords: Seq::empty(),
        property_keywords: Seq::empty(),
        flow_keywords: Seq::empty(),
        flow_positional: false,
        compound_keywords: Seq::empty(),
        once_keywords: Seq::empty(),
    }
}

fn get_test_property_spec() -> (r: CommandSpec)
    ensures
        r.model() == get_test_property_spec_model(),
{
    let g0 = no_kw();
    let kw = g0;
    let sections = Vec::new();
    let r = CommandSpec {
        front_positional: 3,
        back_positional: 0,
        keywords: kw,
        sections: sections,
        command_line_keywords: Vec::new(),
        pair_keywords: Vec::new(),
        property_keywords: Vec::new(),
        flow_keywords: Vec::new(),
        flow_positional: false,
        compound_keywords: Vec::new(),
        once_keywords: Vec::new(),
    };
    proof {
        lemma_kws_model(r.keywords, 0);
        lemma_secs_model(r.sections, 0);
        let m = get_test_property_spec_model();
        assert(strs_model(r.command_line_keywords@) =~= m.command_line_keywords);
        assert(strs_model(r.pair_keywords@) =~= m.pair_keywords);
        assert(strs_model(r.property_keywords@) =~= m.property_keywords);
        assert(strs_model(r.flow_keywords@) =~= m.flow_keywords);
        assert(pairs_model(r.compound_keywords@) =~= m.compound_keywords);
        assert(strs_model(r.once_keywords@) =~= m.once_keywords);
        assert(r.model() == m);
    }
    r
}

pub open spec fn include_regular_expression_spec_model() -> SpecModel {
    SpecModel {
        front_positional: 2,
        back_positional: 0,
        keywords: no_kw_model(),
        sections: Seq::empty(),
        command_line_keywords: Seq::empty(),
        pair_keywords: Seq::empty(),
        property_keywords: Seq::empty(),
        flow_keywords: Seq::empty(),
        flow_positional: false,
        compound_keywords: Seq::empty(),
        once_keywords: Seq::empty(),
    }
}

fn include_regular_expression_spec() -> (r: CommandSpec)
    ensures
        r.model() == include_regular_expression_spec_model(),
{
    let g0 = no_kw();
    let kw = g0;
    let sections = Vec::new();
    let r = CommandSpec {
        front_positional: 2,
        back_positional: 0,
        keywords: kw,
        sections: sections,
        command_line_keywords: Vec::new(),
        pair_keywords: Vec::new(),
        property_keywords: Vec::new(),
        flow_keywords: Vec::new(),
        flow_positional: false,
        compound_keywords: Vec::new(),
        once_keywords: Vec::new(),
    };
    proof {
        lemma_kws_model(r.keywords, 0);
        lemma_secs_model(r.sections, 0);
        let m = include_regular_expression_spec_model();
        assert(strs_model(r.command_line_keywords@) =~= m.command_line_keywords);
        assert(strs_model(r.pair_keywords@) =~= m.pair_keywords);
        assert(strs_model(r.property_keywords@) =~= m.property_keywords);
        assert(strs_model(r.flow_keywords@) =~= m.flow_keywords);
        assert(pairs_model(r.compound_keywords@) =~= m.compound_keywords);
        assert(strs_model(r.once_keywords@) =~= m.once_keywords);
        assert(r.model() == m);
    }
    r
}

pub open spec fn remove_definitions_spec_model() -> SpecModel {
    SpecModel {
        front_positional: 0,
        back_positional: 0,
        keywords: no_kw_model(),
        sections: Seq::empty(),
        command_line_keywords: Seq::empty(),
        pair_keywords: Seq::empty(),
        property_keywords: Seq::empty(),
        flow_keywords: Seq::empty(),
        flow_positional: false,
        compound_keywords: Seq::empty(),
        once_keywords: Seq::empty(),
    }
}

fn remove_definitions_spec() -> (r: CommandSpec)
    ensures
        r.model() == remove_definitions_spec_model(),
{
    let g0 = no_kw();
    let kw = g0;
    let sections = Vec::new();
    let r = CommandSpec {
        front_positional: 0,
        back_positional: 0,
        keywords: kw,
        sections: sections,
        command_line_keywords: Vec::new(),
        pair_keywords: Vec::new(),
        property_keywords: Vec::new(),
        flow_keywords: Vec::new(),
        flow_positional: false,
        compound_keywords: Vec::new(),
        once_keywords: Vec::new(),
    };
    proof {
        lemma_kws_model(r.keywords, 0);
        lemma_secs_model(r.sections, 0);
        let m = remove_definitions_spec_model();
        assert(strs_model(r.command_line_keywords@) =~= m.command_line_keywords);
        assert(strs_model(r.pair_keywords@) =~= m.pair_keywords);
        assert(strs_model(r.property_keywords@) =~= m.property_keywords);
        assert(strs_model(r.flow_keywords@) =~= m.flow_keywords);
        assert(pairs_model(r.compound_keywords@) =~= m.compound_keywords);
        assert(strs_model(r.once_keywords@) =~= m.once_keywords);
        assert(r.model() == m);
    }
    r
}

pub open spec fn empty_spec_model() -> SpecModel {
    SpecModel {
        front_positional: 0,
        back_positional: 0,
        keywords: Seq::empty(),
        sections: Seq::empty(),
        command_line_keywords: Seq::empty(),
        pair_keywords: Seq::empty(),
        property_keywords: Seq::empty(),
        flow_keywords: Seq::empty(),
        flow_positional: false,
        compound_keywords: Seq::empty(),
        once_keywords: Seq::empty(),
    }
}

fn empty_spec() -> (r: CommandSpec)
    ensures
        r.model() == empty_spec_model(),
{
    let kw = Vec::new();
    let sections = Vec::new();
    let r = CommandSpec {
        front_positional: 0,
        back_positional: 0,
        keywords: kw,
        sections: sections,
        command_line_keywords: Vec::new(),
        pair_keywords: Vec::new(),
        property_keywords: Vec::new(),
        flow_keywords: Vec::new(),
        flow_positional: false,
        compound_keywords: Vec::new(),
        once_keywords: Vec::new(),
    };
    proof {
        lemma_kws_model(r.keywords, 0);
        lemma_secs_model(r.sections, 0);
        let m = empty_spec_model();
        assert(strs_model(r.command_line_keywords@) =~= m.command_line_keywords);
        assert(strs_model(r.pair_keywords@) =~= m.pair_keywords);
        assert(strs_model(r.property_keywords@) =~= m.property_keywords);
        assert(strs_model(r.flow_keywords@) =~= m.flow_keywords);
        assert(pairs_model(r.compound_keywords@) =~= m.compound_keywords);
        assert(strs_model(r.once_keywords@) =~= m.once_keywords);
        assert(r.model() == m);
    }
    r
}

/// The entry of the table for a lower-cased command name.
pub open spec fn command_entry(n: Seq<u8>) -> Option<KindModel> {
    if n == "if".spec_bytes() || n == "while".spec_bytes() || n == "elseif".spec_bytes() || n == "else".spec_bytes() || n == "endif".spec_bytes() || n == "endwhile".spec_bytes() {
        Some(KindModel::ConditionSyntax)
    } else if n == "set".spec_bytes() {
        Some(KindModel::Known(set_spec_model()))
    } else if n == "target_link_libraries".spec_bytes() {
        Some(KindModel::Known(target_link_libraries_spec_model()))
    } else if n == "target_sources".spec_bytes() {
        Some(KindModel::Known(target_sources_spec_model()))
    } else if n == "target_compile_definitions".spec_bytes() {
        Some(KindModel::Known(target_compile_definitions_spec_model()))
    } else if n == "target_compile_options".spec_bytes() {
        Some(KindModel::Known(target_compile_options_spec_model()))
    } else if n == "target_compile_features".spec_bytes() {
        Some(KindModel::Known(target_compile_features_spec_model()))
    } else if n == "target_include_directories".spec_bytes() {
        Some(KindModel::Known(target_include_directories_spec_model()))
    } else if n == "target_link_directories".spec_bytes() {
        Some(KindModel::Known(target_link_directories_spec_model()))
    } else if n == "target_link_options".spec_bytes() {
        Some(KindModel::Known(target_link_options_spec_model()))
    } else if n == "target_precompile_headers".spec_bytes() {
        Some(KindModel::Known(target_precompile_headers_spec_model()))
    } else if n == "add_executable".spec_bytes() {
        Some(KindModel::Known(add_executable_spec_model()))
    } else if n == "add_library".spec_bytes() {
        Some(KindModel::Known(add_library_spec_model()))
    } else if n == "add_test".spec_bytes() {
        Some(KindModel::Known(add_test_spec_model()))
    } else if n == "project".spec_bytes() {
        Some(KindModel::Known(project_spec_model()))
    } else if n == "message".spec_bytes() {
        Some(KindModel::Known(message_spec_model()))
    } else if n == "find_package".spec_bytes() {
        Some(KindModel::Known(find_package_spec_model()))
    } else if n == "find_library".spec_bytes() {
        Some(KindModel::Known(find_library_spec_model()))
    } else if n == "find_file".spec_bytes() {
        Some(KindModel::Known(find_file_spec_model()))
    } else if n == "find_path".spec_bytes() {
        Some(KindModel::Known(find_path_spec_model()))
    } else if n == "find_program".spec_bytes() {
        Some(KindModel::Known(find_program_spec_model()))
    } else if n == "execute_process".spec_bytes() {
        Some(KindModel::Known(execute_process_spec_model()))
    } else if n == "cmake_parse_arguments".spec_bytes() {
        Some(KindModel::Known(cmake_parse_arguments_spec_model()))
    } else if n == "define_property".spec_bytes() {
        Some(KindModel::Known(define_property_spec_model()))
    } else if n == "get_property".spec_bytes() {
        Some(KindModel::Known(get_property_spec_model()))
    } else if n == "set_property".spec_bytes() {
        Some(KindModel::Known(set_property_spec_model()))
    } else if n == "export".spec_bytes() {
        Some(KindModel::Known(export_spec_model()))
    } else if n == "foreach".spec_bytes() {
        Some(KindModel::Known(foreach_spec_model()))
    } else if n == "function".spec_bytes() {
        Some(KindModel::Known(function_spec_model()))
    } else if n == "macro".spec_bytes() {
        Some(KindModel::Known(macro_spec_model()))
    } else if n == "cmake_minimum_required".spec_bytes() {
        Some(KindModel::Known(cmake_minimum_required_spec_model()))
    } else if n == "configure_file".spec_bytes() {
        Some(KindModel::Known(configure_file_spec_model()))
    } else if n == "include".spec_bytes() {
        Some(KindModel::Known(include_spec_model()))
    } else if n == "math".spec_bytes() {
        Some(KindModel::Known(math_spec_model()))
    } else if n == "add_subdirectory".spec_bytes() {
        Some(KindModel::Known(add_subdirectory_spec_model()))
    } else if n == "string".spec_bytes() {
        Some(KindModel::Known(string_spec_model()))
    } else if n == "list".spec_bytes() {
        Some(KindModel::Known(list_spec_model()))
    } else if n == "file".spec_bytes() {
        Some(KindModel::Known(file_spec_model()))
    } else if n == "install".spec_bytes() {
        Some(KindModel::Known(install_spec_model()))
    } else if n == "add_custom_command".spec_bytes() {
        Some(KindModel::Known(add_custom_command_spec_model()))
    } else if n == "add_custom_target".spec_bytes() {
        Some(KindModel::Known(add_custom_target_spec_model()))
    } else if n == "try_compile".spec_bytes() {
        Some(KindModel::Known(try_compile_spec_model()))
    } else if n == "try_run".spec_bytes() {
        Some(KindModel::Known(try_run_spec_model()))
    } else if n == "source_group".spec_bytes() {
        Some(KindModel::Known(source_group_spec_model()))
    } else if n == "set_target_properties".spec_bytes() {
        Some(KindModel::Known(set_target_properties_spec_model()))
    } else if n == "set_source_files_properties".spec_bytes() {
        Some(KindModel::Known(set_source_files_properties_spec_model()))
    } else if n == "set_tests_properties".spec_bytes() {
        Some(KindModel::Known(set_tests_properties_spec_model()))
    } else if n == "set_directory_properties".spec_bytes() {
        Some(KindModel::Known(set_directory_properties_spec_model()))
    } else if n == "set_package_properties".spec_bytes() {
        Some(KindModel::Known(set_package_properties_spec_model()))
    } else if n == "get_directory_property".spec_bytes() {
        Some(KindModel::Known(get_directory_property_spec_model()))
    } else if n == "get_filename_component".spec_bytes() {
        Some(KindModel::Known(get_filename_component_spec_model()))
    } else if n == "gtest_discover_tests".spec_bytes() {
        Some(KindModel::Known(gtest_discover_tests_spec_model()))
    } else if n == "build_command".spec_bytes() {
        Some(KindModel::Known(build_command_spec_model()))
    } else if n == "cmake_host_system_information".spec_bytes() {
        Some(KindModel::Known(cmake_host_system_information_spec_model()))
    } else if n == "cmake_language".spec_bytes() {
        Some(KindModel::Known(cmake_language_spec_model()))
    } else if n == "cmake_path".spec_bytes() {
        Some(KindModel::Known(cmake_path_spec_model()))
    } else if n == "cmake_pkg_config".spec_bytes() {
        Some(KindModel::Known(cmake_pkg_config_spec_model()))
    } else if n == "separate_arguments".spec_bytes() {
        Some(KindModel::Known(separate_arguments_spec_model()))
    } else if n == "enable_language".spec_bytes() {
        Some(KindModel::Known(enable_language_spec_model()))
    } else if n == "mark_as_advanced".spec_bytes() {
        Some(KindModel::Known(mark_as_advanced_spec_model()))
    } else if n == "option".spec_bytes() {
        Some(KindModel::Known(option_spec_model()))
    } else if n == "unset".spec_bytes() {
        Some(KindModel::Known(unset_spec_model()))
    } else if n == "block".spec_bytes() {
        Some(KindModel::Known(block_spec_model()))
    } else if n == "return".spec_bytes() {
        Some(KindModel::Known(return_spec_model()))
    } else if n == "include_directories".spec_bytes() {
        Some(KindModel::Known(include_directories_spec_model()))
    } else if n == "link_directories".spec_bytes() {
        Some(KindModel::Known(link_directories_spec_model()))
    } else if n == "link_libraries".spec_bytes() {
        Some(KindModel::Known(link_libraries_spec_model()))
    } else if n == "include_external_msproject".spec_bytes() {
        Some(KindModel::Known(include_external_msproject_spec_model()))
    } else if n == "load_cache".spec_bytes() {
        Some(KindModel::Known(load_cache_spec_model()))
    } else if n == "create_test_sourcelist".spec_bytes() {
        Some(KindModel::Known(create_test_sourcelist_spec_model()))
    } else if n == "ctest_build".spec_bytes() {
        Some(KindModel::Known(ctest_build_spec_model()))
    } else if n == "ctest_configure".spec_bytes() {
        Some(KindModel::Known(ctest_configure_spec_model()))
    } else if n == "ctest_coverage".spec_bytes() {
        Some(KindModel::Known(ctest_coverage_spec_model()))
    } else if n == "ctest_empty_binary_directory".spec_bytes() {
        Some(KindModel::Known(ctest_empty_binary_directory_spec_model()))
    } else if n == "ctest_memcheck".spec_bytes() {
        Some(KindModel::Known(ctest_memcheck_spec_model()))
    } else if n == "ctest_read_custom_files".spec_bytes() {
        Some(KindModel::Known(ctest_read_custom_files_spec_model()))
    } else if n == "ctest_run_script".spec_bytes() {
        Some(KindModel::Known(ctest_run_script_spec_model()))
    } else if n == "ctest_sleep".spec_bytes() {
        Some(KindModel::Known(ctest_sleep_spec_model()))
    } else if n == "ctest_start".spec_bytes() {
        Some(KindModel::Known(ctest_start_spec_model()))
    } else if n == "ctest_submit".spec_bytes() {
        Some(KindModel::Known(ctest_submit_spec_model()))
    } else if n == "ctest_test".spec_bytes() {
        Some(KindModel::Known(ctest_test_spec_model()))
    } else if n == "ctest_update".spec_bytes() {
        Some(KindModel::Known(ctest_update_spec_model()))
    } else if n == "ctest_upload".spec_bytes() {
        Some(KindModel::Known(ctest_upload_spec_model()))
    } else if n == "add_compile_definitions".spec_bytes() {
        Some(KindModel::Known(add_compile_definitions_spec_model()))
    } else if n == "add_compile_options".spec_bytes() {
        Some(KindModel::Known(add_compile_options_spec_model()))
    } else if n == "add_definitions".spec_bytes() {
        Some(KindModel::Known(add_definitions_spec_model()))
    } else if n == "add_dependencies".spec_bytes() {
        Some(KindModel::Known(add_dependencies_spec_model()))
    } else if n == "add_link_options".spec_bytes() {
        Some(KindModel::Known(add_link_options_spec_model()))
    } else if n == "aux_source_directory".spec_bytes() {
        Some(KindModel::Known(aux_source_directory_spec_model()))
    } else if n == "enable_testing".spec_bytes() {
        Some(KindModel::Known(enable_testing_spec_model()))
    } else if n == "fltk_wrap_ui".spec_bytes() {
        Some(KindModel::Known(fltk_wrap_ui_spec_model()))
    } else if n == "get_source_file_property".spec_bytes() {
        Some(KindModel::Known(get_source_file_property_spec_model()))
    } else if n == "get_target_property".spec_bytes() {
        Some(KindModel::Known(get_target_property_spec_model()))
    } else if n == "get_test_property".spec_bytes() {
        Some(KindModel::Known(get_test_property_spec_model()))
    } else if n == "include_regular_expression".spec_bytes() {
        Some(KindModel::Known(include_regular_expression_spec_model()))
    } else if n == "remove_definitions".spec_bytes() {
        Some(KindModel::Known(remove_definitions_spec_model()))
    } else if n == "endforeach".spec_bytes() {
        Some(KindModel::Known(no_kw_spec_model()))
    } else if n == "endfunction".spec_bytes() {
        Some(KindModel::Known(no_kw_spec_model()))
    } else if n == "endmacro".spec_bytes() {
        Some(KindModel::Known(no_kw_spec_model()))
    } else if n == "endblock".spec_bytes() {
        Some(KindModel::Known(no_kw_spec_model()))
    } else {
        None
    }
}

/// The entry for a command name, compared without regard to ASCII case; names
/// longer than 64 bytes have none.
pub open spec fn lookup(name: Seq<u8>) -> Option<KindModel> {
    if name.len() > 64 {
        None
    } else {
        command_entry(lower_seq(name))
    }
}

/// Looks up a command by name, without regard to ASCII case.
#[verifier::rlimit(100)]
pub fn lookup_command(name: &str) -> (r: Option<CommandKind>)
    ensures
        match (r, lookup(name.spec_bytes())) {
            (Some(CommandKind::ConditionSyntax), Some(KindModel::ConditionSyntax)) => true,
            (Some(CommandKind::Known(s)), Some(KindModel::Known(m))) => s.model() == m,
            (None, None) => true,
            _ => false,
        },
{
    let b = name.as_bytes();
    if b.len() > 64 {
        return None;
    }
    let lower = to_lower_vec(b);
    let l = lower.as_slice();
    if eq_bytes(l, "if".as_bytes()) || eq_bytes(l, "while".as_bytes()) || eq_bytes(l, "elseif".as_bytes()) || eq_bytes(l, "else".as_bytes()) || eq_bytes(l, "endif".as_bytes()) || eq_bytes(l, "endwhile".as_bytes()) {
        return Some(CommandKind::ConditionSyntax);
    }
    if eq_bytes(l, "set".as_bytes()) {
        return Some(CommandKind::Known(set_spec()));
    }
    if eq_bytes(l, "target_link_libraries".as_bytes()) {
        return Some(CommandKind::Known(target_link_libraries_spec()));
    }
    if eq_bytes(l, "target_sources".as_bytes()) {
        return Some(CommandKind::Known(target_sources_spec()));
    }
    if eq_bytes(l, "target_compile_definitions".as_bytes()) {
        return Some(CommandKind::Known(target_compile_definitions_spec()));
    }
    if eq_bytes(l, "target_compile_options".as_bytes()) {
        return Some(CommandKind::Known(target_compile_options_spec()));
    }
    if eq_bytes(l, "target_compile_features".as_bytes()) {
        return Some(CommandKind::Known(target_compile_features_spec()));
    }
    if eq_bytes(l, "target_include_directories".as_bytes()) {
        return Some(CommandKind::Known(target_include_directories_spec()));
    }
    if eq_bytes(l, "target_link_directories".as_bytes()) {
        return Some(CommandKind::Known(target_link_directories_spec()));
    }
    if eq_bytes(l, "target_link_options".as_bytes()) {
        return Some(CommandKind::Known(target_link_options_spec()));
    }
    if eq_bytes(l, "target_precompile_headers".as_bytes()) {
        return Some(CommandKind::Known(target_precompile_headers_spec()));
    }
    if eq_bytes(l, "add_executable".as_bytes()) {
        return Some(CommandKind::Known(add_executable_spec()));
    }
    if eq_bytes(l, "add_library".as_bytes()) {
        return Some(CommandKind::Known(add_library_spec()));
    }
    if eq_bytes(l, "add_test".as_bytes()) {
        return Some(CommandKind::Known(add_test_spec()));
    }
    if eq_bytes(l, "project".as_bytes()) {
        return Some(CommandKind::Known(project_spec()));
    }
    if eq_bytes(l, "message".as_bytes()) {
        return Some(CommandKind::Known(message_spec()));
    }
    if eq_bytes(l, "find_package".as_bytes()) {
        return Some(CommandKind::Known(find_package_spec()));
    }
    if eq_bytes(l, "find_library".as_bytes()) {
        return Some(CommandKind::Known(find_library_spec()));
    }
    if eq_bytes(l, "find_file".as_bytes()) {
        return Some(CommandKind::Known(find_file_spec()));
    }
    if eq_bytes(l, "find_path".as_bytes()) {
        return Some(CommandKind::Known(find_path_spec()));
    }
    if eq_bytes(l, "find_program".as_bytes()) {
        return Some(CommandKind::Known(find_program_spec()));
    }
    if eq_bytes(l, "execute_process".as_bytes()) {
        return Some(CommandKind::Known(execute_process_spec()));
    }
    if eq_bytes(l, "cmake_parse_arguments".as_bytes()) {
        return Some(CommandKind::Known(cmake_parse_arguments_spec()));
    }
    if eq_bytes(l, "define_property".as_bytes()) {
        return Some(CommandKind::Known(define_property_spec()));
    }
    if eq_bytes(l, "get_property".as_bytes()) {
        return Some(CommandKind::Known(get_property_spec()));
    }
    if eq_bytes(l, "set_property".as_bytes()) {
        return Some(CommandKind::Known(set_property_spec()));
    }
    if eq_bytes(l, "export".as_bytes()) {
        return Some(CommandKind::Known(export_spec()));
    }
    if eq_bytes(l, "foreach".as_bytes()) {
        return Some(CommandKind::Known(foreach_spec()));
    }
    if eq_bytes(l, "function".as_bytes()) {
        return Some(CommandKind::Known(function_spec()));
    }
    if eq_bytes(l, "macro".as_bytes()) {
        return Some(CommandKind::Known(macro_spec()));
    }
    if eq_bytes(l, "cmake_minimum_required".as_bytes()) {
        return Some(CommandKind::Known(cmake_minimum_required_spec()));
    }
    if eq_bytes(l, "configure_file".as_bytes()) {
        return Some(CommandKind::Known(configure_file_spec()));
    }
    if eq_bytes(l, "include".as_bytes()) {
        return Some(CommandKind::Known(include_spec()));
    }
    if eq_bytes(l, "math".as_bytes()) {
        return Some(CommandKind::Known(math_spec()));
    }
    if eq_bytes(l, "add_subdirectory".as_bytes()) {
        return Some(CommandKind::Known(add_subdirectory_spec()));
    }
    if eq_bytes(l, "string".as_bytes()) {
        return Some(CommandKind::Known(string_spec()));
    }
    if eq_bytes(l, "list".as_bytes()) {
        return Some(CommandKind::Known(list_spec()));
    }
    if eq_bytes(l, "file".as_bytes()) {
        return Some(CommandKind::Known(file_spec()));
    }
    if eq_bytes(l, "install".as_bytes()) {
        return Some(CommandKind::Known(install_spec()));
    }
    if eq_bytes(l, "add_custom_command".as_bytes()) {
        return Some(CommandKind::Known(add_custom_command_spec()));
    }
    if eq_bytes(l, "add_custom_target".as_bytes()) {
        return Some(CommandKind::Known(add_custom_target_spec()));
    }
    if eq_bytes(l, "try_compile".as_bytes()) {
        return Some(CommandKind::Known(try_compile_spec()));
    }
    if eq_bytes(l, "try_run".as_bytes()) {
        return Some(CommandKind::Known(try_run_spec()));
    }
    if eq_bytes(l, "source_group".as_bytes()) {
        return Some(CommandKind::Known(source_group_spec()));
    }
    if eq_bytes(l, "set_target_properties".as_bytes()) {
        return Some(CommandKind::Known(set_target_properties_spec()));
    }
    if eq_bytes(l, "set_source_files_properties".as_bytes()) {
        return Some(CommandKind::Known(set_source_files_properties_spec()));
    }
    if eq_bytes(l, "set_tests_properties".as_bytes()) {
        return Some(CommandKind::Known(set_tests_properties_spec()));
    }
    if eq_bytes(l, "set_directory_properties".as_bytes()) {
        return Some(CommandKind::Known(set_directory_properties_spec()));
    }
    if eq_bytes(l, "set_package_properties".as_bytes()) {
        return Some(CommandKind::Known(set_package_properties_spec()));
    }
    if eq_bytes(l, "get_directory_property".as_bytes()) {
        return Some(CommandKind::Known(get_directory_property_spec()));
    }
    if eq_bytes(l, "get_filename_component".as_bytes()) {
        return Some(CommandKind::Known(get_filename_component_spec()));
    }
    if eq_bytes(l, "gtest_discover_tests".as_bytes()) {
        return Some(CommandKind::Known(gtest_discover_tests_spec()));
    }
    if eq_bytes(l, "build_command".as_bytes()) {
        return Some(CommandKind::Known(build_command_spec()));
    }
    if eq_bytes(l, "cmake_host_system_information".as_bytes()) {
        return Some(CommandKind::Known(cmake_host_system_information_spec()));
    }
    if eq_bytes(l, "cmake_language".as_bytes()) {
        return Some(CommandKind::Known(cmake_language_spec()));
    }
    if eq_bytes(l, "cmake_path".as_bytes()) {
        return Some(CommandKind::Known(cmake_path_spec()));
    }
    if eq_bytes(l, "cmake_pkg_config".as_bytes()) {
        return Some(CommandKind::Known(cmake_pkg_config_spec()));
    }
    if eq_bytes(l, "separate_arguments".as_bytes()) {
        return Some(CommandKind::Known(separate_arguments_spec()));
    }
    if eq_bytes(l, "enable_language".as_bytes()) {
        return Some(CommandKind::Known(enable_language_spec()));
    }
    if eq_bytes(l, "mark_as_advanced".as_bytes()) {
        return Some(CommandKind::Known(mark_as_advanced_spec()));
    }
    if eq_bytes(l, "option".as_bytes()) {
        return Some(CommandKind::Known(option_spec()));
    }
    if eq_bytes(l, "unset".as_bytes()) {
        return Some(CommandKind::Known(unset_spec()));
    }
    if eq_bytes(l, "block".as_bytes()) {
        return Some(CommandKind::Known(block_spec()));
    }
    if eq_bytes(l, "return".as_bytes()) {
        return Some(CommandKind::Known(return_spec()));
    }
    if eq_bytes(l, "include_directories".as_bytes()) {
        return Some(CommandKind::Known(include_directories_spec()));
    }
    if eq_bytes(l, "link_directories".as_bytes()) {
        return Some(CommandKind::Known(link_directories_spec()));
    }
    if eq_bytes(l, "link_libraries".as_bytes()) {
        return Some(CommandKind::Known(link_libraries_spec()));
    }
    if eq_bytes(l, "include_external_msproject".as_bytes()) {
        return Some(CommandKind::Known(include_external_msproject_spec()));
    }
    if eq_bytes(l, "load_cache".as_bytes()) {
        return Some(CommandKind::Known(load_cache_spec()));
    }
    if eq_bytes(l, "create_test_sourcelist".as_bytes()) {
        return Some(CommandKind::Known(create_test_sourcelist_spec()));
    }
    if eq_bytes(l, "ctest_build".as_bytes()) {
        return Some(CommandKind::Known(ctest_build_spec()));
    }
    if eq_bytes(l, "ctest_configure".as_bytes()) {
        return Some(CommandKind::Known(ctest_configure_spec()));
    }
    if eq_bytes(l, "ctest_coverage".as_bytes()) {
        return Some(CommandKind::Known(ctest_coverage_spec()));
    }
    if eq_bytes(l, "ctest_empty_binary_directory".as_bytes()) {
        return Some(CommandKind::Known(ctest_empty_binary_directory_spec()));
    }
    if eq_bytes(l, "ctest_memcheck".as_bytes()) {
        return Some(CommandKind::Known(ctest_memcheck_spec()));
    }
    if eq_bytes(l, "ctest_read_custom_files".as_bytes()) {
        return Some(CommandKind::Known(ctest_read_custom_files_spec()));
    }
    if eq_bytes(l, "ctest_run_script".as_bytes()) {
        return Some(CommandKind::Known(ctest_run_script_spec()));
    }
    if eq_bytes(l, "ctest_sleep".as_bytes()) {
        return Some(CommandKind::Known(ctest_sleep_spec()));
    }
    if eq_bytes(l, "ctest_start".as_bytes()) {
        return Some(CommandKind::Known(ctest_start_spec()));
    }
    if eq_bytes(l, "ctest_submit".as_bytes()) {
        return Some(CommandKind::Known(ctest_submit_spec()));
    }
    if eq_bytes(l, "ctest_test".as_bytes()) {
        return Some(CommandKind::Known(ctest_test_spec()));
    }
    if eq_bytes(l, "ctest_update".as_bytes()) {
        return Some(CommandKind::Known(ctest_update_spec()));
    }
    if eq_bytes(l, "ctest_upload".as_bytes()) {
        return Some(CommandKind::Known(ctest_upload_spec()));
    }
    if eq_bytes(l, "add_compile_definitions".as_bytes()) {
        return Some(CommandKind::Known(add_compile_definitions_spec()));
    }
    if eq_bytes(l, "add_compile_options".as_bytes()) {
        return Some(CommandKind::Known(add_compile_options_spec()));
    }
    if eq_bytes(l, "add_definitions".as_bytes()) {
        return Some(CommandKind::Known(add_definitions_spec()));
    }
    if eq_bytes(l, "add_dependencies".as_bytes()) {
        return Some(CommandKind::Known(add_dependencies_spec()));
    }
    if eq_bytes(l, "add_link_options".as_bytes()) {
        return Some(CommandKind::Known(add_link_options_spec()));
    }
    if eq_bytes(l, "aux_source_directory".as_bytes()) {
        return Some(CommandKind::Known(aux_source_directory_spec()));
    }
    if eq_bytes(l, "enable_testing".as_bytes()) {
        return Some(CommandKind::Known(enable_testing_spec()));
    }
    if eq_bytes(l, "fltk_wrap_ui".as_bytes()) {
        return Some(CommandKind::Known(fltk_wrap_ui_spec()));
    }
    if eq_bytes(l, "get_source_file_property".as_bytes()) {
        return Some(CommandKind::Known(get_source_file_property_spec()));
    }
    if eq_bytes(l, "get_target_property".as_bytes()) {
        return Some(CommandKind::Known(get_target_property_spec()));
    }
    if eq_bytes(l, "get_test_property".as_bytes()) {
        return Some(CommandKind::Known(get_test_property_spec()));
    }
    if eq_bytes(l, "include_regular_expression".as_bytes()) {
        return Some(CommandKind::Known(include_regular_expression_spec()));
    }
    if eq_bytes(l, "remove_definitions".as_bytes()) {
        return Some(CommandKind::Known(remove_definitions_spec()));
    }
    if eq_bytes(l, "endforeach".as_bytes()) {
        return Some(CommandKind::Known(no_kw_spec()));
    }
    if eq_bytes(l, "endfunction".as_bytes()) {
        return Some(CommandKind::Known(no_kw_spec()));
    }
    if eq_bytes(l, "endmacro".as_bytes()) {
        return Some(CommandKind::Known(no_kw_spec()));
    }
    if eq_bytes(l, "endblock".as_bytes()) {
        return Some(CommandKind::Known(no_kw_spec()));
    }
    None
}

} // verus!
