//! Updates of a configuration, one option at a time, each stated over the
//! configuration's model; the per-command table and its updates.
use vstd::prelude::*;

use crate::config::{
    CaseStyle, CmdModel, CommandConfiguration, CommentPreservation, ConfigModel, Configuration,
    EndCommandArgs, IndentStyle, NewLineKind, SortArguments, SpaceBeforeParen, SpaceInsideParen,
    WrapStyle, pcc_model, sort_model, space_model, strs_of,
};
use crate::load::{sbytes, strings_model};
use crate::text::eq_bytes;

verus! {

/// The two ways of writing a list of strings as bytes agree.
pub proof fn lemma_strs_of(v: Seq<String>)
    ensures
        strs_of(v) == strings_model(v),
{
    reveal(strs_of);
    reveal(strings_model);
    assert(strs_of(v) =~= strings_model(v));
}

/// Where command `k` stands in the table (its last entry), or -1.
pub open spec fn key_index(s: Seq<(Seq<u8>, CmdModel)>, k: Seq<u8>) -> int
    decreases s.len(),
{
    if s.len() == 0 {
        -1
    } else if s.last().0 == k {
        s.len() - 1
    } else {
        key_index(s.drop_last(), k)
    }
}

/// The table with command `k` set to `c`: in the place of its entry where it
/// has one, else at the end.
pub open spec fn pcc_put(s: Seq<(Seq<u8>, CmdModel)>, k: Seq<u8>, c: CmdModel) -> Seq<(Seq<u8>, CmdModel)> {
    let i = key_index(s, k);
    if i >= 0 {
        s.update(i, (k, c))
    } else {
        s.push((k, c))
    }
}

/// `base` with each entry of `p` put in turn.
pub open spec fn pcc_merge(base: Seq<(Seq<u8>, CmdModel)>, p: Seq<(Seq<u8>, CmdModel)>) -> Seq<(Seq<u8>, CmdModel)>
    decreases p.len(),
{
    if p.len() == 0 {
        base
    } else {
        pcc_put(pcc_merge(base, p.drop_last()), p.last().0, p.last().1)
    }
}

pub proof fn lemma_key_index(s: Seq<(Seq<u8>, CmdModel)>, k: Seq<u8>)
    ensures
        -1 <= key_index(s, k) < s.len(),
        key_index(s, k) >= 0 ==> s[key_index(s, k)].0 == k,
        forall|j: int| key_index(s, k) < j < s.len() ==> (#[trigger] s[j]).0 != k,
    decreases s.len(),
{
    if s.len() > 0 && s.last().0 != k {
        lemma_key_index(s.drop_last(), k);
        assert forall|j: int| key_index(s, k) < j < s.len() implies (#[trigger] s[j]).0 != k by {
            if j < s.len() - 1 {
                assert(s[j] == s.drop_last()[j]);
            }
        }
    }
}

/// The key of entry `i` of a table, as bytes.
proof fn lemma_pcc_entry(v: Seq<(String, CommandConfiguration)>, i: int)
    requires
        0 <= i < v.len(),
    ensures
        pcc_model(v).len() == v.len(),
        pcc_model(v)[i] == (sbytes(v[i].0), v[i].1.model()),
{
    reveal(pcc_model);
}

/// Sets the table of command `k`, in the place of the entry it has, else at
/// the end.
#[verifier::spinoff_prover]
pub fn pcc_insert(v: &mut Vec<(String, CommandConfiguration)>, k: String, c: CommandConfiguration)
    ensures
        pcc_model(final(v)@) == pcc_put(pcc_model(old(v)@), sbytes(k), c.model()),
{
    let ghost ov = v@;
    let ghost m = pcc_model(ov);
    let ghost km = sbytes(k);
    let ghost cm = c.model();
    proof {
        reveal(pcc_model);
        assert(m.take(m.len() as int) =~= m);
    }
    let mut i: usize = v.len();
    while i > 0
        invariant
            v@ == ov,
            ov == old(v)@,
            m == pcc_model(ov),
            m.len() == ov.len(),
            km == sbytes(k),
            cm == c.model(),
            i <= v@.len(),
            key_index(m, km) == key_index(m.take(i as int), km),
        decreases i,
    {
        proof {
            lemma_pcc_entry(ov, i - 1);
            assert(m.take(i as int).drop_last() =~= m.take(i - 1));
            assert(m.take(i as int).last() == m[i - 1]);
        }
        if eq_bytes(v[i - 1].0.as_str().as_bytes(), k.as_str().as_bytes()) {
            proof {
                assert(m[i - 1].0 == km);
                assert(key_index(m, km) == i - 1);
            }
            let ghost e = (k, c);
            v.set(i - 1, (k, c));
            proof {
                reveal(pcc_model);
                assert(v@ == ov.update(i - 1, e));
                assert forall|j: int| 0 <= j < v@.len() implies #[trigger] pcc_model(v@)[j] == m.update(i - 1, (km, cm))[j] by {
                    lemma_pcc_entry(v@, j);
                    lemma_pcc_entry(ov, j);
                    if j != i - 1 {
                        assert(v@[j] == ov[j]);
                    }
                }
                assert(pcc_model(v@) =~= m.update(i - 1, (km, cm)));
            }
            return;
        }
        i = i - 1;
    }
    v.push((k, c));
    proof {
        reveal(pcc_model);
        assert(key_index(m, km) == -1);
        assert(pcc_model(v@) =~= m.push((km, cm)));
    }
}

impl Configuration {
    /// The number of commands with a table.
    pub proof fn lemma_tables_len(&self)
        ensures
            self.model().per_command_config.len() == self.per_command_config@.len(),
    {
        reveal(Configuration::model);
        reveal(pcc_model);
    }

    /// The model's table is that of the field.
    pub proof fn lemma_model_tables(&self)
        ensures
            self.model().per_command_config == pcc_model(self.per_command_config@),
    {
        reveal(Configuration::model);
    }

    /// Replaces the per-command table.
    #[verifier::spinoff_prover]
    pub(crate) fn set_per_command_config(&mut self, v: Vec<(String, CommandConfiguration)>)
        ensures
            final(self).model() == (ConfigModel { per_command_config: pcc_model(v@), ..old(self).model() }),
    {
        proof {
            reveal(Configuration::model);
        }
        self.per_command_config = v;
    }

    /// Sets the table of command `k` (see `pcc_insert`).
    #[verifier::spinoff_prover]
    pub(crate) fn insert_command_table(&mut self, k: String, c: CommandConfiguration)
        ensures
            final(self).model() == (ConfigModel {
                per_command_config: pcc_put(old(self).model().per_command_config, sbytes(k), c.model()),
                ..old(self).model()
            }),
    {
        proof {
            reveal(Configuration::model);
        }
        pcc_insert(&mut self.per_command_config, k, c);
    }

    /// Indentation by tabs or by spaces.
    #[verifier::spinoff_prover]
    pub(crate) fn set_indentation(&mut self, use_tabs: bool, style: IndentStyle)
        ensures
            final(self).model() == (ConfigModel { use_tabs, indent_style: style, ..old(self).model() }),
    {
        proof {
            reveal(Configuration::model);
        }
        self.use_tabs = use_tabs;
        self.indent_style = style;
    }

    /// Sets `space_before_paren`.
    #[verifier::spinoff_prover]
    pub(crate) fn set_space_before_paren(&mut self, x: SpaceBeforeParen)
        ensures
            final(self).model() == (ConfigModel { space_before_paren: space_model(x), ..old(self).model() }),
    {
        proof {
            reveal(Configuration::model);
        }
        self.space_before_paren = x;
    }

    /// Sets the argument sorting, marked as given explicitly.
    #[verifier::spinoff_prover]
    pub(crate) fn set_sorting(&mut self, lists: bool, x: SortArguments)
        ensures
            final(self).model() == (ConfigModel {
                sort_lists: lists,
                sort_arguments: sort_model(x),
                sort_arguments_explicit: true,
                ..old(self).model()
            }),
    {
        proof {
            reveal(Configuration::model);
        }
        self.sort_lists = lists;
        self.sort_arguments = x;
        self.sort_arguments_explicit = true;
    }

    /// Sets keyword-section sorting, marked as given explicitly.
    #[verifier::spinoff_prover]
    pub(crate) fn set_sort_keyword_sections(&mut self, x: bool)
        ensures
            final(self).model() == (ConfigModel {
                sort_keyword_sections: x,
                sort_keyword_sections_explicit: true,
                ..old(self).model()
            }),
    {
        proof {
            reveal(Configuration::model);
        }
        self.sort_keyword_sections = x;
        self.sort_keyword_sections_explicit = true;
    }

    /// Sets `extends`.
    #[verifier::spinoff_prover]
    pub(crate) fn set_extends(&mut self, x: String)
        ensures
            final(self).model() == (ConfigModel { extends: Some(sbytes(x)), ..old(self).model() }),
    {
        proof {
            reveal(Configuration::model);
        }
        self.extends = Some(x);
    }

    /// Sets `line_width`.
    #[verifier::spinoff_prover]
    pub(crate) fn set_line_width(&mut self, x: u32)
        ensures
            final(self).model() == (ConfigModel { line_width: x, ..old(self).model() }),
    {
        proof {
            reveal(Configuration::model);
        }
        self.line_width = x;
    }

    /// Sets `wrap_style`.
    #[verifier::spinoff_prover]
    pub(crate) fn set_wrap_style(&mut self, x: WrapStyle)
        ensures
            final(self).model() == (ConfigModel { wrap_style: x, ..old(self).model() }),
    {
        proof {
            reveal(Configuration::model);
        }
        self.wrap_style = x;
    }

    /// Sets `first_arg_same_line`.
    #[verifier::spinoff_prover]
    pub(crate) fn set_first_arg_same_line(&mut self, x: bool)
        ensures
            final(self).model() == (ConfigModel { first_arg_same_line: x, ..old(self).model() }),
    {
        proof {
            reveal(Configuration::model);
        }
        self.first_arg_same_line = x;
    }

    /// Sets `wrap_arg_threshold`.
    #[verifier::spinoff_prover]
    pub(crate) fn set_wrap_arg_threshold(&mut self, x: u32)
        ensures
            final(self).model() == (ConfigModel { wrap_arg_threshold: x, ..old(self).model() }),
    {
        proof {
            reveal(Configuration::model);
        }
        self.wrap_arg_threshold = x;
    }

    /// Sets `indent_width`.
    #[verifier::spinoff_prover]
    pub(crate) fn set_indent_width(&mut self, x: u8)
        ensures
            final(self).model() == (ConfigModel { indent_width: x, ..old(self).model() }),
    {
        proof {
            reveal(Configuration::model);
        }
        self.indent_width = x;
    }

    /// Sets `continuation_indent_width`.
    #[verifier::spinoff_prover]
    pub(crate) fn set_continuation_indent_width(&mut self, x: Option<u8>)
        ensures
            final(self).model() == (ConfigModel { continuation_indent_width: x, ..old(self).model() }),
    {
        proof {
            reveal(Configuration::model);
        }
        self.continuation_indent_width = x;
    }

    /// Sets `new_line_kind`.
    #[verifier::spinoff_prover]
    pub(crate) fn set_new_line_kind(&mut self, x: NewLineKind)
        ensures
            final(self).model() == (ConfigModel { new_line_kind: x, ..old(self).model() }),
    {
        proof {
            reveal(Configuration::model);
        }
        self.new_line_kind = x;
    }

    /// Sets `final_newline`.
    #[verifier::spinoff_prover]
    pub(crate) fn set_final_newline(&mut self, x: bool)
        ensures
            final(self).model() == (ConfigModel { final_newline: x, ..old(self).model() }),
    {
        proof {
            reveal(Configuration::model);
        }
        self.final_newline = x;
    }

    /// Sets `max_blank_lines`.
    #[verifier::spinoff_prover]
    pub(crate) fn set_max_blank_lines(&mut self, x: u8)
        ensures
            final(self).model() == (ConfigModel { max_blank_lines: x, ..old(self).model() }),
    {
        proof {
            reveal(Configuration::model);
        }
        self.max_blank_lines = x;
    }

    /// Sets `min_blank_lines_between_blocks`.
    #[verifier::spinoff_prover]
    pub(crate) fn set_min_blank_lines_between_blocks(&mut self, x: u8)
        ensures
            final(self).model() == (ConfigModel { min_blank_lines_between_blocks: x, ..old(self).model() }),
    {
        proof {
            reveal(Configuration::model);
        }
        self.min_blank_lines_between_blocks = x;
    }

    /// Sets `blank_line_between_sections`.
    #[verifier::spinoff_prover]
    pub(crate) fn set_blank_line_between_sections(&mut self, x: bool)
        ensures
            final(self).model() == (ConfigModel { blank_line_between_sections: x, ..old(self).model() }),
    {
        proof {
            reveal(Configuration::model);
        }
        self.blank_line_between_sections = x;
    }

    /// Sets `command_case`.
    #[verifier::spinoff_prover]
    pub(crate) fn set_command_case(&mut self, x: CaseStyle)
        ensures
            final(self).model() == (ConfigModel { command_case: x, ..old(self).model() }),
    {
        proof {
            reveal(Configuration::model);
        }
        self.command_case = x;
    }

    /// Sets `keyword_case`.
    #[verifier::spinoff_prover]
    pub(crate) fn set_keyword_case(&mut self, x: CaseStyle)
        ensures
            final(self).model() == (ConfigModel { keyword_case: x, ..old(self).model() }),
    {
        proof {
            reveal(Configuration::model);
        }
        self.keyword_case = x;
    }

    /// Sets `literal_case`.
    #[verifier::spinoff_prover]
    pub(crate) fn set_literal_case(&mut self, x: CaseStyle)
        ensures
            final(self).model() == (ConfigModel { literal_case: x, ..old(self).model() }),
    {
        proof {
            reveal(Configuration::model);
        }
        self.literal_case = x;
    }

    /// Sets `closing_paren_newline`.
    #[verifier::spinoff_prover]
    pub(crate) fn set_closing_paren_newline(&mut self, x: bool)
        ensures
            final(self).model() == (ConfigModel { closing_paren_newline: x, ..old(self).model() }),
    {
        proof {
            reveal(Configuration::model);
        }
        self.closing_paren_newline = x;
    }

    /// Sets `space_inside_paren`.
    #[verifier::spinoff_prover]
    pub(crate) fn set_space_inside_paren(&mut self, x: SpaceInsideParen)
        ensures
            final(self).model() == (ConfigModel { space_inside_paren: x, ..old(self).model() }),
    {
        proof {
            reveal(Configuration::model);
        }
        self.space_inside_paren = x;
    }

    /// Sets `comment_preservation`.
    #[verifier::spinoff_prover]
    pub(crate) fn set_comment_preservation(&mut self, x: CommentPreservation)
        ensures
            final(self).model() == (ConfigModel { comment_preservation: x, ..old(self).model() }),
    {
        proof {
            reveal(Configuration::model);
        }
        self.comment_preservation = x;
    }

    /// Sets `comment_width`.
    #[verifier::spinoff_prover]
    pub(crate) fn set_comment_width(&mut self, x: Option<u32>)
        ensures
            final(self).model() == (ConfigModel { comment_width: x, ..old(self).model() }),
    {
        proof {
            reveal(Configuration::model);
        }
        self.comment_width = x;
    }

    /// Sets `align_trailing_comments`.
    #[verifier::spinoff_prover]
    pub(crate) fn set_align_trailing_comments(&mut self, x: bool)
        ensures
            final(self).model() == (ConfigModel { align_trailing_comments: x, ..old(self).model() }),
    {
        proof {
            reveal(Configuration::model);
        }
        self.align_trailing_comments = x;
    }

    /// Sets `comment_gap`.
    #[verifier::spinoff_prover]
    pub(crate) fn set_comment_gap(&mut self, x: u8)
        ensures
            final(self).model() == (ConfigModel { comment_gap: x, ..old(self).model() }),
    {
        proof {
            reveal(Configuration::model);
        }
        self.comment_gap = x;
    }

    /// Sets `trim_trailing_whitespace`.
    #[verifier::spinoff_prover]
    pub(crate) fn set_trim_trailing_whitespace(&mut self, x: bool)
        ensures
            final(self).model() == (ConfigModel { trim_trailing_whitespace: x, ..old(self).model() }),
    {
        proof {
            reveal(Configuration::model);
        }
        self.trim_trailing_whitespace = x;
    }

    /// Sets `collapse_spaces`.
    #[verifier::spinoff_prover]
    pub(crate) fn set_collapse_spaces(&mut self, x: bool)
        ensures
            final(self).model() == (ConfigModel { collapse_spaces: x, ..old(self).model() }),
    {
        proof {
            reveal(Configuration::model);
        }
        self.collapse_spaces = x;
    }

    /// Sets `align_property_values`.
    #[verifier::spinoff_prover]
    pub(crate) fn set_align_property_values(&mut self, x: bool)
        ensures
            final(self).model() == (ConfigModel { align_property_values: x, ..old(self).model() }),
    {
        proof {
            reveal(Configuration::model);
        }
        self.align_property_values = x;
    }

    /// Sets `align_consecutive_set`.
    #[verifier::spinoff_prover]
    pub(crate) fn set_align_consecutive_set(&mut self, x: bool)
        ensures
            final(self).model() == (ConfigModel { align_consecutive_set: x, ..old(self).model() }),
    {
        proof {
            reveal(Configuration::model);
        }
        self.align_consecutive_set = x;
    }

    /// Sets `align_arg_groups`.
    #[verifier::spinoff_prover]
    pub(crate) fn set_align_arg_groups(&mut self, x: bool)
        ensures
            final(self).model() == (ConfigModel { align_arg_groups: x, ..old(self).model() }),
    {
        proof {
            reveal(Configuration::model);
        }
        self.align_arg_groups = x;
    }

    /// Sets `disable_formatting`.
    #[verifier::spinoff_prover]
    pub(crate) fn set_disable_formatting(&mut self, x: bool)
        ensures
            final(self).model() == (ConfigModel { disable_formatting: x, ..old(self).model() }),
    {
        proof {
            reveal(Configuration::model);
        }
        self.disable_formatting = x;
    }

    /// Sets `indent_block_body`.
    #[verifier::spinoff_prover]
    #[verifier::rlimit(30)]
    pub(crate) fn set_indent_block_body(&mut self, x: bool)
        ensures
            final(self).model() == (ConfigModel { indent_block_body: x, ..old(self).model() }),
    {
        proof {
            reveal(Configuration::model);
        }
        self.indent_block_body = x;
    }

    /// Sets `end_command_args`.
    #[verifier::spinoff_prover]
    pub(crate) fn set_end_command_args(&mut self, x: EndCommandArgs)
        ensures
            final(self).model() == (ConfigModel { end_command_args: x, ..old(self).model() }),
    {
        proof {
            reveal(Configuration::model);
        }
        self.end_command_args = x;
    }

    /// Sets `custom_keywords`.
    #[verifier::spinoff_prover]
    pub(crate) fn set_custom_keywords(&mut self, x: Vec<String>)
        ensures
            final(self).model() == (ConfigModel { custom_keywords: strings_model(x@), ..old(self).model() }),
    {
        proof {
            reveal(Configuration::model);
            lemma_strs_of(x@);
        }
        self.custom_keywords = x;
    }

    /// Sets `ignore_patterns`.
    #[verifier::spinoff_prover]
    pub(crate) fn set_ignore_patterns(&mut self, x: Vec<String>)
        ensures
            final(self).model() == (ConfigModel { ignore_patterns: strings_model(x@), ..old(self).model() }),
    {
        proof {
            reveal(Configuration::model);
            lemma_strs_of(x@);
        }
        self.ignore_patterns = x;
    }

    /// Sets `ignore_commands`.
    #[verifier::spinoff_prover]
    pub(crate) fn set_ignore_commands(&mut self, x: Vec<String>)
        ensures
            final(self).model() == (ConfigModel { ignore_commands: strings_model(x@), ..old(self).model() }),
    {
        proof {
            reveal(Configuration::model);
            lemma_strs_of(x@);
        }
        self.ignore_commands = x;
    }

}


/// The table of command `k`, if the table has one.
pub open spec fn pcc_lookup(s: Seq<(Seq<u8>, CmdModel)>, k: Seq<u8>) -> Option<CmdModel> {
    let i = key_index(s, k);
    if i >= 0 { Some(s[i].1) } else { None }
}

proof fn lemma_key_index_at(s: Seq<(Seq<u8>, CmdModel)>, k: Seq<u8>, x: int)
    requires
        -1 <= x < s.len(),
        x >= 0 ==> s[x].0 == k,
        forall|j: int| x < j < s.len() ==> (#[trigger] s[j]).0 != k,
    ensures
        key_index(s, k) == x,
    decreases s.len(),
{
    if s.len() > 0 {
        if s.last().0 == k {
            assert(x == s.len() - 1);
        } else {
            let t = s.drop_last();
            assert forall|j: int| x < j < t.len() implies (#[trigger] t[j]).0 != k by {
                assert(t[j] == s[j]);
            }
            if x >= 0 {
                assert(t[x] == s[x]);
            }
            lemma_key_index_at(t, k, x);
        }
    }
}

proof fn lemma_lookup_put(s: Seq<(Seq<u8>, CmdModel)>, pk: Seq<u8>, c: CmdModel, k: Seq<u8>)
    ensures
        pcc_lookup(pcc_put(s, pk, c), k) == if k == pk { Some(c) } else { pcc_lookup(s, k) },
{
    lemma_key_index(s, pk);
    lemma_key_index(s, k);
    let i = key_index(s, pk);
    let t = pcc_put(s, pk, c);
    let ki = key_index(s, k);
    if k == pk {
        if i >= 0 {
            assert forall|j: int| i < j < t.len() implies (#[trigger] t[j]).0 != k by {
                assert(t[j] == s[j]);
            }
            lemma_key_index_at(t, k, i);
        } else {
            lemma_key_index_at(t, k, s.len() as int);
        }
    } else {
        assert forall|j: int| ki < j < t.len() implies (#[trigger] t[j]).0 != k by {
            if j < s.len() {
                if j == i {
                } else {
                    assert(t[j] == s[j]);
                }
            }
        }
        if ki >= 0 {
            assert(ki != i);
            assert(t[ki] == s[ki]);
        }
        lemma_key_index_at(t, k, ki);
    }
}

/// Per-command tables merge shallowly: after putting the entries of `p` on
/// `base`, a command that `p` names has `p`'s (last) table for it, whole; any
/// other command keeps `base`'s.
pub proof fn law_pcc_merge_shallow(base: Seq<(Seq<u8>, CmdModel)>, p: Seq<(Seq<u8>, CmdModel)>, k: Seq<u8>)
    ensures
        pcc_lookup(pcc_merge(base, p), k) == if pcc_lookup(p, k) is Some { pcc_lookup(p, k) } else { pcc_lookup(base, k) },
    decreases p.len(),
{
    if p.len() > 0 {
        let q = p.drop_last();
        law_pcc_merge_shallow(base, q, k);
        lemma_lookup_put(pcc_merge(base, q), p.last().0, p.last().1, k);
        if p.last().0 != k {
            lemma_key_index(p, k);
            assert(key_index(p, k) == key_index(q, k));
            if key_index(p, k) >= 0 {
                assert(p[key_index(p, k)] == q[key_index(q, k)]);
            }
        }
    }
}

} // verus!
