//! A command's own table of options: which options it may set and the
//! effect of each.
use vstd::prelude::*;
use vstd::string::StringSliceAdditionalSpecFns;

use crate::config::{
    CaseStyle, CmdModel, CommandConfiguration, CommentPreservation, IndentStyle, SortArguments,
    SpaceBeforeParen, SpaceInsideParen, WrapStyle,
};
use crate::load::{
    canonical, canonical_key, case_of, cp_of, indent_of, invalid_type_msg, raw_bool, raw_model,
    raw_strings, raw_u32, raw_u8, sip_of, unknown_msg, wrap_of, CanonicalKey, RawConfigValue,
    RawModel,
};
use crate::loader::{
    cmd_named, cmd_typed, diag, raw_bool_or_list, raw_nullable_u32, raw_nullable_u8, sort_of,
    space_of, LoadModel, Loader,
};
use crate::settings::lemma_strs_of;

verus! {

/// Which of the two helpers of `apply_per_command_value` applies a key.
pub open spec fn cmd_group(ck: CanonicalKey) -> int {
    match ck {
        CanonicalKey::LineWidth => 1,
        CanonicalKey::WrapStyle => 1,
        CanonicalKey::FirstArgSameLine => 1,
        CanonicalKey::WrapArgThreshold => 1,
        CanonicalKey::IndentWidth => 1,
        CanonicalKey::IndentStyle => 1,
        CanonicalKey::ContinuationIndentWidth => 1,
        CanonicalKey::CommandCase => 1,
        CanonicalKey::KeywordCase => 1,
        CanonicalKey::CustomKeywords => 1,
        CanonicalKey::LiteralCase => 1,
        CanonicalKey::ClosingParenNewline => 1,
        CanonicalKey::SpaceBeforeParen => 2,
        CanonicalKey::SpaceInsideParen => 2,
        CanonicalKey::CommentPreservation => 2,
        CanonicalKey::CommentWidth => 2,
        CanonicalKey::AlignTrailingComments => 2,
        CanonicalKey::CommentGap => 2,
        CanonicalKey::AlignPropertyValues => 2,
        CanonicalKey::AlignConsecutiveSet => 2,
        CanonicalKey::AlignArgGroups => 2,
        CanonicalKey::SortArguments => 2,
        CanonicalKey::SortKeywordSections => 2,
        CanonicalKey::NewLineKind => 2,
        CanonicalKey::FinalNewline => 2,
        CanonicalKey::MaxBlankLines => 2,
        CanonicalKey::MinBlankLinesBetweenBlocks => 2,
        CanonicalKey::BlankLineBetweenSections => 2,
        CanonicalKey::TrimTrailingWhitespace => 2,
        CanonicalKey::CollapseSpaces => 2,
        CanonicalKey::PerCommandConfig => 2,
        CanonicalKey::DisableFormatting => 2,
        CanonicalKey::IgnorePatterns => 2,
        CanonicalKey::IgnoreCommands => 2,
        CanonicalKey::IndentBlockBody => 2,
        CanonicalKey::EndCommandArgs => 2,
        CanonicalKey::Extends => 2,
        CanonicalKey::IndentMode => 2,
        CanonicalKey::UseTabs => 2,
    }
}

/// The effect of `LineWidth` in a command's table.
pub open spec fn cmd_key_line_width(st: LoadModel, t: CmdModel, k: Seq<u8>, v: RawModel) -> (LoadModel, CmdModel) {
    cmd_typed(st, t, k, raw_u32(v), "non-negative integer".spec_bytes(), |m: CmdModel, x: u32| CmdModel { line_width: Some(x), ..m })
}

/// The effect of `WrapStyle` in a command's table.
pub open spec fn cmd_key_wrap_style(st: LoadModel, t: CmdModel, k: Seq<u8>, v: RawModel) -> (LoadModel, CmdModel) {
    cmd_named(st, t, k, v, |s: Seq<u8>| wrap_of(s), "wrapStyle".spec_bytes(), "cascade, vertical".spec_bytes(), |m: CmdModel, x: WrapStyle| CmdModel { wrap_style: Some(x), ..m })
}

/// The effect of `FirstArgSameLine` in a command's table.
pub open spec fn cmd_key_first_arg_same_line(st: LoadModel, t: CmdModel, k: Seq<u8>, v: RawModel) -> (LoadModel, CmdModel) {
    cmd_typed(st, t, k, raw_bool(v), "boolean".spec_bytes(), |m: CmdModel, x: bool| CmdModel { first_arg_same_line: Some(x), ..m })
}

/// The effect of `WrapArgThreshold` in a command's table.
pub open spec fn cmd_key_wrap_arg_threshold(st: LoadModel, t: CmdModel, k: Seq<u8>, v: RawModel) -> (LoadModel, CmdModel) {
    cmd_typed(st, t, k, raw_u32(v), "non-negative integer".spec_bytes(), |m: CmdModel, x: u32| CmdModel { wrap_arg_threshold: Some(x), ..m })
}

/// The effect of `IndentWidth` in a command's table.
pub open spec fn cmd_key_indent_width(st: LoadModel, t: CmdModel, k: Seq<u8>, v: RawModel) -> (LoadModel, CmdModel) {
    cmd_typed(st, t, k, raw_u8(v), "integer in 0..=255".spec_bytes(), |m: CmdModel, x: u8| CmdModel { indent_width: Some(x), ..m })
}

/// The effect of `IndentStyle` in a command's table.
pub open spec fn cmd_key_indent_style(st: LoadModel, t: CmdModel, k: Seq<u8>, v: RawModel) -> (LoadModel, CmdModel) {
    cmd_named(st, t, k, v, |s: Seq<u8>| indent_of(s), "indentStyle".spec_bytes(), "space, tab".spec_bytes(), |m: CmdModel, x: IndentStyle| CmdModel { indent_style: Some(x), ..m })
}

/// The effect of `ContinuationIndentWidth` in a command's table.
pub open spec fn cmd_key_continuation_indent_width(st: LoadModel, t: CmdModel, k: Seq<u8>, v: RawModel) -> (LoadModel, CmdModel) {
    cmd_typed(st, t, k, raw_nullable_u8(v), "integer in 0..=255".spec_bytes(), |m: CmdModel, x: Option<u8>| CmdModel { continuation_indent_width: x, ..m })
}

/// The effect of `CommandCase` in a command's table.
pub open spec fn cmd_key_command_case(st: LoadModel, t: CmdModel, k: Seq<u8>, v: RawModel) -> (LoadModel, CmdModel) {
    cmd_named(st, t, k, v, |s: Seq<u8>| case_of(s), "commandCase".spec_bytes(), "lower, upper, unchanged".spec_bytes(), |m: CmdModel, x: CaseStyle| CmdModel { command_case: Some(x), ..m })
}

/// The effect of `KeywordCase` in a command's table.
pub open spec fn cmd_key_keyword_case(st: LoadModel, t: CmdModel, k: Seq<u8>, v: RawModel) -> (LoadModel, CmdModel) {
    cmd_named(st, t, k, v, |s: Seq<u8>| case_of(s), "keywordCase".spec_bytes(), "lower, upper, unchanged".spec_bytes(), |m: CmdModel, x: CaseStyle| CmdModel { keyword_case: Some(x), ..m })
}

/// The effect of `CustomKeywords` in a command's table.
pub open spec fn cmd_key_custom_keywords(st: LoadModel, t: CmdModel, k: Seq<u8>, v: RawModel) -> (LoadModel, CmdModel) {
    cmd_typed(st, t, k, raw_strings(v), "array of keyword strings".spec_bytes(), |m: CmdModel, x: Seq<Seq<u8>>| CmdModel { custom_keywords: Some(x), ..m })
}

/// The effect of `LiteralCase` in a command's table.
pub open spec fn cmd_key_literal_case(st: LoadModel, t: CmdModel, k: Seq<u8>, v: RawModel) -> (LoadModel, CmdModel) {
    cmd_named(st, t, k, v, |s: Seq<u8>| case_of(s), "literalCase".spec_bytes(), "lower, upper, unchanged".spec_bytes(), |m: CmdModel, x: CaseStyle| CmdModel { literal_case: Some(x), ..m })
}

/// The effect of `ClosingParenNewline` in a command's table.
pub open spec fn cmd_key_closing_paren_newline(st: LoadModel, t: CmdModel, k: Seq<u8>, v: RawModel) -> (LoadModel, CmdModel) {
    cmd_typed(st, t, k, raw_bool(v), "boolean".spec_bytes(), |m: CmdModel, x: bool| CmdModel { closing_paren_newline: Some(x), ..m })
}

/// The effect of `SpaceBeforeParen` in a command's table.
pub open spec fn cmd_key_space_before_paren(st: LoadModel, t: CmdModel, k: Seq<u8>, v: RawModel) -> (LoadModel, CmdModel) {
    cmd_typed(st, t, k, raw_bool_or_list(v), "boolean or array of command name strings".spec_bytes(), |m: CmdModel, x: Result<bool, Seq<Seq<u8>>>| CmdModel { space_before_paren: Some(space_of(x)), ..m })
}

/// The effect of `SpaceInsideParen` in a command's table.
pub open spec fn cmd_key_space_inside_paren(st: LoadModel, t: CmdModel, k: Seq<u8>, v: RawModel) -> (LoadModel, CmdModel) {
    cmd_named(st, t, k, v, |s: Seq<u8>| sip_of(s), "spaceInsideParen".spec_bytes(), "insert, remove, preserve".spec_bytes(), |m: CmdModel, x: SpaceInsideParen| CmdModel { space_inside_paren: Some(x), ..m })
}

/// The effect of `CommentPreservation` in a command's table.
pub open spec fn cmd_key_comment_preservation(st: LoadModel, t: CmdModel, k: Seq<u8>, v: RawModel) -> (LoadModel, CmdModel) {
    cmd_named(st, t, k, v, |s: Seq<u8>| cp_of(s), "commentPreservation".spec_bytes(), "preserve, reflow".spec_bytes(), |m: CmdModel, x: CommentPreservation| CmdModel { comment_preservation: Some(x), ..m })
}

/// The effect of `CommentWidth` in a command's table.
pub open spec fn cmd_key_comment_width(st: LoadModel, t: CmdModel, k: Seq<u8>, v: RawModel) -> (LoadModel, CmdModel) {
    cmd_typed(st, t, k, raw_nullable_u32(v), "non-negative integer".spec_bytes(), |m: CmdModel, x: Option<u32>| CmdModel { comment_width: x, ..m })
}

/// The effect of `AlignTrailingComments` in a command's table.
pub open spec fn cmd_key_align_trailing_comments(st: LoadModel, t: CmdModel, k: Seq<u8>, v: RawModel) -> (LoadModel, CmdModel) {
    cmd_typed(st, t, k, raw_bool(v), "boolean".spec_bytes(), |m: CmdModel, x: bool| CmdModel { align_trailing_comments: Some(x), ..m })
}

/// The effect of `CommentGap` in a command's table.
pub open spec fn cmd_key_comment_gap(st: LoadModel, t: CmdModel, k: Seq<u8>, v: RawModel) -> (LoadModel, CmdModel) {
    cmd_typed(st, t, k, raw_u8(v), "integer in 0..=255".spec_bytes(), |m: CmdModel, x: u8| CmdModel { comment_gap: Some(x), ..m })
}

/// The effect of `AlignPropertyValues` in a command's table.
pub open spec fn cmd_key_align_property_values(st: LoadModel, t: CmdModel, k: Seq<u8>, v: RawModel) -> (LoadModel, CmdModel) {
    cmd_typed(st, t, k, raw_bool(v), "boolean".spec_bytes(), |m: CmdModel, x: bool| CmdModel { align_property_values: Some(x), ..m })
}

/// The effect of `AlignConsecutiveSet` in a command's table.
pub open spec fn cmd_key_align_consecutive_set(st: LoadModel, t: CmdModel, k: Seq<u8>, v: RawModel) -> (LoadModel, CmdModel) {
    cmd_typed(st, t, k, raw_bool(v), "boolean".spec_bytes(), |m: CmdModel, x: bool| CmdModel { align_consecutive_set: Some(x), ..m })
}

/// The effect of `AlignArgGroups` in a command's table.
pub open spec fn cmd_key_align_arg_groups(st: LoadModel, t: CmdModel, k: Seq<u8>, v: RawModel) -> (LoadModel, CmdModel) {
    cmd_typed(st, t, k, raw_bool(v), "boolean".spec_bytes(), |m: CmdModel, x: bool| CmdModel { align_arg_groups: Some(x), ..m })
}

/// The effect of `SortArguments` in a command's table.
pub open spec fn cmd_key_sort_arguments(st: LoadModel, t: CmdModel, k: Seq<u8>, v: RawModel) -> (LoadModel, CmdModel) {
    cmd_typed(st, t, k, raw_bool_or_list(v), "boolean or array of command/section name strings".spec_bytes(), |m: CmdModel, x: Result<bool, Seq<Seq<u8>>>| CmdModel { sort_arguments: Some(sort_of(x)), ..m })
}

/// The effect of `SortKeywordSections` in a command's table.
pub open spec fn cmd_key_sort_keyword_sections(st: LoadModel, t: CmdModel, k: Seq<u8>, v: RawModel) -> (LoadModel, CmdModel) {
    cmd_typed(st, t, k, raw_bool(v), "boolean".spec_bytes(), |m: CmdModel, x: bool| CmdModel { sort_keyword_sections: Some(x), ..m })
}

/// The effect of one option of a command's table: the command's option set
/// when the value parses, else a diagnostic; options that a command cannot
/// override are unknown there.
pub open spec fn apply_cmd(st: LoadModel, t: CmdModel, k: Seq<u8>, opt: Seq<u8>, v: RawModel) -> (LoadModel, CmdModel) {
    match canonical(opt) {
        None => (diag(st, k, unknown_msg()), t),
        Some(ck) => match ck {
            CanonicalKey::LineWidth => cmd_key_line_width(st, t, k, v),
            CanonicalKey::WrapStyle => cmd_key_wrap_style(st, t, k, v),
            CanonicalKey::FirstArgSameLine => cmd_key_first_arg_same_line(st, t, k, v),
            CanonicalKey::WrapArgThreshold => cmd_key_wrap_arg_threshold(st, t, k, v),
            CanonicalKey::IndentWidth => cmd_key_indent_width(st, t, k, v),
            CanonicalKey::IndentStyle => cmd_key_indent_style(st, t, k, v),
            CanonicalKey::ContinuationIndentWidth => cmd_key_continuation_indent_width(st, t, k, v),
            CanonicalKey::CommandCase => cmd_key_command_case(st, t, k, v),
            CanonicalKey::KeywordCase => cmd_key_keyword_case(st, t, k, v),
            CanonicalKey::CustomKeywords => cmd_key_custom_keywords(st, t, k, v),
            CanonicalKey::LiteralCase => cmd_key_literal_case(st, t, k, v),
            CanonicalKey::ClosingParenNewline => cmd_key_closing_paren_newline(st, t, k, v),
            CanonicalKey::SpaceBeforeParen => cmd_key_space_before_paren(st, t, k, v),
            CanonicalKey::SpaceInsideParen => cmd_key_space_inside_paren(st, t, k, v),
            CanonicalKey::CommentPreservation => cmd_key_comment_preservation(st, t, k, v),
            CanonicalKey::CommentWidth => cmd_key_comment_width(st, t, k, v),
            CanonicalKey::AlignTrailingComments => cmd_key_align_trailing_comments(st, t, k, v),
            CanonicalKey::CommentGap => cmd_key_comment_gap(st, t, k, v),
            CanonicalKey::AlignPropertyValues => cmd_key_align_property_values(st, t, k, v),
            CanonicalKey::AlignConsecutiveSet => cmd_key_align_consecutive_set(st, t, k, v),
            CanonicalKey::AlignArgGroups => cmd_key_align_arg_groups(st, t, k, v),
            CanonicalKey::SortArguments => cmd_key_sort_arguments(st, t, k, v),
            CanonicalKey::SortKeywordSections => cmd_key_sort_keyword_sections(st, t, k, v),
            CanonicalKey::NewLineKind | CanonicalKey::FinalNewline | CanonicalKey::MaxBlankLines | CanonicalKey::MinBlankLinesBetweenBlocks | CanonicalKey::BlankLineBetweenSections | CanonicalKey::TrimTrailingWhitespace | CanonicalKey::CollapseSpaces | CanonicalKey::PerCommandConfig | CanonicalKey::DisableFormatting | CanonicalKey::IgnorePatterns | CanonicalKey::IgnoreCommands | CanonicalKey::IndentBlockBody | CanonicalKey::EndCommandArgs | CanonicalKey::Extends | CanonicalKey::IndentMode | CanonicalKey::UseTabs => (diag(st, k, unknown_msg()), t),
        },
    }
}

impl Loader {
    #[verifier::spinoff_prover]
    fn apply_cmd_line_width(&mut self, key: &str, value: &RawConfigValue, target: &mut CommandConfiguration)
        ensures
            (final(self).model(), final(target).model()) == cmd_key_line_width(old(self).model(), old(target).model(), key.spec_bytes(), raw_model(*value)),
            final(self).config == old(self).config,
    {
        if let Some(x) = self.take_u32(key, value) {
            target.line_width = Some(x);
        }
    }

    #[verifier::spinoff_prover]
    fn apply_cmd_wrap_style(&mut self, key: &str, value: &RawConfigValue, target: &mut CommandConfiguration)
        ensures
            (final(self).model(), final(target).model()) == cmd_key_wrap_style(old(self).model(), old(target).model(), key.spec_bytes(), raw_model(*value)),
            final(self).config == old(self).config,
    {
        if let Some(x) = self.take_wrap(key, value, "wrapStyle") {
            target.wrap_style = Some(x);
        }
    }

    #[verifier::spinoff_prover]
    fn apply_cmd_first_arg_same_line(&mut self, key: &str, value: &RawConfigValue, target: &mut CommandConfiguration)
        ensures
            (final(self).model(), final(target).model()) == cmd_key_first_arg_same_line(old(self).model(), old(target).model(), key.spec_bytes(), raw_model(*value)),
            final(self).config == old(self).config,
    {
        if let Some(x) = self.take_bool(key, value) {
            target.first_arg_same_line = Some(x);
        }
    }

    #[verifier::spinoff_prover]
    fn apply_cmd_wrap_arg_threshold(&mut self, key: &str, value: &RawConfigValue, target: &mut CommandConfiguration)
        ensures
            (final(self).model(), final(target).model()) == cmd_key_wrap_arg_threshold(old(self).model(), old(target).model(), key.spec_bytes(), raw_model(*value)),
            final(self).config == old(self).config,
    {
        if let Some(x) = self.take_u32(key, value) {
            target.wrap_arg_threshold = Some(x);
        }
    }

    #[verifier::spinoff_prover]
    fn apply_cmd_indent_width(&mut self, key: &str, value: &RawConfigValue, target: &mut CommandConfiguration)
        ensures
            (final(self).model(), final(target).model()) == cmd_key_indent_width(old(self).model(), old(target).model(), key.spec_bytes(), raw_model(*value)),
            final(self).config == old(self).config,
    {
        if let Some(x) = self.take_u8(key, value) {
            target.indent_width = Some(x);
        }
    }

    #[verifier::spinoff_prover]
    fn apply_cmd_indent_style(&mut self, key: &str, value: &RawConfigValue, target: &mut CommandConfiguration)
        ensures
            (final(self).model(), final(target).model()) == cmd_key_indent_style(old(self).model(), old(target).model(), key.spec_bytes(), raw_model(*value)),
            final(self).config == old(self).config,
    {
        if let Some(x) = self.take_indent(key, value, "indentStyle") {
            target.indent_style = Some(x);
        }
    }

    #[verifier::spinoff_prover]
    fn apply_cmd_continuation_indent_width(&mut self, key: &str, value: &RawConfigValue, target: &mut CommandConfiguration)
        ensures
            (final(self).model(), final(target).model()) == cmd_key_continuation_indent_width(old(self).model(), old(target).model(), key.spec_bytes(), raw_model(*value)),
            final(self).config == old(self).config,
    {
        if let Some(x) = self.take_nullable_u8(key, value) {
            target.continuation_indent_width = x;
        }
    }

    #[verifier::spinoff_prover]
    fn apply_cmd_command_case(&mut self, key: &str, value: &RawConfigValue, target: &mut CommandConfiguration)
        ensures
            (final(self).model(), final(target).model()) == cmd_key_command_case(old(self).model(), old(target).model(), key.spec_bytes(), raw_model(*value)),
            final(self).config == old(self).config,
    {
        if let Some(x) = self.take_case(key, value, "commandCase") {
            target.command_case = Some(x);
        }
    }

    #[verifier::spinoff_prover]
    fn apply_cmd_keyword_case(&mut self, key: &str, value: &RawConfigValue, target: &mut CommandConfiguration)
        ensures
            (final(self).model(), final(target).model()) == cmd_key_keyword_case(old(self).model(), old(target).model(), key.spec_bytes(), raw_model(*value)),
            final(self).config == old(self).config,
    {
        if let Some(x) = self.take_case(key, value, "keywordCase") {
            target.keyword_case = Some(x);
        }
    }

    #[verifier::spinoff_prover]
    fn apply_cmd_custom_keywords(&mut self, key: &str, value: &RawConfigValue, target: &mut CommandConfiguration)
        ensures
            (final(self).model(), final(target).model()) == cmd_key_custom_keywords(old(self).model(), old(target).model(), key.spec_bytes(), raw_model(*value)),
            final(self).config == old(self).config,
    {
        if let Some(x) = self.take_strings(key, value, false, "array of keyword strings") {
            proof {
                lemma_strs_of(x@);
            }
            target.custom_keywords = Some(x);
        }
    }

    #[verifier::spinoff_prover]
    fn apply_cmd_literal_case(&mut self, key: &str, value: &RawConfigValue, target: &mut CommandConfiguration)
        ensures
            (final(self).model(), final(target).model()) == cmd_key_literal_case(old(self).model(), old(target).model(), key.spec_bytes(), raw_model(*value)),
            final(self).config == old(self).config,
    {
        if let Some(x) = self.take_case(key, value, "literalCase") {
            target.literal_case = Some(x);
        }
    }

    #[verifier::spinoff_prover]
    fn apply_cmd_closing_paren_newline(&mut self, key: &str, value: &RawConfigValue, target: &mut CommandConfiguration)
        ensures
            (final(self).model(), final(target).model()) == cmd_key_closing_paren_newline(old(self).model(), old(target).model(), key.spec_bytes(), raw_model(*value)),
            final(self).config == old(self).config,
    {
        if let Some(x) = self.take_bool(key, value) {
            target.closing_paren_newline = Some(x);
        }
    }

    #[verifier::spinoff_prover]
    fn apply_cmd_space_before_paren(&mut self, key: &str, value: &RawConfigValue, target: &mut CommandConfiguration)
        ensures
            (final(self).model(), final(target).model()) == cmd_key_space_before_paren(old(self).model(), old(target).model(), key.spec_bytes(), raw_model(*value)),
            final(self).config == old(self).config,
    {
        if let Some(x) = self.take_bool_or_list(key, value, "boolean or array of command name strings") {
            proof {
                if x is Err {
                    lemma_strs_of(x->Err_0@);
                }
            }
            target.space_before_paren = Some(match x {
                Ok(true) => SpaceBeforeParen::Always,
                Ok(false) => SpaceBeforeParen::Never,
                Err(l) => SpaceBeforeParen::CommandList(l),
            });
        }
    }

    #[verifier::spinoff_prover]
    fn apply_cmd_space_inside_paren(&mut self, key: &str, value: &RawConfigValue, target: &mut CommandConfiguration)
        ensures
            (final(self).model(), final(target).model()) == cmd_key_space_inside_paren(old(self).model(), old(target).model(), key.spec_bytes(), raw_model(*value)),
            final(self).config == old(self).config,
    {
        if let Some(x) = self.take_sip(key, value, "spaceInsideParen") {
            target.space_inside_paren = Some(x);
        }
    }

    #[verifier::spinoff_prover]
    fn apply_cmd_comment_preservation(&mut self, key: &str, value: &RawConfigValue, target: &mut CommandConfiguration)
        ensures
            (final(self).model(), final(target).model()) == cmd_key_comment_preservation(old(self).model(), old(target).model(), key.spec_bytes(), raw_model(*value)),
            final(self).config == old(self).config,
    {
        if let Some(x) = self.take_cp(key, value, "commentPreservation") {
            target.comment_preservation = Some(x);
        }
    }

    #[verifier::spinoff_prover]
    fn apply_cmd_comment_width(&mut self, key: &str, value: &RawConfigValue, target: &mut CommandConfiguration)
        ensures
            (final(self).model(), final(target).model()) == cmd_key_comment_width(old(self).model(), old(target).model(), key.spec_bytes(), raw_model(*value)),
            final(self).config == old(self).config,
    {
        if let Some(x) = self.take_nullable_u32(key, value) {
            target.comment_width = x;
        }
    }

    #[verifier::spinoff_prover]
    fn apply_cmd_align_trailing_comments(&mut self, key: &str, value: &RawConfigValue, target: &mut CommandConfiguration)
        ensures
            (final(self).model(), final(target).model()) == cmd_key_align_trailing_comments(old(self).model(), old(target).model(), key.spec_bytes(), raw_model(*value)),
            final(self).config == old(self).config,
    {
        if let Some(x) = self.take_bool(key, value) {
            target.align_trailing_comments = Some(x);
        }
    }

    #[verifier::spinoff_prover]
    fn apply_cmd_comment_gap(&mut self, key: &str, value: &RawConfigValue, target: &mut CommandConfiguration)
        ensures
            (final(self).model(), final(target).model()) == cmd_key_comment_gap(old(self).model(), old(target).model(), key.spec_bytes(), raw_model(*value)),
            final(self).config == old(self).config,
    {
        if let Some(x) = self.take_u8(key, value) {
            target.comment_gap = Some(x);
        }
    }

    #[verifier::spinoff_prover]
    fn apply_cmd_align_property_values(&mut self, key: &str, value: &RawConfigValue, target: &mut CommandConfiguration)
        ensures
            (final(self).model(), final(target).model()) == cmd_key_align_property_values(old(self).model(), old(target).model(), key.spec_bytes(), raw_model(*value)),
            final(self).config == old(self).config,
    {
        if let Some(x) = self.take_bool(key, value) {
            target.align_property_values = Some(x);
        }
    }

    #[verifier::spinoff_prover]
    fn apply_cmd_align_consecutive_set(&mut self, key: &str, value: &RawConfigValue, target: &mut CommandConfiguration)
        ensures
            (final(self).model(), final(target).model()) == cmd_key_align_consecutive_set(old(self).model(), old(target).model(), key.spec_bytes(), raw_model(*value)),
            final(self).config == old(self).config,
    {
        if let Some(x) = self.take_bool(key, value) {
            target.align_consecutive_set = Some(x);
        }
    }

    #[verifier::spinoff_prover]
    fn apply_cmd_align_arg_groups(&mut self, key: &str, value: &RawConfigValue, target: &mut CommandConfiguration)
        ensures
            (final(self).model(), final(target).model()) == cmd_key_align_arg_groups(old(self).model(), old(target).model(), key.spec_bytes(), raw_model(*value)),
            final(self).config == old(self).config,
    {
        if let Some(x) = self.take_bool(key, value) {
            target.align_arg_groups = Some(x);
        }
    }

    #[verifier::spinoff_prover]
    fn apply_cmd_sort_arguments(&mut self, key: &str, value: &RawConfigValue, target: &mut CommandConfiguration)
        ensures
            (final(self).model(), final(target).model()) == cmd_key_sort_arguments(old(self).model(), old(target).model(), key.spec_bytes(), raw_model(*value)),
            final(self).config == old(self).config,
    {
        if let Some(x) = self.take_bool_or_list(key, value, "boolean or array of command/section name strings") {
            proof {
                if x is Err {
                    lemma_strs_of(x->Err_0@);
                }
            }
            target.sort_arguments = Some(match x {
                Ok(true) => SortArguments::Enabled,
                Ok(false) => SortArguments::Disabled,
                Err(l) => SortArguments::CommandList(l),
            });
        }
    }

    #[verifier::spinoff_prover]
    fn apply_cmd_sort_keyword_sections(&mut self, key: &str, value: &RawConfigValue, target: &mut CommandConfiguration)
        ensures
            (final(self).model(), final(target).model()) == cmd_key_sort_keyword_sections(old(self).model(), old(target).model(), key.spec_bytes(), raw_model(*value)),
            final(self).config == old(self).config,
    {
        if let Some(x) = self.take_bool(key, value) {
            target.sort_keyword_sections = Some(x);
        }
    }

    #[verifier::spinoff_prover]
    #[verifier::rlimit(100)]
    fn apply_cmd_layout(&mut self, ck: CanonicalKey, key: &str, option_key: &str, value: &RawConfigValue, target: &mut CommandConfiguration)
        requires
            cmd_group(ck) == 1,
            canonical(option_key.spec_bytes()) == Some(ck),
        ensures
            (final(self).model(), final(target).model()) == apply_cmd(old(self).model(), old(target).model(), key.spec_bytes(), option_key.spec_bytes(), raw_model(*value)),
            final(self).config == old(self).config,
    {
        match ck {
            CanonicalKey::LineWidth => self.apply_cmd_line_width(key, value, target),
            CanonicalKey::WrapStyle => self.apply_cmd_wrap_style(key, value, target),
            CanonicalKey::FirstArgSameLine => self.apply_cmd_first_arg_same_line(key, value, target),
            CanonicalKey::WrapArgThreshold => self.apply_cmd_wrap_arg_threshold(key, value, target),
            CanonicalKey::IndentWidth => self.apply_cmd_indent_width(key, value, target),
            CanonicalKey::IndentStyle => self.apply_cmd_indent_style(key, value, target),
            CanonicalKey::ContinuationIndentWidth => self.apply_cmd_continuation_indent_width(key, value, target),
            CanonicalKey::CommandCase => self.apply_cmd_command_case(key, value, target),
            CanonicalKey::KeywordCase => self.apply_cmd_keyword_case(key, value, target),
            CanonicalKey::CustomKeywords => self.apply_cmd_custom_keywords(key, value, target),
            CanonicalKey::LiteralCase => self.apply_cmd_literal_case(key, value, target),
            CanonicalKey::ClosingParenNewline => self.apply_cmd_closing_paren_newline(key, value, target),
            _ => {},
        }
    }

    #[verifier::spinoff_prover]
    #[verifier::rlimit(100)]
    fn apply_cmd_other(&mut self, ck: CanonicalKey, key: &str, option_key: &str, value: &RawConfigValue, target: &mut CommandConfiguration)
        requires
            cmd_group(ck) == 2,
            canonical(option_key.spec_bytes()) == Some(ck),
        ensures
            (final(self).model(), final(target).model()) == apply_cmd(old(self).model(), old(target).model(), key.spec_bytes(), option_key.spec_bytes(), raw_model(*value)),
            final(self).config == old(self).config,
    {
        match ck {
            CanonicalKey::SpaceBeforeParen => self.apply_cmd_space_before_paren(key, value, target),
            CanonicalKey::SpaceInsideParen => self.apply_cmd_space_inside_paren(key, value, target),
            CanonicalKey::CommentPreservation => self.apply_cmd_comment_preservation(key, value, target),
            CanonicalKey::CommentWidth => self.apply_cmd_comment_width(key, value, target),
            CanonicalKey::AlignTrailingComments => self.apply_cmd_align_trailing_comments(key, value, target),
            CanonicalKey::CommentGap => self.apply_cmd_comment_gap(key, value, target),
            CanonicalKey::AlignPropertyValues => self.apply_cmd_align_property_values(key, value, target),
            CanonicalKey::AlignConsecutiveSet => self.apply_cmd_align_consecutive_set(key, value, target),
            CanonicalKey::AlignArgGroups => self.apply_cmd_align_arg_groups(key, value, target),
            CanonicalKey::SortArguments => self.apply_cmd_sort_arguments(key, value, target),
            CanonicalKey::SortKeywordSections => self.apply_cmd_sort_keyword_sections(key, value, target),
            CanonicalKey::NewLineKind | CanonicalKey::FinalNewline | CanonicalKey::MaxBlankLines | CanonicalKey::MinBlankLinesBetweenBlocks | CanonicalKey::BlankLineBetweenSections | CanonicalKey::TrimTrailingWhitespace | CanonicalKey::CollapseSpaces | CanonicalKey::PerCommandConfig | CanonicalKey::DisableFormatting | CanonicalKey::IgnorePatterns | CanonicalKey::IgnoreCommands | CanonicalKey::IndentBlockBody | CanonicalKey::EndCommandArgs | CanonicalKey::Extends | CanonicalKey::IndentMode | CanonicalKey::UseTabs => {
                self.push_unknown_key(key);
            },
            _ => {},
        }
    }

    /// Applies one option of a command's table under the scoped `key`; see
    /// `apply_cmd`.
    #[verifier::spinoff_prover]
    #[verifier::rlimit(100)]
    pub(crate) fn apply_per_command_value(&mut self, key: &str, option_key: &str, value: &RawConfigValue, target: &mut CommandConfiguration)
        ensures
            (final(self).model(), final(target).model()) == apply_cmd(old(self).model(), old(target).model(), key.spec_bytes(), option_key.spec_bytes(), raw_model(*value)),
            final(self).config == old(self).config,
    {
        match canonical_key(option_key) {
            None => self.push_unknown_key(key),
            Some(ck) => match ck {
                CanonicalKey::LineWidth | CanonicalKey::WrapStyle | CanonicalKey::FirstArgSameLine | CanonicalKey::WrapArgThreshold | CanonicalKey::IndentWidth | CanonicalKey::IndentStyle | CanonicalKey::ContinuationIndentWidth | CanonicalKey::CommandCase | CanonicalKey::KeywordCase | CanonicalKey::CustomKeywords | CanonicalKey::LiteralCase | CanonicalKey::ClosingParenNewline => self.apply_cmd_layout(ck, key, option_key, value, target),
                CanonicalKey::SpaceBeforeParen | CanonicalKey::SpaceInsideParen | CanonicalKey::CommentPreservation | CanonicalKey::CommentWidth | CanonicalKey::AlignTrailingComments | CanonicalKey::CommentGap | CanonicalKey::AlignPropertyValues | CanonicalKey::AlignConsecutiveSet | CanonicalKey::AlignArgGroups | CanonicalKey::SortArguments | CanonicalKey::SortKeywordSections | CanonicalKey::NewLineKind | CanonicalKey::FinalNewline | CanonicalKey::MaxBlankLines | CanonicalKey::MinBlankLinesBetweenBlocks | CanonicalKey::BlankLineBetweenSections | CanonicalKey::TrimTrailingWhitespace | CanonicalKey::CollapseSpaces | CanonicalKey::PerCommandConfig | CanonicalKey::DisableFormatting | CanonicalKey::IgnorePatterns | CanonicalKey::IgnoreCommands | CanonicalKey::IndentBlockBody | CanonicalKey::EndCommandArgs | CanonicalKey::Extends | CanonicalKey::IndentMode | CanonicalKey::UseTabs => self.apply_cmd_other(ck, key, option_key, value, target),
            },
        }
    }
}


} // verus!
