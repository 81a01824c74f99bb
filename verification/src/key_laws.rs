//! Laws of the configuration keys: every documented option key, in its
//! camelCase and snake_case spelling (and the documented aliases), names its
//! option.
use vstd::prelude::*;
use vstd::string::StringSliceAdditionalSpecFns;

use crate::load::{canonical, CanonicalKey};

verus! {

/// An ASCII literal's bytes are its characters, one byte each.
pub(crate) proof fn lemma_ascii_lit(s: &str)
    requires
        vstd::string::is_ascii(s),
    ensures
        s.spec_bytes().len() == s@.len(),
        forall|i: int| 0 <= i < s@.len() ==> #[trigger] s.spec_bytes()[i] == s@[i] as u8,
{
    vstd::utf8::is_ascii_chars_encode_utf8(s@);
}

/// Two ASCII literals of the same length that differ at `p` have different
/// bytes.
proof fn lemma_lit_ne(a: &str, b: &str, p: int)
    requires
        vstd::string::is_ascii(a),
        vstd::string::is_ascii(b),
        0 <= p < a@.len(),
        a@.len() == b@.len(),
        a@[p] != b@[p],
    ensures
        a.spec_bytes() != b.spec_bytes(),
{
    lemma_ascii_lit(a);
    lemma_ascii_lit(b);
    vstd::utf8::is_ascii_chars_nat_bound(a@);
    vstd::utf8::is_ascii_chars_nat_bound(b@);
    assert(a.spec_bytes()[p] == a@[p] as u8);
    assert(b.spec_bytes()[p] == b@[p] as u8);
}

/// The documented keys are told apart: their byte lengths, and a byte where
/// two of the same length differ.
proof fn lemma_keys_apart()
    ensures
        "lineWidth".spec_bytes().len() == 9,
        "line_width".spec_bytes().len() == 10,
        "wrapStyle".spec_bytes().len() == 9,
        "wrap_style".spec_bytes().len() == 10,
        "firstArgSameLine".spec_bytes().len() == 16,
        "first_arg_same_line".spec_bytes().len() == 19,
        "wrapArgThreshold".spec_bytes().len() == 16,
        "wrap_arg_threshold".spec_bytes().len() == 18,
        "indentWidth".spec_bytes().len() == 11,
        "indent_width".spec_bytes().len() == 12,
        "useTabs".spec_bytes().len() == 7,
        "use_tabs".spec_bytes().len() == 8,
        "indentStyle".spec_bytes().len() == 11,
        "indent_style".spec_bytes().len() == 12,
        "continuationIndentWidth".spec_bytes().len() == 23,
        "continuation_indent_width".spec_bytes().len() == 25,
        "lineEnding".spec_bytes().len() == 10,
        "line_ending".spec_bytes().len() == 11,
        "newLineKind".spec_bytes().len() == 11,
        "new_line_kind".spec_bytes().len() == 13,
        "finalNewline".spec_bytes().len() == 12,
        "final_newline".spec_bytes().len() == 13,
        "maxBlankLines".spec_bytes().len() == 13,
        "max_blank_lines".spec_bytes().len() == 15,
        "minBlankLinesBetweenBlocks".spec_bytes().len() == 26,
        "min_blank_lines_between_blocks".spec_bytes().len() == 30,
        "blankLineBetweenSections".spec_bytes().len() == 24,
        "blank_line_between_sections".spec_bytes().len() == 27,
        "commandCase".spec_bytes().len() == 11,
        "command_case".spec_bytes().len() == 12,
        "keywordCase".spec_bytes().len() == 11,
        "keyword_case".spec_bytes().len() == 12,
        "customKeywords".spec_bytes().len() == 14,
        "custom_keywords".spec_bytes().len() == 15,
        "literalCase".spec_bytes().len() == 11,
        "literal_case".spec_bytes().len() == 12,
        "closingParenNewline".spec_bytes().len() == 19,
        "closing_paren_newline".spec_bytes().len() == 21,
        "spaceBeforeParen".spec_bytes().len() == 16,
        "space_before_paren".spec_bytes().len() == 18,
        "spaceInsideParen".spec_bytes().len() == 16,
        "space_inside_paren".spec_bytes().len() == 18,
        "commentPreservation".spec_bytes().len() == 19,
        "comment_preservation".spec_bytes().len() == 20,
        "commentWidth".spec_bytes().len() == 12,
        "comment_width".spec_bytes().len() == 13,
        "alignTrailingComments".spec_bytes().len() == 21,
        "align_trailing_comments".spec_bytes().len() == 23,
        "commentGap".spec_bytes().len() == 10,
        "comment_gap".spec_bytes().len() == 11,
        "trimTrailingWhitespace".spec_bytes().len() == 22,
        "trim_trailing_whitespace".spec_bytes().len() == 24,
        "collapseSpaces".spec_bytes().len() == 14,
        "collapse_spaces".spec_bytes().len() == 15,
        "alignPropertyValues".spec_bytes().len() == 19,
        "align_property_values".spec_bytes().len() == 21,
        "alignConsecutiveSet".spec_bytes().len() == 19,
        "align_consecutive_set".spec_bytes().len() == 21,
        "alignArgGroups".spec_bytes().len() == 14,
        "align_arg_groups".spec_bytes().len() == 16,
        "perCommandConfig".spec_bytes().len() == 16,
        "per_command_config".spec_bytes().len() == 18,
        "sortArguments".spec_bytes().len() == 13,
        "sort_arguments".spec_bytes().len() == 14,
        "sortLists".spec_bytes().len() == 9,
        "sort_lists".spec_bytes().len() == 10,
        "sortKeywordSections".spec_bytes().len() == 19,
        "sort_keyword_sections".spec_bytes().len() == 21,
        "disableFormatting".spec_bytes().len() == 17,
        "disable_formatting".spec_bytes().len() == 18,
        "ignorePatterns".spec_bytes().len() == 14,
        "ignore_patterns".spec_bytes().len() == 15,
        "ignoreCommands".spec_bytes().len() == 14,
        "ignore_commands".spec_bytes().len() == 15,
        "indentBlockBody".spec_bytes().len() == 15,
        "indent_block_body".spec_bytes().len() == 17,
        "endCommandArgs".spec_bytes().len() == 14,
        "end_command_args".spec_bytes().len() == 16,
        "extends".spec_bytes().len() == 7,
        "indent".spec_bytes().len() == 6,
        "wrapStyle".spec_bytes() != "lineWidth".spec_bytes(),
        "wrap_style".spec_bytes() != "line_width".spec_bytes(),
        "wrapArgThreshold".spec_bytes() != "firstArgSameLine".spec_bytes(),
        "indentStyle".spec_bytes() != "indentWidth".spec_bytes(),
        "indent_style".spec_bytes() != "indent_width".spec_bytes(),
        "lineEnding".spec_bytes() != "line_width".spec_bytes(),
        "lineEnding".spec_bytes() != "wrap_style".spec_bytes(),
        "line_ending".spec_bytes() != "indentWidth".spec_bytes(),
        "line_ending".spec_bytes() != "indentStyle".spec_bytes(),
        "newLineKind".spec_bytes() != "indentWidth".spec_bytes(),
        "newLineKind".spec_bytes() != "indentStyle".spec_bytes(),
        "newLineKind".spec_bytes() != "line_ending".spec_bytes(),
        "finalNewline".spec_bytes() != "indent_width".spec_bytes(),
        "finalNewline".spec_bytes() != "indent_style".spec_bytes(),
        "final_newline".spec_bytes() != "new_line_kind".spec_bytes(),
        "maxBlankLines".spec_bytes() != "new_line_kind".spec_bytes(),
        "maxBlankLines".spec_bytes() != "final_newline".spec_bytes(),
        "commandCase".spec_bytes() != "indentWidth".spec_bytes(),
        "commandCase".spec_bytes() != "indentStyle".spec_bytes(),
        "commandCase".spec_bytes() != "line_ending".spec_bytes(),
        "commandCase".spec_bytes() != "newLineKind".spec_bytes(),
        "command_case".spec_bytes() != "indent_width".spec_bytes(),
        "command_case".spec_bytes() != "indent_style".spec_bytes(),
        "command_case".spec_bytes() != "finalNewline".spec_bytes(),
        "keywordCase".spec_bytes() != "indentWidth".spec_bytes(),
        "keywordCase".spec_bytes() != "indentStyle".spec_bytes(),
        "keywordCase".spec_bytes() != "line_ending".spec_bytes(),
        "keywordCase".spec_bytes() != "newLineKind".spec_bytes(),
        "keywordCase".spec_bytes() != "commandCase".spec_bytes(),
        "keyword_case".spec_bytes() != "indent_width".spec_bytes(),
        "keyword_case".spec_bytes() != "indent_style".spec_bytes(),
        "keyword_case".spec_bytes() != "finalNewline".spec_bytes(),
        "keyword_case".spec_bytes() != "command_case".spec_bytes(),
        "custom_keywords".spec_bytes() != "max_blank_lines".spec_bytes(),
        "literalCase".spec_bytes() != "indentWidth".spec_bytes(),
        "literalCase".spec_bytes() != "indentStyle".spec_bytes(),
        "literalCase".spec_bytes() != "line_ending".spec_bytes(),
        "literalCase".spec_bytes() != "newLineKind".spec_bytes(),
        "literalCase".spec_bytes() != "commandCase".spec_bytes(),
        "literalCase".spec_bytes() != "keywordCase".spec_bytes(),
        "literal_case".spec_bytes() != "indent_width".spec_bytes(),
        "literal_case".spec_bytes() != "indent_style".spec_bytes(),
        "literal_case".spec_bytes() != "finalNewline".spec_bytes(),
        "literal_case".spec_bytes() != "command_case".spec_bytes(),
        "literal_case".spec_bytes() != "keyword_case".spec_bytes(),
        "closingParenNewline".spec_bytes() != "first_arg_same_line".spec_bytes(),
        "spaceBeforeParen".spec_bytes() != "firstArgSameLine".spec_bytes(),
        "spaceBeforeParen".spec_bytes() != "wrapArgThreshold".spec_bytes(),
        "space_before_paren".spec_bytes() != "wrap_arg_threshold".spec_bytes(),
        "spaceInsideParen".spec_bytes() != "firstArgSameLine".spec_bytes(),
        "spaceInsideParen".spec_bytes() != "wrapArgThreshold".spec_bytes(),
        "spaceInsideParen".spec_bytes() != "spaceBeforeParen".spec_bytes(),
        "space_inside_paren".spec_bytes() != "wrap_arg_threshold".spec_bytes(),
        "space_inside_paren".spec_bytes() != "space_before_paren".spec_bytes(),
        "commentPreservation".spec_bytes() != "first_arg_same_line".spec_bytes(),
        "commentPreservation".spec_bytes() != "closingParenNewline".spec_bytes(),
        "commentWidth".spec_bytes() != "indent_width".spec_bytes(),
        "commentWidth".spec_bytes() != "indent_style".spec_bytes(),
        "commentWidth".spec_bytes() != "finalNewline".spec_bytes(),
        "commentWidth".spec_bytes() != "command_case".spec_bytes(),
        "commentWidth".spec_bytes() != "keyword_case".spec_bytes(),
        "commentWidth".spec_bytes() != "literal_case".spec_bytes(),
        "comment_width".spec_bytes() != "new_line_kind".spec_bytes(),
        "comment_width".spec_bytes() != "final_newline".spec_bytes(),
        "comment_width".spec_bytes() != "maxBlankLines".spec_bytes(),
        "alignTrailingComments".spec_bytes() != "closing_paren_newline".spec_bytes(),
        "align_trailing_comments".spec_bytes() != "continuationIndentWidth".spec_bytes(),
        "commentGap".spec_bytes() != "line_width".spec_bytes(),
        "commentGap".spec_bytes() != "wrap_style".spec_bytes(),
        "commentGap".spec_bytes() != "lineEnding".spec_bytes(),
        "comment_gap".spec_bytes() != "indentWidth".spec_bytes(),
        "comment_gap".spec_bytes() != "indentStyle".spec_bytes(),
        "comment_gap".spec_bytes() != "line_ending".spec_bytes(),
        "comment_gap".spec_bytes() != "newLineKind".spec_bytes(),
        "comment_gap".spec_bytes() != "commandCase".spec_bytes(),
        "comment_gap".spec_bytes() != "keywordCase".spec_bytes(),
        "comment_gap".spec_bytes() != "literalCase".spec_bytes(),
        "trim_trailing_whitespace".spec_bytes() != "blankLineBetweenSections".spec_bytes(),
        "collapseSpaces".spec_bytes() != "customKeywords".spec_bytes(),
        "collapse_spaces".spec_bytes() != "max_blank_lines".spec_bytes(),
        "collapse_spaces".spec_bytes() != "custom_keywords".spec_bytes(),
        "alignPropertyValues".spec_bytes() != "first_arg_same_line".spec_bytes(),
        "alignPropertyValues".spec_bytes() != "closingParenNewline".spec_bytes(),
        "alignPropertyValues".spec_bytes() != "commentPreservation".spec_bytes(),
        "align_property_values".spec_bytes() != "closing_paren_newline".spec_bytes(),
        "align_property_values".spec_bytes() != "alignTrailingComments".spec_bytes(),
        "alignConsecutiveSet".spec_bytes() != "first_arg_same_line".spec_bytes(),
        "alignConsecutiveSet".spec_bytes() != "closingParenNewline".spec_bytes(),
        "alignConsecutiveSet".spec_bytes() != "commentPreservation".spec_bytes(),
        "alignConsecutiveSet".spec_bytes() != "alignPropertyValues".spec_bytes(),
        "align_consecutive_set".spec_bytes() != "closing_paren_newline".spec_bytes(),
        "align_consecutive_set".spec_bytes() != "alignTrailingComments".spec_bytes(),
        "align_consecutive_set".spec_bytes() != "align_property_values".spec_bytes(),
        "alignArgGroups".spec_bytes() != "customKeywords".spec_bytes(),
        "alignArgGroups".spec_bytes() != "collapseSpaces".spec_bytes(),
        "align_arg_groups".spec_bytes() != "firstArgSameLine".spec_bytes(),
        "align_arg_groups".spec_bytes() != "wrapArgThreshold".spec_bytes(),
        "align_arg_groups".spec_bytes() != "spaceBeforeParen".spec_bytes(),
        "align_arg_groups".spec_bytes() != "spaceInsideParen".spec_bytes(),
        "perCommandConfig".spec_bytes() != "firstArgSameLine".spec_bytes(),
        "perCommandConfig".spec_bytes() != "wrapArgThreshold".spec_bytes(),
        "perCommandConfig".spec_bytes() != "spaceBeforeParen".spec_bytes(),
        "perCommandConfig".spec_bytes() != "spaceInsideParen".spec_bytes(),
        "perCommandConfig".spec_bytes() != "align_arg_groups".spec_bytes(),
        "per_command_config".spec_bytes() != "wrap_arg_threshold".spec_bytes(),
        "per_command_config".spec_bytes() != "space_before_paren".spec_bytes(),
        "per_command_config".spec_bytes() != "space_inside_paren".spec_bytes(),
        "sortArguments".spec_bytes() != "new_line_kind".spec_bytes(),
        "sortArguments".spec_bytes() != "final_newline".spec_bytes(),
        "sortArguments".spec_bytes() != "maxBlankLines".spec_bytes(),
        "sortArguments".spec_bytes() != "comment_width".spec_bytes(),
        "sort_arguments".spec_bytes() != "customKeywords".spec_bytes(),
        "sort_arguments".spec_bytes() != "collapseSpaces".spec_bytes(),
        "sort_arguments".spec_bytes() != "alignArgGroups".spec_bytes(),
        "sortLists".spec_bytes() != "lineWidth".spec_bytes(),
        "sortLists".spec_bytes() != "wrapStyle".spec_bytes(),
        "sort_lists".spec_bytes() != "line_width".spec_bytes(),
        "sort_lists".spec_bytes() != "wrap_style".spec_bytes(),
        "sort_lists".spec_bytes() != "lineEnding".spec_bytes(),
        "sort_lists".spec_bytes() != "commentGap".spec_bytes(),
        "sortKeywordSections".spec_bytes() != "first_arg_same_line".spec_bytes(),
        "sortKeywordSections".spec_bytes() != "closingParenNewline".spec_bytes(),
        "sortKeywordSections".spec_bytes() != "commentPreservation".spec_bytes(),
        "sortKeywordSections".spec_bytes() != "alignPropertyValues".spec_bytes(),
        "sortKeywordSections".spec_bytes() != "alignConsecutiveSet".spec_bytes(),
        "sort_keyword_sections".spec_bytes() != "closing_paren_newline".spec_bytes(),
        "sort_keyword_sections".spec_bytes() != "alignTrailingComments".spec_bytes(),
        "sort_keyword_sections".spec_bytes() != "align_property_values".spec_bytes(),
        "sort_keyword_sections".spec_bytes() != "align_consecutive_set".spec_bytes(),
        "disable_formatting".spec_bytes() != "wrap_arg_threshold".spec_bytes(),
        "disable_formatting".spec_bytes() != "space_before_paren".spec_bytes(),
        "disable_formatting".spec_bytes() != "space_inside_paren".spec_bytes(),
        "disable_formatting".spec_bytes() != "per_command_config".spec_bytes(),
        "ignorePatterns".spec_bytes() != "customKeywords".spec_bytes(),
        "ignorePatterns".spec_bytes() != "collapseSpaces".spec_bytes(),
        "ignorePatterns".spec_bytes() != "alignArgGroups".spec_bytes(),
        "ignorePatterns".spec_bytes() != "sort_arguments".spec_bytes(),
        "ignore_patterns".spec_bytes() != "max_blank_lines".spec_bytes(),
        "ignore_patterns".spec_bytes() != "custom_keywords".spec_bytes(),
        "ignore_patterns".spec_bytes() != "collapse_spaces".spec_bytes(),
        "ignoreCommands".spec_bytes() != "customKeywords".spec_bytes(),
        "ignoreCommands".spec_bytes() != "collapseSpaces".spec_bytes(),
        "ignoreCommands".spec_bytes() != "alignArgGroups".spec_bytes(),
        "ignoreCommands".spec_bytes() != "sort_arguments".spec_bytes(),
        "ignoreCommands".spec_bytes() != "ignorePatterns".spec_bytes(),
        "ignore_commands".spec_bytes() != "max_blank_lines".spec_bytes(),
        "ignore_commands".spec_bytes() != "custom_keywords".spec_bytes(),
        "ignore_commands".spec_bytes() != "collapse_spaces".spec_bytes(),
        "ignore_commands".spec_bytes() != "ignore_patterns".spec_bytes(),
        "indentBlockBody".spec_bytes() != "max_blank_lines".spec_bytes(),
        "indentBlockBody".spec_bytes() != "custom_keywords".spec_bytes(),
        "indentBlockBody".spec_bytes() != "collapse_spaces".spec_bytes(),
        "indentBlockBody".spec_bytes() != "ignore_patterns".spec_bytes(),
        "indentBlockBody".spec_bytes() != "ignore_commands".spec_bytes(),
        "indent_block_body".spec_bytes() != "disableFormatting".spec_bytes(),
        "endCommandArgs".spec_bytes() != "customKeywords".spec_bytes(),
        "endCommandArgs".spec_bytes() != "collapseSpaces".spec_bytes(),
        "endCommandArgs".spec_bytes() != "alignArgGroups".spec_bytes(),
        "endCommandArgs".spec_bytes() != "sort_arguments".spec_bytes(),
        "endCommandArgs".spec_bytes() != "ignorePatterns".spec_bytes(),
        "endCommandArgs".spec_bytes() != "ignoreCommands".spec_bytes(),
        "end_command_args".spec_bytes() != "firstArgSameLine".spec_bytes(),
        "end_command_args".spec_bytes() != "wrapArgThreshold".spec_bytes(),
        "end_command_args".spec_bytes() != "spaceBeforeParen".spec_bytes(),
        "end_command_args".spec_bytes() != "spaceInsideParen".spec_bytes(),
        "end_command_args".spec_bytes() != "align_arg_groups".spec_bytes(),
        "end_command_args".spec_bytes() != "perCommandConfig".spec_bytes(),
        "extends".spec_bytes() != "useTabs".spec_bytes(),
{
    reveal_strlit("lineWidth");
    lemma_ascii_lit("lineWidth");
    reveal_strlit("line_width");
    lemma_ascii_lit("line_width");
    reveal_strlit("wrapStyle");
    lemma_ascii_lit("wrapStyle");
    reveal_strlit("wrap_style");
    lemma_ascii_lit("wrap_style");
    reveal_strlit("firstArgSameLine");
    lemma_ascii_lit("firstArgSameLine");
    reveal_strlit("first_arg_same_line");
    lemma_ascii_lit("first_arg_same_line");
    reveal_strlit("wrapArgThreshold");
    lemma_ascii_lit("wrapArgThreshold");
    reveal_strlit("wrap_arg_threshold");
    lemma_ascii_lit("wrap_arg_threshold");
    reveal_strlit("indentWidth");
    lemma_ascii_lit("indentWidth");
    reveal_strlit("indent_width");
    lemma_ascii_lit("indent_width");
    reveal_strlit("useTabs");
    lemma_ascii_lit("useTabs");
    reveal_strlit("use_tabs");
    lemma_ascii_lit("use_tabs");
    reveal_strlit("indentStyle");
    lemma_ascii_lit("indentStyle");
    reveal_strlit("indent_style");
    lemma_ascii_lit("indent_style");
    reveal_strlit("continuationIndentWidth");
    lemma_ascii_lit("continuationIndentWidth");
    reveal_strlit("continuation_indent_width");
    lemma_ascii_lit("continuation_indent_width");
    reveal_strlit("lineEnding");
    lemma_ascii_lit("lineEnding");
    reveal_strlit("line_ending");
    lemma_ascii_lit("line_ending");
    reveal_strlit("newLineKind");
    lemma_ascii_lit("newLineKind");
    reveal_strlit("new_line_kind");
    lemma_ascii_lit("new_line_kind");
    reveal_strlit("finalNewline");
    lemma_ascii_lit("finalNewline");
    reveal_strlit("final_newline");
    lemma_ascii_lit("final_newline");
    reveal_strlit("maxBlankLines");
    lemma_ascii_lit("maxBlankLines");
    reveal_strlit("max_blank_lines");
    lemma_ascii_lit("max_blank_lines");
    reveal_strlit("minBlankLinesBetweenBlocks");
    lemma_ascii_lit("minBlankLinesBetweenBlocks");
    reveal_strlit("min_blank_lines_between_blocks");
    lemma_ascii_lit("min_blank_lines_between_blocks");
    reveal_strlit("blankLineBetweenSections");
    lemma_ascii_lit("blankLineBetweenSections");
    reveal_strlit("blank_line_between_sections");
    lemma_ascii_lit("blank_line_between_sections");
    reveal_strlit("commandCase");
    lemma_ascii_lit("commandCase");
    reveal_strlit("command_case");
    lemma_ascii_lit("command_case");
    reveal_strlit("keywordCase");
    lemma_ascii_lit("keywordCase");
    reveal_strlit("keyword_case");
    lemma_ascii_lit("keyword_case");
    reveal_strlit("customKeywords");
    lemma_ascii_lit("customKeywords");
    reveal_strlit("custom_keywords");
    lemma_ascii_lit("custom_keywords");
    reveal_strlit("literalCase");
    lemma_ascii_lit("literalCase");
    reveal_strlit("literal_case");
    lemma_ascii_lit("literal_case");
    reveal_strlit("closingParenNewline");
    lemma_ascii_lit("closingParenNewline");
    reveal_strlit("closing_paren_newline");
    lemma_ascii_lit("closing_paren_newline");
    reveal_strlit("spaceBeforeParen");
    lemma_ascii_lit("spaceBeforeParen");
    reveal_strlit("space_before_paren");
    lemma_ascii_lit("space_before_paren");
    reveal_strlit("spaceInsideParen");
    lemma_ascii_lit("spaceInsideParen");
    reveal_strlit("space_inside_paren");
    lemma_ascii_lit("space_inside_paren");
    reveal_strlit("commentPreservation");
    lemma_ascii_lit("commentPreservation");
    reveal_strlit("comment_preservation");
    lemma_ascii_lit("comment_preservation");
    reveal_strlit("commentWidth");
    lemma_ascii_lit("commentWidth");
    reveal_strlit("comment_width");
    lemma_ascii_lit("comment_width");
    reveal_strlit("alignTrailingComments");
    lemma_ascii_lit("alignTrailingComments");
    reveal_strlit("align_trailing_comments");
    lemma_ascii_lit("align_trailing_comments");
    reveal_strlit("commentGap");
    lemma_ascii_lit("commentGap");
    reveal_strlit("comment_gap");
    lemma_ascii_lit("comment_gap");
    reveal_strlit("trimTrailingWhitespace");
    lemma_ascii_lit("trimTrailingWhitespace");
    reveal_strlit("trim_trailing_whitespace");
    lemma_ascii_lit("trim_trailing_whitespace");
    reveal_strlit("collapseSpaces");
    lemma_ascii_lit("collapseSpaces");
    reveal_strlit("collapse_spaces");
    lemma_ascii_lit("collapse_spaces");
    reveal_strlit("alignPropertyValues");
    lemma_ascii_lit("alignPropertyValues");
    reveal_strlit("align_property_values");
    lemma_ascii_lit("align_property_values");
    reveal_strlit("alignConsecutiveSet");
    lemma_ascii_lit("alignConsecutiveSet");
    reveal_strlit("align_consecutive_set");
    lemma_ascii_lit("align_consecutive_set");
    reveal_strlit("alignArgGroups");
    lemma_ascii_lit("alignArgGroups");
    reveal_strlit("align_arg_groups");
    lemma_ascii_lit("align_arg_groups");
    reveal_strlit("perCommandConfig");
    lemma_ascii_lit("perCommandConfig");
    reveal_strlit("per_command_config");
    lemma_ascii_lit("per_command_config");
    reveal_strlit("sortArguments");
    lemma_ascii_lit("sortArguments");
    reveal_strlit("sort_arguments");
    lemma_ascii_lit("sort_arguments");
    reveal_strlit("sortLists");
    lemma_ascii_lit("sortLists");
    reveal_strlit("sort_lists");
    lemma_ascii_lit("sort_lists");
    reveal_strlit("sortKeywordSections");
    lemma_ascii_lit("sortKeywordSections");
    reveal_strlit("sort_keyword_sections");
    lemma_ascii_lit("sort_keyword_sections");
    reveal_strlit("disableFormatting");
    lemma_ascii_lit("disableFormatting");
    reveal_strlit("disable_formatting");
    lemma_ascii_lit("disable_formatting");
    reveal_strlit("ignorePatterns");
    lemma_ascii_lit("ignorePatterns");
    reveal_strlit("ignore_patterns");
    lemma_ascii_lit("ignore_patterns");
    reveal_strlit("ignoreCommands");
    lemma_ascii_lit("ignoreCommands");
    reveal_strlit("ignore_commands");
    lemma_ascii_lit("ignore_commands");
    reveal_strlit("indentBlockBody");
    lemma_ascii_lit("indentBlockBody");
    reveal_strlit("indent_block_body");
    lemma_ascii_lit("indent_block_body");
    reveal_strlit("endCommandArgs");
    lemma_ascii_lit("endCommandArgs");
    reveal_strlit("end_command_args");
    lemma_ascii_lit("end_command_args");
    reveal_strlit("extends");
    lemma_ascii_lit("extends");
    reveal_strlit("indent");
    lemma_ascii_lit("indent");
    lemma_lit_ne("wrapStyle", "lineWidth", 0);
    lemma_lit_ne("wrap_style", "line_width", 0);
    lemma_lit_ne("wrapArgThreshold", "firstArgSameLine", 0);
    lemma_lit_ne("indentStyle", "indentWidth", 6);
    lemma_lit_ne("indent_style", "indent_width", 7);
    lemma_lit_ne("lineEnding", "line_width", 4);
    lemma_lit_ne("lineEnding", "wrap_style", 0);
    lemma_lit_ne("line_ending", "indentWidth", 0);
    lemma_lit_ne("line_ending", "indentStyle", 0);
    lemma_lit_ne("newLineKind", "indentWidth", 0);
    lemma_lit_ne("newLineKind", "indentStyle", 0);
    lemma_lit_ne("newLineKind", "line_ending", 0);
    lemma_lit_ne("finalNewline", "indent_width", 0);
    lemma_lit_ne("finalNewline", "indent_style", 0);
    lemma_lit_ne("final_newline", "new_line_kind", 0);
    lemma_lit_ne("maxBlankLines", "new_line_kind", 0);
    lemma_lit_ne("maxBlankLines", "final_newline", 0);
    lemma_lit_ne("commandCase", "indentWidth", 0);
    lemma_lit_ne("commandCase", "indentStyle", 0);
    lemma_lit_ne("commandCase", "line_ending", 0);
    lemma_lit_ne("commandCase", "newLineKind", 0);
    lemma_lit_ne("command_case", "indent_width", 0);
    lemma_lit_ne("command_case", "indent_style", 0);
    lemma_lit_ne("command_case", "finalNewline", 0);
    lemma_lit_ne("keywordCase", "indentWidth", 0);
    lemma_lit_ne("keywordCase", "indentStyle", 0);
    lemma_lit_ne("keywordCase", "line_ending", 0);
    lemma_lit_ne("keywordCase", "newLineKind", 0);
    lemma_lit_ne("keywordCase", "commandCase", 0);
    lemma_lit_ne("keyword_case", "indent_width", 0);
    lemma_lit_ne("keyword_case", "indent_style", 0);
    lemma_lit_ne("keyword_case", "finalNewline", 0);
    lemma_lit_ne("keyword_case", "command_case", 0);
    lemma_lit_ne("custom_keywords", "max_blank_lines", 0);
    lemma_lit_ne("literalCase", "indentWidth", 0);
    lemma_lit_ne("literalCase", "indentStyle", 0);
    lemma_lit_ne("literalCase", "line_ending", 2);
    lemma_lit_ne("literalCase", "newLineKind", 0);
    lemma_lit_ne("literalCase", "commandCase", 0);
    lemma_lit_ne("literalCase", "keywordCase", 0);
    lemma_lit_ne("literal_case", "indent_width", 0);
    lemma_lit_ne("literal_case", "indent_style", 0);
    lemma_lit_ne("literal_case", "finalNewline", 0);
    lemma_lit_ne("literal_case", "command_case", 0);
    lemma_lit_ne("literal_case", "keyword_case", 0);
    lemma_lit_ne("closingParenNewline", "first_arg_same_line", 0);
    lemma_lit_ne("spaceBeforeParen", "firstArgSameLine", 0);
    lemma_lit_ne("spaceBeforeParen", "wrapArgThreshold", 0);
    lemma_lit_ne("space_before_paren", "wrap_arg_threshold", 0);
    lemma_lit_ne("spaceInsideParen", "firstArgSameLine", 0);
    lemma_lit_ne("spaceInsideParen", "wrapArgThreshold", 0);
    lemma_lit_ne("spaceInsideParen", "spaceBeforeParen", 5);
    lemma_lit_ne("space_inside_paren", "wrap_arg_threshold", 0);
    lemma_lit_ne("space_inside_paren", "space_before_paren", 6);
    lemma_lit_ne("commentPreservation", "first_arg_same_line", 0);
    lemma_lit_ne("commentPreservation", "closingParenNewline", 1);
    lemma_lit_ne("commentWidth", "indent_width", 0);
    lemma_lit_ne("commentWidth", "indent_style", 0);
    lemma_lit_ne("commentWidth", "finalNewline", 0);
    lemma_lit_ne("commentWidth", "command_case", 4);
    lemma_lit_ne("commentWidth", "keyword_case", 0);
    lemma_lit_ne("commentWidth", "literal_case", 0);
    lemma_lit_ne("comment_width", "new_line_kind", 0);
    lemma_lit_ne("comment_width", "final_newline", 0);
    lemma_lit_ne("comment_width", "maxBlankLines", 0);
    lemma_lit_ne("alignTrailingComments", "closing_paren_newline", 0);
    lemma_lit_ne("align_trailing_comments", "continuationIndentWidth", 0);
    lemma_lit_ne("commentGap", "line_width", 0);
    lemma_lit_ne("commentGap", "wrap_style", 0);
    lemma_lit_ne("commentGap", "lineEnding", 0);
    lemma_lit_ne("comment_gap", "indentWidth", 0);
    lemma_lit_ne("comment_gap", "indentStyle", 0);
    lemma_lit_ne("comment_gap", "line_ending", 0);
    lemma_lit_ne("comment_gap", "newLineKind", 0);
    lemma_lit_ne("comment_gap", "commandCase", 4);
    lemma_lit_ne("comment_gap", "keywordCase", 0);
    lemma_lit_ne("comment_gap", "literalCase", 0);
    lemma_lit_ne("trim_trailing_whitespace", "blankLineBetweenSections", 0);
    lemma_lit_ne("collapseSpaces", "customKeywords", 1);
    lemma_lit_ne("collapse_spaces", "max_blank_lines", 0);
    lemma_lit_ne("collapse_spaces", "custom_keywords", 1);
    lemma_lit_ne("alignPropertyValues", "first_arg_same_line", 0);
    lemma_lit_ne("alignPropertyValues", "closingParenNewline", 0);
    lemma_lit_ne("alignPropertyValues", "commentPreservation", 0);
    lemma_lit_ne("align_property_values", "closing_paren_newline", 0);
    lemma_lit_ne("align_property_values", "alignTrailingComments", 5);
    lemma_lit_ne("alignConsecutiveSet", "first_arg_same_line", 0);
    lemma_lit_ne("alignConsecutiveSet", "closingParenNewline", 0);
    lemma_lit_ne("alignConsecutiveSet", "commentPreservation", 0);
    lemma_lit_ne("alignConsecutiveSet", "alignPropertyValues", 5);
    lemma_lit_ne("align_consecutive_set", "closing_paren_newline", 0);
    lemma_lit_ne("align_consecutive_set", "alignTrailingComments", 5);
    lemma_lit_ne("align_consecutive_set", "align_property_values", 6);
    lemma_lit_ne("alignArgGroups", "customKeywords", 0);
    lemma_lit_ne("alignArgGroups", "collapseSpaces", 0);
    lemma_lit_ne("align_arg_groups", "firstArgSameLine", 0);
    lemma_lit_ne("align_arg_groups", "wrapArgThreshold", 0);
    lemma_lit_ne("align_arg_groups", "spaceBeforeParen", 0);
    lemma_lit_ne("align_arg_groups", "spaceInsideParen", 0);
    lemma_lit_ne("perCommandConfig", "firstArgSameLine", 0);
    lemma_lit_ne("perCommandConfig", "wrapArgThreshold", 0);
    lemma_lit_ne("perCommandConfig", "spaceBeforeParen", 0);
    lemma_lit_ne("perCommandConfig", "spaceInsideParen", 0);
    lemma_lit_ne("perCommandConfig", "align_arg_groups", 0);
    lemma_lit_ne("per_command_config", "wrap_arg_threshold", 0);
    lemma_lit_ne("per_command_config", "space_before_paren", 0);
    lemma_lit_ne("per_command_config", "space_inside_paren", 0);
    lemma_lit_ne("sortArguments", "new_line_kind", 0);
    lemma_lit_ne("sortArguments", "final_newline", 0);
    lemma_lit_ne("sortArguments", "maxBlankLines", 0);
    lemma_lit_ne("sortArguments", "comment_width", 0);
    lemma_lit_ne("sort_arguments", "customKeywords", 0);
    lemma_lit_ne("sort_arguments", "collapseSpaces", 0);
    lemma_lit_ne("sort_arguments", "alignArgGroups", 0);
    lemma_lit_ne("sortLists", "lineWidth", 0);
    lemma_lit_ne("sortLists", "wrapStyle", 0);
    lemma_lit_ne("sort_lists", "line_width", 0);
    lemma_lit_ne("sort_lists", "wrap_style", 0);
    lemma_lit_ne("sort_lists", "lineEnding", 0);
    lemma_lit_ne("sort_lists", "commentGap", 0);
    lemma_lit_ne("sortKeywordSections", "first_arg_same_line", 0);
    lemma_lit_ne("sortKeywordSections", "closingParenNewline", 0);
    lemma_lit_ne("sortKeywordSections", "commentPreservation", 0);
    lemma_lit_ne("sortKeywordSections", "alignPropertyValues", 0);
    lemma_lit_ne("sortKeywordSections", "alignConsecutiveSet", 0);
    lemma_lit_ne("sort_keyword_sections", "closing_paren_newline", 0);
    lemma_lit_ne("sort_keyword_sections", "alignTrailingComments", 0);
    lemma_lit_ne("sort_keyword_sections", "align_property_values", 0);
    lemma_lit_ne("sort_keyword_sections", "align_consecutive_set", 0);
    lemma_lit_ne("disable_formatting", "wrap_arg_threshold", 0);
    lemma_lit_ne("disable_formatting", "space_before_paren", 0);
    lemma_lit_ne("disable_formatting", "space_inside_paren", 0);
    lemma_lit_ne("disable_formatting", "per_command_config", 0);
    lemma_lit_ne("ignorePatterns", "customKeywords", 0);
    lemma_lit_ne("ignorePatterns", "collapseSpaces", 0);
    lemma_lit_ne("ignorePatterns", "alignArgGroups", 0);
    lemma_lit_ne("ignorePatterns", "sort_arguments", 0);
    lemma_lit_ne("ignore_patterns", "max_blank_lines", 0);
    lemma_lit_ne("ignore_patterns", "custom_keywords", 0);
    lemma_lit_ne("ignore_patterns", "collapse_spaces", 0);
    lemma_lit_ne("ignoreCommands", "customKeywords", 0);
    lemma_lit_ne("ignoreCommands", "collapseSpaces", 0);
    lemma_lit_ne("ignoreCommands", "alignArgGroups", 0);
    lemma_lit_ne("ignoreCommands", "sort_arguments", 0);
    lemma_lit_ne("ignoreCommands", "ignorePatterns", 6);
    lemma_lit_ne("ignore_commands", "max_blank_lines", 0);
    lemma_lit_ne("ignore_commands", "custom_keywords", 0);
    lemma_lit_ne("ignore_commands", "collapse_spaces", 0);
    lemma_lit_ne("ignore_commands", "ignore_patterns", 7);
    lemma_lit_ne("indentBlockBody", "max_blank_lines", 0);
    lemma_lit_ne("indentBlockBody", "custom_keywords", 0);
    lemma_lit_ne("indentBlockBody", "collapse_spaces", 0);
    lemma_lit_ne("indentBlockBody", "ignore_patterns", 1);
    lemma_lit_ne("indentBlockBody", "ignore_commands", 1);
    lemma_lit_ne("indent_block_body", "disableFormatting", 0);
    lemma_lit_ne("endCommandArgs", "customKeywords", 0);
    lemma_lit_ne("endCommandArgs", "collapseSpaces", 0);
    lemma_lit_ne("endCommandArgs", "alignArgGroups", 0);
    lemma_lit_ne("endCommandArgs", "sort_arguments", 0);
    lemma_lit_ne("endCommandArgs", "ignorePatterns", 0);
    lemma_lit_ne("endCommandArgs", "ignoreCommands", 0);
    lemma_lit_ne("end_command_args", "firstArgSameLine", 0);
    lemma_lit_ne("end_command_args", "wrapArgThreshold", 0);
    lemma_lit_ne("end_command_args", "spaceBeforeParen", 0);
    lemma_lit_ne("end_command_args", "spaceInsideParen", 0);
    lemma_lit_ne("end_command_args", "align_arg_groups", 0);
    lemma_lit_ne("end_command_args", "perCommandConfig", 0);
    lemma_lit_ne("extends", "useTabs", 0);
}


#[verifier::rlimit(100)]
proof fn lemma_keys_0()
    ensures
        canonical("lineWidth".spec_bytes()) == Some(CanonicalKey::LineWidth),
        canonical("line_width".spec_bytes()) == Some(CanonicalKey::LineWidth),
        canonical("wrapStyle".spec_bytes()) == Some(CanonicalKey::WrapStyle),
        canonical("wrap_style".spec_bytes()) == Some(CanonicalKey::WrapStyle),
        canonical("firstArgSameLine".spec_bytes()) == Some(CanonicalKey::FirstArgSameLine),
        canonical("first_arg_same_line".spec_bytes()) == Some(CanonicalKey::FirstArgSameLine),
{
    lemma_keys_apart();
}

#[verifier::rlimit(100)]
proof fn lemma_keys_1()
    ensures
        canonical("wrapArgThreshold".spec_bytes()) == Some(CanonicalKey::WrapArgThreshold),
        canonical("wrap_arg_threshold".spec_bytes()) == Some(CanonicalKey::WrapArgThreshold),
        canonical("indentWidth".spec_bytes()) == Some(CanonicalKey::IndentWidth),
        canonical("indent_width".spec_bytes()) == Some(CanonicalKey::IndentWidth),
        canonical("useTabs".spec_bytes()) == Some(CanonicalKey::UseTabs),
        canonical("use_tabs".spec_bytes()) == Some(CanonicalKey::UseTabs),
{
    lemma_keys_apart();
}

#[verifier::rlimit(100)]
proof fn lemma_keys_2()
    ensures
        canonical("indentStyle".spec_bytes()) == Some(CanonicalKey::IndentStyle),
        canonical("indent_style".spec_bytes()) == Some(CanonicalKey::IndentStyle),
        canonical("continuationIndentWidth".spec_bytes()) == Some(CanonicalKey::ContinuationIndentWidth),
        canonical("continuation_indent_width".spec_bytes()) == Some(CanonicalKey::ContinuationIndentWidth),
        canonical("lineEnding".spec_bytes()) == Some(CanonicalKey::NewLineKind),
        canonical("line_ending".spec_bytes()) == Some(CanonicalKey::NewLineKind),
{
    lemma_keys_apart();
}

#[verifier::rlimit(100)]
proof fn lemma_keys_3()
    ensures
        canonical("newLineKind".spec_bytes()) == Some(CanonicalKey::NewLineKind),
        canonical("new_line_kind".spec_bytes()) == Some(CanonicalKey::NewLineKind),
        canonical("finalNewline".spec_bytes()) == Some(CanonicalKey::FinalNewline),
        canonical("final_newline".spec_bytes()) == Some(CanonicalKey::FinalNewline),
        canonical("maxBlankLines".spec_bytes()) == Some(CanonicalKey::MaxBlankLines),
        canonical("max_blank_lines".spec_bytes()) == Some(CanonicalKey::MaxBlankLines),
{
    lemma_keys_apart();
}

#[verifier::rlimit(100)]
proof fn lemma_keys_4()
    ensures
        canonical("minBlankLinesBetweenBlocks".spec_bytes()) == Some(CanonicalKey::MinBlankLinesBetweenBlocks),
        canonical("min_blank_lines_between_blocks".spec_bytes()) == Some(CanonicalKey::MinBlankLinesBetweenBlocks),
        canonical("blankLineBetweenSections".spec_bytes()) == Some(CanonicalKey::BlankLineBetweenSections),
        canonical("blank_line_between_sections".spec_bytes()) == Some(CanonicalKey::BlankLineBetweenSections),
        canonical("commandCase".spec_bytes()) == Some(CanonicalKey::CommandCase),
        canonical("command_case".spec_bytes()) == Some(CanonicalKey::CommandCase),
{
    lemma_keys_apart();
}

#[verifier::rlimit(100)]
proof fn lemma_keys_5()
    ensures
        canonical("keywordCase".spec_bytes()) == Some(CanonicalKey::KeywordCase),
        canonical("keyword_case".spec_bytes()) == Some(CanonicalKey::KeywordCase),
        canonical("customKeywords".spec_bytes()) == Some(CanonicalKey::CustomKeywords),
        canonical("custom_keywords".spec_bytes()) == Some(CanonicalKey::CustomKeywords),
        canonical("literalCase".spec_bytes()) == Some(CanonicalKey::LiteralCase),
        canonical("literal_case".spec_bytes()) == Some(CanonicalKey::LiteralCase),
{
    lemma_keys_apart();
}

#[verifier::rlimit(100)]
proof fn lemma_keys_6()
    ensures
        canonical("closingParenNewline".spec_bytes()) == Some(CanonicalKey::ClosingParenNewline),
        canonical("closing_paren_newline".spec_bytes()) == Some(CanonicalKey::ClosingParenNewline),
        canonical("spaceBeforeParen".spec_bytes()) == Some(CanonicalKey::SpaceBeforeParen),
        canonical("space_before_paren".spec_bytes()) == Some(CanonicalKey::SpaceBeforeParen),
        canonical("spaceInsideParen".spec_bytes()) == Some(CanonicalKey::SpaceInsideParen),
        canonical("space_inside_paren".spec_bytes()) == Some(CanonicalKey::SpaceInsideParen),
{
    lemma_keys_apart();
}

#[verifier::rlimit(100)]
proof fn lemma_keys_7()
    ensures
        canonical("commentPreservation".spec_bytes()) == Some(CanonicalKey::CommentPreservation),
        canonical("comment_preservation".spec_bytes()) == Some(CanonicalKey::CommentPreservation),
        canonical("commentWidth".spec_bytes()) == Some(CanonicalKey::CommentWidth),
        canonical("comment_width".spec_bytes()) == Some(CanonicalKey::CommentWidth),
        canonical("alignTrailingComments".spec_bytes()) == Some(CanonicalKey::AlignTrailingComments),
        canonical("align_trailing_comments".spec_bytes()) == Some(CanonicalKey::AlignTrailingComments),
{
    lemma_keys_apart();
}

#[verifier::rlimit(100)]
proof fn lemma_keys_8()
    ensures
        canonical("commentGap".spec_bytes()) == Some(CanonicalKey::CommentGap),
        canonical("comment_gap".spec_bytes()) == Some(CanonicalKey::CommentGap),
        canonical("trimTrailingWhitespace".spec_bytes()) == Some(CanonicalKey::TrimTrailingWhitespace),
        canonical("trim_trailing_whitespace".spec_bytes()) == Some(CanonicalKey::TrimTrailingWhitespace),
        canonical("collapseSpaces".spec_bytes()) == Some(CanonicalKey::CollapseSpaces),
        canonical("collapse_spaces".spec_bytes()) == Some(CanonicalKey::CollapseSpaces),
{
    lemma_keys_apart();
}

#[verifier::rlimit(100)]
proof fn lemma_keys_9()
    ensures
        canonical("alignPropertyValues".spec_bytes()) == Some(CanonicalKey::AlignPropertyValues),
        canonical("align_property_values".spec_bytes()) == Some(CanonicalKey::AlignPropertyValues),
        canonical("alignConsecutiveSet".spec_bytes()) == Some(CanonicalKey::AlignConsecutiveSet),
        canonical("align_consecutive_set".spec_bytes()) == Some(CanonicalKey::AlignConsecutiveSet),
        canonical("alignArgGroups".spec_bytes()) == Some(CanonicalKey::AlignArgGroups),
        canonical("align_arg_groups".spec_bytes()) == Some(CanonicalKey::AlignArgGroups),
{
    lemma_keys_apart();
}

#[verifier::rlimit(100)]
proof fn lemma_keys_10()
    ensures
        canonical("perCommandConfig".spec_bytes()) == Some(CanonicalKey::PerCommandConfig),
        canonical("per_command_config".spec_bytes()) == Some(CanonicalKey::PerCommandConfig),
        canonical("sortArguments".spec_bytes()) == Some(CanonicalKey::SortArguments),
        canonical("sort_arguments".spec_bytes()) == Some(CanonicalKey::SortArguments),
        canonical("sortLists".spec_bytes()) == Some(CanonicalKey::SortArguments),
        canonical("sort_lists".spec_bytes()) == Some(CanonicalKey::SortArguments),
{
    lemma_keys_apart();
}

#[verifier::rlimit(100)]
proof fn lemma_keys_11()
    ensures
        canonical("sortKeywordSections".spec_bytes()) == Some(CanonicalKey::SortKeywordSections),
        canonical("sort_keyword_sections".spec_bytes()) == Some(CanonicalKey::SortKeywordSections),
        canonical("disableFormatting".spec_bytes()) == Some(CanonicalKey::DisableFormatting),
        canonical("disable_formatting".spec_bytes()) == Some(CanonicalKey::DisableFormatting),
        canonical("ignorePatterns".spec_bytes()) == Some(CanonicalKey::IgnorePatterns),
        canonical("ignore_patterns".spec_bytes()) == Some(CanonicalKey::IgnorePatterns),
{
    lemma_keys_apart();
}

#[verifier::rlimit(100)]
proof fn lemma_keys_12()
    ensures
        canonical("ignoreCommands".spec_bytes()) == Some(CanonicalKey::IgnoreCommands),
        canonical("ignore_commands".spec_bytes()) == Some(CanonicalKey::IgnoreCommands),
        canonical("indentBlockBody".spec_bytes()) == Some(CanonicalKey::IndentBlockBody),
        canonical("indent_block_body".spec_bytes()) == Some(CanonicalKey::IndentBlockBody),
        canonical("endCommandArgs".spec_bytes()) == Some(CanonicalKey::EndCommandArgs),
        canonical("end_command_args".spec_bytes()) == Some(CanonicalKey::EndCommandArgs),
{
    lemma_keys_apart();
}

#[verifier::rlimit(100)]
proof fn lemma_keys_13()
    ensures
        canonical("extends".spec_bytes()) == Some(CanonicalKey::Extends),
        canonical("indent".spec_bytes()) == Some(CanonicalKey::IndentMode),
{
    lemma_keys_apart();
}

/// Every documented configuration key, camelCase and snake_case alike (and
/// the aliases `lineEnding`, `newLineKind`, `sortLists`), names its option.
pub proof fn law_documented_keys()
    ensures
        canonical("lineWidth".spec_bytes()) == Some(CanonicalKey::LineWidth),
        canonical("line_width".spec_bytes()) == Some(CanonicalKey::LineWidth),
        canonical("wrapStyle".spec_bytes()) == Some(CanonicalKey::WrapStyle),
        canonical("wrap_style".spec_bytes()) == Some(CanonicalKey::WrapStyle),
        canonical("firstArgSameLine".spec_bytes()) == Some(CanonicalKey::FirstArgSameLine),
        canonical("first_arg_same_line".spec_bytes()) == Some(CanonicalKey::FirstArgSameLine),
        canonical("wrapArgThreshold".spec_bytes()) == Some(CanonicalKey::WrapArgThreshold),
        canonical("wrap_arg_threshold".spec_bytes()) == Some(CanonicalKey::WrapArgThreshold),
        canonical("indentWidth".spec_bytes()) == Some(CanonicalKey::IndentWidth),
        canonical("indent_width".spec_bytes()) == Some(CanonicalKey::IndentWidth),
        canonical("useTabs".spec_bytes()) == Some(CanonicalKey::UseTabs),
        canonical("use_tabs".spec_bytes()) == Some(CanonicalKey::UseTabs),
        canonical("indentStyle".spec_bytes()) == Some(CanonicalKey::IndentStyle),
        canonical("indent_style".spec_bytes()) == Some(CanonicalKey::IndentStyle),
        canonical("continuationIndentWidth".spec_bytes()) == Some(CanonicalKey::ContinuationIndentWidth),
        canonical("continuation_indent_width".spec_bytes()) == Some(CanonicalKey::ContinuationIndentWidth),
        canonical("lineEnding".spec_bytes()) == Some(CanonicalKey::NewLineKind),
        canonical("line_ending".spec_bytes()) == Some(CanonicalKey::NewLineKind),
        canonical("newLineKind".spec_bytes()) == Some(CanonicalKey::NewLineKind),
        canonical("new_line_kind".spec_bytes()) == Some(CanonicalKey::NewLineKind),
        canonical("finalNewline".spec_bytes()) == Some(CanonicalKey::FinalNewline),
        canonical("final_newline".spec_bytes()) == Some(CanonicalKey::FinalNewline),
        canonical("maxBlankLines".spec_bytes()) == Some(CanonicalKey::MaxBlankLines),
        canonical("max_blank_lines".spec_bytes()) == Some(CanonicalKey::MaxBlankLines),
        canonical("minBlankLinesBetweenBlocks".spec_bytes()) == Some(CanonicalKey::MinBlankLinesBetweenBlocks),
        canonical("min_blank_lines_between_blocks".spec_bytes()) == Some(CanonicalKey::MinBlankLinesBetweenBlocks),
        canonical("blankLineBetweenSections".spec_bytes()) == Some(CanonicalKey::BlankLineBetweenSections),
        canonical("blank_line_between_sections".spec_bytes()) == Some(CanonicalKey::BlankLineBetweenSections),
        canonical("commandCase".spec_bytes()) == Some(CanonicalKey::CommandCase),
        canonical("command_case".spec_bytes()) == Some(CanonicalKey::CommandCase),
        canonical("keywordCase".spec_bytes()) == Some(CanonicalKey::KeywordCase),
        canonical("keyword_case".spec_bytes()) == Some(CanonicalKey::KeywordCase),
        canonical("customKeywords".spec_bytes()) == Some(CanonicalKey::CustomKeywords),
        canonical("custom_keywords".spec_bytes()) == Some(CanonicalKey::CustomKeywords),
        canonical("literalCase".spec_bytes()) == Some(CanonicalKey::LiteralCase),
        canonical("literal_case".spec_bytes()) == Some(CanonicalKey::LiteralCase),
        canonical("closingParenNewline".spec_bytes()) == Some(CanonicalKey::ClosingParenNewline),
        canonical("closing_paren_newline".spec_bytes()) == Some(CanonicalKey::ClosingParenNewline),
        canonical("spaceBeforeParen".spec_bytes()) == Some(CanonicalKey::SpaceBeforeParen),
        canonical("space_before_paren".spec_bytes()) == Some(CanonicalKey::SpaceBeforeParen),
        canonical("spaceInsideParen".spec_bytes()) == Some(CanonicalKey::SpaceInsideParen),
        canonical("space_inside_paren".spec_bytes()) == Some(CanonicalKey::SpaceInsideParen),
        canonical("commentPreservation".spec_bytes()) == Some(CanonicalKey::CommentPreservation),
        canonical("comment_preservation".spec_bytes()) == Some(CanonicalKey::CommentPreservation),
        canonical("commentWidth".spec_bytes()) == Some(CanonicalKey::CommentWidth),
        canonical("comment_width".spec_bytes()) == Some(CanonicalKey::CommentWidth),
        canonical("alignTrailingComments".spec_bytes()) == Some(CanonicalKey::AlignTrailingComments),
        canonical("align_trailing_comments".spec_bytes()) == Some(CanonicalKey::AlignTrailingComments),
        canonical("commentGap".spec_bytes()) == Some(CanonicalKey::CommentGap),
        canonical("comment_gap".spec_bytes()) == Some(CanonicalKey::CommentGap),
        canonical("trimTrailingWhitespace".spec_bytes()) == Some(CanonicalKey::TrimTrailingWhitespace),
        canonical("trim_trailing_whitespace".spec_bytes()) == Some(CanonicalKey::TrimTrailingWhitespace),
        canonical("collapseSpaces".spec_bytes()) == Some(CanonicalKey::CollapseSpaces),
        canonical("collapse_spaces".spec_bytes()) == Some(CanonicalKey::CollapseSpaces),
        canonical("alignPropertyValues".spec_bytes()) == Some(CanonicalKey::AlignPropertyValues),
        canonical("align_property_values".spec_bytes()) == Some(CanonicalKey::AlignPropertyValues),
        canonical("alignConsecutiveSet".spec_bytes()) == Some(CanonicalKey::AlignConsecutiveSet),
        canonical("align_consecutive_set".spec_bytes()) == Some(CanonicalKey::AlignConsecutiveSet),
        canonical("alignArgGroups".spec_bytes()) == Some(CanonicalKey::AlignArgGroups),
        canonical("align_arg_groups".spec_bytes()) == Some(CanonicalKey::AlignArgGroups),
        canonical("perCommandConfig".spec_bytes()) == Some(CanonicalKey::PerCommandConfig),
        canonical("per_command_config".spec_bytes()) == Some(CanonicalKey::PerCommandConfig),
        canonical("sortArguments".spec_bytes()) == Some(CanonicalKey::SortArguments),
        canonical("sort_arguments".spec_bytes()) == Some(CanonicalKey::SortArguments),
        canonical("sortLists".spec_bytes()) == Some(CanonicalKey::SortArguments),
        canonical("sort_lists".spec_bytes()) == Some(CanonicalKey::SortArguments),
        canonical("sortKeywordSections".spec_bytes()) == Some(CanonicalKey::SortKeywordSections),
        canonical("sort_keyword_sections".spec_bytes()) == Some(CanonicalKey::SortKeywordSections),
        canonical("disableFormatting".spec_bytes()) == Some(CanonicalKey::DisableFormatting),
        canonical("disable_formatting".spec_bytes()) == Some(CanonicalKey::DisableFormatting),
        canonical("ignorePatterns".spec_bytes()) == Some(CanonicalKey::IgnorePatterns),
        canonical("ignore_patterns".spec_bytes()) == Some(CanonicalKey::IgnorePatterns),
        canonical("ignoreCommands".spec_bytes()) == Some(CanonicalKey::IgnoreCommands),
        canonical("ignore_commands".spec_bytes()) == Some(CanonicalKey::IgnoreCommands),
        canonical("indentBlockBody".spec_bytes()) == Some(CanonicalKey::IndentBlockBody),
        canonical("indent_block_body".spec_bytes()) == Some(CanonicalKey::IndentBlockBody),
        canonical("endCommandArgs".spec_bytes()) == Some(CanonicalKey::EndCommandArgs),
        canonical("end_command_args".spec_bytes()) == Some(CanonicalKey::EndCommandArgs),
        canonical("extends".spec_bytes()) == Some(CanonicalKey::Extends),
        canonical("indent".spec_bytes()) == Some(CanonicalKey::IndentMode),
{
    lemma_keys_0();
    lemma_keys_1();
    lemma_keys_2();
    lemma_keys_3();
    lemma_keys_4();
    lemma_keys_5();
    lemma_keys_6();
    lemma_keys_7();
    lemma_keys_8();
    lemma_keys_9();
    lemma_keys_10();
    lemma_keys_11();
    lemma_keys_12();
    lemma_keys_13();
}


/// Only the documented keys name options: any other key is unknown.
pub proof fn law_only_documented_keys(k: Seq<u8>)
    ensures
        canonical(k) matches Some(v) ==> {
            ||| k == "lineWidth".spec_bytes() && v == CanonicalKey::LineWidth
            ||| k == "line_width".spec_bytes() && v == CanonicalKey::LineWidth
            ||| k == "wrapStyle".spec_bytes() && v == CanonicalKey::WrapStyle
            ||| k == "wrap_style".spec_bytes() && v == CanonicalKey::WrapStyle
            ||| k == "firstArgSameLine".spec_bytes() && v == CanonicalKey::FirstArgSameLine
            ||| k == "first_arg_same_line".spec_bytes() && v == CanonicalKey::FirstArgSameLine
            ||| k == "wrapArgThreshold".spec_bytes() && v == CanonicalKey::WrapArgThreshold
            ||| k == "wrap_arg_threshold".spec_bytes() && v == CanonicalKey::WrapArgThreshold
            ||| k == "indentWidth".spec_bytes() && v == CanonicalKey::IndentWidth
            ||| k == "indent_width".spec_bytes() && v == CanonicalKey::IndentWidth
            ||| k == "useTabs".spec_bytes() && v == CanonicalKey::UseTabs
            ||| k == "use_tabs".spec_bytes() && v == CanonicalKey::UseTabs
            ||| k == "indentStyle".spec_bytes() && v == CanonicalKey::IndentStyle
            ||| k == "indent_style".spec_bytes() && v == CanonicalKey::IndentStyle
            ||| k == "continuationIndentWidth".spec_bytes() && v == CanonicalKey::ContinuationIndentWidth
            ||| k == "continuation_indent_width".spec_bytes() && v == CanonicalKey::ContinuationIndentWidth
            ||| k == "lineEnding".spec_bytes() && v == CanonicalKey::NewLineKind
            ||| k == "line_ending".spec_bytes() && v == CanonicalKey::NewLineKind
            ||| k == "newLineKind".spec_bytes() && v == CanonicalKey::NewLineKind
            ||| k == "new_line_kind".spec_bytes() && v == CanonicalKey::NewLineKind
            ||| k == "finalNewline".spec_bytes() && v == CanonicalKey::FinalNewline
            ||| k == "final_newline".spec_bytes() && v == CanonicalKey::FinalNewline
            ||| k == "maxBlankLines".spec_bytes() && v == CanonicalKey::MaxBlankLines
            ||| k == "max_blank_lines".spec_bytes() && v == CanonicalKey::MaxBlankLines
            ||| k == "minBlankLinesBetweenBlocks".spec_bytes() && v == CanonicalKey::MinBlankLinesBetweenBlocks
            ||| k == "min_blank_lines_between_blocks".spec_bytes() && v == CanonicalKey::MinBlankLinesBetweenBlocks
            ||| k == "blankLineBetweenSections".spec_bytes() && v == CanonicalKey::BlankLineBetweenSections
            ||| k == "blank_line_between_sections".spec_bytes() && v == CanonicalKey::BlankLineBetweenSections
            ||| k == "commandCase".spec_bytes() && v == CanonicalKey::CommandCase
            ||| k == "command_case".spec_bytes() && v == CanonicalKey::CommandCase
            ||| k == "keywordCase".spec_bytes() && v == CanonicalKey::KeywordCase
            ||| k == "keyword_case".spec_bytes() && v == CanonicalKey::KeywordCase
            ||| k == "customKeywords".spec_bytes() && v == CanonicalKey::CustomKeywords
            ||| k == "custom_keywords".spec_bytes() && v == CanonicalKey::CustomKeywords
            ||| k == "literalCase".spec_bytes() && v == CanonicalKey::LiteralCase
            ||| k == "literal_case".spec_bytes() && v == CanonicalKey::LiteralCase
            ||| k == "closingParenNewline".spec_bytes() && v == CanonicalKey::ClosingParenNewline
            ||| k == "closing_paren_newline".spec_bytes() && v == CanonicalKey::ClosingParenNewline
            ||| k == "spaceBeforeParen".spec_bytes() && v == CanonicalKey::SpaceBeforeParen
            ||| k == "space_before_paren".spec_bytes() && v == CanonicalKey::SpaceBeforeParen
            ||| k == "spaceInsideParen".spec_bytes() && v == CanonicalKey::SpaceInsideParen
            ||| k == "space_inside_paren".spec_bytes() && v == CanonicalKey::SpaceInsideParen
            ||| k == "commentPreservation".spec_bytes() && v == CanonicalKey::CommentPreservation
            ||| k == "comment_preservation".spec_bytes() && v == CanonicalKey::CommentPreservation
            ||| k == "commentWidth".spec_bytes() && v == CanonicalKey::CommentWidth
            ||| k == "comment_width".spec_bytes() && v == CanonicalKey::CommentWidth
            ||| k == "alignTrailingComments".spec_bytes() && v == CanonicalKey::AlignTrailingComments
            ||| k == "align_trailing_comments".spec_bytes() && v == CanonicalKey::AlignTrailingComments
            ||| k == "commentGap".spec_bytes() && v == CanonicalKey::CommentGap
            ||| k == "comment_gap".spec_bytes() && v == CanonicalKey::CommentGap
            ||| k == "trimTrailingWhitespace".spec_bytes() && v == CanonicalKey::TrimTrailingWhitespace
            ||| k == "trim_trailing_whitespace".spec_bytes() && v == CanonicalKey::TrimTrailingWhitespace
            ||| k == "collapseSpaces".spec_bytes() && v == CanonicalKey::CollapseSpaces
            ||| k == "collapse_spaces".spec_bytes() && v == CanonicalKey::CollapseSpaces
            ||| k == "alignPropertyValues".spec_bytes() && v == CanonicalKey::AlignPropertyValues
            ||| k == "align_property_values".spec_bytes() && v == CanonicalKey::AlignPropertyValues
            ||| k == "alignConsecutiveSet".spec_bytes() && v == CanonicalKey::AlignConsecutiveSet
            ||| k == "align_consecutive_set".spec_bytes() && v == CanonicalKey::AlignConsecutiveSet
            ||| k == "alignArgGroups".spec_bytes() && v == CanonicalKey::AlignArgGroups
            ||| k == "align_arg_groups".spec_bytes() && v == CanonicalKey::AlignArgGroups
            ||| k == "perCommandConfig".spec_bytes() && v == CanonicalKey::PerCommandConfig
            ||| k == "per_command_config".spec_bytes() && v == CanonicalKey::PerCommandConfig
            ||| k == "sortArguments".spec_bytes() && v == CanonicalKey::SortArguments
            ||| k == "sort_arguments".spec_bytes() && v == CanonicalKey::SortArguments
            ||| k == "sortLists".spec_bytes() && v == CanonicalKey::SortArguments
            ||| k == "sort_lists".spec_bytes() && v == CanonicalKey::SortArguments
            ||| k == "sortKeywordSections".spec_bytes() && v == CanonicalKey::SortKeywordSections
            ||| k == "sort_keyword_sections".spec_bytes() && v == CanonicalKey::SortKeywordSections
            ||| k == "disableFormatting".spec_bytes() && v == CanonicalKey::DisableFormatting
            ||| k == "disable_formatting".spec_bytes() && v == CanonicalKey::DisableFormatting
            ||| k == "ignorePatterns".spec_bytes() && v == CanonicalKey::IgnorePatterns
            ||| k == "ignore_patterns".spec_bytes() && v == CanonicalKey::IgnorePatterns
            ||| k == "ignoreCommands".spec_bytes() && v == CanonicalKey::IgnoreCommands
            ||| k == "ignore_commands".spec_bytes() && v == CanonicalKey::IgnoreCommands
            ||| k == "indentBlockBody".spec_bytes() && v == CanonicalKey::IndentBlockBody
            ||| k == "indent_block_body".spec_bytes() && v == CanonicalKey::IndentBlockBody
            ||| k == "endCommandArgs".spec_bytes() && v == CanonicalKey::EndCommandArgs
            ||| k == "end_command_args".spec_bytes() && v == CanonicalKey::EndCommandArgs
            ||| k == "extends".spec_bytes() && v == CanonicalKey::Extends
            ||| k == "indent".spec_bytes() && v == CanonicalKey::IndentMode
        },
{
}

} // verus!
