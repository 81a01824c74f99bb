//! Loading configuration: keys and their aliases, typed option values with
//! diagnostics, per-command tables, inline overrides from directive comments.
use vstd::prelude::*;
use vstd::string::StringSliceAdditionalSpecFns;

use crate::config::{
    CaseStyle, CmdModel, CommandConfiguration, CommentPreservation, ConfigModel, Configuration,
    EndCommandArgs, IndentStyle, NewLineKind, SortArguments, SpaceBeforeParen, SpaceInsideParen,
    WrapStyle,
};
use crate::text::{eq_bytes, string_of};

verus! {

/// How serious a configuration diagnostic is.
#[derive(Debug, Clone, Copy, PartialEq, Eq, Structural)]
pub enum ConfigDiagnosticSeverity {
    Warning,
}

/// A problem found in a configuration: the key it concerns and a message.
#[derive(Debug, Clone)]
pub struct ConfigDiagnostic {
    pub key: String,
    pub message: String,
    pub severity: ConfigDiagnosticSeverity,
}

/// A loaded configuration with its diagnostics and the options it set, as
/// (key, value) text sorted by key.
#[derive(Debug)]
pub struct ConfigLoadResult {
    pub config: Configuration,
    pub diagnostics: Vec<ConfigDiagnostic>,
    pub overrides: Vec<(String, String)>,
}

/// A JSON value as the configuration logic reads it: numbers are kept as
/// the `i64` they denote, when they denote one.
#[derive(Debug)]
pub enum JsonValue {
    Null,
    Bool(bool),
    Number(Option<i64>),
    Str(String),
    Array(Vec<JsonValue>),
    Object(Vec<(String, JsonValue)>),
}

pub ghost enum JsonModel {
    Null,
    Bool(bool),
    Number(Option<i64>),
    Str(Seq<u8>),
    Array(Seq<JsonModel>),
    Object(Seq<(Seq<u8>, JsonModel)>),
}

pub open spec fn sbytes(s: String) -> Seq<u8> {
    vstd::utf8::encode_utf8(s@)
}

pub open spec fn json_model(v: JsonValue) -> JsonModel
    decreases v, 0int,
{
    match v {
        JsonValue::Null => JsonModel::Null,
        JsonValue::Bool(b) => JsonModel::Bool(b),
        JsonValue::Number(n) => JsonModel::Number(n),
        JsonValue::Str(s) => JsonModel::Str(sbytes(s)),
        JsonValue::Array(a) => JsonModel::Array(jsons_model(a, 0)),
        JsonValue::Object(o) => JsonModel::Object(entries_model(o, 0)),
    }
}

pub open spec fn jsons_model(v: Vec<JsonValue>, i: int) -> Seq<JsonModel>
    decreases v, v@.len() - i,
{
    if i < 0 || i >= v@.len() {
        Seq::empty()
    } else {
        seq![json_model(v@[i])] + jsons_model(v, i + 1)
    }
}

pub open spec fn entries_model(v: Vec<(String, JsonValue)>, i: int) -> Seq<(Seq<u8>, JsonModel)>
    decreases v, v@.len() - i,
{
    if i < 0 || i >= v@.len() {
        Seq::empty()
    } else {
        seq![(sbytes(v@[i].0), json_model(v@[i].1))] + entries_model(v, i + 1)
    }
}

pub proof fn lemma_entries_model(v: Vec<(String, JsonValue)>, i: int)
    requires
        0 <= i <= v@.len(),
    ensures
        entries_model(v, i).len() == v@.len() - i,
        forall|k: int|
            0 <= k < v@.len() - i ==> #[trigger] entries_model(v, i)[k] == (
                sbytes(v@[i + k].0),
                json_model(v@[i + k].1),
            ),
    decreases v@.len() - i,
{
    if i < v@.len() {
        lemma_entries_model(v, i + 1);
        assert forall|k: int| 0 <= k < v@.len() - i implies #[trigger] entries_model(v, i)[k] == (
            sbytes(v@[i + k].0),
            json_model(v@[i + k].1),
        ) by {
            if k > 0 {
                assert(entries_model(v, i)[k] == entries_model(v, i + 1)[k - 1]);
            }
        }
    }
}

pub proof fn lemma_jsons_model(v: Vec<JsonValue>, i: int)
    requires
        0 <= i <= v@.len(),
    ensures
        jsons_model(v, i).len() == v@.len() - i,
        forall|k: int| 0 <= k < v@.len() - i ==> #[trigger] jsons_model(v, i)[k] == json_model(v@[i + k]),
    decreases v@.len() - i,
{
    if i < v@.len() {
        lemma_jsons_model(v, i + 1);
        assert forall|k: int| 0 <= k < v@.len() - i implies #[trigger] jsons_model(v, i)[k] == json_model(v@[i + k]) by {
            if k > 0 {
                assert(jsons_model(v, i)[k] == jsons_model(v, i + 1)[k - 1]);
            }
        }
    }
}

#[verifier::external_type_specification]
#[verifier::external_body]
pub struct ExSerdeJsonValue(serde_json::Value);

/// Turns a `serde_json::Value` into the library's `JsonValue`, variant by
/// variant (a number becomes what `serde_json::Number::as_i64` gives).
#[verifier::external_body]
fn json_from_serde(v: serde_json::Value) -> (r: JsonValue) {
    match v {
        serde_json::Value::Null => JsonValue::Null,
        serde_json::Value::Bool(b) => JsonValue::Bool(b),
        serde_json::Value::Number(n) => JsonValue::Number(n.as_i64()),
        serde_json::Value::String(s) => JsonValue::Str(s),
        serde_json::Value::Array(a) => JsonValue::Array(a.into_iter().map(json_from_serde).collect()),
        serde_json::Value::Object(m) => JsonValue::Object(m.into_iter().map(|(k, x)| (k, json_from_serde(x))).collect()),
    }
}

/// What `serde_json` parses from a text as a JSON object: its entries in the
/// map's order, or `None` when the text is not one.
pub uninterp spec fn json_object_text(text: Seq<char>) -> Option<Seq<(Seq<u8>, JsonModel)>>;

/// What `serde_json` parses from a text as any JSON value, or `None`.
pub uninterp spec fn json_value_text(text: Seq<char>) -> Option<JsonModel>;

/// What the `toml` crate parses from a document as a table: each entry with
/// its value turned into JSON by `serde_json::to_value` (or that call's error
/// message); or the parse error's message.
pub uninterp spec fn toml_table_text(text: Seq<char>) -> Result<Seq<(Seq<u8>, Result<JsonModel, Seq<u8>>)>, Seq<u8>>;

pub open spec fn opt_entries(r: Option<Vec<(String, JsonValue)>>) -> Option<Seq<(Seq<u8>, JsonModel)>> {
    match r {
        Some(v) => Some(entries_model(v, 0)),
        None => None,
    }
}

/// Calls `serde_json::from_str` for a `serde_json::Map`: the entries of the
/// object that the text holds, or `None` when it holds none. What comes back
/// is named by `json_object_text` and not stated further.
#[verifier::external_body]
pub(crate) fn parse_json_object(text: &str) -> (r: Option<Vec<(String, JsonValue)>>)
    ensures
        opt_entries(r) == json_object_text(text@),
{
    match serde_json::from_str::<serde_json::Map<String, serde_json::Value>>(text) {
        Ok(m) => Some(m.into_iter().map(|(k, v)| (k, json_from_serde(v))).collect()),
        Err(_) => None,
    }
}

/// Calls `serde_json::from_str` for a `serde_json::Value`: the value that the
/// text holds, or `None`. What comes back is named by `json_value_text`.
#[verifier::external_body]
pub(crate) fn parse_json_value(text: &str) -> (r: Option<JsonValue>)
    ensures
        match r {
            Some(v) => json_value_text(text@) == Some(json_model(v)),
            None => json_value_text(text@) is None,
        },
{
    match serde_json::from_str::<serde_json::Value>(text) {
        Ok(v) => Some(json_from_serde(v)),
        Err(_) => None,
    }
}

pub open spec fn toml_entries_model(v: Vec<(String, Result<JsonValue, String>)>) -> Seq<(Seq<u8>, Result<JsonModel, Seq<u8>>)> {
    v@.map_values(|e: (String, Result<JsonValue, String>)| (sbytes(e.0), match e.1 {
        Ok(j) => Ok(json_model(j)),
        Err(m) => Err(sbytes(m)),
    }))
}

/// Calls `toml::from_str` for a `toml::Table`, then `serde_json::to_value` on
/// each entry's value: the entries (each value or that call's error message),
/// or the parse error's message. What comes back is named by `toml_table_text`.
#[verifier::external_body]
pub(crate) fn parse_toml_table(text: &str) -> (r: Result<Vec<(String, Result<JsonValue, String>)>, String>)
    ensures
        match r {
            Ok(v) => toml_table_text(text@) == Ok::<_, Seq<u8>>(toml_entries_model(v)),
            Err(m) => toml_table_text(text@) == Err::<Seq<(Seq<u8>, Result<JsonModel, Seq<u8>>)>, _>(sbytes(m)),
        },
{
    match toml::from_str::<toml::Table>(text) {
        Ok(t) => Ok(t.into_iter().map(|(k, v)| (k, serde_json::to_value(v).map(json_from_serde).map_err(|e| e.to_string()))).collect()),
        Err(e) => Err(e.to_string()),
    }
}

/// The option that a configuration key names, by its camelCase or snake_case
/// spelling (and a few aliases).
#[derive(Debug, Clone, Copy, PartialEq, Eq, Structural)]
pub enum CanonicalKey {
    LineWidth,
    WrapStyle,
    FirstArgSameLine,
    WrapArgThreshold,
    IndentWidth,
    UseTabs,
    IndentStyle,
    ContinuationIndentWidth,
    NewLineKind,
    FinalNewline,
    MaxBlankLines,
    MinBlankLinesBetweenBlocks,
    BlankLineBetweenSections,
    CommandCase,
    KeywordCase,
    CustomKeywords,
    LiteralCase,
    ClosingParenNewline,
    SpaceBeforeParen,
    SpaceInsideParen,
    CommentPreservation,
    CommentWidth,
    AlignTrailingComments,
    CommentGap,
    TrimTrailingWhitespace,
    CollapseSpaces,
    AlignPropertyValues,
    AlignConsecutiveSet,
    AlignArgGroups,
    PerCommandConfig,
    SortArguments,
    SortKeywordSections,
    DisableFormatting,
    IgnorePatterns,
    IgnoreCommands,
    IndentBlockBody,
    EndCommandArgs,
    Extends,
    IndentMode,
}

pub open spec fn canonical(k: Seq<u8>) -> Option<CanonicalKey> {
    if k == "lineWidth".spec_bytes() || k == "line_width".spec_bytes() {
        Some(CanonicalKey::LineWidth)
    } else if k == "wrapStyle".spec_bytes() || k == "wrap_style".spec_bytes() {
        Some(CanonicalKey::WrapStyle)
    } else if k == "firstArgSameLine".spec_bytes() || k == "first_arg_same_line".spec_bytes() {
        Some(CanonicalKey::FirstArgSameLine)
    } else if k == "wrapArgThreshold".spec_bytes() || k == "wrap_arg_threshold".spec_bytes() {
        Some(CanonicalKey::WrapArgThreshold)
    } else if k == "indentWidth".spec_bytes() || k == "indent_width".spec_bytes() {
        Some(CanonicalKey::IndentWidth)
    } else if k == "useTabs".spec_bytes() || k == "use_tabs".spec_bytes() {
        Some(CanonicalKey::UseTabs)
    } else if k == "indentStyle".spec_bytes() || k == "indent_style".spec_bytes() {
        Some(CanonicalKey::IndentStyle)
    } else if k == "continuationIndentWidth".spec_bytes() || k == "continuation_indent_width".spec_bytes() {
        Some(CanonicalKey::ContinuationIndentWidth)
    } else if k == "lineEnding".spec_bytes() || k == "line_ending".spec_bytes() || k == "newLineKind".spec_bytes() || k == "new_line_kind".spec_bytes() {
        Some(CanonicalKey::NewLineKind)
    } else if k == "finalNewline".spec_bytes() || k == "final_newline".spec_bytes() {
        Some(CanonicalKey::FinalNewline)
    } else if k == "maxBlankLines".spec_bytes() || k == "max_blank_lines".spec_bytes() {
        Some(CanonicalKey::MaxBlankLines)
    } else if k == "minBlankLinesBetweenBlocks".spec_bytes() || k == "min_blank_lines_between_blocks".spec_bytes() {
        Some(CanonicalKey::MinBlankLinesBetweenBlocks)
    } else if k == "blankLineBetweenSections".spec_bytes() || k == "blank_line_between_sections".spec_bytes() {
        Some(CanonicalKey::BlankLineBetweenSections)
    } else if k == "commandCase".spec_bytes() || k == "command_case".spec_bytes() {
        Some(CanonicalKey::CommandCase)
    } else if k == "keywordCase".spec_bytes() || k == "keyword_case".spec_bytes() {
        Some(CanonicalKey::KeywordCase)
    } else if k == "customKeywords".spec_bytes() || k == "custom_keywords".spec_bytes() {
        Some(CanonicalKey::CustomKeywords)
    } else if k == "literalCase".spec_bytes() || k == "literal_case".spec_bytes() {
        Some(CanonicalKey::LiteralCase)
    } else if k == "closingParenNewline".spec_bytes() || k == "closing_paren_newline".spec_bytes() {
        Some(CanonicalKey::ClosingParenNewline)
    } else if k == "spaceBeforeParen".spec_bytes() || k == "space_before_paren".spec_bytes() {
        Some(CanonicalKey::SpaceBeforeParen)
    } else if k == "spaceInsideParen".spec_bytes() || k == "space_inside_paren".spec_bytes() {
        Some(CanonicalKey::SpaceInsideParen)
    } else if k == "commentPreservation".spec_bytes() || k == "comment_preservation".spec_bytes() {
        Some(CanonicalKey::CommentPreservation)
    } else if k == "commentWidth".spec_bytes() || k == "comment_width".spec_bytes() {
        Some(CanonicalKey::CommentWidth)
    } else if k == "alignTrailingComments".spec_bytes() || k == "align_trailing_comments".spec_bytes() {
        Some(CanonicalKey::AlignTrailingComments)
    } else if k == "commentGap".spec_bytes() || k == "comment_gap".spec_bytes() {
        Some(CanonicalKey::CommentGap)
    } else if k == "trimTrailingWhitespace".spec_bytes() || k == "trim_trailing_whitespace".spec_bytes() {
        Some(CanonicalKey::TrimTrailingWhitespace)
    } else if k == "collapseSpaces".spec_bytes() || k == "collapse_spaces".spec_bytes() {
        Some(CanonicalKey::CollapseSpaces)
    } else if k == "alignPropertyValues".spec_bytes() || k == "align_property_values".spec_bytes() {
        Some(CanonicalKey::AlignPropertyValues)
    } else if k == "alignConsecutiveSet".spec_bytes() || k == "align_consecutive_set".spec_bytes() {
        Some(CanonicalKey::AlignConsecutiveSet)
    } else if k == "alignArgGroups".spec_bytes() || k == "align_arg_groups".spec_bytes() {
        Some(CanonicalKey::AlignArgGroups)
    } else if k == "perCommandConfig".spec_bytes() || k == "per_command_config".spec_bytes() {
        Some(CanonicalKey::PerCommandConfig)
    } else if k == "sortArguments".spec_bytes() || k == "sort_arguments".spec_bytes() || k == "sortLists".spec_bytes() || k == "sort_lists".spec_bytes() {
        Some(CanonicalKey::SortArguments)
    } else if k == "sortKeywordSections".spec_bytes() || k == "sort_keyword_sections".spec_bytes() {
        Some(CanonicalKey::SortKeywordSections)
    } else if k == "disableFormatting".spec_bytes() || k == "disable_formatting".spec_bytes() {
        Some(CanonicalKey::DisableFormatting)
    } else if k == "ignorePatterns".spec_bytes() || k == "ignore_patterns".spec_bytes() {
        Some(CanonicalKey::IgnorePatterns)
    } else if k == "ignoreCommands".spec_bytes() || k == "ignore_commands".spec_bytes() {
        Some(CanonicalKey::IgnoreCommands)
    } else if k == "indentBlockBody".spec_bytes() || k == "indent_block_body".spec_bytes() {
        Some(CanonicalKey::IndentBlockBody)
    } else if k == "endCommandArgs".spec_bytes() || k == "end_command_args".spec_bytes() {
        Some(CanonicalKey::EndCommandArgs)
    } else if k == "extends".spec_bytes() {
        Some(CanonicalKey::Extends)
    } else if k == "indent".spec_bytes() {
        Some(CanonicalKey::IndentMode)
    } else {
        None
    }
}

/// The option that a configuration key names, if any.
#[verifier::rlimit(50)]
pub fn canonical_key(key: &str) -> (r: Option<CanonicalKey>)
    ensures
        r == canonical(key.spec_bytes()),
{
    let k = key.as_bytes();
    if eq_bytes(k, "lineWidth".as_bytes()) || eq_bytes(k, "line_width".as_bytes()) {
        return Some(CanonicalKey::LineWidth);
    }
    if eq_bytes(k, "wrapStyle".as_bytes()) || eq_bytes(k, "wrap_style".as_bytes()) {
        return Some(CanonicalKey::WrapStyle);
    }
    if eq_bytes(k, "firstArgSameLine".as_bytes()) || eq_bytes(k, "first_arg_same_line".as_bytes()) {
        return Some(CanonicalKey::FirstArgSameLine);
    }
    if eq_bytes(k, "wrapArgThreshold".as_bytes()) || eq_bytes(k, "wrap_arg_threshold".as_bytes()) {
        return Some(CanonicalKey::WrapArgThreshold);
    }
    if eq_bytes(k, "indentWidth".as_bytes()) || eq_bytes(k, "indent_width".as_bytes()) {
        return Some(CanonicalKey::IndentWidth);
    }
    if eq_bytes(k, "useTabs".as_bytes()) || eq_bytes(k, "use_tabs".as_bytes()) {
        return Some(CanonicalKey::UseTabs);
    }
    if eq_bytes(k, "indentStyle".as_bytes()) || eq_bytes(k, "indent_style".as_bytes()) {
        return Some(CanonicalKey::IndentStyle);
    }
    if eq_bytes(k, "continuationIndentWidth".as_bytes()) || eq_bytes(k, "continuation_indent_width".as_bytes()) {
        return Some(CanonicalKey::ContinuationIndentWidth);
    }
    if eq_bytes(k, "lineEnding".as_bytes()) || eq_bytes(k, "line_ending".as_bytes()) || eq_bytes(k, "newLineKind".as_bytes()) || eq_bytes(k, "new_line_kind".as_bytes()) {
        return Some(CanonicalKey::NewLineKind);
    }
    if eq_bytes(k, "finalNewline".as_bytes()) || eq_bytes(k, "final_newline".as_bytes()) {
        return Some(CanonicalKey::FinalNewline);
    }
    if eq_bytes(k, "maxBlankLines".as_bytes()) || eq_bytes(k, "max_blank_lines".as_bytes()) {
        return Some(CanonicalKey::MaxBlankLines);
    }
    if eq_bytes(k, "minBlankLinesBetweenBlocks".as_bytes()) || eq_bytes(k, "min_blank_lines_between_blocks".as_bytes()) {
        return Some(CanonicalKey::MinBlankLinesBetweenBlocks);
    }
    if eq_bytes(k, "blankLineBetweenSections".as_bytes()) || eq_bytes(k, "blank_line_between_sections".as_bytes()) {
        return Some(CanonicalKey::BlankLineBetweenSections);
    }
    if eq_bytes(k, "commandCase".as_bytes()) || eq_bytes(k, "command_case".as_bytes()) {
        return Some(CanonicalKey::CommandCase);
    }
    if eq_bytes(k, "keywordCase".as_bytes()) || eq_bytes(k, "keyword_case".as_bytes()) {
        return Some(CanonicalKey::KeywordCase);
    }
    if eq_bytes(k, "customKeywords".as_bytes()) || eq_bytes(k, "custom_keywords".as_bytes()) {
        return Some(CanonicalKey::CustomKeywords);
    }
    if eq_bytes(k, "literalCase".as_bytes()) || eq_bytes(k, "literal_case".as_bytes()) {
        return Some(CanonicalKey::LiteralCase);
    }
    if eq_bytes(k, "closingParenNewline".as_bytes()) || eq_bytes(k, "closing_paren_newline".as_bytes()) {
        return Some(CanonicalKey::ClosingParenNewline);
    }
    if eq_bytes(k, "spaceBeforeParen".as_bytes()) || eq_bytes(k, "space_before_paren".as_bytes()) {
        return Some(CanonicalKey::SpaceBeforeParen);
    }
    if eq_bytes(k, "spaceInsideParen".as_bytes()) || eq_bytes(k, "space_inside_paren".as_bytes()) {
        return Some(CanonicalKey::SpaceInsideParen);
    }
    if eq_bytes(k, "commentPreservation".as_bytes()) || eq_bytes(k, "comment_preservation".as_bytes()) {
        return Some(CanonicalKey::CommentPreservation);
    }
    if eq_bytes(k, "commentWidth".as_bytes()) || eq_bytes(k, "comment_width".as_bytes()) {
        return Some(CanonicalKey::CommentWidth);
    }
    if eq_bytes(k, "alignTrailingComments".as_bytes()) || eq_bytes(k, "align_trailing_comments".as_bytes()) {
        return Some(CanonicalKey::AlignTrailingComments);
    }
    if eq_bytes(k, "commentGap".as_bytes()) || eq_bytes(k, "comment_gap".as_bytes()) {
        return Some(CanonicalKey::CommentGap);
    }
    if eq_bytes(k, "trimTrailingWhitespace".as_bytes()) || eq_bytes(k, "trim_trailing_whitespace".as_bytes()) {
        return Some(CanonicalKey::TrimTrailingWhitespace);
    }
    if eq_bytes(k, "collapseSpaces".as_bytes()) || eq_bytes(k, "collapse_spaces".as_bytes()) {
        return Some(CanonicalKey::CollapseSpaces);
    }
    if eq_bytes(k, "alignPropertyValues".as_bytes()) || eq_bytes(k, "align_property_values".as_bytes()) {
        return Some(CanonicalKey::AlignPropertyValues);
    }
    if eq_bytes(k, "alignConsecutiveSet".as_bytes()) || eq_bytes(k, "align_consecutive_set".as_bytes()) {
        return Some(CanonicalKey::AlignConsecutiveSet);
    }
    if eq_bytes(k, "alignArgGroups".as_bytes()) || eq_bytes(k, "align_arg_groups".as_bytes()) {
        return Some(CanonicalKey::AlignArgGroups);
    }
    if eq_bytes(k, "perCommandConfig".as_bytes()) || eq_bytes(k, "per_command_config".as_bytes()) {
        return Some(CanonicalKey::PerCommandConfig);
    }
    if eq_bytes(k, "sortArguments".as_bytes()) || eq_bytes(k, "sort_arguments".as_bytes()) || eq_bytes(k, "sortLists".as_bytes()) || eq_bytes(k, "sort_lists".as_bytes()) {
        return Some(CanonicalKey::SortArguments);
    }
    if eq_bytes(k, "sortKeywordSections".as_bytes()) || eq_bytes(k, "sort_keyword_sections".as_bytes()) {
        return Some(CanonicalKey::SortKeywordSections);
    }
    if eq_bytes(k, "disableFormatting".as_bytes()) || eq_bytes(k, "disable_formatting".as_bytes()) {
        return Some(CanonicalKey::DisableFormatting);
    }
    if eq_bytes(k, "ignorePatterns".as_bytes()) || eq_bytes(k, "ignore_patterns".as_bytes()) {
        return Some(CanonicalKey::IgnorePatterns);
    }
    if eq_bytes(k, "ignoreCommands".as_bytes()) || eq_bytes(k, "ignore_commands".as_bytes()) {
        return Some(CanonicalKey::IgnoreCommands);
    }
    if eq_bytes(k, "indentBlockBody".as_bytes()) || eq_bytes(k, "indent_block_body".as_bytes()) {
        return Some(CanonicalKey::IndentBlockBody);
    }
    if eq_bytes(k, "endCommandArgs".as_bytes()) || eq_bytes(k, "end_command_args".as_bytes()) {
        return Some(CanonicalKey::EndCommandArgs);
    }
    if eq_bytes(k, "extends".as_bytes()) {
        return Some(CanonicalKey::Extends);
    }
    if eq_bytes(k, "indent".as_bytes()) {
        return Some(CanonicalKey::IndentMode);
    }
    None
}

/// Length of the run of byte `c` at the start of `s[i..]`.
pub open spec fn lead_run(s: Seq<u8>, c: u8, i: int) -> int
    decreases s.len() - i,
{
    if 0 <= i < s.len() && s[i] == c {
        lead_run(s, c, i + 1)
    } else {
        i
    }
}

/// End of `s[..j]` once trailing bytes `c` are removed, not below `lo`.
pub open spec fn trail_run(s: Seq<u8>, c: u8, lo: int, j: int) -> int
    decreases j - lo,
{
    if lo < j && j <= s.len() && s[j - 1] == c {
        trail_run(s, c, lo, j - 1)
    } else {
        j
    }
}

/// `str::trim_matches` with one ASCII byte: every `c` removed from both ends.
pub open spec fn trim_byte(s: Seq<u8>, c: u8) -> Seq<u8> {
    let a = lead_run(s, c, 0);
    s.subrange(a, trail_run(s, c, a, s.len() as int))
}

proof fn lemma_runs(s: Seq<u8>, c: u8, i: int, lo: int, j: int)
    requires
        0 <= i <= s.len(),
        0 <= lo <= j <= s.len(),
    ensures
        i <= lead_run(s, c, i) <= s.len(),
        lo <= trail_run(s, c, lo, j) <= j,
    decreases s.len() - i + j - lo,
{
    if i < s.len() && s[i] == c {
        lemma_runs(s, c, i + 1, lo, j);
    } else if lo < j && s[j - 1] == c {
        lemma_runs(s, c, i, lo, j - 1);
    }
}

pub(crate) fn trim_byte_exec(s: &[u8], c: u8) -> (r: &[u8])
    ensures
        r@ == trim_byte(s@, c),
{
    let mut a: usize = 0;
    while a < s.len() && s[a] == c
        invariant
            a <= s@.len(),
            lead_run(s@, c, a as int) == lead_run(s@, c, 0),
        decreases s@.len() - a,
    {
        a = a + 1;
    }
    let mut b: usize = s.len();
    while a < b && s[b - 1] == c
        invariant
            a <= b <= s@.len(),
            trail_run(s@, c, a as int, b as int) == trail_run(s@, c, a as int, s@.len() as int),
        decreases b - a,
    {
        b = b - 1;
    }
    &s[a..b]
}

/// A value with whitespace, then double quotes, then single quotes trimmed
/// from its ends.
pub open spec fn trim_quotes_seq(s: Seq<u8>) -> Seq<u8> {
    trim_byte(trim_byte(crate::text::trim_seq(s), 34u8), 39u8)
}

/// The trimmed text is valid UTF-8 when the value is.
proof fn lemma_trim_quotes_valid(s: Seq<u8>)
    requires
        vstd::utf8::valid_utf8(s),
    ensures
        vstd::utf8::valid_utf8(trim_quotes_seq(s)),
{
    crate::post_process::lemma_trim_valid(s);
    let t = crate::text::trim_seq(s);
    lemma_trim_byte_valid(t, 34u8);
    lemma_trim_byte_valid(trim_byte(t, 34u8), 39u8);
}

pub(crate) proof fn lemma_trim_byte_valid(s: Seq<u8>, c: u8)
    requires
        vstd::utf8::valid_utf8(s),
        c < 0x80u8,
    ensures
        vstd::utf8::valid_utf8(trim_byte(s, c)),
{
    lemma_runs(s, c, 0, 0, 0);
    let a = lead_run(s, c, 0);
    lemma_lead_bnd(s, c, 0);
    lemma_runs(s, c, 0, a, s.len() as int);
    lemma_trail_bnd(s, c, a, s.len() as int);
    crate::text::lemma_valid_between(s, a, trail_run(s, c, a, s.len() as int));
}

proof fn lemma_lead_bnd(s: Seq<u8>, c: u8, i: int)
    requires
        vstd::utf8::valid_utf8(s),
        c < 0x80u8,
        0 <= i <= s.len(),
        crate::text::bnd(s, i),
    ensures
        crate::text::bnd(s, lead_run(s, c, i)),
    decreases s.len() - i,
{
    if i < s.len() && s[i] == c {
        crate::text::lemma_bnd_step(s, i);
        lemma_lead_bnd(s, c, i + 1);
    }
}

proof fn lemma_trail_bnd(s: Seq<u8>, c: u8, lo: int, j: int)
    requires
        c < 0x80u8,
        0 <= lo <= j <= s.len(),
        crate::text::bnd(s, j),
    ensures
        crate::text::bnd(s, trail_run(s, c, lo, j)),
    decreases j - lo,
{
    if lo < j && s[j - 1] == c {
        lemma_trail_bnd(s, c, lo, j - 1);
    }
}

fn trim_quotes_bytes(v: &[u8]) -> (r: &[u8])
    ensures
        r@ == trim_quotes_seq(v@),
{
    trim_byte_exec(trim_byte_exec(crate::text::trim(v), 34u8), 39u8)
}

/// A value with whitespace, then double quotes, then single quotes trimmed.
pub fn trim_quotes(value: &str) -> (r: String)
    ensures
        sbytes(r) == trim_quotes_seq(value.spec_bytes()),
{
    proof {
        crate::text::lemma_str_valid(value);
        lemma_trim_quotes_valid(value.spec_bytes());
    }
    string_of(trim_quotes_bytes(value.as_bytes()))
}

/// `true` or `false` in any ASCII case, after quotes are trimmed.
pub open spec fn bool_text(s: Seq<u8>) -> Option<bool> {
    let t = crate::text::lower_seq(trim_quotes_seq(s));
    if t == "true".spec_bytes() {
        Some(true)
    } else if t == "false".spec_bytes() {
        Some(false)
    } else {
        None
    }
}

fn bool_text_bytes(v: &[u8]) -> (r: Option<bool>)
    ensures
        r == bool_text(v@),
{
    let t = crate::text::to_lower_vec(trim_quotes_bytes(v));
    if eq_bytes(t.as_slice(), "true".as_bytes()) {
        Some(true)
    } else if eq_bytes(t.as_slice(), "false".as_bytes()) {
        Some(false)
    } else {
        None
    }
}

pub fn parse_bool_text(value: &str) -> (r: Option<bool>)
    ensures
        r == bool_text(value.spec_bytes()),
{
    bool_text_bytes(value.as_bytes())
}

/// Value of a run of ASCII digits.
pub open spec fn digits_val(s: Seq<u8>) -> int
    decreases s.len(),
{
    if s.len() == 0 {
        0
    } else {
        digits_val(s.drop_last()) * 10 + (s.last() - 48)
    }
}

pub open spec fn all_digits(s: Seq<u8>) -> bool {
    forall|i: int| 0 <= i < s.len() ==> crate::post_process::is_digit(#[trigger] s[i])
}

/// `i64::from_str`: an optional sign, then one or more ASCII digits, in range.
pub open spec fn i64_text(s: Seq<u8>) -> Option<i64> {
    let neg = s.len() > 0 && s[0] == 45u8;
    let d = if s.len() > 0 && (s[0] == 45u8 || s[0] == 43u8) {
        s.subrange(1, s.len() as int)
    } else {
        s
    };
    if d.len() == 0 || !all_digits(d) {
        None
    } else {
        let v = if neg {
            -digits_val(d)
        } else {
            digits_val(d)
        };
        if i64::MIN <= v <= i64::MAX {
            Some(v as i64)
        } else {
            None
        }
    }
}

proof fn lemma_digits_mono(s: Seq<u8>, k: int)
    requires
        0 <= k <= s.len(),
        all_digits(s),
    ensures
        digits_val(s.take(k)) <= digits_val(s),
        0 <= digits_val(s.take(k)),
    decreases s.len(),
{
    if k == s.len() {
        assert(s.take(k) =~= s);
        lemma_digits_nonneg(s);
    } else {
        lemma_digits_mono(s.drop_last(), k);
        assert(s.drop_last().take(k) =~= s.take(k));
        lemma_digits_nonneg(s.drop_last());
    }
}

proof fn lemma_digits_nonneg(s: Seq<u8>)
    requires
        all_digits(s),
    ensures
        digits_val(s) >= 0,
    decreases s.len(),
{
    if s.len() > 0 {
        lemma_digits_nonneg(s.drop_last());
    }
}

/// Parses an `i64` as `str::parse` does.
pub fn parse_i64_bytes(s: &[u8]) -> (r: Option<i64>)
    ensures
        r == i64_text(s@),
{
    let neg = s.len() > 0 && s[0] == 45u8;
    let start: usize = if s.len() > 0 && (s[0] == 45u8 || s[0] == 43u8) {
        1
    } else {
        0
    };
    let d = &s[start..s.len()];
    proof {
        assert(d@ == if s@.len() > 0 && (s@[0] == 45u8 || s@[0] == 43u8) {
            s@.subrange(1, s@.len() as int)
        } else {
            s@
        });
    }
    if d.len() == 0 {
        return None;
    }
    let limit: u64 = 9223372036854775808;
    let mut acc: u64 = 0;
    let mut k: usize = 0;
    while k < d.len()
        invariant
            k <= d@.len(),
            d@.len() > 0,
            d@ == if s@.len() > 0 && (s@[0] == 45u8 || s@[0] == 43u8) {
                s@.subrange(1, s@.len() as int)
            } else {
                s@
            },
            neg == (s@.len() > 0 && s@[0] == 45u8),
            acc <= limit,
            limit == 9223372036854775808u64,
            acc == digits_val(d@.take(k as int)),
            all_digits(d@.take(k as int)),
        decreases d@.len() - k,
    {
        let b = d[k];
        if !(48u8 <= b && b <= 57u8) {
            proof {
                assert(!crate::post_process::is_digit(d@[k as int]));
            }
            return None;
        }
        let dv = (b - 48) as u64;
        proof {
            assert(d@.take(k + 1).drop_last() =~= d@.take(k as int));
            assert(d@.take(k + 1).last() == b);
        }
        if acc > (limit - dv) / 10 {
            proof {
                assert(digits_val(d@.take(k + 1)) > limit);
                assert(all_digits(d@.take(k + 1)));
                if all_digits(d@) {
                    lemma_digits_mono(d@, k + 1);
                }
            }
            return None;
        }
        acc = acc * 10 + dv;
        k = k + 1;
    }
    proof {
        assert(d@.take(d@.len() as int) =~= d@);
    }
    if neg {
        if acc == limit {
            Some(-9223372036854775807i64 - 1)
        } else {
            Some(-(acc as i64))
        }
    } else {
        if acc == limit {
            None
        } else {
            Some(acc as i64)
        }
    }
}

/// The pieces of `s` from `p` on, split at each byte `c` (as `str::split`).
pub open spec fn split_on(s: Seq<u8>, c: u8, p: int) -> Seq<Seq<u8>>
    decreases s.len() + 1 - p,
{
    if p < 0 || p > s.len() {
        seq![]
    } else {
        let q = crate::post_process::byte_pos(s, c, p);
        proof {
            crate::post_process::lemma_byte_pos_bounds(s, c, p);
        }
        if q >= s.len() {
            seq![s.subrange(p, s.len() as int)]
        } else {
            seq![s.subrange(p, q)] + split_on(s, c, q + 1)
        }
    }
}

/// The non-empty texts of a sequence, in order.
pub open spec fn nonempty_only(v: Seq<Seq<u8>>) -> Seq<Seq<u8>>
    decreases v.len(),
{
    if v.len() == 0 {
        seq![]
    } else if v.last().len() == 0 {
        nonempty_only(v.drop_last())
    } else {
        nonempty_only(v.drop_last()).push(v.last())
    }
}

pub open spec fn quote_trimmed_all(v: Seq<Seq<u8>>) -> Seq<Seq<u8>> {
    v.map_values(|e: Seq<u8>| trim_quotes_seq(crate::text::trim_seq(e)))
}

/// A list written as text: `[a, "b", 'c']` with empty entries dropped.
pub open spec fn text_list(s: Seq<u8>) -> Option<Seq<Seq<u8>>> {
    let t = crate::text::trim_seq(s);
    if t.len() < 2 || t[0] != 91u8 || t[t.len() - 1] != 93u8 {
        None
    } else {
        Some(nonempty_only(quote_trimmed_all(split_on(t.subrange(1, t.len() - 1), 44u8, 0))))
    }
}

#[verifier::opaque]
pub open spec fn strings_model(v: Seq<String>) -> Seq<Seq<u8>> {
    v.map_values(|s: String| sbytes(s))
}

pub(crate) proof fn lemma_string_valid(s: String)
    ensures
        vstd::utf8::valid_utf8(sbytes(s)),
{
    vstd::utf8::encode_utf8_valid_utf8(s@);
}

/// Parses a list written as text; see `text_list`.
pub fn parse_text_list_bytes(value: &[u8]) -> (r: Option<Vec<String>>)
    requires
        vstd::utf8::valid_utf8(value@),
    ensures
        match (r, text_list(value@)) {
            (Some(x), Some(y)) => strings_model(x@) == y,
            (None, None) => true,
            _ => false,
        },
{
    let t = crate::text::trim(value);
    if t.len() < 2 || t[0] != 91u8 || t[t.len() - 1] != 93u8 {
        return None;
    }
    let inner = &t[1..t.len() - 1];
    proof {
        crate::post_process::lemma_trim_valid(value@);
        crate::text::lemma_bnd_step(t@, 0);
        assert(crate::text::bnd(t@, t@.len() - 1));
        crate::text::lemma_valid_between(t@, 1, t@.len() - 1);
    }
    let ghost pieces = split_on(inner@, 44u8, 0);
    let mut out: Vec<String> = Vec::new();
    let mut p: usize = 0;
    let mut done = false;
    let ghost mut k: int = 0;
    proof {
        reveal(strings_model);
        assert(strings_model(out@) =~= nonempty_only(quote_trimmed_all(pieces.take(0))));
    }
    while !done
        invariant
            p <= inner@.len(),
            vstd::utf8::valid_utf8(inner@),
            crate::text::bnd(inner@, p as int),
            pieces == split_on(inner@, 44u8, 0),
            !done ==> 0 <= k <= pieces.len() && pieces.subrange(k, pieces.len() as int) == split_on(inner@, 44u8, p as int),
            done ==> k == pieces.len(),
            0 <= k <= pieces.len(),
            strings_model(out@) == nonempty_only(quote_trimmed_all(pieces.take(k))),
        decreases inner@.len() + 1 - p, if done { 0int } else { 1int },
    {
        let rest = &inner[p..inner.len()];
        let q = crate::post_process::byte_pos_exec(rest, 44u8);
        proof {
            crate::post_process::lemma_byte_pos_bounds(inner@, 44u8, p as int);
            lemma_byte_pos_shift(inner@, 44u8, p as int);
        }
        let e = if q >= rest.len() { inner.len() } else { p + q };
        let piece = &inner[p..e];
        proof {
            assert(crate::text::bnd(inner@, e as int)) by {
                if e < inner@.len() {
                    assert(inner@[e as int] == 44u8);
                }
            }
            crate::text::lemma_valid_between(inner@, p as int, e as int);
            crate::post_process::lemma_trim_valid(piece@);
            lemma_trim_quotes_valid(crate::text::trim_seq(piece@));
        }
        proof {
            let q2 = crate::post_process::byte_pos(inner@, 44u8, p as int);
            let sp = split_on(inner@, 44u8, p as int);
            if q2 >= inner@.len() {
                assert(sp == seq![inner@.subrange(p as int, inner@.len() as int)]);
            } else {
                assert(sp == seq![inner@.subrange(p as int, q2)] + split_on(inner@, 44u8, q2 + 1));
            }
            assert(sp[0] == piece@);
            assert(sp.len() >= 1);
            assert(pieces.subrange(k, pieces.len() as int) == sp);
            assert(pieces.subrange(k, pieces.len() as int).len() == pieces.len() - k);
            assert(k < pieces.len());
            assert(pieces.subrange(k, pieces.len() as int)[0] == pieces[k]);
            if q < rest@.len() {
                assert(q2 == e);
                assert(sp.subrange(1, sp.len() as int) =~= split_on(inner@, 44u8, e + 1));
                assert(pieces.subrange(k + 1, pieces.len() as int) =~= sp.subrange(1, sp.len() as int));
            } else {
                assert(sp.len() == 1);
                assert(k + 1 == pieces.len());
            }
        }
        let tq = trim_quotes_bytes(crate::text::trim(piece));
        let ghost old_out = strings_model(out@);
        if tq.len() > 0 {
            let st = string_of(tq);
            out.push(st);
            proof {
                reveal(strings_model);
                assert(strings_model(out@) =~= old_out.push(tq@));
            }
        }
        proof {
            let qa = quote_trimmed_all(pieces.take(k + 1));
            assert(qa.drop_last() =~= quote_trimmed_all(pieces.take(k)));
            assert(qa.last() == tq@);
            k = k + 1;
        }
        if q >= rest.len() {
            done = true;
        } else {
            p = p + q + 1;
            proof {
                crate::text::lemma_bnd_step(inner@, (p - 1) as int);
            }
        }
    }
    proof {
        assert(pieces.take(pieces.len() as int) =~= pieces);
    }
    Some(out)
}

/// `byte_pos` on a suffix is `byte_pos` on the whole, shifted.
proof fn lemma_byte_pos_shift(s: Seq<u8>, c: u8, p: int)
    requires
        0 <= p <= s.len(),
    ensures
        crate::post_process::byte_pos(s.subrange(p, s.len() as int), c, 0) == crate::post_process::byte_pos(s, c, p) - p,
{
    lemma_byte_pos_shift_from(s, c, p, p);
}

proof fn lemma_byte_pos_shift_from(s: Seq<u8>, c: u8, p: int, j: int)
    requires
        0 <= p <= j <= s.len(),
    ensures
        crate::post_process::byte_pos(s.subrange(p, s.len() as int), c, j - p) == crate::post_process::byte_pos(s, c, j) - p,
    decreases s.len() - j,
{
    if j < s.len() {
        lemma_byte_pos_shift_from(s, c, p, j + 1);
        assert(s.subrange(p, s.len() as int)[j - p] == s[j]);
    }
}

/// Parses a list written as text.
pub fn parse_text_list(value: &str) -> (r: Option<Vec<String>>)
    ensures
        match (r, text_list(value.spec_bytes())) {
            (Some(x), Some(y)) => strings_model(x@) == y,
            (None, None) => true,
            _ => false,
        },
{
    proof {
        crate::text::lemma_str_valid(value);
    }
    parse_text_list_bytes(value.as_bytes())
}

/// A configuration value: from JSON (or TOML turned into JSON), or as text
/// from a one-line header.
#[derive(Debug, Clone, Copy)]
pub enum RawConfigValue<'a> {
    Json(&'a JsonValue),
    Text(&'a str),
}

pub ghost enum RawModel {
    Json(JsonModel),
    Text(Seq<u8>),
}

pub open spec fn raw_model(v: RawConfigValue) -> RawModel {
    match v {
        RawConfigValue::Json(j) => RawModel::Json(json_model(*j)),
        RawConfigValue::Text(t) => RawModel::Text(t.spec_bytes()),
    }
}

pub open spec fn raw_bool(v: RawModel) -> Option<bool> {
    match v {
        RawModel::Json(JsonModel::Bool(b)) => Some(b),
        RawModel::Text(t) => bool_text(t),
        _ => None,
    }
}

pub open spec fn raw_i64(v: RawModel) -> Option<i64> {
    match v {
        RawModel::Json(JsonModel::Number(n)) => n,
        RawModel::Text(t) => i64_text(trim_quotes_seq(t)),
        _ => None,
    }
}

pub open spec fn raw_u8(v: RawModel) -> Option<u8> {
    match raw_i64(v) {
        Some(x) => if 0 <= x <= 255 {
            Some(x as u8)
        } else {
            None
        },
        None => None,
    }
}

pub open spec fn raw_u32(v: RawModel) -> Option<u32> {
    match raw_i64(v) {
        Some(x) => if 0 <= x <= u32::MAX {
            Some(x as u32)
        } else {
            None
        },
        None => None,
    }
}

pub open spec fn raw_null(v: RawModel) -> bool {
    match v {
        RawModel::Json(JsonModel::Null) => true,
        RawModel::Text(t) => crate::text::ci_eq(trim_quotes_seq(t), "null".spec_bytes()),
        _ => false,
    }
}

pub open spec fn raw_string(v: RawModel) -> Option<Seq<u8>> {
    match v {
        RawModel::Json(JsonModel::Str(s)) => Some(s),
        RawModel::Text(t) => Some(trim_quotes_seq(t)),
        _ => None,
    }
}

/// A list of strings: a JSON array of strings, or a list written as text.
pub open spec fn raw_strings(v: RawModel) -> Option<Seq<Seq<u8>>> {
    match v {
        RawModel::Json(JsonModel::Array(items)) => if forall|i: int| 0 <= i < items.len() ==> (#[trigger] items[i]) is Str {
            Some(items.map_values(|j: JsonModel| j->Str_0))
        } else {
            None
        },
        RawModel::Text(t) => text_list(t),
        _ => None,
    }
}

impl<'a> RawConfigValue<'a> {
    pub fn as_bool(&self) -> (r: Option<bool>)
        ensures
            r == raw_bool(raw_model(*self)),
    {
        match self {
            RawConfigValue::Json(JsonValue::Bool(b)) => Some(*b),
            RawConfigValue::Text(t) => bool_text_bytes(t.as_bytes()),
            _ => None,
        }
    }

    pub fn as_i64_number(&self) -> (r: Option<i64>)
        ensures
            r == raw_i64(raw_model(*self)),
    {
        match self {
            RawConfigValue::Json(JsonValue::Number(n)) => *n,
            RawConfigValue::Text(t) => parse_i64_bytes(trim_quotes_bytes(t.as_bytes())),
            _ => None,
        }
    }

    pub fn as_u8_number(&self) -> (r: Option<u8>)
        ensures
            r == raw_u8(raw_model(*self)),
    {
        match self.as_i64_number() {
            Some(x) => if 0 <= x && x <= 255 {
                Some(x as u8)
            } else {
                None
            },
            None => None,
        }
    }

    pub fn as_u32_number(&self) -> (r: Option<u32>)
        ensures
            r == raw_u32(raw_model(*self)),
    {
        match self.as_i64_number() {
            Some(x) => if 0 <= x && x <= 4294967295 {
                Some(x as u32)
            } else {
                None
            },
            None => None,
        }
    }

    pub fn is_null(&self) -> (r: bool)
        ensures
            r == raw_null(raw_model(*self)),
    {
        match self {
            RawConfigValue::Json(JsonValue::Null) => true,
            RawConfigValue::Text(t) => crate::text::eq_ci(trim_quotes_bytes(t.as_bytes()), "null".as_bytes()),
            _ => false,
        }
    }

    pub fn to_string_value(&self) -> (r: Option<String>)
        ensures
            match (r, raw_string(raw_model(*self))) {
                (Some(x), Some(y)) => sbytes(x) == y,
                (None, None) => true,
                _ => false,
            },
    {
        match self {
            RawConfigValue::Json(JsonValue::Str(s)) => Some(s.clone()),
            RawConfigValue::Text(t) => Some(trim_quotes(t)),
            _ => None,
        }
    }

    pub fn to_strings(&self) -> (r: Option<Vec<String>>)
        ensures
            match (r, raw_strings(raw_model(*self))) {
                (Some(x), Some(y)) => strings_model(x@) == y,
                (None, None) => true,
                _ => false,
            },
    {
        match self {
            RawConfigValue::Json(JsonValue::Array(items)) => {
                let mut out: Vec<String> = Vec::new();
                let mut i: usize = 0;
                proof {
                    lemma_jsons_model(*items, 0);
                    reveal(strings_model);
                    assert(strings_model(out@) =~= jsons_model(*items, 0).take(0).map_values(|j: JsonModel| j->Str_0));
                }
                while i < items.len()
                    invariant
                        i <= items@.len(),
                        *self == RawConfigValue::Json(&JsonValue::Array(*items)),
                        jsons_model(*items, 0).len() == items@.len(),
                        forall|k: int| 0 <= k < items@.len() ==> #[trigger] jsons_model(*items, 0)[k] == json_model(items@[k]),
                        forall|k: int| 0 <= k < i ==> (#[trigger] jsons_model(*items, 0)[k]) is Str,
                        strings_model(out@) == jsons_model(*items, 0).take(i as int).map_values(|j: JsonModel| j->Str_0),
                    decreases items@.len() - i,
                {
                    match &items[i] {
                        JsonValue::Str(t) => {
                            let ghost o = strings_model(out@);
                            out.push(t.clone());
                            proof {
                                assert(jsons_model(*items, 0)[i as int] == json_model(items@[i as int]));
                                reveal(strings_model);
                                assert(strings_model(out@) =~= o.push(sbytes(*t)));
                                assert(jsons_model(*items, 0).take(i + 1).map_values(|j: JsonModel| j->Str_0) =~= jsons_model(*items, 0).take(i as int).map_values(|j: JsonModel| j->Str_0).push(sbytes(*t)));
                            }
                        },
                        _ => {
                            proof {
                                assert(jsons_model(*items, 0)[i as int] == json_model(items@[i as int]));
                                assert(!(jsons_model(*items, 0)[i as int] is Str));
                                assert(*self == RawConfigValue::Json(&JsonValue::Array(*items)));
                                assert(json_model(JsonValue::Array(*items)) == JsonModel::Array(jsons_model(*items, 0)));
                                assert(raw_model(*self) == RawModel::Json(JsonModel::Array(jsons_model(*items, 0))));
                            }
                            return None;
                        },
                    }
                    i = i + 1;
                }
                proof {
                    assert(jsons_model(*items, 0).take(items@.len() as int) =~= jsons_model(*items, 0));
                }
                Some(out)
            },
            RawConfigValue::Text(t) => {
                proof {
                    crate::text::lemma_str_valid(t);
                }
                parse_text_list_bytes(t.as_bytes())
            },
            _ => None,
        }
    }
}

/// Decimal digits of a number.
pub open spec fn dec(n: nat) -> Seq<u8>
    decreases n,
{
    if n < 10 {
        seq![(48 + n) as u8]
    } else {
        dec(n / 10).push((48 + n % 10) as u8)
    }
}

pub(crate) proof fn lemma_dec_ascii(n: nat)
    ensures
        forall|i: int| 0 <= i < dec(n).len() ==> dec(n)[i] < 0x80u8,
        vstd::utf8::valid_utf8(dec(n)),
    decreases n,
{
    if n >= 10 {
        lemma_dec_ascii(n / 10);
    }
    crate::text::lemma_ascii_valid_utf8(dec(n));
}

pub fn dec_bytes(n: u64) -> (r: Vec<u8>)
    ensures
        r@ == dec(n as nat),
    decreases n,
{
    if n < 10 {
        vec![48u8 + n as u8]
    } else {
        let mut v = dec_bytes(n / 10);
        v.push(48u8 + (n % 10) as u8);
        v
    }
}

/// The decimal text of a number.
pub fn dec_string(n: u64) -> (r: String)
    ensures
        sbytes(r) == dec(n as nat),
{
    let v = dec_bytes(n);
    proof {
        lemma_dec_ascii(n as nat);
    }
    string_of(v.as_slice())
}

/// Bytes joined into a `String`.
pub fn join_text(a: &[u8], b: &[u8]) -> (r: Vec<u8>)
    ensures
        r@ == a@ + b@,
        vstd::utf8::valid_utf8(a@) && vstd::utf8::valid_utf8(b@) ==> vstd::utf8::valid_utf8(r@),
{
    let mut v: Vec<u8> = Vec::new();
    crate::post_process::push_bytes(&mut v, a);
    crate::post_process::push_bytes(&mut v, b);
    proof {
        if vstd::utf8::valid_utf8(a@) && vstd::utf8::valid_utf8(b@) {
            crate::text::lemma_valid_concat(a@, b@);
        }
    }
    v
}

pub open spec fn invalid_type_msg(key: Seq<u8>, expected: Seq<u8>) -> Seq<u8> {
    "Invalid type for '".spec_bytes() + key + "', expected ".spec_bytes() + expected
}

pub open spec fn unknown_msg() -> Seq<u8> {
    "Unknown property in configuration".spec_bytes()
}

pub open spec fn invalid_value_msg(field: Seq<u8>, parsed: Seq<u8>, options: Seq<u8>) -> Seq<u8> {
    "Invalid ".spec_bytes() + field + " value '".spec_bytes() + parsed + "'. Expected one of: ".spec_bytes() + options
}

pub(crate) fn invalid_type_text(key: &str, expected: &str) -> (r: String)
    ensures
        sbytes(r) == invalid_type_msg(key.spec_bytes(), expected.spec_bytes()),
{
    proof {
        crate::text::lemma_str_valid(key);
        crate::text::lemma_str_valid(expected);
        crate::text::lemma_str_valid("Invalid type for '");
        crate::text::lemma_str_valid("', expected ");
    }
    let a = join_text("Invalid type for '".as_bytes(), key.as_bytes());
    let b = join_text(a.as_slice(), "', expected ".as_bytes());
    let c = join_text(b.as_slice(), expected.as_bytes());
    string_of(c.as_slice())
}

pub(crate) fn invalid_value_text(field: &str, parsed: &str, options: &str) -> (r: String)
    ensures
        sbytes(r) == invalid_value_msg(field.spec_bytes(), parsed.spec_bytes(), options.spec_bytes()),
{
    proof {
        crate::text::lemma_str_valid(field);
        crate::text::lemma_str_valid(parsed);
        crate::text::lemma_str_valid(options);
        crate::text::lemma_str_valid("Invalid ");
        crate::text::lemma_str_valid(" value '");
        crate::text::lemma_str_valid("'. Expected one of: ");
    }
    let a = join_text("Invalid ".as_bytes(), field.as_bytes());
    let b = join_text(a.as_slice(), " value '".as_bytes());
    let c = join_text(b.as_slice(), parsed.as_bytes());
    let d = join_text(c.as_slice(), "'. Expected one of: ".as_bytes());
    let e = join_text(d.as_slice(), options.as_bytes());
    string_of(e.as_slice())
}

/// The list written back as `[a, b, c]`.
pub open spec fn list_text(v: Seq<Seq<u8>>) -> Seq<u8> {
    "[".spec_bytes() + joined(v) + "]".spec_bytes()
}

/// The texts joined with `, `.
pub open spec fn joined(v: Seq<Seq<u8>>) -> Seq<u8>
    decreases v.len(),
{
    if v.len() == 0 {
        seq![]
    } else if v.len() == 1 {
        v[0]
    } else {
        joined(v.drop_last()) + ", ".spec_bytes() + v.last()
    }
}

#[verifier::rlimit(50)]
pub(crate) fn list_string(v: &Vec<String>) -> (r: String)
    ensures
        sbytes(r) == list_text(strings_model(v@)),
{
    proof {
        crate::text::lemma_str_valid("[");
        crate::text::lemma_str_valid("]");
        crate::text::lemma_str_valid(", ");
    }
    let mut acc: Vec<u8> = Vec::new();
    let mut i: usize = 0;
    proof {
        crate::text::lemma_ascii_valid_utf8(seq![]);
        reveal(strings_model);
        assert(strings_model(v@).take(0) =~= Seq::<Seq<u8>>::empty());
    }
    while i < v.len()
        invariant
            i <= v@.len(),
            acc@ == joined(strings_model(v@).take(i as int)),
            vstd::utf8::valid_utf8(acc@),
            vstd::utf8::valid_utf8(", ".spec_bytes()),
        decreases v@.len() - i,
    {
        let ghost sm = strings_model(v@);
        proof {
            reveal(strings_model);
            lemma_string_valid(v@[i as int]);
            assert(sm.take(i + 1).drop_last() =~= sm.take(i as int));
            assert(sm.take(i + 1).last() == sbytes(v@[i as int]));
        }
        if i == 0 {
            acc = join_text(acc.as_slice(), v[i].as_str().as_bytes());
            proof {
                assert(sm.take(1) =~= seq![sbytes(v@[0])]);
                assert(acc@ =~= sbytes(v@[0]));
            }
        } else {
            let a = join_text(acc.as_slice(), ", ".as_bytes());
            acc = join_text(a.as_slice(), v[i].as_str().as_bytes());
            proof {
                assert(joined(sm.take(i + 1)) == joined(sm.take(i as int)) + ", ".spec_bytes() + sbytes(v@[i as int]));
            }
        }
        i = i + 1;
    }
    proof {
        reveal(strings_model);
        assert(strings_model(v@).take(v@.len() as int) =~= strings_model(v@));
    }
    let a = join_text("[".as_bytes(), acc.as_slice());
    let b = join_text(a.as_slice(), "]".as_bytes());
    string_of(b.as_slice())
}

/// The `WrapStyle` that a text names, in any ASCII case.
pub open spec fn wrap_of(s: Seq<u8>) -> Option<WrapStyle> {
    let l = crate::text::lower_seq(s);
    if l == "cascade".spec_bytes() {
        Some(WrapStyle::Cascade)
    } else if l == "vertical".spec_bytes() {
        Some(WrapStyle::Vertical)
    } else {
        None
    }
}

pub(crate) fn wrap_of_bytes(s: &[u8]) -> (r: Option<WrapStyle>)
    ensures
        r == wrap_of(s@),
{
    let lv = crate::text::to_lower_vec(s);
    let l = lv.as_slice();
    if eq_bytes(l, "cascade".as_bytes()) {
        return Some(WrapStyle::Cascade);
    }
    if eq_bytes(l, "vertical".as_bytes()) {
        return Some(WrapStyle::Vertical);
    }
    None
}

/// How a `WrapStyle` is written back.
pub open spec fn wrap_name(x: WrapStyle) -> Seq<u8> {
    match x {
        WrapStyle::Cascade => "Cascade".spec_bytes(),
        WrapStyle::Vertical => "Vertical".spec_bytes(),
    }
}

pub(crate) fn wrap_text(x: WrapStyle) -> (r: &'static str)
    ensures
        r.spec_bytes() == wrap_name(x),
{
    match x {
        WrapStyle::Cascade => "Cascade",
        WrapStyle::Vertical => "Vertical",
    }
}

/// The `IndentStyle` that a text names, in any ASCII case.
pub open spec fn indent_of(s: Seq<u8>) -> Option<IndentStyle> {
    let l = crate::text::lower_seq(s);
    if l == "space".spec_bytes() {
        Some(IndentStyle::Space)
    } else if l == "tab".spec_bytes() {
        Some(IndentStyle::Tab)
    } else {
        None
    }
}

pub(crate) fn indent_of_bytes(s: &[u8]) -> (r: Option<IndentStyle>)
    ensures
        r == indent_of(s@),
{
    let lv = crate::text::to_lower_vec(s);
    let l = lv.as_slice();
    if eq_bytes(l, "space".as_bytes()) {
        return Some(IndentStyle::Space);
    }
    if eq_bytes(l, "tab".as_bytes()) {
        return Some(IndentStyle::Tab);
    }
    None
}

/// How a `IndentStyle` is written back.
pub open spec fn indent_name(x: IndentStyle) -> Seq<u8> {
    match x {
        IndentStyle::Space => "Space".spec_bytes(),
        IndentStyle::Tab => "Tab".spec_bytes(),
    }
}

pub(crate) fn indent_text(x: IndentStyle) -> (r: &'static str)
    ensures
        r.spec_bytes() == indent_name(x),
{
    match x {
        IndentStyle::Space => "Space",
        IndentStyle::Tab => "Tab",
    }
}

/// The `NewLineKind` that a text names, in any ASCII case.
pub open spec fn nlk_of(s: Seq<u8>) -> Option<NewLineKind> {
    let l = crate::text::lower_seq(s);
    if l == "auto".spec_bytes() {
        Some(NewLineKind::Auto)
    } else if l == "lf".spec_bytes() {
        Some(NewLineKind::Lf)
    } else if l == "crlf".spec_bytes() {
        Some(NewLineKind::CrLf)
    } else {
        None
    }
}

pub(crate) fn nlk_of_bytes(s: &[u8]) -> (r: Option<NewLineKind>)
    ensures
        r == nlk_of(s@),
{
    let lv = crate::text::to_lower_vec(s);
    let l = lv.as_slice();
    if eq_bytes(l, "auto".as_bytes()) {
        return Some(NewLineKind::Auto);
    }
    if eq_bytes(l, "lf".as_bytes()) {
        return Some(NewLineKind::Lf);
    }
    if eq_bytes(l, "crlf".as_bytes()) {
        return Some(NewLineKind::CrLf);
    }
    None
}

/// How a `NewLineKind` is written back.
pub open spec fn nlk_name(x: NewLineKind) -> Seq<u8> {
    match x {
        NewLineKind::Auto => "Auto".spec_bytes(),
        NewLineKind::Lf => "Lf".spec_bytes(),
        NewLineKind::CrLf => "CrLf".spec_bytes(),
    }
}

pub(crate) fn nlk_text(x: NewLineKind) -> (r: &'static str)
    ensures
        r.spec_bytes() == nlk_name(x),
{
    match x {
        NewLineKind::Auto => "Auto",
        NewLineKind::Lf => "Lf",
        NewLineKind::CrLf => "CrLf",
    }
}

/// The `CaseStyle` that a text names, in any ASCII case.
pub open spec fn case_of(s: Seq<u8>) -> Option<CaseStyle> {
    let l = crate::text::lower_seq(s);
    if l == "lower".spec_bytes() {
        Some(CaseStyle::Lower)
    } else if l == "upper".spec_bytes() {
        Some(CaseStyle::Upper)
    } else if l == "unchanged".spec_bytes() || l == "preserve".spec_bytes() {
        Some(CaseStyle::Preserve)
    } else {
        None
    }
}

pub(crate) fn case_of_bytes(s: &[u8]) -> (r: Option<CaseStyle>)
    ensures
        r == case_of(s@),
{
    let lv = crate::text::to_lower_vec(s);
    let l = lv.as_slice();
    if eq_bytes(l, "lower".as_bytes()) {
        return Some(CaseStyle::Lower);
    }
    if eq_bytes(l, "upper".as_bytes()) {
        return Some(CaseStyle::Upper);
    }
    if eq_bytes(l, "unchanged".as_bytes()) || eq_bytes(l, "preserve".as_bytes()) {
        return Some(CaseStyle::Preserve);
    }
    None
}

/// How a `CaseStyle` is written back.
pub open spec fn case_name(x: CaseStyle) -> Seq<u8> {
    match x {
        CaseStyle::Lower => "Lower".spec_bytes(),
        CaseStyle::Upper => "Upper".spec_bytes(),
        CaseStyle::Preserve => "Preserve".spec_bytes(),
    }
}

pub(crate) fn case_text(x: CaseStyle) -> (r: &'static str)
    ensures
        r.spec_bytes() == case_name(x),
{
    match x {
        CaseStyle::Lower => "Lower",
        CaseStyle::Upper => "Upper",
        CaseStyle::Preserve => "Preserve",
    }
}

/// The `SpaceInsideParen` that a text names, in any ASCII case.
pub open spec fn sip_of(s: Seq<u8>) -> Option<SpaceInsideParen> {
    let l = crate::text::lower_seq(s);
    if l == "insert".spec_bytes() {
        Some(SpaceInsideParen::Insert)
    } else if l == "remove".spec_bytes() {
        Some(SpaceInsideParen::Remove)
    } else if l == "preserve".spec_bytes() {
        Some(SpaceInsideParen::Preserve)
    } else {
        None
    }
}

pub(crate) fn sip_of_bytes(s: &[u8]) -> (r: Option<SpaceInsideParen>)
    ensures
        r == sip_of(s@),
{
    let lv = crate::text::to_lower_vec(s);
    let l = lv.as_slice();
    if eq_bytes(l, "insert".as_bytes()) {
        return Some(SpaceInsideParen::Insert);
    }
    if eq_bytes(l, "remove".as_bytes()) {
        return Some(SpaceInsideParen::Remove);
    }
    if eq_bytes(l, "preserve".as_bytes()) {
        return Some(SpaceInsideParen::Preserve);
    }
    None
}

/// How a `SpaceInsideParen` is written back.
pub open spec fn sip_name(x: SpaceInsideParen) -> Seq<u8> {
    match x {
        SpaceInsideParen::Insert => "Insert".spec_bytes(),
        SpaceInsideParen::Remove => "Remove".spec_bytes(),
        SpaceInsideParen::Preserve => "Preserve".spec_bytes(),
    }
}

pub(crate) fn sip_text(x: SpaceInsideParen) -> (r: &'static str)
    ensures
        r.spec_bytes() == sip_name(x),
{
    match x {
        SpaceInsideParen::Insert => "Insert",
        SpaceInsideParen::Remove => "Remove",
        SpaceInsideParen::Preserve => "Preserve",
    }
}

/// The `CommentPreservation` that a text names, in any ASCII case.
pub open spec fn cp_of(s: Seq<u8>) -> Option<CommentPreservation> {
    let l = crate::text::lower_seq(s);
    if l == "preserve".spec_bytes() {
        Some(CommentPreservation::Preserve)
    } else if l == "reflow".spec_bytes() {
        Some(CommentPreservation::Reflow)
    } else {
        None
    }
}

pub(crate) fn cp_of_bytes(s: &[u8]) -> (r: Option<CommentPreservation>)
    ensures
        r == cp_of(s@),
{
    let lv = crate::text::to_lower_vec(s);
    let l = lv.as_slice();
    if eq_bytes(l, "preserve".as_bytes()) {
        return Some(CommentPreservation::Preserve);
    }
    if eq_bytes(l, "reflow".as_bytes()) {
        return Some(CommentPreservation::Reflow);
    }
    None
}

/// How a `CommentPreservation` is written back.
pub open spec fn cp_name(x: CommentPreservation) -> Seq<u8> {
    match x {
        CommentPreservation::Preserve => "Preserve".spec_bytes(),
        CommentPreservation::Reflow => "Reflow".spec_bytes(),
    }
}

pub(crate) fn cp_text(x: CommentPreservation) -> (r: &'static str)
    ensures
        r.spec_bytes() == cp_name(x),
{
    match x {
        CommentPreservation::Preserve => "Preserve",
        CommentPreservation::Reflow => "Reflow",
    }
}

/// The `EndCommandArgs` that a text names, in any ASCII case.
pub open spec fn eca_of(s: Seq<u8>) -> Option<EndCommandArgs> {
    let l = crate::text::lower_seq(s);
    if l == "remove".spec_bytes() {
        Some(EndCommandArgs::Remove)
    } else if l == "preserve".spec_bytes() {
        Some(EndCommandArgs::Preserve)
    } else if l == "match".spec_bytes() {
        Some(EndCommandArgs::Match)
    } else {
        None
    }
}

pub(crate) fn eca_of_bytes(s: &[u8]) -> (r: Option<EndCommandArgs>)
    ensures
        r == eca_of(s@),
{
    let lv = crate::text::to_lower_vec(s);
    let l = lv.as_slice();
    if eq_bytes(l, "remove".as_bytes()) {
        return Some(EndCommandArgs::Remove);
    }
    if eq_bytes(l, "preserve".as_bytes()) {
        return Some(EndCommandArgs::Preserve);
    }
    if eq_bytes(l, "match".as_bytes()) {
        return Some(EndCommandArgs::Match);
    }
    None
}

/// How a `EndCommandArgs` is written back.
pub open spec fn eca_name(x: EndCommandArgs) -> Seq<u8> {
    match x {
        EndCommandArgs::Remove => "Remove".spec_bytes(),
        EndCommandArgs::Preserve => "Preserve".spec_bytes(),
        EndCommandArgs::Match => "Match".spec_bytes(),
    }
}

pub(crate) fn eca_text(x: EndCommandArgs) -> (r: &'static str)
    ensures
        r.spec_bytes() == eca_name(x),
{
    match x {
        EndCommandArgs::Remove => "Remove",
        EndCommandArgs::Preserve => "Preserve",
        EndCommandArgs::Match => "Match",
    }
}


} // verus!
