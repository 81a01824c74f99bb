use cmakefmt::config::{
    CaseStyle, Configuration, EndCommandArgs, IndentStyle, NewLineKind, SortArguments,
    SpaceBeforeParen, WrapStyle,
};
use cmakefmt::load::{ConfigDiagnosticSeverity, JsonValue};
use cmakefmt::inline::apply_inline_overrides;
use cmakefmt::loader::{load_from_header, load_from_json_map, load_from_toml};

#[test]
fn parses_canonical_keys_from_json_header() {
    let result =
        load_from_header(r#"{"lineWidth": 100, "commandCase": "upper", "sortLists": true}"#);

    assert_eq!(result.config.line_width, 100);
    assert_eq!(result.config.command_case, CaseStyle::Upper);
    assert!(result.config.sort_lists);
    assert!(matches!(
        result.config.sort_arguments,
        SortArguments::Enabled
    ));
    assert!(result.diagnostics.is_empty());
    assert_eq!(
        result.overrides,
        vec![
            ("commandCase".to_string(), "Upper".to_string()),
            ("lineWidth".to_string(), "100".to_string()),
            ("sortLists".to_string(), "true".to_string()),
        ]
    );
}

#[test]
fn parses_alias_keys_from_gersemi_header() {
    let result = load_from_header(
        "{indent: tabs, line_width: 120, new_line_kind: lf, keyword_case: preserve, sort_lists: true}",
    );

    assert!(result.config.use_tabs);
    assert_eq!(result.config.indent_style, IndentStyle::Tab);
    assert_eq!(result.config.line_width, 120);
    assert_eq!(result.config.new_line_kind, NewLineKind::Lf);
    assert_eq!(result.config.keyword_case, CaseStyle::Preserve);
    assert!(result.config.sort_lists);
    assert!(result.diagnostics.is_empty());
    assert_eq!(
        result.overrides,
        vec![
            ("indent".to_string(), "tabs".to_string()),
            ("keyword_case".to_string(), "Preserve".to_string()),
            ("line_width".to_string(), "120".to_string()),
            ("new_line_kind".to_string(), "Lf".to_string()),
            ("sort_lists".to_string(), "true".to_string()),
        ]
    );
}

#[test]
fn emits_diagnostics_for_removed_alias_keys() {
    let result = load_from_header("{line_length: 120, newline: lf}");

    assert_eq!(
        result.config.line_width,
        Configuration::default().line_width
    );
    assert_eq!(
        result.config.new_line_kind,
        Configuration::default().new_line_kind
    );
    assert!(result.overrides.is_empty());
    assert_eq!(result.diagnostics.len(), 2);
    assert_eq!(result.diagnostics[0].key, "line_length");
    assert_eq!(result.diagnostics[1].key, "newline");
    assert_eq!(
        result.diagnostics[0].message,
        "Unknown property in configuration"
    );
    assert_eq!(
        result.diagnostics[1].message,
        "Unknown property in configuration"
    );
}

#[test]
fn emits_diagnostics_for_invalid_values() {
    let result = load_from_header(r#"{"commandCase": "weird", "sortLists": "nope"}"#);

    assert_eq!(
        result.config.command_case,
        Configuration::default().command_case
    );
    assert_eq!(
        result.config.sort_lists,
        Configuration::default().sort_lists
    );
    assert_eq!(result.diagnostics.len(), 2);
    assert_eq!(result.diagnostics[0].key, "commandCase");
    assert!(
        result.diagnostics[0]
            .message
            .contains("Invalid commandCase value")
    );
    assert_eq!(result.diagnostics[1].key, "sortLists");
    assert!(
        result.diagnostics[1]
            .message
            .contains("expected boolean or array")
    );
}

#[test]
fn emits_diagnostics_for_unknown_keys() {
    let result = load_from_header(r#"{"unknownKey": 1}"#);
    assert_eq!(
        result.config.line_width,
        Configuration::default().line_width
    );
    assert_eq!(result.diagnostics.len(), 1);
    assert_eq!(result.diagnostics[0].key, "unknownKey");
    assert_eq!(
        result.diagnostics[0].message,
        "Unknown property in configuration"
    );
}

#[test]
fn applies_base_defaults_then_json_map() {
    let map = vec![
        ("lineWidth".to_string(), JsonValue::Number(Some(90))),
        ("sortLists".to_string(), JsonValue::Bool(true)),
    ];

    let base = Configuration {
        line_width: 120,
        indent_width: 6,
        use_tabs: true,
        indent_style: IndentStyle::Tab,
        ..Default::default()
    };

    let result = load_from_json_map(map, base);
    assert_eq!(result.config.line_width, 90);
    assert_eq!(result.config.indent_width, 6);
    assert!(result.config.use_tabs);
    assert_eq!(result.config.indent_style, IndentStyle::Tab);
    assert!(result.config.sort_lists);
    assert!(result.diagnostics.is_empty());
}

#[test]
fn parses_space_before_paren_json_array() {
    let result = load_from_header(r#"{"spaceBeforeParen": ["if", "while", "foreach"]}"#);
    assert_eq!(
        result.config.space_before_paren,
        SpaceBeforeParen::CommandList(vec![
            "if".to_string(),
            "while".to_string(),
            "foreach".to_string()
        ])
    );
    assert!(result.diagnostics.is_empty());
}

#[test]
fn parses_space_before_paren_bool() {
    let result = load_from_header(r#"{"spaceBeforeParen": true}"#);
    assert_eq!(result.config.space_before_paren, SpaceBeforeParen::Always);
    assert!(result.diagnostics.is_empty());
}

#[test]
fn space_before_paren_invalid_value_emits_diagnostic() {
    let result = load_from_header(r#"{"spaceBeforeParen": 42}"#);
    assert_eq!(result.config.space_before_paren, SpaceBeforeParen::Never);
    assert_eq!(result.diagnostics.len(), 1);
    assert!(
        result.diagnostics[0]
            .message
            .contains("expected boolean or array")
    );
}

#[test]
fn parses_sort_arguments_array() {
    let result = load_from_header(r#"{"sortArguments": ["sources", "files"]}"#);

    assert_eq!(
        result.config.sort_arguments,
        SortArguments::CommandList(vec!["sources".to_string(), "files".to_string()])
    );
    assert!(!result.config.sort_lists);
    assert!(result.diagnostics.is_empty());
}

#[test]
fn parses_nullable_inherited_fields() {
    let result = load_from_header(r#"{"commentWidth": null, "continuationIndentWidth": 6}"#);

    assert_eq!(result.config.comment_width, None);
    assert_eq!(result.config.continuation_indent_width, Some(6));
    assert!(result.diagnostics.is_empty());
}

#[test]
fn parses_per_command_config_table() {
    let result = load_from_header(
        r#"{"perCommandConfig": {"if": {"spaceBeforeParen": true, "lineWidth": 100}}}"#,
    );

    let per_command = result
        .config
        .command_config("if")
        .expect("expected if command override");
    assert_eq!(per_command.line_width, Some(100));
    assert_eq!(
        per_command.space_before_paren,
        Some(SpaceBeforeParen::Always)
    );
    assert!(result.diagnostics.is_empty());
}

#[test]
fn parses_toml_arrays_and_per_command_tables() {
    let result = load_from_toml(
        r#"
sortArguments = ["SOURCES", "FILES"]

[perCommandConfig.if]
spaceBeforeParen = true
lineWidth = 100
"#,
    );

    assert_eq!(
        result.config.sort_arguments,
        SortArguments::CommandList(vec!["sources".to_string(), "files".to_string()])
    );
    let per_command = result
        .config
        .command_config("if")
        .expect("expected if command override");
    assert_eq!(per_command.line_width, Some(100));
    assert_eq!(
        per_command.space_before_paren,
        Some(SpaceBeforeParen::Always)
    );
    assert!(result.diagnostics.is_empty());
}

#[test]
fn parses_appendix_b_example_config() {
    let result = load_from_toml(
        r#"
lineWidth = 120
indentWidth = 4
indentStyle = "space"
commandCase = "lower"
keywordCase = "upper"
closingParenNewline = true
lineEnding = "lf"
finalNewline = true
trimTrailingWhitespace = true
endCommandArgs = "remove"

sortArguments = ["SOURCES", "FILES"]
alignPropertyValues = true

ignorePatterns = ["build/**", "third_party/**"]
ignoreCommands = ["ExternalProject_Add"]

[perCommandConfig.if]
spaceBeforeParen = true

[perCommandConfig.elseif]
spaceBeforeParen = true
"#,
    );

    assert!(result.diagnostics.is_empty());
    assert_eq!(result.config.line_width, 120);
    assert_eq!(result.config.indent_width, 4);
    assert_eq!(result.config.indent_style, IndentStyle::Space);
    assert!(!result.config.use_tabs);
    assert_eq!(result.config.command_case, CaseStyle::Lower);
    assert_eq!(result.config.keyword_case, CaseStyle::Upper);
    assert!(result.config.closing_paren_newline);
    assert_eq!(result.config.new_line_kind, NewLineKind::Lf);
    assert!(result.config.final_newline);
    assert!(result.config.trim_trailing_whitespace);
    assert_eq!(result.config.end_command_args, EndCommandArgs::Remove);
    assert!(result.config.align_property_values);
    assert_eq!(
        result.config.sort_arguments,
        SortArguments::CommandList(vec!["sources".to_string(), "files".to_string()])
    );
    assert_eq!(
        result.config.ignore_patterns,
        vec!["build/**".to_string(), "third_party/**".to_string()]
    );
    assert_eq!(
        result.config.ignore_commands,
        vec!["ExternalProject_Add".to_string()]
    );

    let if_config = result
        .config
        .command_config("if")
        .expect("expected if command override");
    assert_eq!(if_config.space_before_paren, Some(SpaceBeforeParen::Always));

    let elseif_config = result
        .config
        .command_config("elseif")
        .expect("expected elseif command override");
    assert_eq!(
        elseif_config.space_before_paren,
        Some(SpaceBeforeParen::Always)
    );
}

#[test]
fn reports_diagnostic_for_invalid_toml_assignment() {
    let result = load_from_toml(
        r#"
commandCase = "upper"
this_is_not_valid_toml
"#,
    );

    assert_eq!(
        result.config.command_case,
        Configuration::default().command_case
    );
    assert!(result.overrides.is_empty());
    assert_eq!(result.diagnostics.len(), 1);
    assert_eq!(result.diagnostics[0].key, "<toml>");
    assert!(
        result.diagnostics[0]
            .message
            .contains("Failed to parse TOML document")
    );
    assert_eq!(
        result.diagnostics[0].severity,
        ConfigDiagnosticSeverity::Warning
    );
}

#[test]
fn empty_toml_returns_defaults() {
    let result = load_from_toml("");
    assert!(result.diagnostics.is_empty());
    assert_eq!(
        result.config.line_width,
        Configuration::default().line_width
    );
    assert_eq!(
        result.config.indent_width,
        Configuration::default().indent_width
    );
    assert_eq!(
        result.config.command_case,
        Configuration::default().command_case
    );
}

#[test]
fn load_from_header_empty_returns_defaults() {
    let result = load_from_header("{}");
    assert!(result.diagnostics.is_empty());
    assert_eq!(
        result.config.line_width,
        Configuration::default().line_width
    );
}

#[test]
fn load_from_header_with_overrides() {
    let result = load_from_header(r#"{"lineWidth": 120, "indentWidth": 4}"#);
    assert!(result.diagnostics.is_empty());
    assert_eq!(result.config.line_width, 120);
    assert_eq!(result.config.indent_width, 4);
}

#[test]
fn invalid_enum_value_produces_diagnostic() {
    let result = load_from_toml("commandCase = \"invalid_value\"\n");
    assert!(
        result.diagnostics.iter().any(|d| d.key == "commandCase"),
        "expected diagnostic for invalid commandCase, got: {:?}",
        result.diagnostics
    );
}

#[test]
fn unknown_key_produces_diagnostic() {
    let result = load_from_toml("completelyUnknownKey = true\n");
    assert!(
        result
            .diagnostics
            .iter()
            .any(|d| d.key == "completelyUnknownKey"),
        "expected diagnostic for unknown key, got: {:?}",
        result.diagnostics
    );
}

#[test]
fn load_from_json_map_basic() {
    let map = vec![
        ("commandCase".to_string(), JsonValue::Str("upper".to_string())),
        ("lineWidth".to_string(), JsonValue::Number(Some(100))),
    ];

    let result = load_from_json_map(map, Configuration::default());
    assert_eq!(result.config.line_width, 100);
    assert_eq!(result.config.command_case, CaseStyle::Upper);
}

#[test]
fn load_from_json_map_empty() {
    let map: Vec<(String, JsonValue)> = Vec::new();
    let result = load_from_json_map(map, Configuration::default());
    assert_eq!(
        result.config.line_width,
        Configuration::default().line_width
    );
}

#[test]
fn per_command_config_multiple_commands() {
    let result = load_from_toml(
        r#"
[perCommandConfig.set]
wrapStyle = "cascade"

[perCommandConfig.message]
commandCase = "upper"

[perCommandConfig.if]
spaceBeforeParen = true
lineWidth = 100
"#,
    );

    assert!(result.diagnostics.is_empty());
    assert_eq!(result.config.per_command_config.len(), 3);

    let set_cfg = result.config.command_config("set").unwrap();
    assert_eq!(set_cfg.wrap_style, Some(WrapStyle::Cascade));

    let msg_cfg = result.config.command_config("message").unwrap();
    assert_eq!(msg_cfg.command_case, Some(CaseStyle::Upper));

    let if_cfg = result.config.command_config("if").unwrap();
    assert_eq!(if_cfg.space_before_paren, Some(SpaceBeforeParen::Always));
    assert_eq!(if_cfg.line_width, Some(100));
}

#[test]
fn all_non_default_values() {
    let result = load_from_toml(
        r#"
lineWidth = 200
indentWidth = 8
indentStyle = "tab"
commandCase = "upper"
keywordCase = "preserve"
closingParenNewline = false
lineEnding = "crlf"
finalNewline = false
trimTrailingWhitespace = false
maxBlankLines = 5
wrapStyle = "vertical"
firstArgSameLine = false
sortLists = true
endCommandArgs = "match"
indentBlockBody = false
"#,
    );

    assert!(
        result.diagnostics.is_empty(),
        "unexpected diagnostics: {:?}",
        result.diagnostics
    );
    assert_eq!(result.config.line_width, 200);
    assert_eq!(result.config.indent_width, 8);
    assert_eq!(result.config.indent_style, IndentStyle::Tab);
    assert!(result.config.use_tabs);
    assert_eq!(result.config.command_case, CaseStyle::Upper);
    assert_eq!(result.config.keyword_case, CaseStyle::Preserve);
    assert!(!result.config.closing_paren_newline);
    assert_eq!(result.config.new_line_kind, NewLineKind::CrLf);
    assert!(!result.config.final_newline);
    assert!(!result.config.trim_trailing_whitespace);
    assert_eq!(result.config.max_blank_lines, 5);
    assert_eq!(result.config.wrap_style, WrapStyle::Vertical);
    assert!(!result.config.first_arg_same_line);
    assert!(result.config.sort_lists);
    assert_eq!(result.config.end_command_args, EndCommandArgs::Match);
    assert!(!result.config.indent_block_body);
}

#[test]
fn per_command_unknown_sub_key_diagnostic() {
    let result = load_from_toml(
        r#"
[perCommandConfig.set]
unknownSubKey = true
"#,
    );

    assert!(
        result
            .diagnostics
            .iter()
            .any(|d| d.message.contains("Unknown")),
        "expected diagnostic for unknown sub-key, got: {:?}",
        result.diagnostics
    );
}

#[test]
fn ignore_patterns_array() {
    let result = load_from_toml(
        "ignorePatterns = [\"build/**\", \"third_party/**\", \"*.gen.cmake\"]\n",
    );

    assert!(result.diagnostics.is_empty());
    assert_eq!(result.config.ignore_patterns.len(), 3);
}

#[test]
fn ignore_commands_array() {
    let result = load_from_toml(
        "ignoreCommands = [\"ExternalProject_Add\", \"FetchContent_Declare\"]\n",
    );

    assert!(result.diagnostics.is_empty());
    assert_eq!(result.config.ignore_commands.len(), 2);
    assert_eq!(result.config.ignore_commands[0], "ExternalProject_Add");
    assert_eq!(result.config.ignore_commands[1], "FetchContent_Declare");
}

#[test]
fn multiple_diagnostics_collected() {
    let result = load_from_toml(
        r#"
commandCase = "invalid"
keywordCase = "invalid"
unknownKey1 = true
unknownKey2 = 42
"#,
    );

    assert!(
        result.diagnostics.len() >= 4,
        "expected at least 4 diagnostics, got {}: {:?}",
        result.diagnostics.len(),
        result.diagnostics
    );
}

#[test]
fn inline_override_json_format() {
    let base = Configuration::default();
    let overridden =
        apply_inline_overrides(&base, r#"{ "lineWidth": 40, "commandCase": "upper" }"#);

    assert_eq!(overridden.line_width, 40);
    assert_eq!(overridden.command_case, CaseStyle::Upper);
}

#[test]
fn inline_override_toml_format() {
    let base = Configuration::default();
    let overridden = apply_inline_overrides(&base, "{ lineWidth = 40 }");

    assert_eq!(overridden.line_width, 40);
}

#[test]
fn inline_override_malformed_returns_base() {
    let base = Configuration::default();
    let overridden = apply_inline_overrides(&base, "{ this is not valid }");

    // Malformed input should return the base config unchanged
    assert_eq!(overridden.line_width, base.line_width);
    assert_eq!(overridden.command_case, base.command_case);
}
