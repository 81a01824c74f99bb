use cmakefmt::alignments::{detect_dominant_line_ending, join_lines, post_process_alignments, split_lines, Processed};
use cmakefmt::config::{CommandConfiguration, Configuration, EndCommandArgs};
use cmakefmt::gen_file::{gen_file, FileItem};
use cmakefmt::inline::{apply_inline_overrides, parse_gersemi_pairs, split_respecting_brackets};
use cmakefmt::loader::{load_from_header, load_from_toml};
use cmakefmt::parse::parse;
use cmakefmt::token::tokenize;

fn layout_of(src: &str, config: &Configuration) -> Vec<String> {
    let file = parse(src).unwrap();
    gen_file(&file, src, config)
        .iter()
        .map(|item| match item {
            FileItem::NewLine => "NL".to_string(),
            FileItem::Raw(b) => format!("RAW:{}", String::from_utf8_lossy(b)),
            FileItem::Command { index, indent_level, arguments, .. } => {
                format!("CMD:{index}@{indent_level}{}", if arguments.is_some() { "*" } else { "" })
            }
        })
        .collect()
}

#[test]
fn tokens_tile_the_source() {
    let src = "if(A AND \"b c\") # note\n  set(X [[y]])\n";
    let tokens = tokenize(src);
    let mut pos = 0;
    for (_, start, end) in &tokens {
        assert_eq!(*start, pos);
        assert!(end > start);
        pos = *end;
    }
    assert_eq!(pos, src.len());
}

#[test]
fn dominant_line_ending_counts_crlf_and_lf() {
    assert_eq!(detect_dominant_line_ending("a\r\nb\r\nc\n"), "\r\n");
    assert_eq!(detect_dominant_line_ending("a\nb\r\nc\n"), "\n");
    assert_eq!(detect_dominant_line_ending("a\rb"), "\n");
    assert_eq!(detect_dominant_line_ending(""), "\n");
}

#[test]
fn split_then_join_gives_back_the_text() {
    for text in ["", "a", "a\n", "a\nb\n\nc", "x\r\ny\r\n"] {
        let sep = detect_dominant_line_ending(text);
        let lines = split_lines(text, sep);
        assert_eq!(join_lines(&lines, sep), text);
    }
    assert_eq!(split_lines("a\nb\n", "\n"), vec!["a", "b", ""]);
}

#[test]
fn post_process_without_passes_borrows() {
    let text = "set(A 1)\n";
    let result = post_process_alignments(text, &Configuration::default());
    assert!(matches!(result, Processed::Borrowed(_)));
}

#[test]
fn push_directive_turns_set_alignment_on() {
    let text = "# cmakefmt: push {\"alignConsecutiveSet\": true}\nset(A x)\nset(LONG y)\n";
    let result = post_process_alignments(text, &Configuration::default());
    let out = result.as_str();
    let lines: Vec<&str> = out.lines().collect();
    assert_eq!(lines[1].find('x'), lines[2].find('y'));
}

#[test]
fn brackets_keep_commas_together() {
    let pieces = split_respecting_brackets(b"a: [1, 2], b: 3");
    assert_eq!(pieces, vec!["a: [1, 2]", " b: 3"]);
    let pairs = parse_gersemi_pairs("{\"a\": [x, y], b : z, nocolon}");
    assert_eq!(pairs, vec![("a".to_string(), "[x, y]".to_string()), ("b".to_string(), "z".to_string())]);
}

#[test]
fn overrides_are_sorted_by_key() {
    let result = load_from_header("{wrapStyle: vertical, lineWidth: 90, alignArgGroups: true}");
    let keys: Vec<&str> = result.overrides.iter().map(|(k, _)| k.as_str()).collect();
    assert_eq!(keys, vec!["alignArgGroups", "lineWidth", "wrapStyle"]);
    assert_eq!(result.diagnostics.len(), 0);
}

#[test]
fn unknown_header_key_gives_diagnostic() {
    let result = load_from_header("{zeta_unknown: 1}");
    assert_eq!(result.diagnostics.len(), 1);
    assert_eq!(result.diagnostics[0].key, "zeta_unknown");
}

#[test]
fn push_overrides_win_over_command_tables() {
    let mut base = Configuration::default();
    let mut table = CommandConfiguration::default();
    table.line_width = Some(50);
    table.comment_gap = Some(3);
    base.per_command_config.push(("set".to_string(), table));
    let result = apply_inline_overrides(&base, "{\"lineWidth\": 60}");
    assert_eq!(result.line_width, 60);
    let t = result.command_config("set").unwrap();
    assert_eq!(t.line_width, None);
    assert_eq!(t.comment_gap, Some(3));
}

#[test]
fn relaxed_toml_inline_table_with_trailing_comma() {
    let result = apply_inline_overrides(&Configuration::default(), "lineWidth = 33, ");
    assert_eq!(result.line_width, 33);
}

#[test]
fn gersemi_values_parse_as_json_when_they_can() {
    let result = apply_inline_overrides(&Configuration::default(), "{line_width: 44, command_case: upper}");
    assert_eq!(result.line_width, 44);
}

#[test]
fn toml_parse_error_is_reported() {
    let result = load_from_toml("= =");
    assert_eq!(result.diagnostics.len(), 1);
    assert_eq!(result.diagnostics[0].key, "<toml>");
}

#[test]
fn indent_mode_values() {
    let r = load_from_header("{indent: 4}");
    assert_eq!(r.config.indent_width, 4);
    assert!(!r.config.use_tabs);
    let r = load_from_header("{indent: TABS}");
    assert!(r.config.use_tabs);
    let r = load_from_header("{indent: wide}");
    assert_eq!(r.diagnostics.len(), 1);
}

#[test]
fn per_command_count_is_recorded() {
    let r = load_from_toml("[perCommandConfig.set]\nlineWidth = 10\n[perCommandConfig.IF]\nlineWidth = 20\n");
    assert_eq!(r.overrides, vec![("perCommandConfig".to_string(), "2 command override(s)".to_string())]);
    assert_eq!(r.config.command_config("if").unwrap().line_width, Some(20));
}

#[test]
fn layout_indents_block_bodies() {
    let config = Configuration::default();
    let items = layout_of("if(A)\nset(B 1)\nendif()\n", &config);
    assert_eq!(items, vec!["CMD:0@0", "NL", "CMD:1@1", "NL", "CMD:2@0", "NL"]);
}

#[test]
fn layout_caps_blank_lines() {
    let config = Configuration::default();
    let items = layout_of("set(A 1)\n\n\n\nset(B 2)\n\n\n", &config);
    assert_eq!(items, vec!["CMD:0@0", "NL", "NL", "CMD:4@0", "NL"]);
}

#[test]
fn layout_keeps_off_regions_verbatim() {
    let config = Configuration::default();
    let src = "# cmakefmt: off\nSET(  A 1 )\n# cmakefmt: on\nset(B 2)\n";
    let items = layout_of(src, &config);
    assert_eq!(
        items,
        vec![
            "RAW:# cmakefmt: off",
            "NL",
            "RAW:SET(  A 1 )",
            "NL",
            "RAW:# cmakefmt: on",
            "NL",
            "CMD:3@0",
            "NL",
        ]
    );
}

#[test]
fn layout_end_command_args_remove() {
    let mut config = Configuration::default();
    config.end_command_args = EndCommandArgs::Remove;
    let items = layout_of("if(A)\nendif(A)\n", &config);
    assert_eq!(items, vec!["CMD:0@0", "NL", "CMD:1@0*", "NL"]);
}

#[test]
fn layout_skip_keeps_next_command() {
    let config = Configuration::default();
    let items = layout_of("# cmakefmt: skip\nSET(A  1)\nset(B 2)\n", &config);
    assert_eq!(items, vec!["RAW:# cmakefmt: skip", "NL", "RAW:SET(A  1)", "NL", "CMD:2@0", "NL"]);
}
