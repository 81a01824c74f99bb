use cmakefmt::cli::{exit_status, validate_flag_interactions, Flags};
use cmakefmt::config::{CaseStyle, SpaceBeforeParen, WrapStyle};
use cmakefmt::load::{ConfigDiagnostic, ConfigDiagnosticSeverity, ConfigLoadResult};
use cmakefmt::loader::{default_configuration, load_from_toml};
use cmakefmt::resolve::{extends_of, extends_step, merge_results, merge_with_base, rebase_pattern, stop_result, ExtendsStep};

#[test]
fn extends_stops_at_depth_then_cycles() {
    let stack = vec!["/a.toml".to_string(), "/b.toml".to_string()];
    assert!(matches!(extends_step(&stack, "/a.toml", 32), ExtendsStep::DepthExceeded));
    assert!(matches!(extends_step(&stack, "/b.toml", 3), ExtendsStep::Cycle(1)));
    assert!(matches!(extends_step(&stack, "/c.toml", 3), ExtendsStep::Read));
}

#[test]
fn stops_report_one_diagnostic() {
    let stack = vec!["/a.toml".to_string(), "/b.toml".to_string()];
    let r = stop_result(&stack, "/a.toml", Some(0), "a.toml");
    assert_eq!(r.diagnostics.len(), 1);
    assert_eq!(r.diagnostics[0].key, "a.toml");
    assert_eq!(r.diagnostics[0].message, "Circular extends reference detected: /a.toml -> /b.toml -> /a.toml");
    assert!(r.overrides.is_empty());
    let r = stop_result(&stack, "/x.toml", None, "x.toml");
    assert_eq!(r.diagnostics[0].message, "Exceeded maximum extends depth (32) while resolving configuration");
}

#[test]
fn merge_keeps_base_diagnostics_first_and_sorts_overrides() {
    let base = ConfigLoadResult {
        config: default_configuration(),
        diagnostics: vec![ConfigDiagnostic { key: "b".to_string(), message: "m1".to_string(), severity: ConfigDiagnosticSeverity::Warning }],
        overrides: vec![("lineWidth".to_string(), "90".to_string())],
    };
    let child = load_from_toml("indentWidth = 4\nbogus = 1\n");
    let r = merge_results(base, child);
    assert_eq!(r.config.indent_width, 4);
    assert_eq!(r.diagnostics.len(), 2);
    assert_eq!(r.diagnostics[0].key, "b");
    assert_eq!(r.diagnostics[1].key, "bogus");
    let keys: Vec<&str> = r.overrides.iter().map(|(k, _)| k.as_str()).collect();
    assert_eq!(keys, vec!["indentWidth", "lineWidth"]);
}

#[test]
fn patterns_are_rebased_on_the_declaring_directory() {
    assert_eq!(rebase_pattern("build/*.cmake", "/repo/cfg"), "/repo/cfg/build/*.cmake");
    assert_eq!(rebase_pattern("build/*.cmake", "/repo/cfg/"), "/repo/cfg/build/*.cmake");
    assert_eq!(rebase_pattern("/abs/*.cmake", "/repo"), "/abs/*.cmake");
    assert_eq!(rebase_pattern("a\\b", "/r"), "/r/a/b");
    assert_eq!(rebase_pattern("x", ""), "x");
}

#[test]
fn flag_combinations_and_exit_status() {
    let mut f = Flags { check: true, write: true, diff: false, stdin: false, has_files: true, trace_summary: false, trace_output: false };
    assert_eq!(validate_flag_interactions(&f), Some("--check and --write are mutually exclusive"));
    f.check = false;
    f.write = false;
    f.stdin = true;
    assert_eq!(validate_flag_interactions(&f), Some("--stdin cannot be used with file arguments"));
    f.stdin = false;
    assert_eq!(validate_flag_interactions(&f), None);
    assert_eq!(exit_status(true, true, true), 2);
    assert_eq!(exit_status(false, true, true), 1);
    assert_eq!(exit_status(false, false, true), 0);
}

#[test]
fn file_merges_on_base_with_rebased_ignore_patterns() {
    let mut base_config = default_configuration();
    base_config.line_width = 100;
    let base = ConfigLoadResult {
        config: base_config,
        diagnostics: vec![ConfigDiagnostic { key: "base".to_string(), message: "m".to_string(), severity: ConfigDiagnosticSeverity::Warning }],
        overrides: Vec::new(),
    };
    let contents = "ignorePatterns = [\"build/*.cmake\", \"/abs/x.cmake\"]\nindentWidth = 4\n";
    let r = merge_with_base(contents, "/repo/cfg", base, "/repo/cfg/.cmakefmt.toml");
    assert_eq!(r.config.line_width, 100);
    assert_eq!(r.config.indent_width, 4);
    assert_eq!(r.config.ignore_patterns, vec!["/repo/cfg/build/*.cmake".to_string(), "/abs/x.cmake".to_string()]);
    assert_eq!(r.diagnostics.len(), 1);
    assert_eq!(r.diagnostics[0].key, "base");
}

#[test]
fn snake_case_ignore_patterns_are_rebased_too() {
    let base = ConfigLoadResult { config: default_configuration(), diagnostics: Vec::new(), overrides: Vec::new() };
    let r = merge_with_base("ignore_patterns = [\"a/*.cmake\"]\n", "/d", base, "k");
    assert_eq!(r.config.ignore_patterns, vec!["/d/a/*.cmake".to_string()]);
}

#[test]
fn unparsable_file_reports_under_its_key() {
    let base = ConfigLoadResult { config: default_configuration(), diagnostics: Vec::new(), overrides: Vec::new() };
    let r = merge_with_base("= broken", "/d", base, "/d/.cmakefmt.toml");
    assert_eq!(r.diagnostics.len(), 1);
    assert_eq!(r.diagnostics[0].key, "/d/.cmakefmt.toml");
    assert!(r.diagnostics[0].message.starts_with("Failed to parse TOML document: "));
}

#[test]
fn extends_target_is_read_from_the_document() {
    assert_eq!(extends_of("extends = \"../base/.cmakefmt.toml\"\nindentWidth = 2\n"), Some("../base/.cmakefmt.toml".to_string()));
    assert_eq!(extends_of("indentWidth = 2\n"), None);
    assert_eq!(extends_of("extends = 3\n"), None);
    assert_eq!(extends_of("= broken"), None);
}

/// Loads a chain of configuration files held in memory, the base first: each
/// file's document is applied on the result of the file it extends.
fn load_chain(files: &[(&str, &str)]) -> ConfigLoadResult {
    let mut result = ConfigLoadResult { config: default_configuration(), diagnostics: Vec::new(), overrides: Vec::new() };
    for (contents, dir) in files {
        let key = format!("{dir}/.cmakefmt.toml");
        result = merge_with_base(contents, dir, result, &key);
    }
    result
}

#[test]
fn resolves_extends_scalar_override_fixture() {
    let base = "commandCase = \"upper\"\nindentWidth = 4\n";
    let child = "extends = \"../base/.cmakefmt.toml\"\ncommandCase = \"lower\"\n";
    assert_eq!(extends_of(child), Some("../base/.cmakefmt.toml".to_string()));
    let result = load_chain(&[(base, "/fx/scalar_override/base"), (child, "/fx/scalar_override/child")]);
    assert!(result.diagnostics.is_empty());
    assert_eq!(result.config.command_case, CaseStyle::Lower);
    assert_eq!(result.config.indent_width, 4);
}

#[test]
fn resolves_extends_array_replacement_fixture() {
    let base = "commandCase = \"upper\"\nspaceBeforeParen = [\"if\", \"foreach\", \"while\"]\n";
    let child = "extends = \"../base/.cmakefmt.toml\"\nspaceBeforeParen = [\"if\"]\n";
    let result = load_chain(&[(base, "/fx/array_replaces/base"), (child, "/fx/array_replaces/child")]);
    assert!(result.diagnostics.is_empty());
    assert_eq!(result.config.command_case, CaseStyle::Upper);
    assert_eq!(result.config.space_before_paren, SpaceBeforeParen::CommandList(vec!["if".to_string()]));
}

#[test]
fn resolves_extends_per_command_shallow_merge_fixture() {
    let base = "[perCommandConfig.set]\nclosingParenNewline = true\nwrapStyle = \"vertical\"\n\n[perCommandConfig.message]\ncommandCase = \"upper\"\n";
    let child = "extends = \"../base/.cmakefmt.toml\"\n\n[perCommandConfig.set]\nwrapStyle = \"cascade\"\n";
    let result = load_chain(&[(base, "/fx/shallow/base"), (child, "/fx/shallow/child")]);
    assert!(result.diagnostics.is_empty());
    let set_override = result.config.command_config("set").expect("expected set override");
    assert_eq!(set_override.wrap_style, Some(WrapStyle::Cascade));
    assert_eq!(set_override.closing_paren_newline, None);
    let message_override = result.config.command_config("message").expect("expected message override");
    assert_eq!(message_override.command_case, Some(CaseStyle::Upper));
}

#[test]
fn rebases_ignore_patterns_relative_to_declaring_config_file() {
    let contents = "ignorePatterns = [\"ignored/*.cmake\"]\n";
    let result = load_chain(&[(contents, "/repo/tests/formatter/16_suppression/03_ignore_patterns")]);
    assert!(result.diagnostics.is_empty());
    assert_eq!(result.config.ignore_patterns.len(), 1);
    let normalized = result.config.ignore_patterns[0].replace('\\', "/");
    assert!(normalized.ends_with("/tests/formatter/16_suppression/03_ignore_patterns/ignored/*.cmake"));
}

#[test]
fn keeps_inherited_ignore_patterns_relative_to_base_config() {
    let base = "ignorePatterns = [\"vendor/*.cmake\"]\n";
    let child = "extends = \"../base/.cmakefmt.toml\"\n";
    let root = "/repo/tests/formatter/16_suppression/03_ignore_patterns/inherited_relative";
    let result = load_chain(&[(base, &format!("{root}/base")), (child, &format!("{root}/child"))]);
    assert!(result.diagnostics.is_empty());
    assert_eq!(result.config.ignore_patterns.len(), 1);
    let normalized = result.config.ignore_patterns[0].replace('\\', "/");
    assert!(normalized.ends_with("/tests/formatter/16_suppression/03_ignore_patterns/inherited_relative/base/vendor/*.cmake"));
}
