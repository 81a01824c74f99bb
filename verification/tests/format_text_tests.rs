use cmakefmt::config::Configuration;
use cmakefmt::format_text::{
    apply_final_newline, collapse_inline_spaces, count_bare_crs_in, count_trailing_newlines,
    finalize_whitespace, has_bare_cr, normalize_bare_crs, parse_leading_pragma,
    resolve_new_line_kind, resolve_print_options_config, restore_bare_crs, should_bypass_formatting,
    should_ignore_path, strip_bom, LeadingPragmaDirective,
};
use cmakefmt::config::NewLineKind;

#[test]
fn strips_a_leading_bom_only() {
    assert_eq!(strip_bom("\u{feff}set(A 1)\n"), "set(A 1)\n");
    assert_eq!(strip_bom("set(A 1)\u{feff}"), "set(A 1)\u{feff}");
    assert_eq!(strip_bom(""), "");
}

#[test]
fn new_line_kind_picks_ending() {
    assert_eq!(resolve_new_line_kind("a\r\nb\r\n", NewLineKind::Auto), "\r\n");
    assert_eq!(resolve_new_line_kind("a\r\nb\n", NewLineKind::Auto), "\n");
    assert_eq!(resolve_new_line_kind("a\r\nb\r\n", NewLineKind::Lf), "\n");
    assert_eq!(resolve_new_line_kind("a\nb\n", NewLineKind::CrLf), "\r\n");
}

#[test]
fn bare_carriage_returns_are_found_and_counted() {
    assert!(has_bare_cr("a\rb"));
    assert!(has_bare_cr("a\r"));
    assert!(!has_bare_cr("a\r\nb\n"));
    assert_eq!(count_bare_crs_in("a\rb\rc\r\n"), 2);
    assert_eq!(count_bare_crs_in("abc"), 0);
}

#[test]
fn bare_carriage_returns_become_newlines_and_come_back() {
    let original = "set(A 1)\rset(B 2)\n";
    let normalized = normalize_bare_crs(original);
    assert_eq!(normalized, "set(A 1)\nset(B 2)\n");
    assert_eq!(restore_bare_crs(&normalized, original), original);
    assert_eq!(normalize_bare_crs("a\r\nb\r"), "a\r\nb\n");
}

#[test]
fn restore_keeps_extra_formatted_lines() {
    assert_eq!(restore_bare_crs("a\nb\nc", "x\ry"), "a\rb\nc");
}

#[test]
fn trailing_newlines_are_counted() {
    assert_eq!(count_trailing_newlines("a\n\n\n", "\n"), 3);
    assert_eq!(count_trailing_newlines("a\r\n\r\n", "\r\n"), 2);
    assert_eq!(count_trailing_newlines("a", "\n"), 0);
}

#[test]
fn final_newline_kept_or_matched_to_original() {
    let mut config = Configuration::default();
    assert_eq!(apply_final_newline("set(A 1)\n", "set(A 1)", &config, "\n"), "set(A 1)\n");
    config.final_newline = false;
    config.max_blank_lines = 2;
    assert_eq!(apply_final_newline("set(A 1)\n", "set(A 1)", &config, "\n"), "set(A 1)");
    assert_eq!(apply_final_newline("set(A 1)\n", "set(A 1)\n\n\n", &config, "\n"), "set(A 1)\n\n\n");
    config.max_blank_lines = 0;
    assert_eq!(apply_final_newline("set(A 1)\n", "set(A 1)\n\n\n", &config, "\n"), "set(A 1)\n");
    assert_eq!(apply_final_newline(" \n\n", "\n\n", &config, "\n"), "");
}

#[test]
fn spaces_collapse_outside_quotes() {
    assert_eq!(collapse_inline_spaces(b"  set(A    B)"), b"  set(A B)".to_vec());
    assert_eq!(collapse_inline_spaces(b"x(\"a   b\"   c)"), b"x(\"a   b\" c)".to_vec());
    assert_eq!(collapse_inline_spaces(b"x(\"a\\\"  b\"  c)"), b"x(\"a\\\"  b\" c)".to_vec());
}

#[test]
fn leading_directives_parse() {
    match parse_leading_pragma("  # cmakefmt: push { lineWidth = 100 }") {
        Some(LeadingPragmaDirective::Push(b)) => assert_eq!(b, "{ lineWidth = 100 }"),
        _ => panic!("expected a push"),
    }
    assert!(matches!(parse_leading_pragma("#cmakefmt:pop"), Some(LeadingPragmaDirective::Pop)));
    assert!(parse_leading_pragma("# cmakefmt: push lineWidth=3").is_none());
    assert!(parse_leading_pragma("# cmakefmt: off").is_none());
    assert!(parse_leading_pragma("set(A 1)").is_none());
}

#[test]
fn print_options_follow_leading_directives() {
    let base = Configuration::default();
    let c = resolve_print_options_config("\n# cmakefmt: push { lineWidth = 100 }\nset(A 1)\n", &base);
    assert_eq!(c.line_width, 100);
    let c = resolve_print_options_config("# cmakefmt: push { lineWidth = 100 }\n# cmakefmt: pop\nset(A 1)\n", &base);
    assert_eq!(c.line_width, base.line_width);
    let c = resolve_print_options_config("set(A 1)\n# cmakefmt: push { lineWidth = 100 }\n", &base);
    assert_eq!(c.line_width, base.line_width);
}

#[test]
fn whitespace_is_restored_where_asked() {
    let mut config = Configuration::default();
    assert_eq!(finalize_whitespace("set(A B)\n", "set(A   B)  \n", &config, "\n"), "set(A B)\n");
    config.collapse_spaces = false;
    assert_eq!(finalize_whitespace("set(A B)\n", "set(A   B)\n", &config, "\n"), "set(A   B)\n");
    let mut config = Configuration::default();
    config.trim_trailing_whitespace = false;
    assert_eq!(finalize_whitespace("set(A B)\n", "set(A B)   \n", &config, "\n"), "set(A B)   \n");
    assert_eq!(finalize_whitespace("set(A B)\n", "set(A C)   \n", &config, "\n"), "set(A B)\n");
}

#[test]
fn ignore_patterns_match_paths() {
    let patterns = vec!["build/**/*.cmake".to_string(), "[".to_string()];
    assert!(should_ignore_path("build/x/y.cmake", "/abs/build/x/y.cmake", &patterns));
    assert!(!should_ignore_path("src/y.cmake", "/abs/src/y.cmake", &patterns));
    assert!(!should_ignore_path("anything", "anything", &Vec::new()));
    let mut config = Configuration::default();
    assert!(!should_bypass_formatting("src/y.cmake", "/abs/src/y.cmake", &config));
    config.disable_formatting = true;
    assert!(should_bypass_formatting("src/y.cmake", "/abs/src/y.cmake", &config));
}

#[test]
fn crlf_line_endings_are_not_bare_carriage_returns() {
    let original = "a\r\nb\rc";
    let normalized = normalize_bare_crs(original);
    assert_eq!(normalized, "a\r\nb\nc");
    assert_eq!(restore_bare_crs(&normalized, original), original);
    let original = "x\r\n\ry\rz\r\n";
    assert_eq!(restore_bare_crs(&normalize_bare_crs(original), original), original);
}
