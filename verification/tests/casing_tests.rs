use cmakefmt::casing::{
    apply_case_owned, apply_command_case, apply_keyword_case, apply_literal_case, canonical_section_order, is_condition_keyword, non_canonical_section_keywords,
    is_in_command_spec,
    is_keyword_for_command, is_literal_token, is_sort_group_keyword,
    is_sortable_command, should_sort_for_command, visual_indent_prefix,
};
use cmakefmt::config::{CaseStyle, IndentStyle, SortArguments};
use cmakefmt::loader::default_configuration;
use cmakefmt::signatures::{lookup_command, CommandKind};

#[test]
fn command_names_follow_the_case_style() {
    assert_eq!(apply_command_case("Add_Library", CaseStyle::Lower), "add_library");
    assert_eq!(apply_command_case("Add_Library", CaseStyle::Upper), "ADD_LIBRARY");
    assert_eq!(apply_command_case("Add_Library", CaseStyle::Preserve), "Add_Library");
}

#[test]
fn keyword_and_literal_case_touch_ascii_letters_only() {
    assert_eq!(apply_keyword_case("Public_Ü9", CaseStyle::Upper), "PUBLIC_Ü9");
    assert_eq!(apply_literal_case("TrUe", CaseStyle::Lower), "true");
    assert_eq!(apply_case_owned("Mixed-Case".to_string(), CaseStyle::Lower), "mixed-case");
    assert_eq!(apply_case_owned("Mixed-Case".to_string(), CaseStyle::Preserve), "Mixed-Case");
}

#[test]
fn visual_indent_uses_spaces_or_tabs() {
    let mut config = default_configuration();
    config.indent_style = IndentStyle::Space;
    assert_eq!(visual_indent_prefix(3, &config), "   ");
    assert_eq!(visual_indent_prefix(0, &config), "");
    config.indent_style = IndentStyle::Tab;
    config.indent_width = 4;
    assert_eq!(visual_indent_prefix(10, &config), "\t\t  ");
    assert_eq!(visual_indent_prefix(0, &config), "");
}

#[test]
fn literal_tokens_match_without_regard_to_case() {
    assert!(is_literal_token("true"));
    assert!(is_literal_token("VERSION_GREATER_EQUAL"));
    assert!(is_literal_token("Greater"));
    assert!(!is_literal_token("GREATE"));
    assert!(!is_literal_token("foo"));
}

#[test]
fn sorting_applies_to_listed_commands_or_with_custom_keywords() {
    assert!(is_sortable_command("Target_Link_Libraries"));
    assert!(!is_sortable_command("message"));
    assert!(is_sort_group_keyword("private"));
    assert!(!is_sort_group_keyword("FOO"));
    let mut config = default_configuration();
    config.sort_arguments = SortArguments::Disabled;
    assert!(!should_sort_for_command("add_library", &config));
    config.sort_arguments = SortArguments::Enabled;
    assert!(should_sort_for_command("add_library", &config));
    assert!(!should_sort_for_command("message", &config));
    config.custom_keywords = vec!["MY_KW".to_string()];
    assert!(should_sort_for_command("message", &config));
}

#[test]
fn signature_names_include_sections_and_their_sub_keywords() {
    let kind = lookup_command("target_link_libraries").unwrap();
    let spec = match &kind {
        CommandKind::Known(s) => s,
        _ => panic!("known command expected"),
    };
    assert!(is_in_command_spec("public", spec));
    assert!(is_in_command_spec("debug", spec));
    assert!(is_in_command_spec("LINK_INTERFACE_LIBRARIES", spec));
    assert!(!is_in_command_spec("foo", spec));
}

#[test]
fn keyword_casing_depends_on_the_command_kind() {
    let mut config = default_configuration();
    let tll = lookup_command("target_link_libraries").unwrap();
    let cond = lookup_command("if").unwrap();
    assert!(is_keyword_for_command("PRIVATE", Some(&tll), &config));
    assert!(!is_keyword_for_command("STREQUAL", Some(&cond), &config));
    assert!(is_keyword_for_command("defined", Some(&cond), &config));
    assert!(is_keyword_for_command("Not", Some(&cond), &config));
    assert!(is_keyword_for_command("SOURCES", None, &config));
    assert!(!is_keyword_for_command("FOO", None, &config));
    config.custom_keywords = vec!["foo".to_string()];
    assert!(is_keyword_for_command("FOO", None, &config));
    assert!(is_condition_keyword("is_directory"));
    assert!(!is_condition_keyword("MATCHES"));
}

#[test]
fn section_order_is_known_for_three_commands() {
    assert_eq!(canonical_section_order("Target_Sources"), Some(vec!["PUBLIC", "INTERFACE", "PRIVATE"]));
    assert_eq!(canonical_section_order("export"), Some(vec!["PACKAGE_DEPENDENCY", "TARGET", "VERSION"]));
    assert_eq!(canonical_section_order("add_library"), None);
}

#[test]
fn visibility_sections_keep_source_order_for_compile_commands() {
    assert_eq!(non_canonical_section_keywords("TARGET_COMPILE_OPTIONS"), Some(vec!["PUBLIC", "INTERFACE", "PRIVATE"]));
    assert_eq!(non_canonical_section_keywords("target_link_libraries"), None);
}
