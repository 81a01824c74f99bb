use cmakefmt::arg_groups::FormattedArg;
use cmakefmt::keyword_lists::{get_section_keywords, is_flow_keyword, is_pair_keyword, is_property_keyword, lookup_kw_type};
use cmakefmt::signatures::{lookup_command, CommandKind, KwType};
use cmakefmt::widths::{arg_inline_text, format_paren_group_inline};

fn known(name: &str) -> CommandKind {
    lookup_command(name).expect("known command")
}

fn arg(text: &str) -> FormattedArg {
    FormattedArg {
        text: text.to_string(),
        is_keyword: false,
        is_bracket: false,
        trailing_comment: None,
        trailing_is_bracket: false,
        is_paren_group: false,
        paren_inner: Vec::new(),
        blank_line_before: false,
        new_line_before: false,
    }
}

#[test]
fn pair_and_property_keywords_come_from_the_signature() {
    match known("set_target_properties") {
        CommandKind::Known(spec) => {
            assert!(is_pair_keyword("properties", &spec));
            assert!(!is_property_keyword("PROPERTIES", &spec));
            assert!(!is_flow_keyword("PROPERTIES", &spec));
        },
        _ => panic!("expected a signature"),
    }
    match known("set_property") {
        CommandKind::Known(spec) => {
            assert!(is_property_keyword("Property", &spec));
            assert!(!is_pair_keyword("PROPERTY", &spec));
        },
        _ => panic!("expected a signature"),
    }
}

#[test]
fn keyword_kinds_are_looked_up_in_known_commands_only() {
    let kind = known("set_property");
    assert!(matches!(lookup_kw_type("append", Some(&kind)), Some(KwType::Option)));
    assert!(matches!(lookup_kw_type("TARGET_DIRECTORY", Some(&kind)), Some(KwType::OneValue)));
    assert!(lookup_kw_type("NOPE", Some(&kind)).is_none());
    assert!(lookup_kw_type("APPEND", None).is_none());
    assert!(lookup_kw_type("AND", Some(&CommandKind::ConditionSyntax)).is_none());
    match &kind {
        CommandKind::Known(spec) => assert!(get_section_keywords("PROPERTY", spec).is_none()),
        _ => panic!("expected a signature"),
    }
}

#[test]
fn groups_print_inline_in_parentheses() {
    let mut g = arg("");
    g.is_paren_group = true;
    g.paren_inner = vec![arg("a"), arg("b")];
    assert_eq!(arg_inline_text(&g), b"(a b)".to_vec());
    assert_eq!(format_paren_group_inline(&vec![]), b"()".to_vec());
    assert_eq!(arg_inline_text(&arg("x")), b"x".to_vec());
}
