use cmakefmt::arg_groups::FormattedArg;
use cmakefmt::config::CaseStyle;
use cmakefmt::emit_args::{
    emit_arg, emit_arg_with_case, emit_cmd_line_keyword, emit_flow_values, emit_kw_arg, emit_sub_kw_arg, gen_flat_paren_inner,
    try_single_line,
};
use cmakefmt::loader::default_configuration;
use cmakefmt::print_items::PrintItem;
use cmakefmt::signatures::lookup_command;

fn arg(text: &str) -> FormattedArg {
    FormattedArg {
        text: text.to_string(),
        is_keyword: false,
        is_bracket: false,
        trailing_comment: None,
        trailing_is_bracket: false,
        is_paren_group: false,
        paren_inner: Vec::new(),
        blank_line_before: false,
        new_line_before: false,
    }
}

fn text(s: &str) -> PrintItem {
    PrintItem::Text(s.as_bytes().to_vec())
}

#[test]
fn literals_and_keywords_take_their_case() {
    let mut items = Vec::new();
    emit_arg_with_case(&mut items, &arg("on"), None, CaseStyle::Upper);
    assert_eq!(items, vec![text("ON")]);
    let mut items = Vec::new();
    emit_arg_with_case(&mut items, &arg("\"on\""), None, CaseStyle::Upper);
    assert_eq!(items, vec![text("\"on\"")]);
    let mut kw = arg("Public");
    kw.is_keyword = true;
    let mut items = Vec::new();
    emit_arg_with_case(&mut items, &kw, Some(CaseStyle::Upper), CaseStyle::Lower);
    assert_eq!(items, vec![text("PUBLIC")]);
    let mut items = Vec::new();
    emit_arg_with_case(&mut items, &arg("foo"), Some(CaseStyle::Upper), CaseStyle::Lower);
    assert_eq!(items, vec![text("foo")]);
}

#[test]
fn trailing_comments_follow_after_a_space() {
    let mut a = arg("x");
    a.trailing_comment = Some("# note".to_string());
    let config = default_configuration();
    let mut items = Vec::new();
    emit_arg(&mut items, &a, &config);
    assert_eq!(items, vec![text("x"), PrintItem::Space, text("# note")]);
}

#[test]
fn groups_print_one_argument_per_line() {
    let mut g = arg("");
    g.is_paren_group = true;
    g.paren_inner = vec![arg("a"), arg("b")];
    let mut items = Vec::new();
    emit_arg_with_case(&mut items, &g, None, CaseStyle::Preserve);
    assert_eq!(
        items,
        vec![
            text("("),
            PrintItem::StartIndent,
            PrintItem::NewLine,
            text("a"),
            PrintItem::NewLine,
            text("b"),
            PrintItem::NewLine,
            PrintItem::FinishIndent,
            text(")")
        ]
    );
    assert_eq!(gen_flat_paren_inner(&vec![], CaseStyle::Preserve), vec![PrintItem::StartIndent, PrintItem::NewLine, PrintItem::FinishIndent]);
}

#[test]
fn sub_keywords_and_keyword_arguments() {
    let mut config = default_configuration();
    config.keyword_case = CaseStyle::Lower;
    let mut items = Vec::new();
    emit_sub_kw_arg(&mut items, &arg("DEBUG"), &config);
    assert_eq!(items, vec![text("debug")]);
    let mut kw = arg("PRIVATE");
    kw.is_keyword = true;
    let mut items = Vec::new();
    emit_kw_arg(&mut items, &kw, &config);
    assert_eq!(items, vec![text("private")]);
}

#[test]
fn command_line_keywords_keep_their_value_when_it_fits() {
    let mut config = default_configuration();
    config.line_width = 20;
    let mut items = Vec::new();
    emit_cmd_line_keyword(&mut items, &arg("debug"), Some(&arg("lib")), &config, 4);
    assert_eq!(items, vec![PrintItem::NewLine, text("debug"), PrintItem::Space, text("lib")]);
    let mut items = Vec::new();
    emit_cmd_line_keyword(&mut items, &arg("debug"), Some(&arg("a_very_long_library")), &config, 4);
    assert_eq!(
        items,
        vec![PrintItem::NewLine, text("debug"), PrintItem::StartIndent, PrintItem::NewLine, text("a_very_long_library"), PrintItem::FinishIndent]
    );
    let mut items = Vec::new();
    emit_cmd_line_keyword(&mut items, &arg("general"), None, &config, 0);
    assert_eq!(items, vec![PrintItem::NewLine, text("general")]);
}

#[test]
fn flow_values_pack_lines_up_to_the_width() {
    let mut config = default_configuration();
    config.line_width = 12;
    config.indent_width = 2;
    let values = vec![arg("aaa"), arg("bbb"), arg("ccc"), arg("# c"), arg("d")];
    let mut items = Vec::new();
    emit_flow_values(&mut items, &values, &config, 0, true);
    assert_eq!(
        items,
        vec![
            PrintItem::StartIndent,
            PrintItem::NewLine,
            text("aaa"),
            PrintItem::Space,
            text("bbb"),
            PrintItem::NewLine,
            text("ccc"),
            PrintItem::NewLine,
            text("# c"),
            PrintItem::NewLine,
            text("d"),
            PrintItem::FinishIndent
        ]
    );
    let mut tagged = arg("x");
    tagged.trailing_comment = Some("# why".to_string());
    let mut items = Vec::new();
    emit_flow_values(&mut items, &vec![tagged, arg("y")], &config, 0, false);
    assert_eq!(items, vec![PrintItem::NewLine, text("x"), PrintItem::NewLine, text("# why"), PrintItem::NewLine, text("y")]);
}

#[test]
fn single_line_when_it_fits() {
    let mut config = default_configuration();
    config.line_width = 40;
    config.keyword_case = CaseStyle::Upper;
    config.literal_case = CaseStyle::Upper;
    let tll = lookup_command("target_link_libraries").unwrap();
    let args = vec![arg("foo"), arg("public"), arg("on")];
    let items = try_single_line("target_link_libraries", &args, &config, 0, true, Some(&tll)).unwrap();
    assert_eq!(items, vec![text("foo"), PrintItem::Space, text("PUBLIC"), PrintItem::Space, text("ON")]);

    let plain = vec![arg("\"hello\""), arg("on")];
    let items = try_single_line("message", &plain, &config, 0, true, None).unwrap();
    assert_eq!(items, vec![text("\"hello\""), PrintItem::Space, text("on")]);

    assert!(try_single_line("message", &plain, &config, 0, false, None).is_none());
    assert!(try_single_line("message", &vec![arg("# c")], &config, 0, true, None).is_none());

    config.line_width = 12;
    let long = vec![arg("aaaa"), arg("bbbb")];
    assert!(try_single_line("message", &long, &config, 0, true, None).is_none());
    assert!(try_single_line("if", &long, &config, 0, true, None).is_some());
}
