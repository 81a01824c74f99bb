use cmakefmt::ast::{Argument, CommandInvocation, Span};
use cmakefmt::loader::default_configuration;
use cmakefmt::print_items::{
    arg_source_range, emit_bracket_verbatim, emit_text_preserving_line_endings, emit_unknown_args_raw,
    gen_from_raw_string, gen_unknown_command, print_items, push_comment_gap, push_wrapped_newline, strip_base_indent, PrintItem,
};

fn text(s: &str) -> PrintItem {
    PrintItem::Text(s.as_bytes().to_vec())
}

#[test]
fn raw_strings_split_at_tabs_and_lines() {
    let mut items = Vec::new();
    gen_from_raw_string(&mut items, b"a\tb");
    assert_eq!(items, vec![text("a"), PrintItem::Tab, text("b")]);
    let mut items = Vec::new();
    gen_from_raw_string(&mut items, b"x\r\ny\n");
    assert_eq!(
        items,
        vec![PrintItem::StartIgnoringIndent, text("x"), PrintItem::NewLine, text("y"), PrintItem::NewLine, PrintItem::FinishIgnoringIndent]
    );
    let mut items = Vec::new();
    gen_from_raw_string(&mut items, b"");
    assert!(items.is_empty());
}

#[test]
fn preserved_line_endings_keep_carriage_returns() {
    let mut items = Vec::new();
    emit_text_preserving_line_endings(&mut items, b"\"a\r\nb\"");
    assert_eq!(
        items,
        vec![PrintItem::StartIgnoringIndent, text("\"a"), text("\r"), PrintItem::NewLine, text("b\""), PrintItem::FinishIgnoringIndent]
    );
    let mut items = Vec::new();
    emit_text_preserving_line_endings(&mut items, b"\"ab\"");
    assert_eq!(items, vec![text("\"ab\"")]);
}

#[test]
fn bracket_arguments_print_verbatim() {
    let mut items = Vec::new();
    emit_bracket_verbatim(&mut items, b"[[a\n\n  b]]");
    assert_eq!(
        items,
        vec![
            text("[[a"),
            PrintItem::StartIgnoringIndent,
            PrintItem::NewLine,
            PrintItem::NewLine,
            text("  b]]"),
            PrintItem::FinishIgnoringIndent
        ]
    );
    let mut items = Vec::new();
    emit_bracket_verbatim(&mut items, b"[[one]]");
    assert_eq!(items, vec![text("[[one]]")]);
}

#[test]
fn gaps_and_wrapped_newlines() {
    let mut items = Vec::new();
    push_comment_gap(&mut items, 2);
    assert_eq!(items, vec![PrintItem::Space, PrintItem::Space]);
    let config = default_configuration();
    let mut items = Vec::new();
    push_wrapped_newline(&mut items, false, 4, &config);
    assert_eq!(items, vec![PrintItem::NewLine]);
    let mut items = Vec::new();
    push_wrapped_newline(&mut items, true, 3, &config);
    assert_eq!(items, vec![PrintItem::NewLine, text("   ")]);
}

#[test]
fn source_ranges_and_base_indent() {
    let g = Argument::ParenGroup { arguments: vec![Argument::Unquoted(Span { start: 5, end: 6 }), Argument::Unquoted(Span { start: 7, end: 9 })] };
    assert_eq!(arg_source_range(&g), (4, 10));
    assert_eq!(arg_source_range(&Argument::ParenGroup { arguments: vec![] }), (0, 0));
    assert_eq!(strip_base_indent(b"    x", 2), 2);
    assert_eq!(strip_base_indent(b" a  x", 2), 0);
    assert_eq!(strip_base_indent(b" ", 2), 0);
}

#[test]
fn unknown_commands_keep_their_layout() {
    let src = "foo(a b)";
    let cmd = CommandInvocation {
        name: Span { start: 0, end: 3 },
        open_paren: Span { start: 3, end: 4 },
        close_paren: Span { start: 7, end: 8 },
        arguments: vec![Argument::Unquoted(Span { start: 4, end: 5 }), Argument::Unquoted(Span { start: 6, end: 7 })],
        trailing_comment: None,
    };
    let config = default_configuration();
    let items = gen_unknown_command(&cmd, src, &config, "FOO", true);
    assert_eq!(items, vec![text("FOO"), PrintItem::Space, text("("), text("a b"), text(")")]);

    let src = "  foo(a\n    b\n  )";
    let cmd = CommandInvocation {
        name: Span { start: 2, end: 5 },
        open_paren: Span { start: 5, end: 6 },
        close_paren: Span { start: 16, end: 17 },
        arguments: vec![Argument::Unquoted(Span { start: 6, end: 7 }), Argument::Unquoted(Span { start: 12, end: 13 })],
        trailing_comment: None,
    };
    let items = gen_unknown_command(&cmd, src, &config, "foo", false);
    assert_eq!(
        items,
        vec![text("foo"), text("("), text("a"), PrintItem::NewLine, text("  "), text("b"), PrintItem::NewLine, text(")")]
    );
    let mut direct = Vec::new();
    emit_unknown_args_raw(&mut direct, &cmd.arguments, src.as_bytes(), 6, 16, 2);
    assert_eq!(direct, vec![text("a"), PrintItem::NewLine, text("  "), text("b"), PrintItem::NewLine]);
}

#[test]
fn printing_indents_lines_unless_ignored() {
    let items = vec![
        PrintItem::StartIndent,
        PrintItem::NewLine,
        text("aaa"),
        PrintItem::Space,
        text("bbb"),
        PrintItem::NewLine,
        PrintItem::StartIgnoringIndent,
        text("raw"),
        PrintItem::FinishIgnoringIndent,
        PrintItem::NewLine,
        PrintItem::NewLine,
        PrintItem::Tab,
        text("t"),
        PrintItem::FinishIndent,
        PrintItem::NewLine,
        text("end"),
    ];
    assert_eq!(print_items(&items, b"  "), b"\n  aaa bbb\nraw\n\n  \tt\nend".to_vec());
    assert_eq!(print_items(&vec![], b"  "), Vec::<u8>::new());
}
