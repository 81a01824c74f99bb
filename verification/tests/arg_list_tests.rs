use cmakefmt::arg_groups::FormattedArg;
use cmakefmt::ast::{Argument, CommandInvocation, Span};
use cmakefmt::arg_groups::extract_deferred_closing_comment;
use cmakefmt::command_parts::{
    build_argument_list, has_magic_trailing_newline_signal, has_multiline_verbatim_argument,
    resolve_single_line_paren_spacing,
};
use cmakefmt::arg_list::build_argument_list_from_args;
use cmakefmt::config::{Configuration, SpaceInsideParen};

fn sp(start: usize, end: usize) -> Span {
    Span { start, end }
}

fn arg(text: &str) -> FormattedArg {
    FormattedArg {
        text: text.to_string(),
        is_keyword: false,
        is_bracket: false,
        trailing_comment: None,
        trailing_is_bracket: false,
        is_paren_group: false,
        paren_inner: Vec::new(),
        blank_line_before: false,
        new_line_before: false,
    }
}

#[test]
fn arguments_take_their_text_keywords_and_line_comments() {
    let source = "x PUBLIC \"q\" # note   \n  y";
    let args = vec![
        Argument::Unquoted(sp(0, 1)),
        Argument::Unquoted(sp(2, 8)),
        Argument::Quoted(sp(9, 12)),
        Argument::LineComment(sp(13, 22)),
        Argument::Unquoted(sp(25, 26)),
    ];
    let config = Configuration::default();
    let r = build_argument_list_from_args(&args, source, &config, None);
    assert_eq!(r.len(), 4);
    assert_eq!(r[0].text, "x");
    assert!(!r[0].is_keyword);
    assert_eq!(r[1].text, "PUBLIC");
    assert!(r[1].is_keyword);
    assert_eq!(r[2].text, "\"q\"");
    assert_eq!(r[2].trailing_comment, Some("# note".to_string()));
    assert!(!r[2].trailing_is_bracket);
    assert_eq!(r[3].text, "y");
    assert!(r[3].new_line_before);
    assert!(!r[2].new_line_before);
}

#[test]
fn comments_on_their_own_line_stay_arguments() {
    let source = "a\n#[[c]]\nb";
    let args = vec![Argument::Unquoted(sp(0, 1)), Argument::BracketComment(sp(2, 8)), Argument::Unquoted(sp(9, 10))];
    let config = Configuration::default();
    let r = build_argument_list_from_args(&args, source, &config, None);
    assert_eq!(r.len(), 3);
    assert_eq!(r[1].text, "#[[c]]");
    assert!(r[1].new_line_before);
    assert_eq!(r[0].trailing_comment, None);
}

#[test]
fn groups_hold_their_arguments() {
    let source = "(a b) c";
    let args = vec![
        Argument::ParenGroup { arguments: vec![Argument::Unquoted(sp(1, 2)), Argument::Unquoted(sp(3, 4))] },
        Argument::Unquoted(sp(6, 7)),
    ];
    let config = Configuration::default();
    let r = build_argument_list_from_args(&args, source, &config, None);
    assert_eq!(r.len(), 2);
    assert!(r[0].is_paren_group);
    assert_eq!(r[0].text, "");
    assert_eq!(r[0].paren_inner.len(), 2);
    assert_eq!(r[0].paren_inner[1].text, "b");
    assert_eq!(r[1].text, "c");
}

fn command(source_len_paren: (usize, usize), args: Vec<Argument>) -> CommandInvocation {
    CommandInvocation {
        name: sp(0, 3),
        open_paren: sp(source_len_paren.0, source_len_paren.0 + 1),
        close_paren: sp(source_len_paren.1, source_len_paren.1 + 1),
        arguments: args,
        trailing_comment: None,
    }
}

#[test]
fn build_argument_list_reads_the_command() {
    let source = "foo(a)";
    let cmd = command((3, 5), vec![Argument::Unquoted(sp(4, 5))]);
    let r = build_argument_list(&cmd, source, &Configuration::default(), None);
    assert_eq!(r.len(), 1);
    assert_eq!(r[0].text, "a");
}

#[test]
fn verbatim_arguments_spanning_lines_are_found() {
    let source = "foo(\"a\nb\" c)";
    let args = vec![Argument::Quoted(sp(4, 9)), Argument::Unquoted(sp(10, 11))];
    assert!(has_multiline_verbatim_argument(&args, source));
    let nested = vec![Argument::ParenGroup { arguments: vec![Argument::Quoted(sp(4, 9))] }];
    assert!(has_multiline_verbatim_argument(&nested, source));
    let plain = vec![Argument::Unquoted(sp(10, 11))];
    assert!(!has_multiline_verbatim_argument(&plain, source));
}

#[test]
fn spaces_inside_parentheses_follow_the_configuration() {
    let source = "foo( a )";
    let cmd = command((3, 7), vec![Argument::Unquoted(sp(5, 6))]);
    let mut config = Configuration::default();
    config.space_inside_paren = SpaceInsideParen::Preserve;
    assert_eq!(resolve_single_line_paren_spacing(&cmd, source, &config, true), (true, true));
    assert_eq!(resolve_single_line_paren_spacing(&cmd, source, &config, false), (false, false));
    config.space_inside_paren = SpaceInsideParen::Remove;
    assert_eq!(resolve_single_line_paren_spacing(&cmd, source, &config, true), (false, false));
    config.space_inside_paren = SpaceInsideParen::Insert;
    let tight = "foo(a)";
    let cmd2 = command((3, 5), vec![Argument::Unquoted(sp(4, 5))]);
    assert_eq!(resolve_single_line_paren_spacing(&cmd2, tight, &config, true), (true, true));
}

#[test]
fn a_line_break_before_the_closing_parenthesis_is_seen() {
    let source = "foo(a\n  )";
    let cmd = command((3, 8), vec![Argument::Unquoted(sp(4, 5))]);
    assert!(has_magic_trailing_newline_signal(&cmd, source, &vec![arg("a")]));
    assert!(!has_magic_trailing_newline_signal(&cmd, source, &vec![]));
    let flat = "foo(a )";
    let cmd2 = command((3, 6), vec![Argument::Unquoted(sp(4, 5))]);
    assert!(!has_magic_trailing_newline_signal(&cmd2, flat, &vec![arg("a")]));
}

#[test]
fn the_last_trailing_line_comment_moves_after_the_parenthesis() {
    let mut a = arg("a");
    a.trailing_comment = Some("# one".to_string());
    let mut b = arg("b");
    b.trailing_comment = Some("#[[two]]".to_string());
    b.trailing_is_bracket = true;
    let c = arg("# standalone");
    let mut args = vec![a, b, c];
    let r = extract_deferred_closing_comment(&mut args);
    assert_eq!(r, Some("# one".to_string()));
    assert_eq!(args[0].trailing_comment, None);
    assert_eq!(args[1].trailing_comment, Some("#[[two]]".to_string()));
    let mut none = vec![arg("x")];
    assert_eq!(extract_deferred_closing_comment(&mut none), None);
}
