use cmakefmt::arg_groups::FormattedArg;
use cmakefmt::conditions::{
    gen_condition_closer_multi_line, gen_condition_multi_line, is_condition_binary_op, is_condition_unary_test,
    is_logical_op, is_not_op, parse_condition_items, CondExpr, CondItem,
};
use cmakefmt::config::Configuration;
use cmakefmt::print_items::PrintItem;

fn arg(text: &str) -> FormattedArg {
    FormattedArg {
        text: text.to_string(),
        is_keyword: false,
        is_bracket: false,
        trailing_comment: None,
        trailing_is_bracket: false,
        is_paren_group: false,
        paren_inner: Vec::new(),
        blank_line_before: false,
        new_line_before: false,
    }
}

fn kw(text: &str) -> FormattedArg {
    let mut a = arg(text);
    a.is_keyword = true;
    a
}

fn text(s: &str) -> PrintItem {
    PrintItem::Text(s.as_bytes().to_vec())
}

#[test]
fn condition_operators_are_recognised_in_any_case() {
    assert!(is_condition_unary_test("defined"));
    assert!(!is_condition_unary_test("DEFINE"));
    assert!(is_condition_binary_op("StrEqual"));
    assert!(is_logical_op("or"));
    assert!(!is_logical_op("xor"));
    assert!(is_not_op("Not"));
}

#[test]
fn conditions_parse_into_expressions_joined_by_logical_operators() {
    let args = vec![kw("NOT"), kw("DEFINED"), arg("X"), kw("AND"), arg("A"), kw("STREQUAL"), arg("B")];
    let items = parse_condition_items(&args);
    assert_eq!(
        items,
        vec![
            CondItem::Expr(CondExpr::Unary {
                op: 0,
                operand: Box::new(CondExpr::Unary { op: 1, operand: Box::new(CondExpr::Atom(2)) }),
            }),
            CondItem::LogicalOp {
                op: 3,
                comments_end: 4,
                expr: CondExpr::Binary { lhs: Box::new(CondExpr::Atom(4)), op: 5, rhs: Box::new(CondExpr::Atom(6)) },
            },
        ]
    );
}

#[test]
fn comments_between_an_operator_and_its_expression_stay_with_it() {
    let args = vec![arg("A"), kw("OR"), arg("# why"), arg("B")];
    let items = parse_condition_items(&args);
    assert_eq!(
        items,
        vec![
            CondItem::Expr(CondExpr::Atom(0)),
            CondItem::LogicalOp { op: 1, comments_end: 3, expr: CondExpr::Atom(3) },
        ]
    );
    let dangling = vec![arg("A"), kw("AND"), arg("# end")];
    assert_eq!(
        parse_condition_items(&dangling),
        vec![CondItem::Expr(CondExpr::Atom(0)), CondItem::Comment(2), CondItem::Expr(CondExpr::Atom(1))]
    );
}

#[test]
fn short_conditions_keep_each_expression_on_one_line() {
    let args = vec![kw("not"), kw("defined"), arg("X"), kw("and"), arg("A"), kw("strequal"), arg("B")];
    let config = Configuration::default();
    let items = gen_condition_multi_line("if", &args, &config, 0);
    assert_eq!(
        items,
        vec![
            PrintItem::StartIndent,
            PrintItem::NewLine,
            text("NOT"),
            PrintItem::Space,
            text("DEFINED"),
            PrintItem::Space,
            text("X"),
            PrintItem::NewLine,
            text("AND"),
            PrintItem::Space,
            text("A"),
            PrintItem::Space,
            text("STREQUAL"),
            PrintItem::Space,
            text("B"),
            PrintItem::NewLine,
            PrintItem::FinishIndent,
        ]
    );
}

#[test]
fn long_binary_expressions_break_at_their_operator() {
    let args = vec![arg("A"), kw("STREQUAL"), arg("B")];
    let mut config = Configuration::default();
    config.line_width = 10;
    config.closing_paren_newline = false;
    let items = gen_condition_multi_line("if", &args, &config, 0);
    assert_eq!(
        items,
        vec![
            PrintItem::StartIndent,
            PrintItem::NewLine,
            text("A"),
            PrintItem::StartIndent,
            PrintItem::NewLine,
            text("STREQUAL"),
            PrintItem::NewLine,
            text("B"),
            PrintItem::FinishIndent,
            PrintItem::FinishIndent,
        ]
    );
}

#[test]
fn closer_arguments_pack_to_the_line_width() {
    let args = vec![arg("a"), arg("and"), arg("b"), arg("or"), arg("c")];
    let mut config = Configuration::default();
    config.line_width = 10;
    let items = gen_condition_closer_multi_line(&args, &config, 0);
    assert_eq!(
        items,
        vec![
            PrintItem::StartIndent,
            text("a"),
            PrintItem::Space,
            text("and"),
            PrintItem::Space,
            text("b"),
            PrintItem::NewLine,
            text("or"),
            PrintItem::Space,
            text("c"),
            PrintItem::NewLine,
            PrintItem::FinishIndent,
        ]
    );
}
