use cmakefmt::arg_groups::FormattedArg;
use cmakefmt::genex::{group_args_by_genex, GenexArgGroup};

fn arg(text: &str) -> FormattedArg {
    FormattedArg {
        text: text.to_string(),
        is_keyword: false,
        is_bracket: false,
        trailing_comment: None,
        trailing_is_bracket: false,
        is_paren_group: false,
        paren_inner: Vec::new(),
        blank_line_before: false,
        new_line_before: false,
    }
}

#[test]
fn split_generator_expressions_stay_together() {
    let args = vec![arg("$<IF:"), arg("a,"), arg("b>"), arg("x"), arg("LOG=$<X>")];
    assert_eq!(
        group_args_by_genex(&args),
        vec![GenexArgGroup::Genex(vec![0, 1, 2]), GenexArgGroup::Single(3), GenexArgGroup::Genex(vec![4])]
    );
}

#[test]
fn an_unclosed_generator_expression_leaves_single_arguments() {
    let args = vec![arg("$<A"), arg("b")];
    assert_eq!(group_args_by_genex(&args), vec![GenexArgGroup::Single(0), GenexArgGroup::Single(1)]);
    assert!(group_args_by_genex(&vec![]).is_empty());
}
