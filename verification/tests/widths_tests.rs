use cmakefmt::arg_groups::FormattedArg;
use cmakefmt::loader::default_configuration;
use cmakefmt::widths::{
    arg_width, can_pack_args_on_line, compute_keyword_inline_width, compute_pair_alignment_width, count_wrap_arguments,
    has_blank_line_between,
    is_keyword_like_value, is_one_line_alignment_candidate, looks_like_property_key,
};

fn arg(text: &str) -> FormattedArg {
    FormattedArg {
        text: text.to_string(),
        is_keyword: false,
        is_bracket: false,
        trailing_comment: None,
        trailing_is_bracket: false,
        is_paren_group: false,
        paren_inner: Vec::new(),
        blank_line_before: false,
        new_line_before: false,
    }
}

fn group(inner: Vec<FormattedArg>) -> FormattedArg {
    let mut g = arg("");
    g.is_paren_group = true;
    g.paren_inner = inner;
    g
}

#[test]
fn group_width_counts_parentheses_and_spaces() {
    assert_eq!(arg_width(&arg("abc")), 3);
    assert_eq!(arg_width(&group(vec![arg("a"), arg("bc")])), 6);
    assert_eq!(arg_width(&group(vec![arg("x"), group(vec![arg("y")])])), 7);
    assert_eq!(arg_width(&group(Vec::new())), 2);
}

#[test]
fn keyword_width_includes_values_and_trailing_comment() {
    let mut kw = arg("PUBLIC");
    assert_eq!(compute_keyword_inline_width(&kw, &vec![arg("a"), arg("bcd")]), 12);
    kw.trailing_comment = Some("# c".to_string());
    assert_eq!(compute_keyword_inline_width(&kw, &vec![]), 10);
}

#[test]
fn comments_do_not_count_for_wrapping() {
    assert_eq!(count_wrap_arguments(&vec![arg("a"), arg("# c"), arg("b")]), 2);
    assert_eq!(count_wrap_arguments(&vec![]), 0);
}

#[test]
fn packing_respects_line_width_and_blockers() {
    let mut config = default_configuration();
    config.line_width = 10;
    assert!(can_pack_args_on_line(3, &vec![arg("ab"), arg("cde")], &config));
    assert!(!can_pack_args_on_line(5, &vec![arg("ab"), arg("cde")], &config));
    assert!(can_pack_args_on_line(50, &vec![], &config));
    assert!(!can_pack_args_on_line(0, &vec![arg("# c")], &config));
    assert!(!can_pack_args_on_line(0, &vec![arg("a\nb")], &config));
    let mut t = arg("x");
    t.trailing_comment = Some("# t".to_string());
    assert!(!can_pack_args_on_line(0, &vec![t], &config));
    let mut b = arg("x");
    b.trailing_comment = Some("#[[b]]".to_string());
    b.trailing_is_bracket = true;
    assert!(can_pack_args_on_line(0, &vec![b], &config));
}

#[test]
fn keyword_like_values_and_property_keys() {
    assert!(is_keyword_like_value(&arg("COMPILE_DEFINITIONS_2")));
    assert!(!is_keyword_like_value(&arg("Foo")));
    assert!(!is_keyword_like_value(&arg("\"X\"")));
    assert!(!is_keyword_like_value(&arg("$<X>")));
    assert!(!is_keyword_like_value(&group(vec![arg("A")])));
    assert!(is_keyword_like_value(&arg("")));
    assert!(looks_like_property_key(&arg("OUTPUT_NAME")));
    assert!(!looks_like_property_key(&arg("ON")));
    assert!(!looks_like_property_key(&arg("N")));
    assert!(!looks_like_property_key(&arg("")));
    assert!(!looks_like_property_key(&arg("lower")));
}

#[test]
fn one_line_alignment_candidates() {
    assert!(is_one_line_alignment_candidate("INSTALL", &vec![arg("lower"), arg("x")]));
    assert!(is_one_line_alignment_candidate("set", &vec![arg("UPPER"), arg("x")]));
    assert!(!is_one_line_alignment_candidate("set", &vec![arg("lower")]));
    assert!(!is_one_line_alignment_candidate("install", &vec![]));
    assert!(!is_one_line_alignment_candidate("install", &vec![arg("A"), arg("# c")]));
    assert!(!is_one_line_alignment_candidate("install", &vec![arg("A"), arg("\"a\nb\"")]));
}

#[test]
fn blank_lines_need_two_line_breaks() {
    let src = "a\n\nb\nc";
    assert!(has_blank_line_between(src, 0, 4));
    assert!(!has_blank_line_between(src, 0, 2));
    assert!(!has_blank_line_between(src, 3, 6));
    assert!(!has_blank_line_between(src, 5, 2));
}

#[test]
fn pair_alignment_uses_the_widest_key_with_a_value() {
    let values = vec![arg("KEY"), arg("v"), arg("# c"), arg("LONGER_KEY"), arg("# between"), arg("w"), arg("ORPHAN_KEY_WITHOUT_VALUE")];
    assert_eq!(compute_pair_alignment_width(&values), Some(10));
    assert_eq!(compute_pair_alignment_width(&vec![arg("lonely")]), None);
    assert_eq!(compute_pair_alignment_width(&vec![]), None);
}
