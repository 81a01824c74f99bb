use cmakefmt::arg_groups::FormattedArg;
use cmakefmt::config::Configuration;
use cmakefmt::print_items::PrintItem;
use cmakefmt::values_layout::emit_property_values;

fn arg(text: &str) -> FormattedArg {
    FormattedArg {
        text: text.to_string(),
        is_keyword: false,
        is_bracket: false,
        trailing_comment: None,
        trailing_is_bracket: false,
        is_paren_group: false,
        paren_inner: Vec::new(),
        blank_line_before: false,
        new_line_before: false,
    }
}

fn text(s: &str) -> PrintItem {
    PrintItem::Text(s.as_bytes().to_vec())
}

#[test]
fn a_single_value_stays_with_the_property_name() {
    let config = Configuration::default();
    let mut items = Vec::new();
    emit_property_values(&mut items, &vec![arg("PROP"), arg("val")], &config, 2);
    assert_eq!(
        items,
        vec![PrintItem::StartIndent, PrintItem::NewLine, text("PROP"), PrintItem::Space, text("val"), PrintItem::FinishIndent]
    );
}

#[test]
fn a_name_without_values_keeps_its_comments() {
    let config = Configuration::default();
    let mut items = Vec::new();
    emit_property_values(&mut items, &vec![arg("PROP"), arg("# c")], &config, 2);
    assert_eq!(
        items,
        vec![PrintItem::StartIndent, PrintItem::NewLine, text("PROP"), PrintItem::NewLine, text("# c"), PrintItem::FinishIndent]
    );
}

#[test]
fn several_values_go_one_level_further_in() {
    let config = Configuration::default();
    let mut items = Vec::new();
    emit_property_values(&mut items, &vec![arg("PROP"), arg("a"), arg("b")], &config, 2);
    assert_eq!(
        items,
        vec![
            PrintItem::StartIndent,
            PrintItem::NewLine,
            text("PROP"),
            PrintItem::StartIndent,
            PrintItem::NewLine,
            text("a"),
            PrintItem::NewLine,
            text("b"),
            PrintItem::FinishIndent,
            PrintItem::FinishIndent,
        ]
    );
    let mut none = Vec::new();
    emit_property_values(&mut none, &vec![], &config, 2);
    assert!(none.is_empty());
}

#[test]
fn a_value_that_does_not_fit_is_expanded() {
    let mut config = Configuration::default();
    config.line_width = 8;
    let mut items = Vec::new();
    emit_property_values(&mut items, &vec![arg("PROP"), arg("value")], &config, 2);
    assert_eq!(
        items,
        vec![
            PrintItem::StartIndent,
            PrintItem::NewLine,
            text("PROP"),
            PrintItem::StartIndent,
            PrintItem::NewLine,
            text("value"),
            PrintItem::FinishIndent,
            PrintItem::FinishIndent,
        ]
    );
}
