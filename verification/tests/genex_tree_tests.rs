use cmakefmt::config::Configuration;
use cmakefmt::genex_tree::{
    condition_genex_prefers_compact_close, condition_genex_should_inline, genex_inline_text, genex_is_inline, parse_genex,
    GenexNode,
};

fn text(s: &str) -> GenexNode {
    GenexNode::Text(s.as_bytes().to_vec())
}

fn named(prefix: &str, name: &str, children: Vec<GenexNode>) -> GenexNode {
    GenexNode::NamedGenex { prefix: prefix.as_bytes().to_vec(), name: name.as_bytes().to_vec(), children }
}

#[test]
fn named_expressions_hold_their_children() {
    let n = parse_genex(b"  $<IF:$<CONFIG:Debug>, a ,b> ");
    assert_eq!(n, named("", "IF", vec![named("", "CONFIG", vec![text("Debug")]), text("a"), text("b")]));
    assert_eq!(genex_inline_text(&n), b"$<IF:$<CONFIG:Debug>,a,b>".to_vec());
}

#[test]
fn a_prefix_stays_with_simple_and_named_expressions() {
    let n = parse_genex(b"LOG=$<FOO>");
    assert_eq!(n, GenexNode::SimpleGenex { prefix: b"LOG=".to_vec(), name: b"FOO".to_vec() });
    assert_eq!(genex_inline_text(&n), b"LOG=$<FOO>".to_vec());
    assert_eq!(parse_genex(b"plain"), text("plain"));
    assert_eq!(parse_genex(b"$<unclosed"), text("$<unclosed"));
}

#[test]
fn conditional_expressions_split_their_values() {
    let n = parse_genex(b"$<$<BOOL:x>:a b;c>");
    assert_eq!(
        n,
        GenexNode::ConditionGenex {
            condition: Box::new(named("", "BOOL", vec![text("x")])),
            values: vec![text("a"), text("b"), text("c")],
        }
    );
    assert_eq!(genex_inline_text(&n), b"$<$<BOOL:x>:a;b;c>".to_vec());
    assert!(!genex_is_inline(&n));
}

#[test]
fn layout_choices_follow_the_tree() {
    assert!(genex_is_inline(&parse_genex(b"$<TARGET_FILE:foo>")));
    assert!(!genex_is_inline(&parse_genex(b"$<IF:a,b,c>")));
    assert!(condition_genex_prefers_compact_close(&parse_genex(b"$<or:$<A>,b>")));
    assert!(!condition_genex_prefers_compact_close(&parse_genex(b"$<IF:a,b>")));
    let n = parse_genex(b"$<$<BOOL:x>:a>");
    let mut config = Configuration::default();
    config.line_width = 20;
    assert!(condition_genex_should_inline(&n, 4, b":", &config));
    assert!(!condition_genex_should_inline(&n, 10, b":", &config));
}
