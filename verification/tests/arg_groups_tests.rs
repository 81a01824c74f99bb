use cmakefmt::arg_groups::{
    compute_keyword_positions, extract_deferred_closing_comment, get_section_front_positional, split_arguments, ArgGroup,
    FormattedArg,
};
use cmakefmt::loader::default_configuration;
use cmakefmt::signatures::{lookup_command, CommandKind, CommandSpec};

fn args(texts: &[&str]) -> Vec<FormattedArg> {
    texts
        .iter()
        .map(|t| FormattedArg {
            text: t.to_string(),
            is_keyword: false,
            is_bracket: false,
            trailing_comment: None,
            trailing_is_bracket: false,
            is_paren_group: false,
            paren_inner: Vec::new(),
            blank_line_before: false,
            new_line_before: false,
        })
        .collect()
}

fn spec_of(name: &str) -> CommandSpec {
    match lookup_command(name) {
        Some(CommandKind::Known(s)) => s,
        _ => panic!("no signature for {}", name),
    }
}

fn shape(groups: &[ArgGroup]) -> Vec<(String, Vec<usize>)> {
    groups
        .iter()
        .map(|g| match g {
            ArgGroup::Positional(v) => ("pos".to_string(), v.clone()),
            ArgGroup::Keyword { keyword, values } => {
                let mut all = vec![*keyword];
                all.extend(values.iter().copied());
                ("kw".to_string(), all)
            }
            ArgGroup::CmdLineKeyword { keyword, value } => {
                let mut all = vec![*keyword];
                all.extend(value.iter().copied());
                ("cmd".to_string(), all)
            }
        })
        .collect()
}

#[test]
fn link_libraries_split_at_visibility_keywords() {
    let spec = spec_of("target_link_libraries");
    let config = default_configuration();
    let a = args(&["foo", "PUBLIC", "a", "debug", "d", "PRIVATE", "c"]);
    let (front, groups, back) = split_arguments(&a, &spec, &config);
    assert_eq!(front, vec![0]);
    assert_eq!(
        shape(&groups),
        vec![("kw".to_string(), vec![1, 2, 3, 4]), ("kw".to_string(), vec![5, 6])]
    );
    assert!(back.is_empty());
}

#[test]
fn command_line_keyword_outside_a_section_takes_one_value() {
    let spec = spec_of("target_link_libraries");
    let config = default_configuration();
    let a = args(&["foo", "debug", "d", "e"]);
    let (front, groups, back) = split_arguments(&a, &spec, &config);
    assert_eq!(front, vec![0]);
    assert_eq!(
        shape(&groups),
        vec![("cmd".to_string(), vec![1, 2]), ("pos".to_string(), vec![3])]
    );
    assert!(back.is_empty());
}

#[test]
fn keywords_match_without_regard_to_case() {
    let spec = spec_of("target_link_libraries");
    let config = default_configuration();
    let a = args(&["foo", "public", "a"]);
    let (front, groups, _) = split_arguments(&a, &spec, &config);
    assert_eq!(front, vec![0]);
    assert_eq!(shape(&groups), vec![("kw".to_string(), vec![1, 2])]);
}

#[test]
fn comments_are_never_keywords() {
    let spec = spec_of("target_link_libraries");
    let config = default_configuration();
    let a = args(&["foo", "#PUBLIC", "a"]);
    let (front, groups, _) = split_arguments(&a, &spec, &config);
    assert_eq!(front, vec![0]);
    assert_eq!(shape(&groups), vec![("pos".to_string(), vec![1, 2])]);
}

#[test]
fn every_index_appears_once_in_order() {
    let spec = spec_of("install");
    let config = default_configuration();
    let a = args(&["TARGETS", "x", "DESTINATION", "bin", "COMPONENT", "rt", "OPTIONAL"]);
    let (front, groups, back) = split_arguments(&a, &spec, &config);
    let mut all = front.clone();
    for (_, v) in shape(&groups) {
        all.extend(v);
    }
    all.extend(back.iter().copied());
    assert_eq!(all, (0..a.len()).collect::<Vec<usize>>());
}

#[test]
fn empty_arguments_give_empty_parts() {
    let spec = spec_of("target_link_libraries");
    let config = default_configuration();
    let (front, groups, back) = split_arguments(&Vec::new(), &spec, &config);
    assert!(front.is_empty() && groups.is_empty() && back.is_empty());
}

#[test]
fn keyword_positions_skip_section_sub_keywords() {
    let spec = spec_of("target_link_libraries");
    let a = args(&["foo", "PUBLIC", "a", "debug", "d", "PRIVATE", "c"]);
    assert_eq!(compute_keyword_positions(&a, &spec), vec![1, 5]);
}

#[test]
fn keyword_positions_include_front_positional_keywords() {
    let spec = spec_of("target_link_libraries");
    let a = args(&["PUBLIC", "PUBLIC", "a"]);
    assert_eq!(compute_keyword_positions(&a, &spec), vec![0, 1]);
}

#[test]
fn keyword_positions_skip_command_line_keyword_values() {
    let spec = spec_of("target_link_libraries");
    let a = args(&["foo", "debug", "PUBLIC", "PRIVATE", "x"]);
    assert_eq!(compute_keyword_positions(&a, &spec), vec![3]);
}

#[test]
fn section_front_positional_defaults_to_zero() {
    let spec = spec_of("target_link_libraries");
    assert_eq!(get_section_front_positional("public", &spec), 0);
    assert_eq!(get_section_front_positional("NOPE", &spec), 0);
}

#[test]
fn deferred_comment_comes_from_the_last_eligible_argument() {
    let mut a = args(&["x", "y", "# own line"]);
    a[0].trailing_comment = Some("# first".to_string());
    a[1].trailing_comment = Some("#[[b]]".to_string());
    a[1].trailing_is_bracket = true;
    let c = extract_deferred_closing_comment(&mut a);
    assert_eq!(c, Some("# first".to_string()));
    assert!(a[0].trailing_comment.is_none());
    assert_eq!(a[1].trailing_comment, Some("#[[b]]".to_string()));
    assert_eq!(extract_deferred_closing_comment(&mut a), None);
}
