use cmakefmt::alignments::passes_check;
use cmakefmt::loader::default_configuration;

#[test]
fn passes_can_run_on_ordinary_text() {
    let mut config = default_configuration();
    config.align_consecutive_set = true;
    assert!(passes_check("set(A 1)\nset(BB 2)\n", &config));
}

#[test]
fn set_alignment_cannot_cut_inside_a_character() {
    let mut config = default_configuration();
    config.align_consecutive_set = true;
    assert!(!passes_check("abc\u{e9}\n", &config));
    config.align_consecutive_set = false;
    assert!(passes_check("abc\u{e9}\n", &config));
}
