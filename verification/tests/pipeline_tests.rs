use cmakefmt::config::Configuration;
use cmakefmt::pipeline::{finish_printed, format_printed};

#[test]
fn unchanged_output_gives_nothing() {
    let config = Configuration::default();
    let r = format_printed("a.cmake", "/p/a.cmake", "set(x 1)\n", &config, "set(x 1)\n");
    assert_eq!(r, None);
}

#[test]
fn changed_output_is_returned() {
    let config = Configuration::default();
    let r = format_printed("a.cmake", "/p/a.cmake", "SET(x 1)\n", &config, "set(x 1)\n");
    assert_eq!(r, Some("set(x 1)\n".to_string()));
}

#[test]
fn byte_order_mark_is_dropped() {
    let config = Configuration::default();
    let r = format_printed("a.cmake", "/p/a.cmake", "\u{feff}set(x 1)\n", &config, "set(x 1)\n");
    assert_eq!(r, Some("set(x 1)\n".to_string()));
}

#[test]
fn disabled_formatting_gives_nothing() {
    let mut config = Configuration::default();
    config.disable_formatting = true;
    let r = format_printed("a.cmake", "/p/a.cmake", "SET(x 1)\n", &config, "set(x 1)\n");
    assert_eq!(r, None);
}

#[test]
fn ignored_path_gives_nothing() {
    let mut config = Configuration::default();
    config.ignore_patterns = vec!["*.cmake".to_string()];
    let r = format_printed("a.cmake", "/p/a.cmake", "SET(x 1)\n", &config, "set(x 1)\n");
    assert_eq!(r, None);
    let r = format_printed("CMakeLists.txt", "/p/CMakeLists.txt", "SET(x 1)\n", &config, "set(x 1)\n");
    assert_eq!(r, Some("set(x 1)\n".to_string()));
}

#[test]
fn bare_carriage_returns_come_back() {
    let config = Configuration::default();
    let r = finish_printed("set(a)\rset(b)\n", "set(a)\nset(b)\n", &config);
    assert_eq!(r, "set(a)\rset(b)\n");
}
