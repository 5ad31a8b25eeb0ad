use acsync::cli_helper::{get_argument, get_option_value, has_option};

fn parse(command_call: &str, skip: usize) -> Vec<String> {
    command_call
        .split_whitespace()
        .map(|value| value.to_string())
        .skip(skip)
        .collect()
}

#[test]
fn it_finds_argument_foo() {
    let args = parse("command foo bar --baz=qux --debug", 1);
    assert_eq!(get_argument(0, &args), Some(&String::from("foo")));
}

#[test]
fn it_does_not_find_argument_foo() {
    let args = parse("command bar --baz=qux --debug", 1);
    assert_ne!(get_argument(0, &args), Some(&String::from("foo")));
}

#[test]
fn it_does_not_find_none_argument() {
    let args = parse("command --baz=qux --debug", 1);
    assert_eq!(get_argument(0, &args), None);
}

#[test]
fn it_finds_debug_option() {
    let args: Vec<String> = parse("command foo bar --baz=qux --debug", 1);
    assert_eq!(has_option("debug", &args), (true, Some(3)));
}

#[test]
fn it_does_not_find_debug_option() {
    let args: Vec<String> = parse("command foo bar --baz=qux", 1);
    assert_eq!(has_option("debug", &args), (false, None));
}

#[test]
fn it_finds_baz_option_value() {
    let args: Vec<String> = parse("command foo bar --baz=qux --debug", 1);
    assert_eq!(get_option_value("baz", &args), (Some("qux"), Some(2)));
}

#[test]
fn it_does_not_find_baz_option_value() {
    let args: Vec<String> = parse("command foo bar --fred=qux --debug", 1);
    assert_ne!(get_option_value("baz", &args), (Some("qux"), Some(2)));
}

#[test]
fn option_value_from_following_argument() {
    let args = parse("command --baz qux", 1);
    assert_eq!(get_option_value("baz", &args), (Some("qux"), Some(1)));
}

#[test]
fn bare_option_has_no_value() {
    let args = parse("command --baz --debug", 1);
    assert_eq!(get_option_value("baz", &args), (None, Some(0)));
}

#[test]
fn missing_option_reports_index_zero() {
    let args = parse("command foo", 1);
    assert_eq!(get_option_value("baz", &args), (None, Some(0)));
}
