use minigrep::config::{Config, ConfigError};
use minigrep::search::Mode;

fn args_of(words: &[&str]) -> Vec<String> {
    words.iter().map(|word| word.to_string()).collect()
}

#[test]
fn program_name_alone_is_not_enough() {
    let made = Config::new(&args_of(&["prog"]), None);
    assert_eq!(made.err(), Some(ConfigError::MissingArguments));
}

#[test]
fn no_arguments_and_two_arguments_are_not_enough() {
    assert_eq!(Config::new(&args_of(&[]), None).err(), Some(ConfigError::MissingArguments));
    assert_eq!(
        Config::new(&args_of(&["prog", "file"]), Some("1")).err(),
        Some(ConfigError::MissingArguments)
    );
}

#[test]
fn missing_arguments_has_its_message() {
    assert_eq!(ConfigError::MissingArguments.message(), "Not enough arguments!");
}

#[test]
fn file_and_query_make_a_configuration() {
    let made = Config::new(&args_of(&["prog", "file", "query"]), None).unwrap();
    assert_eq!(made.filename, "file");
    assert_eq!(made.query, "query");
    assert!(!made.strict);
    assert_eq!(made.mode(), Mode::CaseInsensitive);
}

#[test]
fn further_arguments_are_ignored() {
    let made = Config::new(&args_of(&["prog", "file", "query", "more"]), None).unwrap();
    assert_eq!(made.filename, "file");
    assert_eq!(made.query, "query");
}

#[test]
fn an_empty_query_is_accepted() {
    let made = Config::new(&args_of(&["prog", "file", ""]), None).unwrap();
    assert_eq!(made.query, "");
}

#[test]
fn strict_is_asked_by_one_or_true() {
    let args = args_of(&["prog", "file", "query"]);
    assert!(Config::new(&args, Some("1")).unwrap().strict);
    assert!(Config::new(&args, Some("true")).unwrap().strict);
    assert_eq!(Config::new(&args, Some("true")).unwrap().mode(), Mode::CaseSensitive);
}

#[test]
fn other_values_do_not_ask_strict() {
    let args = args_of(&["prog", "file", "query"]);
    for value in ["", "0", "TRUE", "True", "yes", "11", "true ", "false"] {
        assert!(!Config::new(&args, Some(value)).unwrap().strict);
    }
}
