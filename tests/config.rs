use minigrep::{search, Config, ConfigError};

fn args(list: &[&str]) -> Vec<String> {
    list.iter().map(|s| s.to_string()).collect()
}

#[test]
fn no_arguments_is_missing_query() {
    assert_eq!(Some(ConfigError::MissingQuery), Config::build(args(&[]), None).err());
    assert_eq!(
        Some(ConfigError::MissingQuery),
        Config::build(args(&["minigrep"]), None).err()
    );
}

#[test]
fn query_alone_is_missing_file_path() {
    assert_eq!(
        Some(ConfigError::MissingFilePath),
        Config::build(args(&["minigrep", "to"]), None).err()
    );
}

#[test]
fn unset_variable_keeps_case() {
    let config = Config::build(args(&["minigrep", "to", "poem.txt"]), None).unwrap();
    assert_eq!("to", config.query);
    assert_eq!("poem.txt", config.file_path);
    assert!(!config.ignore_case);
}

#[test]
fn empty_variable_ignores_case() {
    let config =
        Config::build(args(&["minigrep", "to", "poem.txt"]), Some(String::new())).unwrap();
    assert!(config.ignore_case);
}

#[test]
fn any_variable_value_ignores_case() {
    let config =
        Config::build(args(&["minigrep", "to", "poem.txt"]), Some("false".to_string())).unwrap();
    assert!(config.ignore_case);
}

#[test]
fn extra_arguments_are_ignored() {
    let config =
        Config::build(args(&["minigrep", "to", "poem.txt", "more", "still"]), None).unwrap();
    assert_eq!("to", config.query);
    assert_eq!("poem.txt", config.file_path);
}

#[test]
fn error_messages() {
    assert_eq!("Query is missing.", ConfigError::MissingQuery.message());
    assert_eq!("File path is missing.", ConfigError::MissingFilePath.message());
}

#[test]
fn search_follows_the_configured_mode() {
    let contents = "Rust:\nsafe, fast, productive.\nTrust me.";
    let exact = Config::build(args(&["minigrep", "rUsT", "f"]), None).unwrap();
    assert!(search(&exact, contents).is_empty());
    let folded = Config::build(args(&["minigrep", "rUsT", "f"]), Some(String::new())).unwrap();
    assert_eq!(vec!["Rust:", "Trust me."], search(&folded, contents));
}
