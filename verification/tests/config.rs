use mini_grep::{Cli, ConfigError, OutputTarget};

#[test]
fn settings_are_kept_as_given() {
    let cli = Cli::new(String::from("duct"), String::from("poem.txt"), false, None).unwrap();
    assert_eq!(cli.pattern(), "duct");
    assert_eq!(cli.path(), "poem.txt");
    assert!(!cli.ignore_case());
    assert!(cli.case_sensitive());
    assert_eq!(cli.target(), OutputTarget::Console);
}

#[test]
fn settings_with_output_and_ignore_case() {
    let cli =
        Cli::new(String::from("duct"), String::from("poem.txt"), true, Some(String::from("out.txt")))
            .unwrap();
    assert!(cli.ignore_case());
    assert!(!cli.case_sensitive());
    assert_eq!(cli.target(), OutputTarget::File(String::from("out.txt")));
}

#[test]
fn empty_pattern_is_turned_down() {
    let made = Cli::new(String::new(), String::from("poem.txt"), false, None);
    assert_eq!(made.err(), Some(ConfigError::EmptyPattern));
}

#[test]
fn empty_path_is_turned_down() {
    let made = Cli::new(String::from("duct"), String::new(), false, None);
    assert_eq!(made.err(), Some(ConfigError::EmptyPath));
}

#[test]
fn empty_pattern_is_named_first() {
    let made = Cli::new(String::new(), String::new(), true, Some(String::from("out.txt")));
    assert_eq!(made.err(), Some(ConfigError::EmptyPattern));
}

#[test]
fn empty_output_path_is_kept() {
    let cli = Cli::new(String::from("a"), String::from("b"), false, Some(String::new())).unwrap();
    assert_eq!(cli.target(), OutputTarget::File(String::new()));
}
