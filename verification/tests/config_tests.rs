use mast::config::Config;
use mast::config::ReaderError;
use mast::config::default_configuration_text;

#[test]
fn parse_default_template_round_trip() {
    let config = Config::new();
    let parsed = config.parse_str(default_configuration_text());
    let c = match parsed {
        Ok(c) => c,
        Err(_) => panic!("default template must parse"),
    };
    assert_eq!(c.target.len(), 1);
    assert_eq!(c.target[0].0, "build");
    assert_eq!(c.target[0].1.about, "Build Rust project");
    assert_eq!(c.target[0].1.command.len(), 1);
    assert_eq!(c.target[0].1.command[0], "cargo build");
    assert_eq!(c.options.logging, Some(false));
}

#[test]
fn parse_wrong_command_schema_is_parse_error() {
    let config = Config::new();
    let text = "[options]\n[target.build]\nabout = \"b\"\ncommand = \"not-an-array\"\n";
    let parsed = config.parse_str(text);
    assert!(matches!(parsed, Err(ReaderError::Parse(_))));
}

#[test]
fn parse_syntax_error_is_parse_error() {
    let config = Config::new();
    let parsed = config.parse_str("this is [[[ not toml");
    assert!(matches!(parsed, Err(ReaderError::Parse(_))));
}

#[test]
fn parse_missing_options_table_is_parse_error() {
    let config = Config::new();
    let parsed = config.parse_str("[target.build]\nabout = \"b\"\ncommand = [\"x\"]\n");
    assert!(matches!(parsed, Err(ReaderError::Parse(_))));
}

#[test]
fn parse_missing_target_table_means_zero_targets() {
    let config = Config::new();
    let parsed = config.parse_str("[options]\nlogging = true\n");
    let c = parsed.expect("a configuration without targets is legal");
    assert_eq!(c.target.len(), 0);
    assert_eq!(c.options.logging, Some(true));
}

#[test]
fn parse_absent_logging_means_none() {
    let config = Config::new();
    let c = config.parse_str("[options]\n").expect("empty options table is legal");
    assert_eq!(c.options.logging, None);
    assert_eq!(c.target.len(), 0);
}

#[test]
fn parse_logging_not_bool_is_parse_error() {
    let config = Config::new();
    let parsed = config.parse_str("[options]\nlogging = 5\n");
    assert!(matches!(parsed, Err(ReaderError::Parse(_))));
}

#[test]
fn parse_missing_about_is_parse_error() {
    let config = Config::new();
    let parsed = config.parse_str("[options]\n[target.build]\ncommand = [\"x\"]\n");
    assert!(matches!(parsed, Err(ReaderError::Parse(_))));
}

#[test]
fn parse_missing_command_is_parse_error() {
    let config = Config::new();
    let parsed = config.parse_str("[options]\n[target.build]\nabout = \"b\"\n");
    assert!(matches!(parsed, Err(ReaderError::Parse(_))));
}

#[test]
fn parse_command_element_not_string_is_parse_error() {
    let config = Config::new();
    let parsed =
        config.parse_str("[options]\n[target.build]\nabout = \"b\"\ncommand = [\"x\", 1]\n");
    assert!(matches!(parsed, Err(ReaderError::Parse(_))));
}

#[test]
fn parse_target_entry_not_table_is_parse_error() {
    let config = Config::new();
    let parsed = config.parse_str("[options]\n[target]\nbuild = \"x\"\n");
    assert!(matches!(parsed, Err(ReaderError::Parse(_))));
}

#[test]
fn parse_two_targets_in_order() {
    let config = Config::new();
    let text = "[options]\n[target.one]\nabout = \"first\"\ncommand = [\"a\", \"b c\"]\n[target.two]\nabout = \"second\"\ncommand = []\n";
    let c = config.parse_str(text).expect("two well-formed targets must parse");
    assert_eq!(c.target.len(), 2);
    assert_eq!(c.target[0].0, "one");
    assert_eq!(c.target[0].1.command, vec!["a".to_string(), "b c".to_string()]);
    assert_eq!(c.target[1].0, "two");
    assert_eq!(c.target[1].1.about, "second");
    assert_eq!(c.target[1].1.command.len(), 0);
}
