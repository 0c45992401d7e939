use clipboard_master::cli::ParseError;
use clipboard_master::cli::Parser;
use clipboard_master::cli::USAGE;

#[test]
fn no_arguments_selects_nothing() {
    let parser = Parser::new(&Vec::new()).expect("empty arguments parse");
    assert!(!parser.flags.help);
    assert!(!parser.flags.magnet);
}

#[test]
fn short_flags_select_switches() {
    let args = vec![String::from("-h"), String::from("-m")];
    let parser = Parser::new(&args).expect("flags parse");
    assert!(parser.flags.help);
    assert!(parser.flags.magnet);
}

#[test]
fn long_flags_select_switches() {
    let args = vec![String::from("--magnet")];
    let parser = Parser::new(&args).expect("flags parse");
    assert!(!parser.flags.help);
    assert!(parser.flags.magnet);

    let args = vec![String::from("--help")];
    let parser = Parser::new(&args).expect("flags parse");
    assert!(parser.flags.help);
    assert!(!parser.flags.magnet);
}

#[test]
fn repeated_flags_are_harmless() {
    let args = vec![String::from("-m"), String::from("--magnet"), String::from("-m")];
    let parser = Parser::new(&args).expect("flags parse");
    assert!(parser.flags.magnet);
    assert!(!parser.flags.help);
}

#[test]
fn unknown_argument_is_reported_by_name() {
    let args = vec![String::from("-h"), String::from("-x")];
    let error = Parser::new(&args).expect_err("unknown argument refused");
    assert_eq!(error.0, "Invalid argument '-x'");
}

#[test]
fn usage_text_is_reported() {
    let parser = Parser::new(&Vec::new()).expect("empty arguments parse");
    assert_eq!(parser.usage(), USAGE);
    assert!(parser.usage().contains("-m, --magnet"));
}

#[test]
fn error_message_prefixes_usage() {
    let error = ParseError(String::from("Invalid argument '-x'"));
    let expected = format!("ERROR: Invalid argument '-x'\n\n{}", USAGE);
    assert_eq!(error.message(), expected);
    assert_eq!(error.description(), "Wrong arguments");
}

#[test]
fn empty_error_message_is_bare_usage() {
    let error = ParseError(String::new());
    assert_eq!(error.message(), USAGE);
}
