use clipboard_master::cli::Parser;
use clipboard_master::handler::ContentAction;
use clipboard_master::handler::Handler;
use clipboard_master::magnet::is_applicable;

fn handler_with(args: &[&str]) -> Handler {
    let args: Vec<String> = args.iter().map(|a| String::from(*a)).collect();
    Handler { args: Parser::new(&args).expect("arguments parse") }
}

#[test]
fn magnet_uri_is_detected() {
    assert!(is_applicable("magnet:?xt=urn:btih:deadbeef"));
    assert!(is_applicable("magnet:"));
    assert!(!is_applicable("magnet"));
    assert!(!is_applicable("http://example.org/magnet:"));
    assert!(!is_applicable(""));
}

#[test]
fn magnet_flag_launches_on_magnet_uri() {
    let handler = handler_with(&["-m"]);
    let action = handler.plan_change(&String::from("magnet:?xt=urn:btih:deadbeef"));
    assert!(matches!(action, ContentAction::LaunchMagnet));
}

#[test]
fn without_magnet_flag_a_magnet_uri_is_just_text() {
    let handler = handler_with(&[]);
    let action = handler.plan_change(&String::from("magnet:?xt=urn:btih:deadbeef"));
    assert!(matches!(action, ContentAction::Keep));
    let action = handler.plan_change(&String::from("magnet:?xt=x "));
    match action {
        ContentAction::Replace(t) => assert_eq!(t, "magnet:?xt=x"),
        other => panic!("unexpected action: {:?}", other),
    }
}

#[test]
fn untrimmed_text_is_replaced_with_trimmed_copy() {
    let handler = handler_with(&["-m"]);
    let action = handler.plan_change(&String::from("line one  \nline two"));
    match action {
        ContentAction::Replace(t) => assert_eq!(t, "line one\nline two"),
        other => panic!("unexpected action: {:?}", other),
    }
}

#[test]
fn clean_text_is_kept() {
    let handler = handler_with(&["-m"]);
    let action = handler.plan_change(&String::from("nothing to do"));
    assert!(matches!(action, ContentAction::Keep));
}

#[test]
fn empty_text_is_kept() {
    let handler = handler_with(&["-m"]);
    let action = handler.plan_change(&String::new());
    assert!(matches!(action, ContentAction::Keep));
}
