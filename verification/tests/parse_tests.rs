use chat_tally::parse::{is_user_name, parse, str_eq, strip_channel_marker};
use chat_tally::reducer::UserAction;

#[test]
fn parse_like() {
    assert_eq!(parse("!like"), UserAction::Like);
}

#[test]
fn parse_dislike() {
    assert_eq!(parse("!dislike"), UserAction::Dislike);
}

#[test]
fn parse_lurk() {
    assert_eq!(parse("!lurk"), UserAction::Lurk);
}

#[test]
fn parse_refundlike() {
    assert_eq!(parse("!refundlike"), UserAction::RefundLike);
}

#[test]
fn parse_unknown_is_noop() {
    assert_eq!(parse("hello chat"), UserAction::NoOp);
    assert_eq!(parse(""), UserAction::NoOp);
    assert_eq!(parse("!likes"), UserAction::NoOp);
}

#[test]
fn parse_is_case_sensitive() {
    assert_eq!(parse("!LIKE"), UserAction::NoOp);
    assert_eq!(parse("!Lurk"), UserAction::NoOp);
}

#[test]
fn parse_does_not_trim() {
    assert_eq!(parse(" !like"), UserAction::NoOp);
    assert_eq!(parse("!like "), UserAction::NoOp);
}

#[test]
fn str_eq_basic() {
    assert!(str_eq("", ""));
    assert!(str_eq("abc", "abc"));
    assert!(!str_eq("abc", "abd"));
    assert!(!str_eq("abc", "ab"));
    assert!(str_eq("münze", "münze"));
}

#[test]
fn is_user_name_requires_marker() {
    assert!(!is_user_name(None));
    assert!(is_user_name(Some(&String::from("#somechannel"))));
    assert!(!is_user_name(Some(&String::from("notachannel"))));
    assert!(!is_user_name(Some(&String::from(""))));
}

#[test]
fn strip_channel_marker_drops_first_char() {
    assert_eq!(strip_channel_marker(&String::from("#somechannel")), "somechannel");
    assert_eq!(strip_channel_marker(&String::from("#")), "");
}
