use chat_tally::reducer::{step, UserAction, UserState};
use chat_tally::store::AppState;

fn flags(like: bool, dislike: bool, has_lurked: bool) -> UserState {
    UserState { like, dislike, has_lurked }
}

#[test]
fn snapshot_of_empty_store_is_zero() {
    let store = AppState::new();
    let d = store.snapshot();
    assert_eq!(d.like_count, 0);
    assert_eq!(d.lurk_count, 0);
}

#[test]
fn like_then_dislike_then_refund_scenario() {
    let mut store = AppState::new();
    store.handle_event(Some(&String::from("#a")), Some(&String::from("!like")));
    let d = store.snapshot();
    assert_eq!(d.like_count, 1);
    assert_eq!(d.lurk_count, 0);

    store.handle_event(Some(&String::from("#a")), Some(&String::from("!dislike")));
    let d = store.snapshot();
    assert_eq!(d.like_count, -1);

    store.handle_event(Some(&String::from("#a")), Some(&String::from("!refundlike")));
    let d = store.snapshot();
    assert_eq!(d.like_count, 0);
}

#[test]
fn lurk_twice_counts_once() {
    let mut store = AppState::new();
    store.handle_event(Some(&String::from("#b")), Some(&String::from("!lurk")));
    store.handle_event(Some(&String::from("#b")), Some(&String::from("!lurk")));
    assert_eq!(store.lookup("b"), flags(false, false, true));
    let d = store.snapshot();
    assert_eq!(d.lurk_count, 1);
    assert_eq!(d.like_count, 0);
}

#[test]
fn unmarked_event_is_discarded() {
    let mut store = AppState::new();
    store.handle_event(Some(&String::from("notachannel")), Some(&String::from("!like")));
    store.handle_event(Some(&String::from("notachannel")), Some(&String::from("!lurk")));
    let d = store.snapshot();
    assert_eq!(d.like_count, 0);
    assert_eq!(d.lurk_count, 0);
    assert_eq!(store.lookup("notachannel"), flags(false, false, false));
    assert_eq!(store.lookup("otachannel"), flags(false, false, false));
}

#[test]
fn event_without_message_is_discarded() {
    let mut store = AppState::new();
    store.handle_event(Some(&String::from("#a")), None);
    store.handle_event(None, Some(&String::from("!like")));
    let d = store.snapshot();
    assert_eq!(d.like_count, 0);
    assert_eq!(d.lurk_count, 0);
}

#[test]
fn unknown_command_creates_no_entry() {
    let mut store = AppState::new();
    store.handle_event(Some(&String::from("#a")), Some(&String::from("hello")));
    assert_eq!(store.user_data.len(), 0);
}

#[test]
fn like_is_idempotent() {
    let mut store = AppState::new();
    store.apply("a", UserAction::Like);
    let once = store.lookup("a");
    store.apply("a", UserAction::Like);
    assert_eq!(store.lookup("a"), once);
    let d = store.snapshot();
    assert_eq!(d.like_count, 1);
}

#[test]
fn sentiment_flags_exclude_each_other() {
    let mut s = UserState { like: false, dislike: false, has_lurked: false };
    let actions = [
        UserAction::Like,
        UserAction::Dislike,
        UserAction::Like,
        UserAction::Lurk,
        UserAction::Dislike,
        UserAction::RefundLike,
        UserAction::Like,
    ];
    for a in actions {
        s = step(s, a);
        assert!(!(s.like && s.dislike));
    }
}

#[test]
fn lurk_survives_other_actions() {
    let mut s = step(UserState::empty(), UserAction::Lurk);
    for a in [UserAction::Like, UserAction::Dislike, UserAction::RefundLike, UserAction::NoOp] {
        s = step(s, a);
        assert!(s.has_lurked);
    }
}

#[test]
fn refund_clears_both_sentiments() {
    let liked = step(UserState::empty(), UserAction::Like);
    let after = step(liked, UserAction::RefundLike);
    assert_eq!(after, flags(false, false, false));

    let mut s = step(UserState::empty(), UserAction::Lurk);
    s = step(s, UserAction::Dislike);
    let after = step(s, UserAction::RefundLike);
    assert_eq!(after, flags(false, false, true));
}

#[test]
fn dislike_replaces_like() {
    let mut store = AppState::new();
    store.apply("a", UserAction::Like);
    store.apply("a", UserAction::Dislike);
    assert_eq!(store.lookup("a"), flags(false, true, false));
    store.apply("a", UserAction::Like);
    assert_eq!(store.lookup("a"), flags(true, false, false));
}

#[test]
fn users_are_independent_and_case_sensitive() {
    let mut store = AppState::new();
    store.apply("alice", UserAction::Like);
    store.apply("Alice", UserAction::Dislike);
    store.apply("bob", UserAction::Lurk);
    assert_eq!(store.lookup("alice"), flags(true, false, false));
    assert_eq!(store.lookup("Alice"), flags(false, true, false));
    assert_eq!(store.lookup("bob"), flags(false, false, true));
    let d = store.snapshot();
    assert_eq!(d.like_count, 0);
    assert_eq!(d.lurk_count, 1);
}

#[test]
fn noop_leaves_store_untouched() {
    let mut store = AppState::new();
    store.apply("a", UserAction::Like);
    store.apply("a", UserAction::NoOp);
    store.apply("b", UserAction::NoOp);
    assert_eq!(store.user_data.len(), 1);
    assert_eq!(store.lookup("a"), flags(true, false, false));
}
