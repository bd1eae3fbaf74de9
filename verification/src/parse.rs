//! Classifying message text and filtering raw events.
//!
//! A message is matched exactly (case-sensitive, no trimming) against the
//! four command literals; anything else is classified `NoOp`. An event's
//! first field names a channel only when it carries the `#` marker prefix.

use vstd::prelude::*;

use crate::reducer::UserAction;

verus! {

/// Character-wise equality of two string slices.
pub fn str_eq(a: &str, b: &str) -> (r: bool)
    ensures
        r == (a@ == b@),
{
    let a_len = a.unicode_len();
    let b_len = b.unicode_len();
    if a_len != b_len {
        return false;
    }
    let mut i: usize = 0;
    while i < a_len
        invariant
            a_len == a@.len(),
            b_len == b@.len(),
            a_len == b_len,
            i <= a_len,
            forall|j: int| 0 <= j < i ==> a@[j] == b@[j],
        decreases a_len - i,
    {
        if a.get_char(i) != b.get_char(i) {
            return false;
        }
        i += 1;
    }
    proof {
        assert(a@ =~= b@);
    }
    true
}

/// The action a message text stands for: an exact match against one of
/// the four command literals, anything else a no-op.
pub open spec fn spec_parse(t: Seq<char>) -> UserAction {
    if t == "!like"@ {
        UserAction::Like
    } else if t == "!dislike"@ {
        UserAction::Dislike
    } else if t == "!lurk"@ {
        UserAction::Lurk
    } else if t == "!refundlike"@ {
        UserAction::RefundLike
    } else {
        UserAction::NoOp
    }
}

/// Classifies one message text.
pub fn parse(text: &str) -> (a: UserAction)
    ensures
        a == spec_parse(text@),
{
    if str_eq(text, "!like") {
        UserAction::Like
    } else if str_eq(text, "!dislike") {
        UserAction::Dislike
    } else if str_eq(text, "!lurk") {
        UserAction::Lurk
    } else if str_eq(text, "!refundlike") {
        UserAction::RefundLike
    } else {
        UserAction::NoOp
    }
}

/// A present field carrying the channel-marker prefix `#`.
pub open spec fn spec_is_user_name(name: Option<&String>) -> bool {
    match name {
        Option::None => false,
        Option::Some(n) => n@.len() > 0 && n@[0] == '#',
    }
}

/// Whether an event field designates a channel: present and marked `#`.
pub fn is_user_name(name: Option<&String>) -> (r: bool)
    ensures
        r == spec_is_user_name(name),
{
    match name {
        Option::None => false,
        Option::Some(n) => {
            let s = n.as_str();
            if s.unicode_len() == 0 {
                false
            } else {
                s.get_char(0) == '#'
            }
        },
    }
}

/// Drops the leading channel-marker character, leaving the bare identity.
pub fn strip_channel_marker(name: &String) -> (r: String)
    requires
        name@.len() > 0,
    ensures
        r@ == name@.subrange(1, name@.len() as int),
{
    let s = name.as_str();
    let len = s.unicode_len();
    let bare = s.substring_char(1, len);
    bare.to_owned()
}

} // verus!
