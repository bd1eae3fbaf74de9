//! Per-user state and the reducer that applies one action to it.
//!
//! A user's state is a set of three flags. `Like` and `Dislike` are
//! mutually exclusive sentiment flags; `HasLurked` is monotonic once set.

use vstd::prelude::*;

verus! {

/// One user's flags. Absence of an entry in the store is equivalent to
/// `UserState::empty()`.
#[derive(Clone, Copy, PartialEq, Eq, Structural, Debug)]
pub struct UserState {
    pub like: bool,
    pub dislike: bool,
    pub has_lurked: bool,
}

/// The action derived from one chat message.
#[derive(Clone, Copy, PartialEq, Eq, Structural, Debug)]
pub enum UserAction {
    Lurk,
    Like,
    Dislike,
    RefundLike,
    NoOp,
}

impl UserState {
    /// The state of a user no message has been applied for: no flags set.
    pub open spec fn spec_empty() -> UserState {
        UserState { like: false, dislike: false, has_lurked: false }
    }

    pub fn empty() -> (s: UserState)
        ensures
            s == UserState::spec_empty(),
    {
        UserState { like: false, dislike: false, has_lurked: false }
    }

    /// The sentiment flags are mutually exclusive.
    pub open spec fn sentiment_exclusive(self) -> bool {
        !(self.like && self.dislike)
    }
}

/// What one action does to one user's flags.
pub open spec fn spec_step(s: UserState, a: UserAction) -> UserState {
    match a {
        UserAction::Lurk => UserState { has_lurked: true, ..s },
        UserAction::Like => if s.like {
            s
        } else {
            UserState { like: true, dislike: false, ..s }
        },
        UserAction::Dislike => if s.dislike {
            s
        } else {
            UserState { like: false, dislike: true, ..s }
        },
        UserAction::RefundLike => UserState { like: false, dislike: false, ..s },
        UserAction::NoOp => s,
    }
}

/// The state one user's flags reach after a whole sequence of actions,
/// applied in order.
pub open spec fn spec_step_seq(s: UserState, actions: Seq<UserAction>) -> UserState
    decreases actions.len(),
{
    if actions.len() == 0 {
        s
    } else {
        spec_step_seq(spec_step(s, actions[0]), actions.drop_first())
    }
}

/// Law: no sequence of actions ever makes a user hold both sentiment
/// flags at once.
pub proof fn lemma_sentiment_exclusive(s: UserState, actions: Seq<UserAction>)
    requires
        s.sentiment_exclusive(),
    ensures
        spec_step_seq(s, actions).sentiment_exclusive(),
    decreases actions.len(),
{
    if actions.len() > 0 {
        lemma_sentiment_exclusive(spec_step(s, actions[0]), actions.drop_first());
    }
}

/// Law: the lurk flag, once set, survives any sequence of actions.
pub proof fn lemma_lurk_monotonic(s: UserState, actions: Seq<UserAction>)
    requires
        s.has_lurked,
    ensures
        spec_step_seq(s, actions).has_lurked,
    decreases actions.len(),
{
    if actions.len() > 0 {
        lemma_lurk_monotonic(spec_step(s, actions[0]), actions.drop_first());
    }
}

/// Law: applying `Like` twice in a row is the same as applying it once.
pub proof fn lemma_like_idempotent(s: UserState)
    ensures
        spec_step(spec_step(s, UserAction::Like), UserAction::Like) == spec_step(
            s,
            UserAction::Like,
        ),
{
}

/// Law: `RefundLike` leaves the user with neither sentiment flag, in
/// whatever state it finds the user, and never touches the lurk flag.
pub proof fn lemma_refund_clears_sentiment(s: UserState)
    ensures
        !spec_step(s, UserAction::RefundLike).like,
        !spec_step(s, UserAction::RefundLike).dislike,
        spec_step(s, UserAction::RefundLike).has_lurked == s.has_lurked,
{
}

/// Applies one action to one user's flags.
pub fn step(s: UserState, a: UserAction) -> (r: UserState)
    ensures
        r == spec_step(s, a),
{
    match a {
        UserAction::Lurk => UserState { has_lurked: true, ..s },
        UserAction::Like => if s.like {
            s
        } else {
            UserState { like: true, dislike: false, ..s }
        },
        UserAction::Dislike => if s.dislike {
            s
        } else {
            UserState { like: false, dislike: true, ..s }
        },
        UserAction::RefundLike => UserState { like: false, dislike: false, ..s },
        UserAction::NoOp => s,
    }
}

} // verus!
