//! The user-state store and the aggregate query.
//!
//! The store maps each user identity to that user's flags, with at most
//! one entry per identity. The reducer is the sole writer; the aggregate
//! query reads every entry and computes the two counts served per request.

use vstd::prelude::*;
use vstd::pervasive::VecAdditionalExecFns;

use crate::parse::{is_user_name, parse, spec_is_user_name, spec_parse, str_eq,
    strip_channel_marker};
use crate::reducer::{spec_step, step, UserAction, UserState};

verus! {

/// One store entry: a user identity and that user's flags.
pub struct UserEntry {
    pub name: String,
    pub state: UserState,
}

/// The aggregate counts computed per query. `like_count` is net
/// sentiment (likers minus dislikers) and may be negative.
#[derive(Clone, Copy, PartialEq, Eq, Structural, Debug)]
pub struct Data {
    pub lurk_count: i32,
    pub like_count: i32,
}

/// The mathematical content of the store: a sequence of
/// (identity, flags) pairs.
pub type Entries = Seq<(Seq<char>, UserState)>;

/// Each identity appears at most once.
pub open spec fn unique_keys(entries: Entries) -> bool {
    forall|i: int, j: int|
        0 <= i < j < entries.len() ==> entries[i].0 != entries[j].0
}

/// Whether some entry holds this identity.
pub open spec fn spec_contains(entries: Entries, user: Seq<char>) -> bool {
    exists|i: int| 0 <= i < entries.len() && entries[i].0 == user
}

/// The flags recorded for an identity; an absent identity has no flags.
pub open spec fn spec_lookup(entries: Entries, user: Seq<char>) -> UserState
    decreases entries.len(),
{
    if entries.len() == 0 {
        UserState::spec_empty()
    } else if entries[0].0 == user {
        entries[0].1
    } else {
        spec_lookup(entries.drop_first(), user)
    }
}

/// How one applied action relates the store's content after a call to
/// its content before: the acting user's flags step by the action, every
/// other identity keeps its flags, and only the acting user's identity
/// may be newly present. A no-op leaves the content untouched.
pub open spec fn store_updated(pre: Entries, post: Entries, user: Seq<char>, a: UserAction) -> bool {
    if a == UserAction::NoOp {
        post == pre
    } else {
        &&& spec_lookup(post, user) == spec_step(spec_lookup(pre, user), a)
        &&& forall|k: Seq<char>|
            k != user ==> #[trigger] spec_lookup(post, k) == spec_lookup(pre, k)
        &&& forall|k: Seq<char>|
            #[trigger] spec_contains(post, k) <==> spec_contains(pre, k) || k == user
    }
}

proof fn lemma_lookup_found(entries: Entries, i: int)
    requires
        unique_keys(entries),
        0 <= i < entries.len(),
    ensures
        spec_lookup(entries, entries[i].0) == entries[i].1,
    decreases i,
{
    if i > 0 {
        assert(entries[0].0 != entries[i].0);
        let rest = entries.drop_first();
        assert(unique_keys(rest)) by {
            assert forall|x: int, y: int| 0 <= x < y < rest.len() implies rest[x].0 != rest[y].0 by {
                assert(entries[x + 1].0 != entries[y + 1].0);
            }
        }
        lemma_lookup_found(rest, i - 1);
        assert(rest[i - 1] == entries[i]);
    }
}

proof fn lemma_lookup_absent(entries: Entries, user: Seq<char>)
    requires
        !spec_contains(entries, user),
    ensures
        spec_lookup(entries, user) == UserState::spec_empty(),
    decreases entries.len(),
{
    if entries.len() > 0 {
        assert(entries[0].0 != user);
        let rest = entries.drop_first();
        assert(!spec_contains(rest, user)) by {
            if spec_contains(rest, user) {
                let w = choose|w: int| 0 <= w < rest.len() && rest[w].0 == user;
                assert(entries[w + 1].0 == user);
            }
        }
        lemma_lookup_absent(rest, user);
    }
}

proof fn lemma_lookup_update(entries: Entries, i: int, st: UserState)
    requires
        unique_keys(entries),
        0 <= i < entries.len(),
    ensures
        unique_keys(entries.update(i, (entries[i].0, st))),
        spec_lookup(entries.update(i, (entries[i].0, st)), entries[i].0) == st,
        forall|k: Seq<char>|
            k != entries[i].0 ==> #[trigger] spec_lookup(entries.update(i, (entries[i].0, st)), k)
                == spec_lookup(entries, k),
        forall|k: Seq<char>|
            #[trigger] spec_contains(entries.update(i, (entries[i].0, st)), k)
                <==> spec_contains(entries, k),
    decreases entries.len(),
{
    let post = entries.update(i, (entries[i].0, st));
    assert(forall|j: int| 0 <= j < entries.len() ==> post[j].0 == entries[j].0);
    assert forall|k: Seq<char>| #[trigger] spec_contains(post, k) <==> spec_contains(entries, k) by {
        if spec_contains(post, k) {
            let w = choose|w: int| 0 <= w < post.len() && post[w].0 == k;
            assert(entries[w].0 == k);
        }
        if spec_contains(entries, k) {
            let w = choose|w: int| 0 <= w < entries.len() && entries[w].0 == k;
            assert(post[w].0 == k);
        }
    }
    if i == 0 {
        assert(post.drop_first() =~= entries.drop_first());
        assert forall|k: Seq<char>| k != entries[0].0 implies
            #[trigger] spec_lookup(post, k) == spec_lookup(entries, k) by {
            assert(spec_lookup(post, k) == spec_lookup(post.drop_first(), k));
        }
    } else {
        let rest = entries.drop_first();
        assert(unique_keys(rest)) by {
            assert forall|x: int, y: int| 0 <= x < y < rest.len() implies rest[x].0 != rest[y].0 by {
                assert(entries[x + 1].0 != entries[y + 1].0);
            }
        }
        assert(rest[i - 1] == entries[i]);
        lemma_lookup_update(rest, i - 1, st);
        assert(post.drop_first() =~= rest.update(i - 1, (entries[i].0, st)));
        assert(entries[0].0 != entries[i].0);
        assert(post[0] == entries[0]);
        assert(spec_lookup(post, entries[i].0) == spec_lookup(post.drop_first(), entries[i].0));
        assert forall|k: Seq<char>| k != entries[i].0 implies
            #[trigger] spec_lookup(post, k) == spec_lookup(entries, k) by {
            if k != entries[0].0 {
                assert(spec_lookup(post, k) == spec_lookup(post.drop_first(), k));
                assert(spec_lookup(entries, k) == spec_lookup(rest, k));
            }
        }
    }
}

proof fn lemma_lookup_push(entries: Entries, user: Seq<char>, st: UserState)
    requires
        unique_keys(entries),
        !spec_contains(entries, user),
    ensures
        unique_keys(entries.push((user, st))),
        spec_lookup(entries.push((user, st)), user) == st,
        forall|k: Seq<char>|
            k != user ==> #[trigger] spec_lookup(entries.push((user, st)), k)
                == spec_lookup(entries, k),
        forall|k: Seq<char>|
            #[trigger] spec_contains(entries.push((user, st)), k)
                <==> spec_contains(entries, k) || k == user,
    decreases entries.len(),
{
    let post = entries.push((user, st));
    assert(forall|j: int| 0 <= j < entries.len() ==> post[j] == entries[j]);
    assert(post[entries.len() as int].0 == user);
    assert forall|x: int, y: int| 0 <= x < y < post.len() implies post[x].0 != post[y].0 by {
        if y == entries.len() {
            assert(entries[x].0 != user);
        }
    }
    assert forall|k: Seq<char>|
        #[trigger] spec_contains(post, k) <==> spec_contains(entries, k) || k == user by {
        if spec_contains(post, k) {
            let w = choose|w: int| 0 <= w < post.len() && post[w].0 == k;
            if w < entries.len() {
                assert(entries[w].0 == k);
            }
        }
        if spec_contains(entries, k) {
            let w = choose|w: int| 0 <= w < entries.len() && entries[w].0 == k;
            assert(post[w].0 == k);
        }
    }
    if entries.len() == 0 {
        assert(post[0].0 == user);
        assert(post.drop_first() =~= Seq::<(Seq<char>, UserState)>::empty());
        assert forall|k: Seq<char>| k != user implies
            #[trigger] spec_lookup(post, k) == spec_lookup(entries, k) by {
            assert(spec_lookup(post, k) == spec_lookup(post.drop_first(), k));
        }
    } else {
        assert(entries[0].0 != user);
        let rest = entries.drop_first();
        assert(unique_keys(rest)) by {
            assert forall|x: int, y: int| 0 <= x < y < rest.len() implies rest[x].0 != rest[y].0 by {
                assert(entries[x + 1].0 != entries[y + 1].0);
            }
        }
        assert(!spec_contains(rest, user)) by {
            if spec_contains(rest, user) {
                let w = choose|w: int| 0 <= w < rest.len() && rest[w].0 == user;
                assert(entries[w + 1].0 == user);
            }
        }
        lemma_lookup_push(rest, user, st);
        assert(post.drop_first() =~= rest.push((user, st)));
        assert(post[0] == entries[0]);
        assert(spec_lookup(post, user) == spec_lookup(post.drop_first(), user));
        assert forall|k: Seq<char>| k != user implies
            #[trigger] spec_lookup(post, k) == spec_lookup(entries, k) by {
            if k != entries[0].0 {
                assert(spec_lookup(post, k) == spec_lookup(post.drop_first(), k));
                assert(spec_lookup(entries, k) == spec_lookup(rest, k));
            }
        }
    }
}

/// Every identity's flags are sentiment-exclusive.
pub open spec fn all_sentiment_exclusive(entries: Entries) -> bool {
    forall|k: Seq<char>| (#[trigger] spec_lookup(entries, k)).sentiment_exclusive()
}

/// Law: one applied action keeps every identity's flags
/// sentiment-exclusive, whatever the action and whoever acts.
pub proof fn lemma_store_sentiment_exclusive(
    pre: Entries,
    post: Entries,
    user: Seq<char>,
    a: UserAction,
)
    requires
        store_updated(pre, post, user, a),
        all_sentiment_exclusive(pre),
    ensures
        all_sentiment_exclusive(post),
{
    if a != UserAction::NoOp {
        assert forall|k: Seq<char>|
            (#[trigger] spec_lookup(post, k)).sentiment_exclusive() by {
            if k == user {
                assert(spec_lookup(pre, user).sentiment_exclusive());
            } else {
                assert(spec_lookup(post, k) == spec_lookup(pre, k));
            }
        }
    }
}

/// Net sentiment over the entries: +1 per liker, -1 per disliker.
pub open spec fn spec_like_count(entries: Entries) -> int
    decreases entries.len(),
{
    if entries.len() == 0 {
        0
    } else {
        spec_like_count(entries.drop_last())
            + (if entries.last().1.like { 1int } else { 0int })
            - (if entries.last().1.dislike { 1int } else { 0int })
    }
}

/// How many entries carry the lurk flag.
pub open spec fn spec_lurk_count(entries: Entries) -> int
    decreases entries.len(),
{
    if entries.len() == 0 {
        0
    } else {
        spec_lurk_count(entries.drop_last())
            + (if entries.last().1.has_lurked { 1int } else { 0int })
    }
}

/// The process-wide store. Created empty; the reducer is the only writer.
pub struct AppState {
    pub user_data: Vec<UserEntry>,
}

impl AppState {
    /// The store's content as identity/flags pairs.
    pub open spec fn entries(self) -> Entries {
        self.user_data@.map_values(|e: UserEntry| (e.name@, e.state))
    }

    /// Well-formed: one entry per identity.
    pub open spec fn wf(self) -> bool {
        unique_keys(self.entries())
    }

    /// An empty store: no identities, no flags.
    pub fn new() -> (s: AppState)
        ensures
            s.wf(),
            s.entries() == Seq::<(Seq<char>, UserState)>::empty(),
    {
        let s = AppState { user_data: Vec::new() };
        proof {
            assert(s.entries() =~= Seq::<(Seq<char>, UserState)>::empty());
        }
        s
    }

    /// Applies one action to one user's entry, creating the entry (empty)
    /// when the user is absent and the action does something. A no-op
    /// action leaves the store untouched — no entry is created for it.
    pub fn apply(&mut self, user: &str, action: UserAction)
        requires
            old(self).wf(),
        ensures
            final(self).wf(),
            store_updated(old(self).entries(), final(self).entries(), user@, action),
    {
        if matches!(action, UserAction::NoOp) {
            return;
        }
        let n = self.user_data.len();
        let mut i: usize = 0;
        while i < n
            invariant
                old(self).wf(),
                action != UserAction::NoOp,
                n == self.user_data.len(),
                i <= n,
                *self == *old(self),
                forall|j: int| 0 <= j < i ==> #[trigger] self.entries()[j].0 != user@,
            decreases n - i,
        {
            if str_eq(self.user_data[i].name.as_str(), user) {
                let st = self.user_data[i].state;
                let name = self.user_data[i].name.clone();
                let new_state = step(st, action);
                self.user_data.set(i, UserEntry { name, state: new_state });
                proof {
                    let pre = old(self).entries();
                    assert(pre.len() == n);
                    assert(pre[i as int].0 == user@);
                    assert(pre[i as int].1 == st);
                    assert(self.entries() =~= pre.update(i as int, (user@, spec_step(st, action))));
                    lemma_lookup_found(pre, i as int);
                    lemma_lookup_update(pre, i as int, spec_step(st, action));
                    assert(spec_contains(pre, user@));
                }
                return;
            }
            i += 1;
        }
        proof {
            let pre = old(self).entries();
            assert(!spec_contains(pre, user@)) by {
                if spec_contains(pre, user@) {
                    let w = choose|w: int| 0 <= w < pre.len() && pre[w].0 == user@;
                    assert(self.entries()[w].0 != user@);
                }
            }
            lemma_lookup_absent(pre, user@);
        }
        let fresh = step(UserState::empty(), action);
        self.user_data.push(UserEntry { name: user.to_owned(), state: fresh });
        proof {
            let pre = old(self).entries();
            assert(self.entries() =~= pre.push((user@, spec_step(UserState::spec_empty(), action))));
            lemma_lookup_push(pre, user@, spec_step(UserState::spec_empty(), action));
        }
    }

    /// Computes the aggregate counts by one pass over every entry.
    /// An empty store yields zero for both counts.
    pub fn snapshot(&self) -> (d: Data)
        requires
            self.user_data@.len() <= i32::MAX as int,
        ensures
            d.like_count as int == spec_like_count(self.entries()),
            d.lurk_count as int == spec_lurk_count(self.entries()),
    {
        let mut like_count: i32 = 0;
        let mut lurk_count: i32 = 0;
        let n = self.user_data.len();
        let mut i: usize = 0;
        while i < n
            invariant
                n == self.user_data.len(),
                self.user_data@.len() <= i32::MAX as int,
                i <= n,
                like_count as int == spec_like_count(self.entries().take(i as int)),
                lurk_count as int == spec_lurk_count(self.entries().take(i as int)),
                -(i as int) <= like_count as int <= i as int,
                0 <= lurk_count as int <= i as int,
            decreases n - i,
        {
            proof {
                assert(self.entries().take(i as int + 1).drop_last() =~= self.entries().take(
                    i as int));
                assert(self.entries().take(i as int + 1).last() == self.entries()[i as int]);
            }
            if self.user_data[i].state.like {
                like_count = like_count + 1;
            }
            if self.user_data[i].state.dislike {
                like_count = like_count - 1;
            }
            if self.user_data[i].state.has_lurked {
                lurk_count = lurk_count + 1;
            }
            i += 1;
        }
        proof {
            assert(self.entries().take(n as int) =~= self.entries());
        }
        Data { lurk_count, like_count }
    }

    /// Reads one user's flags; an absent user has none.
    pub fn lookup(&self, user: &str) -> (r: UserState)
        requires
            self.wf(),
        ensures
            r == spec_lookup(self.entries(), user@),
    {
        let n = self.user_data.len();
        let mut i: usize = 0;
        while i < n
            invariant
                self.wf(),
                n == self.user_data.len(),
                i <= n,
                forall|j: int| 0 <= j < i ==> #[trigger] self.entries()[j].0 != user@,
            decreases n - i,
        {
            if str_eq(self.user_data[i].name.as_str(), user) {
                proof {
                    lemma_lookup_found(self.entries(), i as int);
                }
                return self.user_data[i].state;
            }
            i += 1;
        }
        proof {
            assert(!spec_contains(self.entries(), user@)) by {
                if spec_contains(self.entries(), user@) {
                    let w = choose|w: int|
                        0 <= w < self.entries().len() && self.entries()[w].0 == user@;
                    assert(self.entries()[w].0 != user@);
                }
            }
            lemma_lookup_absent(self.entries(), user@);
        }
        UserState::empty()
    }

    /// Handles one raw stream event, given its first two positional
    /// fields. An event without a marked channel field or without a
    /// message field is discarded; otherwise the marker is stripped, the
    /// message classified, and the action applied for that identity.
    pub fn handle_event(&mut self, name: Option<&String>, msg: Option<&String>)
        requires
            old(self).wf(),
        ensures
            final(self).wf(),
            match (name, msg) {
                (Option::Some(n), Option::Some(m)) => if spec_is_user_name(name) {
                    store_updated(
                        old(self).entries(),
                        final(self).entries(),
                        n@.subrange(1, n@.len() as int),
                        spec_parse(m@),
                    )
                } else {
                    *final(self) == *old(self)
                },
                _ => *final(self) == *old(self),
            },
    {
        if !is_user_name(name) {
            return;
        }
        let m = match msg {
            Option::Some(m) => m,
            Option::None => {
                return;
            },
        };
        let n = match name {
            Option::Some(n) => n,
            Option::None => {
                return;
            },
        };
        let key = strip_channel_marker(n);
        let action = parse(m.as_str());
        self.apply(key.as_str(), action);
    }
}

} // verus!

