//! At most one request per chat: the set of chats that have a request under
//! way, with a test-and-insert that decides who may start.

use vstd::prelude::*;
use dashmap::DashSet;
use std::collections::hash_map::RandomState;

verus! {

/// `dashmap::DashSet`, the hash set that holds the chats. Nothing of what is
/// inside is visible here.
#[verifier::external_type_specification]
#[verifier::external_body]
#[verifier::reject_recursive_types(K)]
#[verifier::reject_recursive_types(S)]
pub struct ExDashSet<K, S>(DashSet<K, S>);

/// The keys that a `DashSet` holds.
pub uninterp spec fn set_contents(set: DashSet<i64, RandomState>) -> Set<i64>;

/// `DashSet::new` gives a set without keys.
#[verifier::external_body]
fn set_new() -> (set: DashSet<i64, RandomState>)
    ensures
        set_contents(set) == Set::<i64>::empty(),
{
    DashSet::new()
}

/// `DashSet::insert` adds the key and returns whether it was absent before.
/// The set is borrowed for this call alone, so nothing else changes it
/// meanwhile.
#[verifier::external_body]
fn set_insert(set: &mut DashSet<i64, RandomState>, key: i64) -> (fresh: bool)
    ensures
        fresh == !set_contents(*old(set)).contains(key),
        set_contents(*final(set)) == set_contents(*old(set)).insert(key),
{
    set.insert(key)
}

/// `DashSet::remove` takes the key out and returns it if it was present.
/// The set is borrowed for this call alone, so nothing else changes it
/// meanwhile.
#[verifier::external_body]
fn set_remove(set: &mut DashSet<i64, RandomState>, key: i64) -> (removed: Option<i64>)
    ensures
        removed == (if set_contents(*old(set)).contains(key) {
            Some(key)
        } else {
            None
        }),
        set_contents(*final(set)) == set_contents(*old(set)).remove(key),
{
    set.remove(&key)
}

/// `DashSet::contains` tells whether the key is present.
#[verifier::external_body]
fn set_contains(set: &DashSet<i64, RandomState>, key: i64) -> (present: bool)
    ensures
        present == set_contents(*set).contains(key),
{
    set.contains(&key)
}

/// What an attempt to start a request for `chat_id` does to the set of held
/// chats, and whether it is granted: it is granted exactly when the chat was
/// not held, and the chat is held afterwards either way.
pub open spec fn acquire(held: Set<i64>, chat_id: i64) -> (Set<i64>, bool) {
    (held.insert(chat_id), !held.contains(chat_id))
}

/// What the end of a request for `chat_id` does to the set of held chats.
pub open spec fn release(held: Set<i64>, chat_id: i64) -> Set<i64> {
    held.remove(chat_id)
}

/// The proof that a request for a chat was granted. It is handed back to the
/// limiter when the request is over.
#[derive(Debug)]
pub struct LockGuard {
    id: i64,
}

impl LockGuard {
    /// The chat that the guard holds.
    pub closed spec fn chat(&self) -> i64 {
        self.id
    }

    pub fn chat_id(&self) -> (id: i64)
        ensures
            id == self.chat(),
    {
        self.id
    }
}

/// The chats that have a request under way.
pub struct ConcurrencyLimiter {
    processing_users: DashSet<i64, RandomState>,
}

impl ConcurrencyLimiter {
    /// The chats that are held.
    pub closed spec fn held(&self) -> Set<i64> {
        set_contents(self.processing_users)
    }

    /// A limiter that holds no chat.
    pub fn new() -> (limiter: Self)
        ensures
            limiter.held() == Set::<i64>::empty(),
    {
        ConcurrencyLimiter { processing_users: set_new() }
    }

    /// Attempts to start a request for a chat. Returns a guard if the chat
    /// was free, and `None`, at once, if a request for it is under way.
    pub fn try_lock(&mut self, chat_id: i64) -> (guard: Option<LockGuard>)
        ensures
            (final(self).held(), guard is Some) == acquire(old(self).held(), chat_id),
            guard matches Some(granted) ==> granted.chat() == chat_id,
    {
        if set_insert(&mut self.processing_users, chat_id) {
            Some(LockGuard { id: chat_id })
        } else {
            None
        }
    }

    /// Ends the request that the guard stands for: its chat is free again.
    pub fn unlock(&mut self, guard: LockGuard)
        ensures
            final(self).held() == release(old(self).held(), guard.chat()),
    {
        let _ = set_remove(&mut self.processing_users, guard.id);
    }

    /// Whether a request for the chat is under way.
    pub fn is_locked(&self, chat_id: i64) -> (locked: bool)
        ensures
            locked == self.held().contains(chat_id),
    {
        set_contains(&self.processing_users, chat_id)
    }
}

impl Default for ConcurrencyLimiter {
    fn default() -> (limiter: Self)
        ensures
            limiter.held() == Set::<i64>::empty(),
    {
        ConcurrencyLimiter::new()
    }
}

/// Of two attempts for one chat with no release in between, the second is
/// refused; where the chat was free, the first is granted, so exactly one of
/// the two is.
pub proof fn lemma_second_attempt_is_refused(held: Set<i64>, chat_id: i64)
    ensures
        !acquire(acquire(held, chat_id).0, chat_id).1,
        !held.contains(chat_id) ==> acquire(held, chat_id).1,
{
}

/// A chat is free again once its request is released, so the next attempt for
/// it is granted.
pub proof fn lemma_release_frees_chat(held: Set<i64>, chat_id: i64)
    ensures
        acquire(release(acquire(held, chat_id).0, chat_id), chat_id).1,
{
}

/// Requests for different chats do not hinder each other.
pub proof fn lemma_chats_are_independent(held: Set<i64>, chat_id: i64, other: i64)
    requires
        chat_id != other,
    ensures
        acquire(acquire(held, other).0, chat_id).1 == acquire(held, chat_id).1,
        acquire(release(held, other), chat_id).1 == acquire(held, chat_id).1,
{
}

} // verus!
