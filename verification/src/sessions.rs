//! Live ssh sessions and typed passwords, kept by `[user@]host` for the
//! rest of the app run.
//!
//! Lets the file browser reuse an already authenticated connection instead
//! of running the ssh handshake again: whatever the user types to reach a
//! host costs at most one authentication per app run.

use crate::paths::opt;
use crate::text::{lower, to_lower, trim, trimmed};
use vstd::hash_map::StringHashMap;
use vstd::prelude::*;

verus! {

/// Key under which everything about a target is kept.
pub open spec fn key_of(target: Seq<char>) -> Seq<char> {
    lower(trim(target))
}

/// Normalize `[user@]host[:port]` into a stable pool key.
pub fn target_key(target: &str) -> (r: String)
    ensures
        r@ == key_of(target@),
{
    let bare = trimmed(target);
    to_lower(bare.as_str())
}

/// What is kept between connections.
///
/// A second connection to a password-only host would otherwise ask again
/// (a session only helps once it exists), and every parallel lane needs
/// its own connection. Passwords stay in memory until the app exits; a
/// failed attempt forgets its password, so the user is asked again instead
/// of looping on a stale value.
pub struct SessionStore {
    passwords: StringHashMap<String>,
    sessions: StringHashMap<u64>,
}

/// What is kept, by key.
#[verifier::ext_equal]
pub struct StoreModel {
    pub passwords: Map<Seq<char>, Seq<char>>,
    /// Handles of the live sessions.
    pub sessions: Map<Seq<char>, u64>,
}

impl View for SessionStore {
    type V = StoreModel;

    closed spec fn view(&self) -> StoreModel {
        StoreModel {
            passwords: Map::new(
                |k: Seq<char>| self.passwords@.contains_key(k),
                |k: Seq<char>| self.passwords@[k]@,
            ),
            sessions: self.sessions@,
        }
    }
}

impl StoreModel {
    pub open spec fn fresh() -> StoreModel {
        StoreModel { passwords: Map::empty(), sessions: Map::empty() }
    }

    /// The remembered password for a target.
    pub open spec fn password(self, target: Seq<char>) -> Option<Seq<char>> {
        if self.passwords.contains_key(key_of(target)) {
            Some(self.passwords[key_of(target)])
        } else {
            None
        }
    }

    pub open spec fn forgotten(self, target: Seq<char>) -> StoreModel {
        StoreModel { passwords: self.passwords.remove(key_of(target)), ..self }
    }

    /// An empty password is not worth remembering.
    pub open spec fn remembered(self, target: Seq<char>, password: Seq<char>) -> StoreModel {
        if password.len() == 0 {
            self
        } else {
            StoreModel { passwords: self.passwords.insert(key_of(target), password), ..self }
        }
    }

    /// The live session for a target.
    pub open spec fn session(self, target: Seq<char>) -> Option<u64> {
        if self.sessions.contains_key(key_of(target)) {
            Some(self.sessions[key_of(target)])
        } else {
            None
        }
    }

    pub open spec fn pooled(self, target: Seq<char>, session: u64) -> StoreModel {
        StoreModel { sessions: self.sessions.insert(key_of(target), session), ..self }
    }

    pub open spec fn evicted(self, target: Seq<char>) -> StoreModel {
        StoreModel { sessions: self.sessions.remove(key_of(target)), ..self }
    }
}

impl SessionStore {
    pub fn new() -> (r: Self)
        ensures
            r@ == StoreModel::fresh(),
    {
        SessionStore { passwords: StringHashMap::new(), sessions: StringHashMap::new() }
    }
}

/// Take the remembered password for `target`, if any. Taking it means a
/// rejected attempt cannot be retried from the same stale value.
pub fn take_password(store: &mut SessionStore, target: &str) -> (r: Option<String>)
    ensures
        opt(r) == old(store)@.password(target@),
        final(store)@ == old(store)@.forgotten(target@),
{
    let key = target_key(target);
    let taken = match store.passwords.get(key.as_str()) {
        Some(p) => Some(p.clone()),
        None => None,
    };
    store.passwords.remove(key.as_str());
    taken
}

/// Remember a password that just worked.
pub fn remember_password(store: &mut SessionStore, target: &str, password: &str)
    ensures
        final(store)@ == old(store)@.remembered(target@, password@),
{
    if !password.is_empty() {
        let key = target_key(target);
        store.passwords.insert(key, password.to_owned());
    }
}

/// Forget the remembered password for `target`.
pub fn forget_password(store: &mut SessionStore, target: &str)
    ensures
        final(store)@ == old(store)@.forgotten(target@),
{
    let key = target_key(target);
    store.passwords.remove(key.as_str());
}

/// The handle of the pooled session for `target`, if one is live.
pub fn get(store: &SessionStore, target: &str) -> (r: Option<u64>)
    ensures
        r == store@.session(target@),
{
    let key = target_key(target);
    match store.sessions.get(key.as_str()) {
        Some(s) => Some(*s),
        None => None,
    }
}

/// Store a freshly authenticated session under `target`.
pub fn insert(store: &mut SessionStore, target: &str, session: u64)
    ensures
        final(store)@ == old(store)@.pooled(target@, session),
{
    let key = target_key(target);
    store.sessions.insert(key, session);
}

/// Drop the pooled entry for `target` after its session died.
pub fn evict(store: &mut SessionStore, target: &str)
    ensures
        final(store)@ == old(store)@.evicted(target@),
{
    let key = target_key(target);
    store.sessions.remove(key.as_str());
}

/// A password that worked answers the next connection to the same host, and
/// is gone once it was taken.
pub proof fn a_password_answers_once(
    m: StoreModel,
    target: Seq<char>,
    again: Seq<char>,
    password: Seq<char>,
)
    requires
        password.len() > 0,
        key_of(target) == key_of(again),
    ensures
        m.remembered(target, password).password(again) == Some(password),
        m.remembered(target, password).forgotten(again).password(again) is None,
{
}

/// A stored session is found again until it is evicted; other hosts and the
/// passwords stay as they are.
pub proof fn a_session_is_found_until_evicted(
    m: StoreModel,
    target: Seq<char>,
    other: Seq<char>,
    session: u64,
)
    ensures
        m.pooled(target, session).session(target) == Some(session),
        m.pooled(target, session).evicted(target).session(target) is None,
        key_of(other) != key_of(target) ==> m.pooled(target, session).session(other) == m.session(
            other,
        ) && m.evicted(target).session(other) == m.session(other),
        m.pooled(target, session).passwords == m.passwords,
        m.evicted(target).passwords == m.passwords,
{
}

/// A password is kept for its own target and no other, and never an empty
/// one; neither remembering nor forgetting touches a session.
pub proof fn passwords_do_not_mix(
    m: StoreModel,
    target: Seq<char>,
    other: Seq<char>,
    password: Seq<char>,
)
    ensures
        key_of(other) != key_of(target) ==> m.remembered(target, password).password(other)
            == m.password(other) && m.forgotten(target).password(other) == m.password(other),
        password.len() == 0 ==> m.remembered(target, password) == m,
        m.remembered(target, password).sessions == m.sessions,
        m.forgotten(target).sessions == m.sessions,
        m.forgotten(target).password(target) is None,
        StoreModel::fresh().password(target) is None,
        StoreModel::fresh().session(target) is None,
{
}

/// A target is known however it was typed: white space around it and the
/// case of its letters make no difference.
pub proof fn targets_are_known_however_typed(a: Seq<char>, b: Seq<char>)
    requires
        lower(trim(a)) == lower(trim(b)),
    ensures
        key_of(a) == key_of(b),
        key_of(a) == lower(trim(a)),
{
}

} // verus!
