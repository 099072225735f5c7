//! Sessions and single-use OAuth states.
//!
//! Both live in expiring key-value tables: a session maps a random
//! 32-character identifier to `{user_id, created_at}` for seven days; an
//! OAuth state is a bare token that lives ten minutes and is consumed by
//! the first callback that presents it. The host program mirrors every
//! write to the external key-value server under the keys built by
//! [`SessionStore::session_key`] and [`SessionStore::oauth_state_key`].

use crate::kv::ExpiringKv;
use crate::kv::live_at;
use crate::random::generate_random_id;
use crate::random::is_alphanumeric_id;
use vstd::prelude::*;
use vstd::string::StringExecFns;

verus! {

/// Seconds a session lives: seven days.
pub const SESSION_TTL_SECONDS: i64 = 60 * 60 * 24 * 7;

/// Seconds an OAuth state lives: ten minutes.
pub const OAUTH_STATE_TTL_SECONDS: i64 = 600;

/// What a session identifier resolves to.
#[derive(Clone, Copy, Debug, PartialEq, Eq, Structural)]
pub struct SessionData {
    pub user_id: i64,
    pub created_at: i64,
}

/// The abstract content of the store: two maps from token to value and
/// expiry instant.
#[verifier::ext_equal]
pub ghost struct StoreModel {
    pub sessions: Map<Seq<char>, (SessionData, int)>,
    pub states: Map<Seq<char>, ((), int)>,
}

/// The model after a session `id` is created for `user_id` at `now`.
pub open spec fn spec_create_session(m: StoreModel, id: Seq<char>, user_id: i64, now: i64) -> StoreModel {
    StoreModel {
        sessions: m.sessions.insert(
            id,
            (SessionData { user_id, created_at: now }, now + SESSION_TTL_SECONDS),
        ),
        states: m.states,
    }
}

/// What looking a session up at time `now` returns.
pub open spec fn spec_get_session(m: StoreModel, id: Seq<char>, now: i64) -> Option<SessionData> {
    if live_at(m.sessions, id, now as int) {
        Some(m.sessions[id].0)
    } else {
        None
    }
}

/// The model after an OAuth state is stored at `now`.
pub open spec fn spec_store_oauth_state(m: StoreModel, state: Seq<char>, now: i64) -> StoreModel {
    StoreModel {
        sessions: m.sessions,
        states: m.states.insert(state, ((), now + OAUTH_STATE_TTL_SECONDS)),
    }
}

/// Whether an OAuth state is present and not yet expired at `now`.
pub open spec fn state_live(m: StoreModel, state: Seq<char>, now: i64) -> bool {
    live_at(m.states, state, now as int)
}

/// The model and outcome of consuming an OAuth state at `now`: a live
/// state is deleted and accepted; anything else is rejected untouched.
pub open spec fn spec_consume_oauth_state(m: StoreModel, state: Seq<char>, now: i64) -> (
    StoreModel,
    bool,
) {
    if state_live(m, state, now) {
        (StoreModel { sessions: m.sessions, states: m.states.remove(state) }, true)
    } else {
        (m, false)
    }
}

/// In-memory realization of the session store.
pub struct SessionStore {
    sessions: ExpiringKv<SessionData>,
    states: ExpiringKv<()>,
}

impl View for SessionStore {
    type V = StoreModel;

    closed spec fn view(&self) -> StoreModel {
        StoreModel { sessions: self.sessions@, states: self.states@ }
    }
}

impl SessionStore {
    /// Both underlying tables are well-formed.
    pub closed spec fn wf(&self) -> bool {
        self.sessions.wf() && self.states.wf()
    }

    /// An empty store.
    pub fn new() -> (s: Self)
        ensures
            s.wf(),
            s@.sessions == Map::<Seq<char>, (SessionData, int)>::empty(),
            s@.states == Map::<Seq<char>, ((), int)>::empty(),
    {
        SessionStore { sessions: ExpiringKv::new(), states: ExpiringKv::new() }
    }

    /// The key a session is stored under in the external key-value
    /// server.
    pub fn session_key(id: &str) -> (key: String)
        ensures
            key@ == "session:"@ + id@,
    {
        let mut key = "session:".to_owned();
        key.append(id);
        key
    }

    /// The key an OAuth state is stored under in the external key-value
    /// server.
    pub fn oauth_state_key(state: &str) -> (key: String)
        ensures
            key@ == "oauth_state:"@ + state@,
    {
        let mut key = "oauth_state:".to_owned();
        key.append(state);
        key
    }

    /// Issue a fresh random session identifier for `user_id`, valid for
    /// seven days from `now`. An (astronomically unlikely) identifier
    /// collision overwrites the older session, as a plain write to the
    /// key-value server would.
    pub fn create_session(&mut self, user_id: i64, now: i64) -> (session_id: String)
        requires
            old(self).wf(),
            now <= i64::MAX - SESSION_TTL_SECONDS,
        ensures
            final(self).wf(),
            session_id@.len() == 32,
            is_alphanumeric_id(session_id@),
            final(self)@ == spec_create_session(old(self)@, session_id@, user_id, now),
    {
        let session_id = generate_random_id();
        let data = SessionData { user_id, created_at: now };
        self.sessions.put(session_id.clone(), data, now + SESSION_TTL_SECONDS);
        proof {
            assert(self@ =~= spec_create_session(old(self)@, session_id@, user_id, now));
        }
        session_id
    }

    /// Look a session up; absent and expired sessions are both "not
    /// found".
    pub fn get_session(&self, id: &str, now: i64) -> (r: Option<SessionData>)
        requires
            self.wf(),
        ensures
            r == spec_get_session(self@, id@, now),
    {
        self.sessions.get(id, now)
    }

    /// Remember an OAuth state for ten minutes from `now`.
    pub fn store_oauth_state(&mut self, state: &str, now: i64)
        requires
            old(self).wf(),
            now <= i64::MAX - OAUTH_STATE_TTL_SECONDS,
        ensures
            final(self).wf(),
            final(self)@ == spec_store_oauth_state(old(self)@, state@, now),
    {
        self.states.put(state.to_owned(), (), now + OAUTH_STATE_TTL_SECONDS);
        proof {
            assert(self@ =~= spec_store_oauth_state(old(self)@, state@, now));
        }
    }

    /// Accept an OAuth state if it is live, deleting it in the same
    /// step; report whether it was accepted.
    pub fn consume_oauth_state(&mut self, state: &str, now: i64) -> (accepted: bool)
        requires
            old(self).wf(),
        ensures
            final(self).wf(),
            accepted == state_live(old(self)@, state@, now),
            final(self)@ == spec_consume_oauth_state(old(self)@, state@, now).0,
    {
        match self.states.get(state, now) {
            Some(_) => {
                self.states.remove(state);
                proof {
                    assert(self@ =~= spec_consume_oauth_state(old(self)@, state@, now).0);
                }
                true
            },
            None => false,
        }
    }
}

/// An OAuth state stored at `now` is accepted by a consume at `t`
/// exactly while it lives, that is before ten minutes have passed.
pub proof fn lemma_oauth_state_consumable(m: StoreModel, state: Seq<char>, now: i64, t: i64)
    ensures
        spec_consume_oauth_state(spec_store_oauth_state(m, state, now), state, t).1 == (t < now
            + OAUTH_STATE_TTL_SECONDS),
{
}

/// Consuming an OAuth state succeeds at most once: after a successful
/// consume, every later consume of the same state is rejected, whatever
/// time it happens at.
pub proof fn lemma_oauth_state_single_use(m: StoreModel, state: Seq<char>, now1: i64, now2: i64)
    ensures
        spec_consume_oauth_state(m, state, now1).1 ==> !spec_consume_oauth_state(
            spec_consume_oauth_state(m, state, now1).0,
            state,
            now2,
        ).1,
{
}

/// A session created at `now` resolves to its user until seven days
/// have passed, and to nothing from that instant on.
pub proof fn lemma_session_retrievable(
    m: StoreModel,
    id: Seq<char>,
    user_id: i64,
    now: i64,
    t: i64,
)
    ensures
        t < now + SESSION_TTL_SECONDS ==> spec_get_session(
            spec_create_session(m, id, user_id, now),
            id,
            t,
        ) == Some(SessionData { user_id, created_at: now }),
        t >= now + SESSION_TTL_SECONDS ==> spec_get_session(
            spec_create_session(m, id, user_id, now),
            id,
            t,
        ) is None,
{
}

} // verus!
