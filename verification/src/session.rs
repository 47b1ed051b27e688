//! The life of one session token: anonymous, then bound to an identity by a
//! login, and terminated for good by a logout or by staying idle too long.
//!
//! Time is a count of seconds handed in by the caller. A session that has
//! been idle for more than `IDLE_TIMEOUT_SECS` counts as terminated from
//! then on, whether or not anyone has looked at it since.

use std::collections::HashMap;
use vstd::prelude::*;
use crate::user::{identity_view, Identity, IdentityView};

verus! {

/// Seconds without activity after which a session is over.
pub const IDLE_TIMEOUT_SECS: u64 = 300;

/// What a session token is bound to.
#[derive(Clone, Debug)]
pub enum Binding {
    Anonymous,
    Authenticated(Identity),
    Terminated,
}

/// Mathematical value of a `Binding`.
pub enum Phase {
    Anonymous,
    Authenticated(IdentityView),
    Terminated,
}

/// Mathematical value of a `Session`.
pub struct SessionView {
    pub phase: Phase,
    pub last_active: int,
}

impl View for Binding {
    type V = Phase;

    open spec fn view(&self) -> Phase {
        match self {
            Binding::Anonymous => Phase::Anonymous,
            Binding::Authenticated(identity) => Phase::Authenticated(identity@),
            Binding::Terminated => Phase::Terminated,
        }
    }
}

/// Whether the session has been idle for longer than the timeout at `now`.
pub open spec fn idle_out(s: SessionView, now: int) -> bool {
    now - s.last_active > IDLE_TIMEOUT_SECS
}

/// Whether the session is over at `now`: logged out, or idle for too long.
pub open spec fn over(s: SessionView, now: int) -> bool {
    s.phase is Terminated || idle_out(s, now)
}

/// The identity that the session vouches for at `now`.
pub open spec fn active_identity(s: SessionView, now: int) -> Option<IdentityView> {
    if over(s, now) {
        None
    } else {
        match s.phase {
            Phase::Authenticated(identity) => Some(identity),
            _ => None,
        }
    }
}

/// The later of two instants.
pub open spec fn later(a: int, b: int) -> int {
    if a >= b {
        a
    } else {
        b
    }
}

/// The session after a logout.
pub open spec fn after_logout(s: SessionView) -> SessionView {
    SessionView { phase: Phase::Terminated, last_active: s.last_active }
}

/// The session after a request at `now`: terminated if it was over by then,
/// and otherwise the same binding with its idle clock started afresh.
pub open spec fn after_touch(s: SessionView, now: int) -> SessionView {
    if over(s, now) {
        after_logout(s)
    } else {
        SessionView { phase: s.phase, last_active: later(now, s.last_active) }
    }
}

/// The session after an attempt at `now` to bind it to `identity`: a session
/// that was over stays terminated, any other is bound to `identity`.
pub open spec fn after_login(s: SessionView, identity: IdentityView, now: int) -> SessionView {
    if over(s, now) {
        after_logout(s)
    } else {
        SessionView {
            phase: Phase::Authenticated(identity),
            last_active: later(now, s.last_active),
        }
    }
}

/// The server's record for one session token.
#[derive(Clone, Debug)]
pub struct Session {
    binding: Binding,
    last_active: u64,
}

impl View for Session {
    type V = SessionView;

    closed spec fn view(&self) -> SessionView {
        SessionView { phase: self.binding@, last_active: self.last_active as int }
    }
}

impl Session {
    /// A fresh anonymous session, first seen at `now`.
    pub fn new(now: u64) -> (s: Self)
        ensures
            s@ == (SessionView { phase: Phase::Anonymous, last_active: now as int }),
    {
        Session { binding: Binding::Anonymous, last_active: now }
    }

    /// Whether the session is over at `now`.
    pub fn is_over(&self, now: u64) -> (r: bool)
        ensures
            r == over(self@, now as int),
    {
        match self.binding {
            Binding::Terminated => true,
            _ => now > self.last_active && now - self.last_active > IDLE_TIMEOUT_SECS,
        }
    }

    /// The identity that the session vouches for at `now`, if any.
    pub fn identity(&self, now: u64) -> (r: Option<Identity>)
        ensures
            identity_view(r) == active_identity(self@, now as int),
    {
        if self.is_over(now) {
            return None;
        }
        match &self.binding {
            Binding::Authenticated(identity) => Some(
                Identity { id: identity.id, username: identity.username.clone() },
            ),
            _ => None,
        }
    }

    /// Whether an action that needs a logged-in session is allowed at `now`.
    pub fn is_authenticated(&self, now: u64) -> (r: bool)
        ensures
            r == active_identity(self@, now as int).is_some(),
    {
        if self.is_over(now) {
            return false;
        }
        match &self.binding {
            Binding::Authenticated(_) => true,
            _ => false,
        }
    }

    /// Records a request at `now`. Returns whether the session is still alive.
    pub fn touch(&mut self, now: u64) -> (alive: bool)
        ensures
            final(self)@ == after_touch(old(self)@, now as int),
            alive == !over(old(self)@, now as int),
    {
        if self.is_over(now) {
            self.binding = Binding::Terminated;
            false
        } else {
            if now > self.last_active {
                self.last_active = now;
            }
            true
        }
    }

    /// Binds the session to `identity` at `now`. A session that is over
    /// cannot be revived: it stays terminated and `false` is returned.
    pub fn login(&mut self, identity: Identity, now: u64) -> (bound: bool)
        ensures
            final(self)@ == after_login(old(self)@, identity@, now as int),
            bound == !over(old(self)@, now as int),
    {
        if self.is_over(now) {
            self.binding = Binding::Terminated;
            false
        } else {
            if now > self.last_active {
                self.last_active = now;
            }
            self.binding = Binding::Authenticated(identity);
            true
        }
    }

    /// Ends the session for good. Always reports success.
    pub fn logout(&mut self) -> (done: bool)
        ensures
            done,
            final(self)@ == after_logout(old(self)@),
    {
        self.binding = Binding::Terminated;
        true
    }
}

/// Once a session is over it stays over: at every later instant and after
/// every further request, login attempt or logout it vouches for nobody.
pub proof fn law_over_is_final(s: SessionView, identity: IdentityView, now: int, then: int)
    requires
        over(s, now),
        now <= then,
    ensures
        active_identity(s, then).is_none(),
        over(after_touch(s, then), then),
        over(after_login(s, identity, then), then),
        over(after_logout(s), then),
        active_identity(after_touch(s, then), then).is_none(),
        active_identity(after_login(s, identity, then), then).is_none(),
{
}

/// After a logout every action that needs a logged-in session is refused,
/// at any instant, and no request or login attempt brings the session back.
pub proof fn law_logout_invalidates(s: SessionView, identity: IdentityView, then: int)
    ensures
        active_identity(after_logout(s), then).is_none(),
        after_touch(after_logout(s), then) == after_logout(s),
        after_login(after_logout(s), identity, then) == after_logout(s),
        after_logout(after_logout(s)) == after_logout(s),
{
}

/// A session left idle for longer than the timeout behaves as one that was
/// logged out: it vouches for nobody, and a request or a login attempt
/// leaves it exactly where a logout would have.
pub proof fn law_idle_is_logout(s: SessionView, identity: IdentityView, now: int)
    requires
        idle_out(s, now),
    ensures
        active_identity(s, now) == active_identity(after_logout(s), now),
        after_touch(s, now) == after_touch(after_logout(s), now),
        after_login(s, identity, now) == after_login(after_logout(s), identity, now),
        after_touch(s, now) == after_logout(s),
{
}

/// A session that is not over and sees a request within the timeout keeps
/// its binding.
pub proof fn law_activity_keeps_binding(s: SessionView, now: int)
    requires
        !over(s, now),
    ensures
        after_touch(s, now).phase == s.phase,
        !over(after_touch(s, now), now),
        active_identity(after_touch(s, now), now) == active_identity(s, now),
{
}

/// The identity that the table vouches for under `token` at `now`. A token
/// that the table does not know vouches for nobody.
pub open spec fn token_identity(table: Map<u64, SessionView>, token: u64, now: int) -> Option<
    IdentityView,
> {
    if table.contains_key(token) {
        active_identity(table[token], now)
    } else {
        None
    }
}

/// Whether `token` names a session that is not over at `now`.
pub open spec fn token_alive(table: Map<u64, SessionView>, token: u64, now: int) -> bool {
    table.contains_key(token) && !over(table[token], now)
}

/// The table after the session under `token` was replaced by `next`; a
/// table that does not know the token stays as it is.
pub open spec fn with_session(table: Map<u64, SessionView>, token: u64, next: SessionView) -> Map<
    u64,
    SessionView,
> {
    if table.contains_key(token) {
        table.insert(token, next)
    } else {
        table
    }
}

/// The table after `token` was first seen at `now`: a new anonymous session
/// for a token not seen before, no change for a known one.
pub open spec fn table_after_open(table: Map<u64, SessionView>, token: u64, now: int) -> Map<
    u64,
    SessionView,
> {
    if table.contains_key(token) {
        table
    } else {
        table.insert(token, SessionView { phase: Phase::Anonymous, last_active: now })
    }
}

/// The server's sessions by token. It lives in memory only: a new table is
/// empty, and nothing of it outlasts the process. A session that is over
/// keeps its entry, so that its token can never name a live session again.
pub struct SessionTable {
    records: HashMap<u64, Session>,
}

impl View for SessionTable {
    type V = Map<u64, SessionView>;

    closed spec fn view(&self) -> Map<u64, SessionView> {
        self.records@.map_values(|s: Session| s@)
    }
}

impl SessionTable {
    /// A table without sessions.
    pub fn new() -> (table: Self)
        ensures
            table@ == Map::<u64, SessionView>::empty(),
    {
        let table = SessionTable { records: HashMap::new() };
        assert(table@ =~= Map::<u64, SessionView>::empty());
        table
    }

    /// Starts an anonymous session under a token not seen before. Returns
    /// whether the token was new; a known token keeps its session.
    pub fn open(&mut self, token: u64, now: u64) -> (fresh: bool)
        ensures
            fresh == !old(self)@.contains_key(token),
            final(self)@ == table_after_open(old(self)@, token, now as int),
    {
        broadcast use vstd::std_specs::hash::group_hash_axioms;

        if self.records.contains_key(&token) {
            false
        } else {
            self.records.insert(token, Session::new(now));
            assert(self@ =~= table_after_open(old(self)@, token, now as int));
            true
        }
    }

    /// The identity that the table vouches for under `token` at `now`.
    pub fn identity(&self, token: u64, now: u64) -> (r: Option<Identity>)
        ensures
            identity_view(r) == token_identity(self@, token, now as int),
    {
        broadcast use vstd::std_specs::hash::group_hash_axioms;

        match self.records.get(&token) {
            Some(session) => session.identity(now),
            None => None,
        }
    }

    /// Records a request under `token` at `now`. Returns whether the token
    /// names a session that is still alive.
    pub fn touch(&mut self, token: u64, now: u64) -> (alive: bool)
        ensures
            alive == token_alive(old(self)@, token, now as int),
            final(self)@ == with_session(
                old(self)@,
                token,
                after_touch(old(self)@[token], now as int),
            ),
    {
        broadcast use vstd::std_specs::hash::group_hash_axioms;

        match self.records.remove(&token) {
            Some(session) => {
                let mut session = session;
                let alive = session.touch(now);
                self.records.insert(token, session);
                assert(self@ =~= with_session(
                    old(self)@,
                    token,
                    after_touch(old(self)@[token], now as int),
                ));
                alive
            },
            None => {
                assert(self@ =~= old(self)@);
                false
            },
        }
    }

    /// Binds the session under `token` to `identity` at `now`. Returns
    /// whether it was bound: an unknown token and a session that is over
    /// are refused.
    pub fn login(&mut self, token: u64, identity: Identity, now: u64) -> (bound: bool)
        ensures
            bound == token_alive(old(self)@, token, now as int),
            final(self)@ == with_session(
                old(self)@,
                token,
                after_login(old(self)@[token], identity@, now as int),
            ),
    {
        broadcast use vstd::std_specs::hash::group_hash_axioms;

        match self.records.remove(&token) {
            Some(session) => {
                let mut session = session;
                let bound = session.login(identity, now);
                self.records.insert(token, session);
                assert(self@ =~= with_session(
                    old(self)@,
                    token,
                    after_login(old(self)@[token], identity@, now as int),
                ));
                bound
            },
            None => {
                assert(self@ =~= old(self)@);
                false
            },
        }
    }

    /// Ends the session under `token` for good. Always reports success,
    /// also for a token that names no session.
    pub fn logout(&mut self, token: u64) -> (done: bool)
        ensures
            done,
            final(self)@ == with_session(old(self)@, token, after_logout(old(self)@[token])),
    {
        broadcast use vstd::std_specs::hash::group_hash_axioms;

        match self.records.remove(&token) {
            Some(session) => {
                let mut session = session;
                session.logout();
                self.records.insert(token, session);
                assert(self@ =~= with_session(
                    old(self)@,
                    token,
                    after_logout(old(self)@[token]),
                ));
            },
            None => {
                assert(self@ =~= old(self)@);
            },
        }
        true
    }
}

/// After a logout under a token, that token vouches for nobody at any
/// instant, whatever requests and login attempts follow under it.
pub proof fn law_token_logout_invalidates(
    table: Map<u64, SessionView>,
    token: u64,
    identity: IdentityView,
    now: int,
    then: int,
)
    ensures
        ({
            let out = with_session(table, token, after_logout(table[token]));
            let touched = with_session(out, token, after_touch(out[token], now));
            let bound = with_session(out, token, after_login(out[token], identity, now));
            &&& token_identity(out, token, then).is_none()
            &&& !token_alive(out, token, then)
            &&& touched == out
            &&& bound == out
        }),
{
    let out = with_session(table, token, after_logout(table[token]));
    assert(with_session(out, token, after_touch(out[token], now)) =~= out);
    assert(with_session(out, token, after_login(out[token], identity, now)) =~= out);
}

/// What happens to the session under one token leaves every other token's
/// session as it was.
pub proof fn law_tokens_independent(
    table: Map<u64, SessionView>,
    token: u64,
    next: SessionView,
    other: u64,
    now: int,
)
    requires
        token != other,
    ensures
        with_session(table, token, next).contains_key(other) == table.contains_key(other),
        table.contains_key(other) ==> with_session(table, token, next)[other] == table[other],
        token_identity(with_session(table, token, next), other, now) == token_identity(
            table,
            other,
            now,
        ),
        token_identity(table_after_open(table, token, now), other, now) == token_identity(
            table,
            other,
            now,
        ),
{
}

} // verus!
