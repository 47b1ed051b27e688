//! The decisions behind the login, logout and registration endpoints.

use vstd::prelude::*;
use crate::policy::{acceptable, evaluate, is_acceptable, Fault, MAX_SCORE, MIN_SCORE};
use crate::session::{after_login, after_logout, over, Session, SessionView};
use crate::store::{
    consistent, exactly_one, has_room, holds, insert_outcome, lemma_top_id_bounds, lookup,
    new_row, position, top_id, CredentialStore, InsertOutcome,
};
use crate::user::{
    authenticate, hash_password, hashable, identity_for, password_matches, AccountView,
    Credentials, Identity, IdentityView,
};
use crate::web::{STATUS_FORBIDDEN, STATUS_INTERNAL_SERVER_ERROR, STATUS_OK};

verus! {

/// The typed outcomes of a registration.
#[derive(Clone, Copy, Debug, PartialEq, Eq, Structural)]
pub enum RegisterResponse {
    Registered,
    UsernameTaken,
    BadPassword { zxcvbn: u8 },
}

/// The verdict of the password policy on a score: a rejection that carries
/// the score when it is below the threshold, and nothing when it passes.
pub open spec fn screening(score: u8) -> Option<RegisterResponse> {
    if acceptable(score) {
        None
    } else {
        Some(RegisterResponse::BadPassword { zxcvbn: score })
    }
}

/// The answer that goes with what the store said of the insert.
pub open spec fn conclusion(outcome: InsertOutcome) -> Result<RegisterResponse, Fault> {
    match outcome {
        InsertOutcome::Created { .. } => Ok(RegisterResponse::Registered),
        InsertOutcome::Conflict => Ok(RegisterResponse::UsernameTaken),
        InsertOutcome::Fault => Err(Fault::Storage),
    }
}

/// What a registration with a given score answers on a store with these
/// rows: the policy's rejection first, then a password too long to hash,
/// then whatever the insert comes to.
pub open spec fn register_answer(
    rows: Seq<AccountView>,
    username: Seq<char>,
    password: Seq<char>,
    score: u8,
) -> Result<RegisterResponse, Fault> {
    if !acceptable(score) {
        Ok(RegisterResponse::BadPassword { zxcvbn: score })
    } else if !hashable(password) {
        Err(Fault::Hashing)
    } else {
        conclusion(insert_outcome(rows, username))
    }
}

/// Whether a registration with a given score writes a row.
pub open spec fn register_writes(
    rows: Seq<AccountView>,
    username: Seq<char>,
    password: Seq<char>,
    score: u8,
) -> bool {
    acceptable(score) && hashable(password) && !holds(rows, username) && has_room(rows)
}

/// The store after a registration that answered as `register_answer` says:
/// unchanged unless a row was written, else one row longer, the new row
/// under a fresh id, with the username asked for and a hash that verifies
/// against the password.
pub open spec fn register_effect(
    before: Seq<AccountView>,
    after: Seq<AccountView>,
    username: Seq<char>,
    password: Seq<char>,
    score: u8,
) -> bool {
    if register_writes(before, username, password, score) {
        &&& after.len() == before.len() + 1
        &&& after == before.push(new_row(before, username, after.last().password_hash))
        &&& password_matches(password, after.last().password_hash)
    } else {
        after == before
    }
}

/// Applies the password policy to a score.
pub fn screen(score: u8) -> (r: Option<RegisterResponse>)
    ensures
        r == screening(score),
{
    if is_acceptable(score) {
        None
    } else {
        Some(RegisterResponse::BadPassword { zxcvbn: score })
    }
}

/// Turns the store's report on an insert into the registration's answer. A
/// taken username is told from the store's conflict signal alone.
pub fn conclude(outcome: InsertOutcome) -> (r: Result<RegisterResponse, Fault>)
    ensures
        r == conclusion(outcome),
{
    match outcome {
        InsertOutcome::Created { id: _ } => Ok(RegisterResponse::Registered),
        InsertOutcome::Conflict => Ok(RegisterResponse::UsernameTaken),
        InsertOutcome::Fault => Err(Fault::Storage),
    }
}

/// Registers an account whose password has been given `score`.
///
/// A score below the threshold is answered with `BadPassword` and the
/// store is not touched. Otherwise the password is hashed and the insert
/// attempted: `Registered` with exactly one new row, `UsernameTaken` on a conflict,
/// an error on any other fault; in the last two cases nothing is written.
pub fn register_scored(store: &mut CredentialStore, credentials: &Credentials, score: u8) -> (r:
    Result<RegisterResponse, Fault>)
    requires
        old(store).wf(),
    ensures
        final(store).wf(),
        r == register_answer(old(store)@, credentials.username@, credentials.password@, score),
        register_effect(
            old(store)@,
            final(store)@,
            credentials.username@,
            credentials.password@,
            score,
        ),
{
    match screen(score) {
        Some(rejection) => {
            return Ok(rejection);
        },
        None => {},
    }
    let hash = match hash_password(credentials.password.as_str()) {
        Ok(hash) => hash,
        Err(fault) => {
            return Err(fault);
        },
    };
    let outcome = store.insert(credentials.username.clone(), hash);
    conclude(outcome)
}

/// The context that a registration hands to the password policy: the
/// candidate username, and nothing else.
pub fn policy_context(credentials: &Credentials) -> (context: Vec<String>)
    ensures
        context@.len() == 1,
        context@[0]@ == credentials.username@,
{
    let mut context: Vec<String> = Vec::new();
    context.push(credentials.username.clone());
    context
}

/// Registers an account: scores the password with the username as context
/// and goes on as `register_scored` does with that score. Which score a
/// password gets is the estimator's business; whatever it is, the answer
/// and the store follow from it, and when the estimator fails the store is
/// not touched. An empty password is always answered with `BadPassword`
/// and score 0.
pub fn register(store: &mut CredentialStore, credentials: &Credentials) -> (r: Result<
    RegisterResponse,
    Fault,
>)
    requires
        old(store).wf(),
    ensures
        final(store).wf(),
        r == Err::<RegisterResponse, Fault>(Fault::Evaluator) && final(store)@ == old(store)@
            || exists|score: u8|
            score <= MAX_SCORE && r == register_answer(
                old(store)@,
                credentials.username@,
                credentials.password@,
                score,
            ) && #[trigger] register_effect(
                old(store)@,
                final(store)@,
                credentials.username@,
                credentials.password@,
                score,
            ),
        credentials.password@.len() == 0 ==> r == Ok::<RegisterResponse, Fault>(
            RegisterResponse::BadPassword { zxcvbn: 0 },
        ) && final(store)@ == old(store)@,
{
    let context = policy_context(credentials);
    match evaluate(credentials.password.as_str(), &context) {
        Ok(score) => register_scored(store, credentials, score),
        Err(fault) => Err(fault),
    }
}

/// The status that goes with a registration's result: 200 with any of the
/// typed outcomes, 500 with a fault.
pub fn register_status(result: &Result<RegisterResponse, Fault>) -> (status: u16)
    ensures
        status == if result is Ok {
            STATUS_OK
        } else {
            STATUS_INTERNAL_SERVER_ERROR
        },
{
    match result {
        Ok(_) => STATUS_OK,
        Err(_) => STATUS_INTERNAL_SERVER_ERROR,
    }
}

/// View of an authentication result.
pub open spec fn auth_view(auth: Result<Option<Identity>, Fault>) -> Result<
    Option<IdentityView>,
    Fault,
> {
    match auth {
        Ok(Some(identity)) => Ok(Some(identity@)),
        Ok(None) => Ok(None),
        Err(fault) => Err(fault),
    }
}

/// The status that a login answers with, given what the check of the
/// credentials came to and, for credentials that verified, whether the
/// session could be bound to the identity.
pub open spec fn reply_status(auth: Result<Option<IdentityView>, Fault>, bound: bool) -> u16 {
    match auth {
        Ok(Some(_)) => if bound {
            STATUS_OK
        } else {
            STATUS_INTERNAL_SERVER_ERROR
        },
        Ok(None) => STATUS_FORBIDDEN,
        Err(_) => STATUS_INTERNAL_SERVER_ERROR,
    }
}

/// The status that a login on session `s` at `now` answers with.
pub open spec fn login_status(s: SessionView, auth: Result<Option<IdentityView>, Fault>, now: int)
    -> u16 {
    reply_status(auth, !over(s, now))
}

/// Chooses the status of a login: 200 for verified credentials on a session
/// that was bound, 403 for credentials that did not verify, 500 otherwise.
pub fn login_reply(auth: &Result<Option<Identity>, Fault>, bound: bool) -> (status: u16)
    ensures
        status == reply_status(auth_view(*auth), bound),
{
    match auth {
        Ok(Some(_)) => {
            if bound {
                STATUS_OK
            } else {
                STATUS_INTERNAL_SERVER_ERROR
            }
        },
        Ok(None) => STATUS_FORBIDDEN,
        Err(_) => STATUS_INTERNAL_SERVER_ERROR,
    }
}

/// The session after a login.
pub open spec fn login_session(
    s: SessionView,
    auth: Result<Option<IdentityView>, Fault>,
    now: int,
) -> SessionView {
    match auth {
        Ok(Some(identity)) => after_login(s, identity, now),
        _ => s,
    }
}

/// Finishes a login once the credentials have been checked: binds the
/// session to the identity and answers 200; answers 403 when the
/// credentials did not verify and 500 on a fault or when the session cannot
/// be bound any more. Only a verified identity changes the session.
pub fn login_with(session: &mut Session, auth: Result<Option<Identity>, Fault>, now: u64) -> (status:
    u16)
    ensures
        status == login_status(old(session)@, auth_view(auth), now as int),
        final(session)@ == login_session(old(session)@, auth_view(auth), now as int),
{
    match auth {
        Ok(Some(identity)) => {
            if session.login(identity, now) {
                STATUS_OK
            } else {
                STATUS_INTERNAL_SERVER_ERROR
            }
        },
        Ok(None) => STATUS_FORBIDDEN,
        Err(_) => STATUS_INTERNAL_SERVER_ERROR,
    }
}

/// The login endpoint over a store held in memory.
pub fn login(session: &mut Session, store: &CredentialStore, credentials: &Credentials, now: u64)
    -> (status: u16)
    requires
        store.wf(),
    ensures
        status == login_status(
            old(session)@,
            Ok(identity_for(lookup(store@, credentials.username@), credentials.password@)),
            now as int,
        ),
        final(session)@ == login_session(
            old(session)@,
            Ok(identity_for(lookup(store@, credentials.username@), credentials.password@)),
            now as int,
        ),
{
    let auth = authenticate(store, credentials);
    login_with(session, Ok(auth), now)
}

/// The status that a logout answers with, given whether the session was
/// ended: 200 when it was, 500 when the session layer failed.
pub open spec fn logout_status(ended: bool) -> u16 {
    if ended {
        STATUS_OK
    } else {
        STATUS_INTERNAL_SERVER_ERROR
    }
}

/// Chooses the status of a logout.
pub fn logout_reply(ended: bool) -> (status: u16)
    ensures
        status == logout_status(ended),
{
    if ended {
        STATUS_OK
    } else {
        STATUS_INTERNAL_SERVER_ERROR
    }
}

/// The logout endpoint: ends the session and answers 200, whatever state
/// the session was in.
pub fn logout(session: &mut Session) -> (status: u16)
    ensures
        status == STATUS_OK,
        final(session)@ == after_logout(old(session)@),
{
    let ended = session.logout();
    logout_reply(ended)
}

/// A password scored below the threshold is refused with that score, and
/// no row is written.
pub proof fn law_weak_password_rejected(
    before: Seq<AccountView>,
    after: Seq<AccountView>,
    username: Seq<char>,
    password: Seq<char>,
    score: u8,
)
    requires
        score < MIN_SCORE,
        register_effect(before, after, username, password, score),
    ensures
        register_answer(before, username, password, score) == Ok::<RegisterResponse, Fault>(
            RegisterResponse::BadPassword { zxcvbn: score },
        ),
        after == before,
{
}

/// A password that passes the policy, with a username that no row has yet,
/// is registered: afterwards exactly one row has that username, no other
/// row has changed, and the new credentials authenticate as the new account.
pub proof fn law_fresh_username_registered(
    before: Seq<AccountView>,
    after: Seq<AccountView>,
    username: Seq<char>,
    password: Seq<char>,
    score: u8,
)
    requires
        consistent(before),
        score >= MIN_SCORE,
        hashable(password),
        has_room(before),
        !holds(before, username),
        register_effect(before, after, username, password, score),
    ensures
        register_answer(before, username, password, score) == Ok::<RegisterResponse, Fault>(
            RegisterResponse::Registered,
        ),
        consistent(after),
        after.len() == before.len() + 1,
        after.drop_last() == before,
        exactly_one(after, username),
        identity_for(lookup(after, username), password) == Some(
            IdentityView { id: top_id(before) + 1, username },
        ),
{
    lemma_top_id_bounds(before);
    let last = after.len() - 1;
    assert(after.drop_last() =~= before);
    assert(after[last].username == username);
    assert forall|j: int| 0 <= j < after.len() && (#[trigger] after[j]).username
        == username implies j == last by {
        if j < last {
            assert(before[j] == after[j]);
        }
    }
    assert(holds(after, username));
    assert(position(after, username) == last);
}

/// Registering one username twice in a row answers `Registered` and then
/// `UsernameTaken`, and the second attempt writes nothing.
pub proof fn law_second_registration_taken(
    start: Seq<AccountView>,
    middle: Seq<AccountView>,
    end: Seq<AccountView>,
    username: Seq<char>,
    first_password: Seq<char>,
    first_score: u8,
    second_password: Seq<char>,
    second_score: u8,
)
    requires
        consistent(start),
        has_room(start),
        !holds(start, username),
        first_score >= MIN_SCORE,
        hashable(first_password),
        register_effect(start, middle, username, first_password, first_score),
        second_score >= MIN_SCORE,
        hashable(second_password),
        register_effect(middle, end, username, second_password, second_score),
    ensures
        register_answer(start, username, first_password, first_score) == Ok::<
            RegisterResponse,
            Fault,
        >(RegisterResponse::Registered),
        register_answer(middle, username, second_password, second_score) == Ok::<
            RegisterResponse,
            Fault,
        >(RegisterResponse::UsernameTaken),
        end == middle,
        exactly_one(end, username),
{
    law_fresh_username_registered(start, middle, username, first_password, first_score);
}

/// Step `k` of a run of registrations for one username, each on the store
/// that the one before it left: `trace[k]` is the store before the step and
/// `trace[k + 1]` the store after it.
pub open spec fn step_taken(
    trace: Seq<Seq<AccountView>>,
    username: Seq<char>,
    passwords: Seq<Seq<char>>,
    scores: Seq<u8>,
    k: int,
) -> bool {
    &&& scores[k] >= MIN_SCORE
    &&& hashable(passwords[k])
    &&& register_effect(trace[k], trace[k + 1], username, passwords[k], scores[k])
}

/// A run of registrations for one username, in the order in which the store
/// took them.
pub open spec fn serial_run(
    trace: Seq<Seq<AccountView>>,
    username: Seq<char>,
    passwords: Seq<Seq<char>>,
    scores: Seq<u8>,
) -> bool {
    &&& passwords.len() >= 1
    &&& scores.len() == passwords.len()
    &&& trace.len() == passwords.len() + 1
    &&& forall|k: int|
        0 <= k < passwords.len() ==> #[trigger] step_taken(trace, username, passwords, scores, k)
}

/// From the first step on, the store of such a run no longer changes.
proof fn lemma_run_settles(
    trace: Seq<Seq<AccountView>>,
    username: Seq<char>,
    passwords: Seq<Seq<char>>,
    scores: Seq<u8>,
    k: int,
)
    requires
        consistent(trace[0]),
        has_room(trace[0]),
        !holds(trace[0], username),
        serial_run(trace, username, passwords, scores),
        1 <= k <= passwords.len(),
    ensures
        trace[k] == trace[1],
        holds(trace[1], username),
        exactly_one(trace[1], username),
    decreases k,
{
    assert(step_taken(trace, username, passwords, scores, 0));
    law_fresh_username_registered(trace[0], trace[1], username, passwords[0], scores[0]);
    let last = trace[1].len() - 1;
    assert(trace[1][last].username == username);
    if k > 1 {
        lemma_run_settles(trace, username, passwords, scores, k - 1);
        assert(step_taken(trace, username, passwords, scores, k - 1));
    }
}

/// However many registrations for one unused username the store takes one
/// after another, the first is answered `Registered` and every other
/// `UsernameTaken`, and in the end exactly one row has that username.
pub proof fn law_one_registration_wins(
    trace: Seq<Seq<AccountView>>,
    username: Seq<char>,
    passwords: Seq<Seq<char>>,
    scores: Seq<u8>,
)
    requires
        consistent(trace[0]),
        has_room(trace[0]),
        !holds(trace[0], username),
        serial_run(trace, username, passwords, scores),
    ensures
        register_answer(trace[0], username, passwords[0], scores[0]) == Ok::<
            RegisterResponse,
            Fault,
        >(RegisterResponse::Registered),
        forall|k: int|
            1 <= k < passwords.len() ==> #[trigger] register_answer(
                trace[k],
                username,
                passwords[k],
                scores[k],
            ) == Ok::<RegisterResponse, Fault>(RegisterResponse::UsernameTaken),
        forall|k: int| 1 <= k <= passwords.len() ==> #[trigger] trace[k] == trace[1],
        trace.last().len() == trace[0].len() + 1,
        exactly_one(trace.last(), username),
{
    assert(step_taken(trace, username, passwords, scores, 0));
    law_fresh_username_registered(trace[0], trace[1], username, passwords[0], scores[0]);
    lemma_run_settles(trace, username, passwords, scores, passwords.len() as int);
    assert forall|k: int| 1 <= k <= passwords.len() implies #[trigger] trace[k] == trace[1] by {
        lemma_run_settles(trace, username, passwords, scores, k);
    }
    assert forall|k: int| 1 <= k < passwords.len() implies #[trigger] register_answer(
        trace[k],
        username,
        passwords[k],
        scores[k],
    ) == Ok::<RegisterResponse, Fault>(RegisterResponse::UsernameTaken) by {
        lemma_run_settles(trace, username, passwords, scores, k);
        assert(step_taken(trace, username, passwords, scores, k));
    }
}

} // verus!
