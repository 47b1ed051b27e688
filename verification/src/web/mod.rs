//! What the HTTP surface decides: status codes and who may pass.

pub mod auth;

use vstd::prelude::*;
use crate::session::{active_identity, after_touch, Session};

verus! {

/// Status of a request that succeeded.
pub const STATUS_OK: u16 = 200;

/// Status of a login with credentials that do not verify.
pub const STATUS_FORBIDDEN: u16 = 403;

/// Status of a request that met an internal fault.
pub const STATUS_INTERNAL_SERVER_ERROR: u16 = 500;

/// Whether a status tells a client that its request succeeded: the codes
/// from 200 to 299. A client takes any other answer as the end of what it
/// was doing.
pub fn is_success(status: u16) -> (ok: bool)
    ensures
        ok == (200 <= status < 300),
{
    200 <= status && status < 300
}

/// Gate in front of the routes that need a logged-in session. The request
/// counts as activity on the session; it passes exactly when the session
/// vouches for an identity at `now`.
pub fn login_required(session: &mut Session, now: u64) -> (allowed: bool)
    ensures
        allowed == active_identity(old(session)@, now as int).is_some(),
        final(session)@ == after_touch(old(session)@, now as int),
{
    let allowed = session.is_authenticated(now);
    session.touch(now);
    allowed
}

} // verus!
