//! Password policy: a strength score from 0 to 4 and the acceptance threshold.

use vstd::prelude::*;

verus! {

/// Lowest strength score that registration accepts.
pub const MIN_SCORE: u8 = 3;

/// Highest strength score the estimator hands out.
pub const MAX_SCORE: u8 = 4;

/// Failures that are no domain outcome: the caller reports them as a generic
/// server error and reveals nothing else.
#[derive(Clone, Copy, Debug, PartialEq, Eq, Structural)]
pub enum Fault {
    /// The strength estimator could not produce a score.
    Evaluator,
    /// The password is longer than the hashing scheme takes.
    Hashing,
    /// The credential store failed for a reason other than a username conflict.
    Storage,
}

/// The estimator's error type, carried through unread.
#[verifier::external_type_specification]
#[verifier::external_body]
pub struct ExZxcvbnError(zxcvbn::ZxcvbnError);

/// Calls `zxcvbn::zxcvbn` with the strings of `context` as the user inputs
/// and hands back the score of the estimate.
///
/// Trusted: a score, when there is one, lies between 0 and 4, and a blank
/// password never gets one. The estimator measures dates in the password
/// against the current year and reads the clock, so nothing more is claimed
/// about which score a given password receives.
/// It also panics if the wall clock steps back while it runs, which no
/// precondition on the arguments can rule out.
#[verifier::external_body]
fn estimate(password: &str, context: &Vec<String>) -> (r: Result<u8, zxcvbn::ZxcvbnError>)
    ensures
        r matches Ok(score) ==> score <= MAX_SCORE && password@.len() > 0,
        password@.len() == 0 ==> r is Err,
{
    let inputs: Vec<&str> = context.iter().map(|s| s.as_str()).collect();
    match zxcvbn::zxcvbn(password, &inputs) {
        Ok(entropy) => Ok(entropy.score()),
        Err(e) => Err(e),
    }
}

/// Whether a score passes the policy.
pub open spec fn acceptable(score: u8) -> bool {
    score >= MIN_SCORE
}

/// Whether a score passes the policy.
pub fn is_acceptable(score: u8) -> (ok: bool)
    ensures
        ok == acceptable(score),
{
    score >= MIN_SCORE
}

/// Scores `password`, penalising what it shares with the strings of
/// `context` (such as the username). An empty password scores 0 without
/// consulting the estimator;
/// for any other password the estimator decides, and its failure is reported
/// as `Fault::Evaluator`.
pub fn evaluate(password: &str, context: &Vec<String>) -> (r: Result<u8, Fault>)
    ensures
        password@.len() == 0 ==> r == Ok::<u8, Fault>(0),
        r matches Ok(score) ==> score <= MAX_SCORE,
        r matches Err(fault) ==> fault == Fault::Evaluator,
{
    if password.is_empty() {
        return Ok(0);
    }
    grade(estimate(password, context))
}

/// What an estimate comes to: its score where the estimator gave one, and
/// `Fault::Evaluator` where it failed, whatever its reason.
pub open spec fn graded(estimate: Result<u8, zxcvbn::ZxcvbnError>) -> Result<u8, Fault> {
    match estimate {
        Ok(score) => Ok(score),
        Err(_) => Err(Fault::Evaluator),
    }
}

/// Turns what the estimator handed back into the evaluator's answer.
pub fn grade(estimate: Result<u8, zxcvbn::ZxcvbnError>) -> (r: Result<u8, Fault>)
    ensures
        r == graded(estimate),
{
    match estimate {
        Ok(score) => Ok(score),
        Err(_) => Err(Fault::Evaluator),
    }
}

} // verus!
