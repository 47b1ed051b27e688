//! Accounts, credentials, identities, and the check of a password against a
//! stored hash.

use vstd::prelude::*;
use vstd::string::*;
use crate::policy::Fault;
use crate::store::{
    after_replace, consistent, exactly_one, holds, lemma_replace_consistent, lookup, position,
    CredentialStore,
};

verus! {

/// Id of the privileged account.
pub const ADMIN_ID: i64 = 1;

/// The privileged account's row with a given hash.
pub open spec fn admin_row(password_hash: Seq<char>) -> AccountView {
    AccountView { id: ADMIN_ID as int, username: "admin"@, password_hash }
}

/// Most bytes of password the hashing scheme takes.
pub const MAX_PASSWORD_BYTES: usize = 0xFFFF_FFFF;

/// A username with a plaintext password, as a client sends them.
#[derive(Clone, Debug)]
pub struct Credentials {
    pub username: String,
    pub password: String,
}

/// One row of the credential store.
#[derive(Clone, Debug)]
pub struct Account {
    pub id: i64,
    pub username: String,
    pub password_hash: String,
}

/// An authenticated account without its secret.
#[derive(Clone, Debug)]
pub struct Identity {
    pub id: i64,
    pub username: String,
}

/// Mathematical value of an `Account`.
pub struct AccountView {
    pub id: int,
    pub username: Seq<char>,
    pub password_hash: Seq<char>,
}

/// Mathematical value of an `Identity`.
pub struct IdentityView {
    pub id: int,
    pub username: Seq<char>,
}

impl View for Account {
    type V = AccountView;

    open spec fn view(&self) -> AccountView {
        AccountView {
            id: self.id as int,
            username: self.username@,
            password_hash: self.password_hash@,
        }
    }
}

impl View for Identity {
    type V = IdentityView;

    open spec fn view(&self) -> IdentityView {
        IdentityView { id: self.id as int, username: self.username@ }
    }
}

/// Whether `password` verifies against the password hash string `hash`:
/// what `password_auth::verify_password` decides.
pub uninterp spec fn password_matches(password: Seq<char>, hash: Seq<char>) -> bool;

/// Calls `password_auth::verify_password`.
///
/// Trusted: the answer depends on the two strings alone; it is `true`
/// exactly when the hash parses and the password verifies against it.
#[verifier::external_body]
fn verify_hash(password: &str, hash: &str) -> (ok: bool)
    ensures
        ok == password_matches(password@, hash@),
{
    password_auth::verify_password(password, hash).is_ok()
}

/// Calls `password_auth::generate_hash`.
///
/// Trusted: the salt is random, so the hash itself is not determined; every
/// hash that comes back verifies against the password it was made from.
/// The outside function gives up on a password of more than
/// `MAX_PASSWORD_BYTES` bytes, so such a password is not handed to it.
/// It also panics if the operating system's random source fails, which no
/// precondition on the argument can rule out.
#[verifier::external_body]
fn generate_hash(password: &str) -> (hash: String)
    requires
        hashable(password@),
    ensures
        password_matches(password@, hash@),
{
    password_auth::generate_hash(password)
}

/// Whether a password is short enough to be hashed: its UTF-8 encoding has
/// at most `MAX_PASSWORD_BYTES` bytes.
pub open spec fn hashable(password: Seq<char>) -> bool {
    vstd::utf8::encode_utf8(password).len() as usize <= MAX_PASSWORD_BYTES
}

/// Hashes `password` with a fresh salt. Fails with `Fault::Hashing` exactly
/// when the password is too long to be hashed.
pub fn hash_password(password: &str) -> (r: Result<String, Fault>)
    ensures
        hashable(password@) ==> r is Ok,
        !hashable(password@) ==> r == Err::<String, Fault>(Fault::Hashing),
        r matches Ok(hash) ==> password_matches(password@, hash@),
{
    if password.len() > MAX_PASSWORD_BYTES {
        return Err(Fault::Hashing);
    }
    Ok(generate_hash(password))
}

/// View of an optional account.
pub open spec fn found_view(found: Option<&Account>) -> Option<AccountView> {
    match found {
        Some(account) => Some(account@),
        None => None,
    }
}

/// View of an optional identity.
pub open spec fn identity_view(identity: Option<Identity>) -> Option<IdentityView> {
    match identity {
        Some(identity) => Some(identity@),
        None => None,
    }
}

/// The identity that a lookup result and a password yield: the account's id
/// and username when an account was found and the password matches its
/// hash, and nothing otherwise. An unknown username and a wrong password
/// give the same answer.
pub open spec fn identity_for(found: Option<AccountView>, password: Seq<char>) -> Option<
    IdentityView,
> {
    match found {
        Some(account) => if password_matches(password, account.password_hash) {
            Some(IdentityView { id: account.id, username: account.username })
        } else {
            None
        },
        None => None,
    }
}

/// Checks a password against the account that a lookup by username found.
pub fn check_account(found: Option<&Account>, password: &str) -> (r: Option<Identity>)
    ensures
        identity_view(r) == identity_for(found_view(found), password@),
{
    match found {
        Some(account) => {
            if verify_hash(password, account.password_hash.as_str()) {
                Some(Identity { id: account.id, username: account.username.clone() })
            } else {
                None
            }
        },
        None => None,
    }
}

/// Verifies a username and password against the store. The answer is the
/// identity of the account with exactly that username when the password
/// matches its hash; an unknown username and a wrong password both give
/// `None`.
pub fn authenticate(store: &CredentialStore, credentials: &Credentials) -> (r: Option<Identity>)
    requires
        store.wf(),
    ensures
        identity_view(r) == identity_for(
            lookup(store@, credentials.username@),
            credentials.password@,
        ),
{
    check_account(store.find(&credentials.username), credentials.password.as_str())
}

/// What `authenticate` answers when the store itself was asked elsewhere
/// and may have failed: a storage fault is passed on as an error and never
/// turned into "no identity".
pub fn authenticate_found(found: Result<Option<Account>, Fault>, password: &str) -> (r: Result<
    Option<Identity>,
    Fault,
>)
    ensures
        match found {
            Ok(Some(account)) => r is Ok && identity_view(r->Ok_0) == identity_for(
                Some(account@),
                password@,
            ),
            Ok(None) => r is Ok && r->Ok_0 is None,
            Err(fault) => r == Err::<Option<Identity>, Fault>(fault),
        },
{
    match found {
        Ok(Some(account)) => Ok(check_account(Some(&account), password)),
        Ok(None) => Ok(None),
        Err(fault) => Err(fault),
    }
}

/// Creates or resets the privileged account: with a secret at hand, a row
/// `admin` with id 1 and a fresh hash of the secret replaces whatever row
/// had that id or that name; without one the store is left alone. Returns
/// whether the row was written.
pub fn bootstrap_admin(store: &mut CredentialStore, secret: Option<&str>) -> (r: Result<
    bool,
    Fault,
>)
    requires
        old(store).wf(),
    ensures
        final(store).wf(),
        match secret {
            None => r == Ok::<bool, Fault>(false) && final(store)@ == old(store)@,
            Some(secret) => if hashable(secret@) {
                &&& r == Ok::<bool, Fault>(true)
                &&& final(store)@.len() > 0
                &&& final(store)@ == after_replace(
                    old(store)@,
                    admin_row(final(store)@.last().password_hash),
                )
                &&& password_matches(secret@, final(store)@.last().password_hash)
            } else {
                r == Err::<bool, Fault>(Fault::Hashing) && final(store)@ == old(store)@
            },
        },
{
    match secret {
        None => Ok(false),
        Some(secret) => {
            let hash = match hash_password(secret) {
                Ok(hash) => hash,
                Err(fault) => {
                    return Err(fault);
                },
            };
            store.replace(ADMIN_ID, "admin".to_owned(), hash);
            Ok(true)
        },
    }
}

/// An account's own username finds that account, and its password decides:
/// a password that matches the stored hash yields the account's identity,
/// any other yields nothing.
pub proof fn law_authenticate_existing(rows: Seq<AccountView>, i: int, password: Seq<char>)
    requires
        consistent(rows),
        0 <= i < rows.len(),
    ensures
        lookup(rows, rows[i].username) == Some(rows[i]),
        password_matches(password, rows[i].password_hash) ==> identity_for(
            lookup(rows, rows[i].username),
            password,
        ) == Some(IdentityView { id: rows[i].id, username: rows[i].username }),
        !password_matches(password, rows[i].password_hash) ==> identity_for(
            lookup(rows, rows[i].username),
            password,
        ) is None,
{
    let username = rows[i].username;
    assert(holds(rows, username));
    let p = position(rows, username);
    assert(0 <= p < rows.len() && rows[p].username == username);
    assert(p == i);
}

/// A wrong password for a known username and any password for an unknown
/// one get the same answer: no identity.
pub proof fn law_unknown_user_like_wrong_password(
    rows: Seq<AccountView>,
    i: int,
    wrong_password: Seq<char>,
    unknown: Seq<char>,
    any_password: Seq<char>,
)
    requires
        consistent(rows),
        0 <= i < rows.len(),
        !password_matches(wrong_password, rows[i].password_hash),
        !holds(rows, unknown),
    ensures
        identity_for(lookup(rows, rows[i].username), wrong_password) is None,
        identity_for(lookup(rows, unknown), any_password) is None,
        identity_for(lookup(rows, rows[i].username), wrong_password) == identity_for(
            lookup(rows, unknown),
            any_password,
        ),
{
    law_authenticate_existing(rows, i, wrong_password);
}

/// Once the privileged account has been written with a hash of the secret,
/// `admin` with that secret authenticates as id 1, and exactly one row is
/// named `admin`.
pub proof fn law_admin_can_log_in(
    before: Seq<AccountView>,
    after: Seq<AccountView>,
    secret: Seq<char>,
)
    requires
        consistent(before),
        after.len() > 0,
        after == after_replace(before, admin_row(after.last().password_hash)),
        password_matches(secret, after.last().password_hash),
    ensures
        consistent(after),
        exactly_one(after, "admin"@),
        identity_for(lookup(after, "admin"@), secret) == Some(
            IdentityView { id: ADMIN_ID as int, username: "admin"@ },
        ),
{
    lemma_replace_consistent(before, admin_row(after.last().password_hash));
}

} // verus!
