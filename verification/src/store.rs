//! The credential store: one row per account, no username and no id twice.
//!
//! A store's value is the sequence of its rows in the order in which they
//! were created. An insert either appends one row or leaves the store as it
//! was, and reports a taken username as a conflict of its own.

use vstd::prelude::*;
use crate::user::{found_view, Account, AccountView};

verus! {

/// What an attempt to insert a row came to.
#[derive(Clone, Copy, Debug, PartialEq, Eq, Structural)]
pub enum InsertOutcome {
    /// The row was created under this id.
    Created { id: i64 },
    /// A row with the same username exists already; nothing was written.
    Conflict,
    /// The store failed for another reason; nothing was written.
    Fault,
}

/// Whether some row has this username.
pub open spec fn holds(rows: Seq<AccountView>, username: Seq<char>) -> bool {
    exists|i: int| 0 <= i < rows.len() && (#[trigger] rows[i]).username == username
}

/// Index of a row with this username, where there is one.
pub open spec fn position(rows: Seq<AccountView>, username: Seq<char>) -> int {
    choose|i: int| 0 <= i < rows.len() && (#[trigger] rows[i]).username == username
}

/// The row with this username, if any.
pub open spec fn lookup(rows: Seq<AccountView>, username: Seq<char>) -> Option<AccountView> {
    if holds(rows, username) {
        Some(rows[position(rows, username)])
    } else {
        None
    }
}

/// No two rows share a username, and no two share an id.
pub open spec fn consistent(rows: Seq<AccountView>) -> bool {
    forall|i: int, j: int|
        0 <= i < rows.len() && 0 <= j < rows.len() && i != j ==> (#[trigger] rows[i]).username != (
        #[trigger] rows[j]).username && rows[i].id != rows[j].id
}

/// The largest id in use, and 0 for a store without rows (or with none above 0).
pub open spec fn top_id(rows: Seq<AccountView>) -> int
    decreases rows.len(),
{
    if rows.len() == 0 {
        0
    } else {
        let rest = top_id(rows.drop_last());
        if rows.last().id > rest {
            rows.last().id
        } else {
            rest
        }
    }
}

/// Whether the store can still assign a fresh id.
pub open spec fn has_room(rows: Seq<AccountView>) -> bool {
    top_id(rows) < i64::MAX
}

/// The row that an insert creates: its id is one above the largest in use.
pub open spec fn new_row(rows: Seq<AccountView>, username: Seq<char>, password_hash: Seq<char>)
    -> AccountView {
    AccountView { id: top_id(rows) + 1, username, password_hash }
}

/// What an insert of `username` reports on a store with these rows.
pub open spec fn insert_outcome(rows: Seq<AccountView>, username: Seq<char>) -> InsertOutcome {
    if holds(rows, username) {
        InsertOutcome::Conflict
    } else if !has_room(rows) {
        InsertOutcome::Fault
    } else {
        InsertOutcome::Created { id: (top_id(rows) + 1) as i64 }
    }
}

/// The rows after an insert: one more on success, the same otherwise.
pub open spec fn after_insert(
    rows: Seq<AccountView>,
    username: Seq<char>,
    password_hash: Seq<char>,
) -> Seq<AccountView> {
    if holds(rows, username) || !has_room(rows) {
        rows
    } else {
        rows.push(new_row(rows, username, password_hash))
    }
}

/// Every id in use is at most `top_id`, which is never negative.
pub proof fn lemma_top_id_bounds(rows: Seq<AccountView>)
    ensures
        top_id(rows) >= 0,
        forall|i: int| 0 <= i < rows.len() ==> (#[trigger] rows[i]).id <= top_id(rows),
    decreases rows.len(),
{
    if rows.len() > 0 {
        lemma_top_id_bounds(rows.drop_last());
        assert forall|i: int| 0 <= i < rows.len() implies (#[trigger] rows[i]).id <= top_id(
            rows,
        ) by {
            if i < rows.len() - 1 {
                assert(rows.drop_last()[i] == rows[i]);
            }
        }
    }
}

/// An insert keeps the store consistent.
pub proof fn lemma_insert_consistent(
    rows: Seq<AccountView>,
    username: Seq<char>,
    password_hash: Seq<char>,
)
    requires
        consistent(rows),
    ensures
        consistent(after_insert(rows, username, password_hash)),
{
    lemma_top_id_bounds(rows);
}

/// Whether exactly one row has this username.
pub open spec fn exactly_one(rows: Seq<AccountView>, username: Seq<char>) -> bool {
    exists|i: int|
        0 <= i < rows.len() && (#[trigger] rows[i]).username == username && forall|j: int|
            0 <= j < rows.len() && (#[trigger] rows[j]).username == username ==> j == i
}

/// The rows that a replacement leaves in place: those that share neither
/// the id nor the username of the row that comes in, in their old order.
pub open spec fn purged(rows: Seq<AccountView>, id: int, username: Seq<char>) -> Seq<AccountView>
    decreases rows.len(),
{
    if rows.len() == 0 {
        rows
    } else {
        let rest = purged(rows.drop_last(), id, username);
        if rows.last().id == id || rows.last().username == username {
            rest
        } else {
            rest.push(rows.last())
        }
    }
}

/// The rows after `row` has replaced whatever stood in its way.
pub open spec fn after_replace(rows: Seq<AccountView>, row: AccountView) -> Seq<AccountView> {
    purged(rows, row.id, row.username).push(row)
}

/// What `purged` keeps are rows of the store it started from that clash with neither the
/// id nor the username, and a consistent store stays consistent.
pub proof fn lemma_purged(rows: Seq<AccountView>, id: int, username: Seq<char>)
    ensures
        purged(rows, id, username).len() <= rows.len(),
        forall|k: int|
            0 <= k < purged(rows, id, username).len() ==> {
                let kept = #[trigger] purged(rows, id, username)[k];
                kept.id != id && kept.username != username && rows.contains(kept)
            },
        forall|i: int|
            0 <= i < rows.len() && (#[trigger] rows[i]).id != id && rows[i].username != username
                ==> purged(rows, id, username).contains(rows[i]),
        consistent(rows) ==> consistent(purged(rows, id, username)),
    decreases rows.len(),
{
    if rows.len() > 0 {
        let front = rows.drop_last();
        let rest = purged(front, id, username);
        let out = purged(rows, id, username);
        lemma_purged(front, id, username);
        assert forall|k: int| 0 <= k < out.len() implies {
            let kept = #[trigger] out[k];
            kept.id != id && kept.username != username && rows.contains(kept)
        } by {
            if k < rest.len() {
                assert(out[k] == rest[k]);
                assert(front.contains(rest[k]));
                let w = choose|w: int| 0 <= w < front.len() && front[w] == rest[k];
                assert(rows[w] == rest[k]);
            } else {
                assert(out[k] == rows[rows.len() - 1]);
            }
        }
        assert forall|i: int|
            0 <= i < rows.len() && (#[trigger] rows[i]).id != id && rows[i].username
                != username implies out.contains(rows[i]) by {
            if i < front.len() {
                assert(front[i] == rows[i]);
                assert(rest.contains(front[i]));
                let w = choose|w: int| 0 <= w < rest.len() && rest[w] == front[i];
                assert(out[w] == rows[i]);
            } else {
                assert(out[out.len() - 1] == rows[i]);
            }
        }
        if consistent(rows) {
            assert forall|i: int, j: int|
                0 <= i < front.len() && 0 <= j < front.len() && i != j implies (
            #[trigger] front[i]).username != (#[trigger] front[j]).username && front[i].id
                != front[j].id by {
                assert(front[i] == rows[i] && front[j] == rows[j]);
            }
            assert(consistent(rest));
            if out.len() > rest.len() {
                let last = rows[rows.len() - 1];
                assert forall|k: int| 0 <= k < rest.len() implies (#[trigger] rest[k]).username
                    != last.username && rest[k].id != last.id by {
                    assert(front.contains(rest[k]));
                    let w = choose|w: int| 0 <= w < front.len() && front[w] == rest[k];
                    assert(rows[w] == rest[k]);
                }
                assert forall|i: int, j: int|
                    0 <= i < out.len() && 0 <= j < out.len() && i != j implies (
                #[trigger] out[i]).username != (#[trigger] out[j]).username && out[i].id
                    != out[j].id by {
                    if i < rest.len() {
                        assert(out[i] == rest[i]);
                    }
                    if j < rest.len() {
                        assert(out[j] == rest[j]);
                    }
                }
            }
        }
    }
}

/// A replacement keeps the store consistent, and afterwards exactly one
/// row has the new row's username: the new row itself.
pub proof fn lemma_replace_consistent(rows: Seq<AccountView>, row: AccountView)
    requires
        consistent(rows),
    ensures
        consistent(after_replace(rows, row)),
        exactly_one(after_replace(rows, row), row.username),
        lookup(after_replace(rows, row), row.username) == Some(row),
{
    lemma_purged(rows, row.id, row.username);
    let out = after_replace(rows, row);
    let kept = purged(rows, row.id, row.username);
    assert forall|i: int, j: int| 0 <= i < out.len() && 0 <= j < out.len() && i != j implies (
    #[trigger] out[i]).username != (#[trigger] out[j]).username && out[i].id != out[j].id by {
        if i < kept.len() {
            assert(out[i] == kept[i]);
        }
        if j < kept.len() {
            assert(out[j] == kept[j]);
        }
    }
    let last = out.len() - 1;
    assert(out[last] == row);
    assert(exactly_one(out, row.username));
    assert(holds(out, row.username));
    assert(position(out, row.username) == last);
}

/// What a replacement has left in place, a second one leaves in place too.
pub proof fn lemma_purged_twice(rows: Seq<AccountView>, id: int, username: Seq<char>)
    ensures
        purged(purged(rows, id, username), id, username) == purged(rows, id, username),
    decreases rows.len(),
{
    if rows.len() > 0 {
        let rest = purged(rows.drop_last(), id, username);
        lemma_purged_twice(rows.drop_last(), id, username);
        if !(rows.last().id == id || rows.last().username == username) {
            assert(rest.push(rows.last()).drop_last() =~= rest);
        }
    }
}

/// Replacing a row again under the same id and username leaves every other
/// row as the first replacement left it, and one row with that id and name:
/// the later one.
pub proof fn law_replace_idempotent(rows: Seq<AccountView>, first: AccountView, second: AccountView)
    requires
        first.id == second.id,
        first.username == second.username,
    ensures
        after_replace(after_replace(rows, first), second) == after_replace(rows, second),
        after_replace(after_replace(rows, first), first) == after_replace(rows, first),
{
    let kept = purged(rows, first.id, first.username);
    lemma_purged_twice(rows, first.id, first.username);
    assert(kept.push(first).drop_last() =~= kept);
}

/// An in-memory credential store.
pub struct CredentialStore {
    accounts: Vec<Account>,
}

impl View for CredentialStore {
    type V = Seq<AccountView>;

    closed spec fn view(&self) -> Seq<AccountView> {
        self.accounts@.map_values(|a: Account| a@)
    }
}

impl CredentialStore {
    /// The store's invariant.
    pub open spec fn wf(&self) -> bool {
        consistent(self@)
    }

    /// A store without rows.
    pub fn new() -> (store: Self)
        ensures
            store@ == Seq::<AccountView>::empty(),
            store.wf(),
    {
        let store = CredentialStore { accounts: Vec::new() };
        assert(store@ =~= Seq::<AccountView>::empty());
        store
    }

    /// Number of rows.
    pub fn len(&self) -> (n: usize)
        ensures
            n == self@.len(),
    {
        self.accounts.len()
    }

    /// The row with exactly this username, if there is one.
    pub fn find(&self, username: &String) -> (r: Option<&Account>)
        requires
            self.wf(),
        ensures
            found_view(r) == lookup(self@, username@),
    {
        let mut i: usize = 0;
        while i < self.accounts.len()
            invariant
                self.wf(),
                i <= self.accounts.len(),
                forall|j: int| 0 <= j < i ==> (#[trigger] self@[j]).username != username@,
            decreases self.accounts.len() - i,
        {
            if self.accounts[i].username == *username {
                proof {
                    let p = position(self@, username@);
                    assert(self@[i as int].username == username@);
                    assert(0 <= p < self@.len() && self@[p].username == username@);
                    assert(p == i);
                }
                return Some(&self.accounts[i]);
            }
            i += 1;
        }
        None
    }

    /// Tries to create a row for `username`. A taken username is reported as
    /// `Conflict` and an exhausted id space as `Fault`; in both cases the
    /// store is left as it was. Otherwise the row is appended under an id
    /// one above the largest in use.
    pub fn insert(&mut self, username: String, password_hash: String) -> (r: InsertOutcome)
        requires
            old(self).wf(),
        ensures
            final(self).wf(),
            r == insert_outcome(old(self)@, username@),
            final(self)@ == after_insert(old(self)@, username@, password_hash@),
    {
        let mut top: i64 = 0;
        let mut i: usize = 0;
        while i < self.accounts.len()
            invariant
                self.wf(),
                i <= self.accounts.len(),
                forall|j: int| 0 <= j < i ==> (#[trigger] self@[j]).username != username@,
                top == top_id(self@.take(i as int)),
                *self == *old(self),
            decreases self.accounts.len() - i,
        {
            if self.accounts[i].username == username {
                assert(self@[i as int].username == username@);
                return InsertOutcome::Conflict;
            }
            proof {
                assert(self@.take(i + 1).drop_last() =~= self@.take(i as int));
                assert(self@.take(i + 1).last() == self@[i as int]);
            }
            if self.accounts[i].id > top {
                top = self.accounts[i].id;
            }
            i += 1;
        }
        proof {
            assert(self@.take(i as int) =~= self@);
            lemma_insert_consistent(self@, username@, password_hash@);
        }
        if top == i64::MAX {
            return InsertOutcome::Fault;
        }
        let id: i64 = top + 1;
        let ghost before = self@;
        self.accounts.push(Account { id, username, password_hash });
        assert(self@ =~= before.push(new_row(before, username@, password_hash@)));
        InsertOutcome::Created { id }
    }

    /// Puts a row with the given id in place of every row that shares its
    /// id or its username, as `REPLACE INTO` does: those rows are removed,
    /// the others keep their order, and the new row comes last.
    pub fn replace(&mut self, id: i64, username: String, password_hash: String)
        requires
            old(self).wf(),
        ensures
            final(self).wf(),
            final(self)@ == after_replace(
                old(self)@,
                AccountView { id: id as int, username: username@, password_hash: password_hash@ },
            ),
    {
        let mut kept: Vec<Account> = Vec::new();
        let mut i: usize = 0;
        while i < self.accounts.len()
            invariant
                i <= self.accounts.len(),
                kept@.map_values(|a: Account| a@) == purged(
                    self@.take(i as int),
                    id as int,
                    username@,
                ),
            decreases self.accounts.len() - i,
        {
            proof {
                assert(self@.take(i + 1).drop_last() =~= self@.take(i as int));
                assert(self@.take(i + 1).last() == self@[i as int]);
            }
            let account = &self.accounts[i];
            if !(account.id == id || account.username == username) {
                let ghost before = kept@.map_values(|a: Account| a@);
                kept.push(
                    Account {
                        id: account.id,
                        username: account.username.clone(),
                        password_hash: account.password_hash.clone(),
                    },
                );
                assert(kept@.map_values(|a: Account| a@) =~= before.push(self@[i as int]));
            }
            i += 1;
        }
        let ghost rows = self@;
        let ghost before = kept@.map_values(|a: Account| a@);
        proof {
            assert(self@.take(i as int) =~= self@);
            lemma_replace_consistent(
                rows,
                AccountView { id: id as int, username: username@, password_hash: password_hash@ },
            );
        }
        kept.push(Account { id, username, password_hash });
        self.accounts = kept;
        assert(self@ =~= before.push(
            AccountView { id: id as int, username: username@, password_hash: password_hash@ },
        ));
    }
}

} // verus!
