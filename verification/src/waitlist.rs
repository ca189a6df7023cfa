//! The waitlist: one enrolment per account and per caller address, in
//! arrival order.

use vstd::prelude::*;

use crate::database::{Database, StoreError};

verus! {

/// A waitlist row.
#[derive(Debug)]
pub struct DatabaseWaitlist {
    pub id: i32,
    pub account: String,
    pub ip: String,
    pub date: i64,
}

/// The abstract value of a waitlist row.
pub ghost struct WaitlistView {
    pub id: int,
    pub account: Seq<char>,
    pub ip: Seq<char>,
    pub date: int,
}

impl View for DatabaseWaitlist {
    type V = WaitlistView;

    open spec fn view(&self) -> WaitlistView {
        WaitlistView {
            id: self.id as int,
            account: self.account@,
            ip: self.ip@,
            date: self.date as int,
        }
    }
}

/// The waitlist entry of one account, shown to callers.
#[derive(Debug)]
pub struct PublicWaitlist {
    pub account: String,
    pub date: i64,
}

impl DatabaseWaitlist {
    /// A copy with the same value.
    pub fn duplicate(&self) -> (r: Self)
        ensures
            r@ == self@,
    {
        broadcast use crate::database::group_db_view;
        DatabaseWaitlist {
            id: self.id,
            account: self.account.clone(),
            ip: self.ip.clone(),
            date: self.date,
        }
    }

    /// All waitlist rows, in id order.
    pub fn get_all(db: &Database) -> (r: Vec<DatabaseWaitlist>)
        ensures
            r@.map_values(|w: DatabaseWaitlist| w@) == db@.waitlist,
    {
        broadcast use crate::database::group_db_view;
        let n = db.waitlist.len();
        let mut out: Vec<DatabaseWaitlist> = Vec::new();
        let mut i: usize = 0;
        while i < n
            invariant
                n == db.waitlist@.len(),
                0 <= i <= n,
                out@.len() == i,
                forall|j: int| 0 <= j < i ==> (#[trigger] out@[j])@ == db@.waitlist[j],
            decreases n - i,
        {
            out.push(db.waitlist[i].duplicate());
            i = i + 1;
        }
        proof {
            assert(out@.map_values(|w: DatabaseWaitlist| w@) =~= db@.waitlist);
        }
        out
    }

    /// The waitlist row of the given account, if any.
    pub fn get_by_account(db: &Database, account: &str) -> (r: Option<DatabaseWaitlist>)
        requires
            db.wf(),
        ensures
            r is Some <==> exists|i: int|
                0 <= i < db@.waitlist.len() && (#[trigger] db@.waitlist[i]).account == account@,
            r matches Some(w) ==> db@.waitlist.contains(w@) && w@.account == account@,
    {
        broadcast use crate::database::group_db_view;
        let n = db.waitlist.len();
        let mut i: usize = 0;
        while i < n
            invariant
                n == db.waitlist@.len(),
                0 <= i <= n,
                forall|j: int| 0 <= j < i ==> (#[trigger] db@.waitlist[j]).account != account@,
            decreases n - i,
        {
            if crate::textutil::str_eq(db.waitlist[i].account.as_str(), account) {
                let found = db.waitlist[i].duplicate();
                proof {
                    assert(db@.waitlist[i as int] == found@);
                }
                return Some(found);
            }
            i = i + 1;
        }
        None
    }

    /// The waitlist row enrolled from the given address, if any.
    pub fn get_by_ip(db: &Database, ip: &str) -> (r: Option<DatabaseWaitlist>)
        requires
            db.wf(),
        ensures
            r is Some <==> exists|i: int|
                0 <= i < db@.waitlist.len() && (#[trigger] db@.waitlist[i]).ip == ip@,
            r matches Some(w) ==> db@.waitlist.contains(w@) && w@.ip == ip@,
    {
        broadcast use crate::database::group_db_view;
        let n = db.waitlist.len();
        let mut i: usize = 0;
        while i < n
            invariant
                n == db.waitlist@.len(),
                0 <= i <= n,
                forall|j: int| 0 <= j < i ==> (#[trigger] db@.waitlist[j]).ip != ip@,
            decreases n - i,
        {
            if crate::textutil::str_eq(db.waitlist[i].ip.as_str(), ip) {
                let found = db.waitlist[i].duplicate();
                proof {
                    assert(db@.waitlist[i as int] == found@);
                }
                return Some(found);
            }
            i = i + 1;
        }
        None
    }

    /// Inserts the row, assigning it the next id. Rejected when a row with
    /// the same address exists.
    pub fn insert(&mut self, db: &mut Database) -> (r: Result<(), StoreError>)
        requires
            old(db).wf(),
            old(db)@.next_waitlist_id < i32::MAX,
        ensures
            final(db).wf(),
            (exists|i: int|
                0 <= i < old(db)@.waitlist.len() && (#[trigger] old(db)@.waitlist[i]).ip == old(
                    self,
                )@.ip) ==> {
                &&& r == Err::<(), StoreError>(StoreError::Duplicate)
                &&& final(db)@ == old(db)@
                &&& final(self)@ == old(self)@
            },
            !(exists|i: int|
                0 <= i < old(db)@.waitlist.len() && (#[trigger] old(db)@.waitlist[i]).ip == old(
                    self,
                )@.ip) ==> {
                &&& r == Ok::<(), StoreError>(())
                &&& final(self)@ == (WaitlistView { id: old(db)@.next_waitlist_id, ..old(self)@ })
                &&& final(db)@.waitlist == old(db)@.waitlist.push(final(self)@)
                &&& final(db)@.next_waitlist_id == old(db)@.next_waitlist_id + 1
                &&& old(db)@.same_but_waitlist(final(db)@)
            },
    {
        broadcast use crate::database::group_db_view;
        let n = db.waitlist.len();
        let mut i: usize = 0;
        while i < n
            invariant
                old(db).wf(),
                n == db.waitlist@.len(),
                0 <= i <= n,
                db@ == old(db)@,
                *self == *old(self),
                forall|j: int| 0 <= j < i ==> (#[trigger] db@.waitlist[j]).ip != self@.ip,
            decreases n - i,
        {
            if db.waitlist[i].ip == self.ip {
                proof {
                    assert(db@.waitlist[i as int].ip == self@.ip);
                }
                return Err(StoreError::Duplicate);
            }
            i = i + 1;
        }
        self.id = db.next_waitlist_id;
        db.next_waitlist_id = db.next_waitlist_id + 1;
        db.waitlist.push(self.duplicate());
        proof {
            let post = db@.waitlist;
            let pre = old(db)@.waitlist;
            assert(post =~= pre.push(self@));
            assert forall|x: int, y: int| 0 <= x < y < post.len() implies post[x].id < post[y].id by {
                if y < pre.len() {
                } else {
                    assert(post[y].id == old(db)@.next_waitlist_id);
                }
            }
        }
        Ok(())
    }
}


/// What enrolling did.
#[derive(Debug, PartialEq, Eq, Structural, Clone, Copy)]
pub enum EnrollOutcome {
    /// The account was added to the waitlist.
    Enrolled,
    /// The caller's address or the account is already enrolled.
    Forbidden,
}

/// The public view of the waitlist, in enrolment order.
pub fn all(db: &Database) -> (r: Vec<PublicWaitlist>)
    ensures
        r@.len() == db@.waitlist.len(),
        forall|i: int|
            0 <= i < r@.len() ==> (#[trigger] r@[i]).account@ == db@.waitlist[i].account
                && r@[i].date == db@.waitlist[i].date,
{
    broadcast use crate::database::group_db_view;
    let n = db.waitlist.len();
    let mut out: Vec<PublicWaitlist> = Vec::new();
    let mut i: usize = 0;
    while i < n
        invariant
            n == db.waitlist@.len(),
            0 <= i <= n,
            out@.len() == i,
            forall|j: int|
                0 <= j < i ==> (#[trigger] out@[j]).account@ == db@.waitlist[j].account
                    && out@[j].date == db@.waitlist[j].date,
        decreases n - i,
    {
        out.push(
            PublicWaitlist { account: db.waitlist[i].account.clone(), date: db.waitlist[i].date },
        );
        i = i + 1;
    }
    out
}

/// Whether the caller's address may still enroll.
pub fn allowed(db: &Database, ip: &str) -> (r: bool)
    requires
        db.wf(),
    ensures
        r == !(exists|i: int|
            0 <= i < db@.waitlist.len() && (#[trigger] db@.waitlist[i]).ip == ip@),
{
    match DatabaseWaitlist::get_by_ip(db, ip) {
        Some(_) => false,
        None => true,
    }
}

/// The 1-based waitlist position of an account; 0 when it is not
/// enrolled.
pub fn position(db: &Database, account: &str) -> (r: i64)
    requires
        db.wf(),
    ensures
        r == 0 <==> (forall|i: int|
            0 <= i < db@.waitlist.len() ==> (#[trigger] db@.waitlist[i]).account != account@),
        r != 0 ==> 1 <= r <= db@.waitlist.len() && db@.waitlist[r - 1].account == account@ && (
        forall|j: int| 0 <= j < r - 1 ==> (#[trigger] db@.waitlist[j]).account != account@),
{
    broadcast use crate::database::group_db_view;
    proof {
        crate::database::lemma_table_len(
            db@.waitlist.map_values(|w: WaitlistView| w.id),
            db@.next_waitlist_id,
        );
    }
    let n = db.waitlist.len();
    let mut i: usize = 0;
    while i < n
        invariant
            n == db.waitlist@.len(),
            n < i32::MAX,
            0 <= i <= n,
            forall|j: int| 0 <= j < i ==> (#[trigger] db@.waitlist[j]).account != account@,
        decreases n - i,
    {
        if crate::textutil::str_eq(db.waitlist[i].account.as_str(), account) {
            proof {
                assert(db@.waitlist[i as int].account == account@);
            }
            return (i + 1) as i64;
        }
        i = i + 1;
    }
    0
}

/// Enrolls an account from an address, at most once per address and per
/// account.
pub fn enroll(db: &mut Database, account: String, ip: String, now: i64) -> (r: EnrollOutcome)
    requires
        old(db).wf(),
        old(db)@.next_waitlist_id < i32::MAX,
    ensures
        final(db).wf(),
        ({
            let ip_taken = exists|i: int|
                0 <= i < old(db)@.waitlist.len() && (#[trigger] old(db)@.waitlist[i]).ip == ip@;
            let account_taken = exists|i: int|
                0 <= i < old(db)@.waitlist.len() && (#[trigger] old(db)@.waitlist[i]).account
                    == account@;
            &&& (ip_taken || account_taken ==> r == EnrollOutcome::Forbidden && final(db)@ == old(
                db,
            )@)
            &&& (!ip_taken && !account_taken ==> {
                &&& r == EnrollOutcome::Enrolled
                &&& final(db)@.waitlist == old(db)@.waitlist.push(
                    WaitlistView {
                        id: old(db)@.next_waitlist_id,
                        account: account@,
                        ip: ip@,
                        date: now as int,
                    },
                )
                &&& final(db)@.next_waitlist_id == old(db)@.next_waitlist_id + 1
                &&& old(db)@.same_but_waitlist(final(db)@)
            })
        }),
{
    match DatabaseWaitlist::get_by_ip(db, ip.as_str()) {
        Some(_) => {
            return EnrollOutcome::Forbidden;
        },
        None => {},
    }
    match DatabaseWaitlist::get_by_account(db, account.as_str()) {
        Some(_) => {
            return EnrollOutcome::Forbidden;
        },
        None => {},
    }
    let mut row = DatabaseWaitlist { id: 0, account, ip, date: now };
    match row.insert(db) {
        Ok(()) => EnrollOutcome::Enrolled,
        Err(_) => {
            proof {
                assert(false);
            }
            EnrollOutcome::Forbidden
        },
    }
}

} // verus!
