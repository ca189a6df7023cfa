//! The credit ledger: append-only signed entries per account, with the
//! store-enforced rule that no insert may drive an account's sum below
//! zero.

use vstd::prelude::*;

use crate::database::{account_total, Database, StoreError};

verus! {

/// A ledger row.
#[derive(Debug)]
pub struct DatabaseCredits {
    pub account: String,
    pub credits: i64,
    pub description: String,
    pub date: i64,
}

/// The abstract value of a ledger row.
pub ghost struct CreditsView {
    pub account: Seq<char>,
    pub credits: int,
    pub description: Seq<char>,
    pub date: int,
}

impl View for DatabaseCredits {
    type V = CreditsView;

    open spec fn view(&self) -> CreditsView {
        CreditsView {
            account: self.account@,
            credits: self.credits as int,
            description: self.description@,
            date: self.date as int,
        }
    }
}

impl DatabaseCredits {
    /// A copy with the same value.
    pub fn duplicate(&self) -> (r: Self)
        ensures
            r@ == self@,
    {
        broadcast use crate::database::group_db_view;
        DatabaseCredits {
            account: self.account.clone(),
            credits: self.credits,
            description: self.description.clone(),
            date: self.date,
        }
    }

    /// All ledger rows.
    pub fn get_all(db: &Database) -> (r: Vec<DatabaseCredits>)
        ensures
            r@.map_values(|c: DatabaseCredits| c@) == db@.credits,
    {
        broadcast use crate::database::group_db_view;
        let n = db.credits.len();
        let mut out: Vec<DatabaseCredits> = Vec::new();
        let mut i: usize = 0;
        while i < n
            invariant
                n == db.credits@.len(),
                0 <= i <= n,
                out@.len() == i,
                forall|j: int| 0 <= j < i ==> (#[trigger] out@[j])@ == db@.credits[j],
            decreases n - i,
        {
            out.push(db.credits[i].duplicate());
            i = i + 1;
        }
        proof {
            assert(out@.map_values(|c: DatabaseCredits| c@) =~= db@.credits);
        }
        out
    }

    /// All ledger rows of one account.
    pub fn get_all_by_account(db: &Database, account: &str) -> (r: Vec<DatabaseCredits>)
        ensures
            r@.map_values(|c: DatabaseCredits| c@) == db@.credits.filter(
                |c: CreditsView| c.account == account@,
            ),
    {
        broadcast use crate::database::group_db_view;
        let ghost f = |c: CreditsView| c.account == account@;
        let n = db.credits.len();
        let mut out: Vec<DatabaseCredits> = Vec::new();
        let ghost mut acc: Seq<CreditsView> = Seq::empty();
        let mut i: usize = 0;
        proof {
            reveal(Seq::filter);
            assert(db@.credits.subrange(0, 0) =~= Seq::<CreditsView>::empty());
            assert(acc == db@.credits.subrange(0, 0).filter(f));
        }
        while i < n
            invariant
                n == db.credits@.len(),
                f == (|c: CreditsView| c.account == account@),
                0 <= i <= n,
                acc == db@.credits.subrange(0, i as int).filter(f),
                out@.len() == acc.len(),
                forall|j: int| 0 <= j < acc.len() ==> (#[trigger] out@[j])@ == acc[j],
            decreases n - i,
        {
            proof {
                reveal(Seq::filter);
                let pre = db@.credits.subrange(0, i + 1);
                assert(pre.drop_last() =~= db@.credits.subrange(0, i as int));
                assert(pre.last() == db@.credits[i as int]);
            }
            if crate::textutil::str_eq(db.credits[i].account.as_str(), account) {
                out.push(db.credits[i].duplicate());
                proof {
                    assert(f(db@.credits[i as int]));
                    acc = acc.push(db@.credits[i as int]);
                }
            } else {
                proof {
                    assert(!f(db@.credits[i as int]));
                }
            }
            i = i + 1;
        }
        proof {
            assert(db@.credits.subrange(0, db@.credits.len() as int) =~= db@.credits);
            assert(out@.map_values(|c: DatabaseCredits| c@) =~= acc);
        }
        out
    }

    /// The sum of one account's entries; `None` when the account has no
    /// entries.
    pub fn get_total_credits_by_account(db: &Database, account: &str) -> (r: Option<i64>)
        requires
            db.wf(),
        ensures
            r matches Some(total) ==> total == account_total(db@.credits, account@),
            r is None ==> account_total(db@.credits, account@) == 0 && forall|i: int|
                0 <= i < db@.credits.len() ==> (#[trigger] db@.credits[i]).account != account@,
    {
        broadcast use crate::database::group_db_view;
        let n = db.credits.len();
        let mut total: i64 = 0;
        let mut seen = false;
        let mut i: usize = 0;
        proof {
            reveal(Seq::filter);
            assert(db@.credits.subrange(0, 0) =~= Seq::<CreditsView>::empty());
        }
        while i < n
            invariant
                db.wf(),
                n == db.credits@.len(),
                0 <= i <= n,
                total == account_total(db@.credits.subrange(0, i as int), account@),
                !seen ==> total == 0 && forall|j: int|
                    0 <= j < i ==> (#[trigger] db@.credits[j]).account != account@,
            decreases n - i,
        {
            proof {
                reveal(Seq::filter);
                let pre = db@.credits.subrange(0, i + 1 as int);
                assert(pre.drop_last() =~= db@.credits.subrange(0, i as int));
                assert(pre.last() == db@.credits[i as int]);
                assert(0 <= account_total(pre, account@) <= i64::MAX);
            }
            if crate::textutil::str_eq(db.credits[i].account.as_str(), account) {
                total = total + db.credits[i].credits;
                seen = true;
            }
            i = i + 1;
        }
        proof {
            assert(db@.credits.subrange(0, db@.credits.len() as int) =~= db@.credits);
        }
        if seen {
            Some(total)
        } else {
            None
        }
    }

    /// Appends the entry. Rejected exactly when the account's sum would
    /// leave `[0, i64::MAX]` — in particular whenever a debit would make it
    /// negative, which callers surface as insufficient funds.
    pub fn insert(&self, db: &mut Database) -> (r: Result<(), StoreError>)
        requires
            old(db).wf(),
        ensures
            final(db).wf(),
            0 <= account_total(old(db)@.credits, self@.account) + self@.credits <= i64::MAX ==> {
                &&& r == Ok::<(), StoreError>(())
                &&& final(db)@.credits == old(db)@.credits.push(self@)
                &&& old(db)@.same_but_credits(final(db)@)
            },
            !(0 <= account_total(old(db)@.credits, self@.account) + self@.credits <= i64::MAX) ==> {
                &&& r == Err::<(), StoreError>(StoreError::InsufficientFunds)
                &&& final(db)@ == old(db)@
            },
    {
        broadcast use crate::database::group_db_view;
        let total = match Self::get_total_credits_by_account(db, self.account.as_str()) {
            Some(total) => total,
            None => 0,
        };
        let new_total = match total.checked_add(self.credits) {
            Some(v) => v,
            None => {
                return Err(StoreError::InsufficientFunds);
            },
        };
        if new_total < 0 {
            return Err(StoreError::InsufficientFunds);
        }
        db.credits.push(self.duplicate());
        proof {
            let pre = old(db)@.credits;
            let post = db@.credits;
            assert(post =~= pre.push(self@));
            assert forall|a: Seq<char>, i: int| 0 <= i <= post.len() implies 0 <= #[trigger]
            account_total(post.subrange(0, i), a) <= i64::MAX by {
                if i <= pre.len() {
                    assert(post.subrange(0, i) =~= pre.subrange(0, i));
                } else {
                    assert(post.subrange(0, i) =~= post);
                    assert(post.drop_last() =~= pre);
                    assert(pre.subrange(0, pre.len() as int) =~= pre);
                    assert(account_total(post, a) == account_total(pre, a) + if self@.account == a {
                        self@.credits
                    } else {
                        0
                    });
                }
            }
        }
        Ok(())
    }
}

} // verus!
