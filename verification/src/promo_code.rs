//! Promo codes: unique codes granting credits, redeemable at most once.

use vstd::prelude::*;

use crate::database::{Database, StoreError};
use crate::projects::{duplicate_opt_string, opt_str_view};

verus! {

/// A promo code row.
#[derive(Debug)]
pub struct DatabasePromoCode {
    pub code: String,
    pub credits: i64,
    pub description: String,
    pub redeemed_by: Option<String>,
}

/// The abstract value of a promo code row.
pub ghost struct PromoCodeView {
    pub code: Seq<char>,
    pub credits: int,
    pub description: Seq<char>,
    pub redeemed_by: Option<Seq<char>>,
}

impl View for DatabasePromoCode {
    type V = PromoCodeView;

    open spec fn view(&self) -> PromoCodeView {
        PromoCodeView {
            code: self.code@,
            credits: self.credits as int,
            description: self.description@,
            redeemed_by: opt_str_view(self.redeemed_by),
        }
    }
}

/// There is a promo code row with the given code.
pub open spec fn code_exists(s: Seq<PromoCodeView>, code: Seq<char>) -> bool {
    exists|i: int| 0 <= i < s.len() && (#[trigger] s[i]).code == code
}

impl DatabasePromoCode {
    /// A copy with the same value.
    pub fn duplicate(&self) -> (r: Self)
        ensures
            r@ == self@,
    {
        broadcast use crate::database::group_db_view;
        DatabasePromoCode {
            code: self.code.clone(),
            credits: self.credits,
            description: self.description.clone(),
            redeemed_by: duplicate_opt_string(&self.redeemed_by),
        }
    }

    /// The unredeemed row with the given code, if any.
    pub fn get_unredeemed_by_code(db: &Database, code: &str) -> (r: Option<DatabasePromoCode>)
        requires
            db.wf(),
        ensures
            r is Some <==> exists|i: int|
                0 <= i < db@.promo_codes.len() && (#[trigger] db@.promo_codes[i]).code == code@
                    && db@.promo_codes[i].redeemed_by is None,
            r matches Some(c) ==> db@.promo_codes.contains(c@) && c@.code == code@ && c@.redeemed_by
                is None,
    {
        broadcast use crate::database::group_db_view;
        let n = db.promo_codes.len();
        let mut i: usize = 0;
        while i < n
            invariant
                n == db.promo_codes@.len(),
                0 <= i <= n,
                forall|j: int|
                    0 <= j < i ==> !((#[trigger] db@.promo_codes[j]).code == code@
                        && db@.promo_codes[j].redeemed_by is None),
            decreases n - i,
        {
            if crate::textutil::str_eq(db.promo_codes[i].code.as_str(), code)
                && db.promo_codes[i].redeemed_by.is_none() {
                let found = db.promo_codes[i].duplicate();
                proof {
                    assert(db@.promo_codes[i as int] == found@);
                }
                return Some(found);
            }
            i = i + 1;
        }
        None
    }

    /// Inserts the code. Rejected when a row with the same code exists.
    pub fn insert(&self, db: &mut Database) -> (r: Result<(), StoreError>)
        requires
            old(db).wf(),
        ensures
            final(db).wf(),
            code_exists(old(db)@.promo_codes, self@.code) ==> {
                &&& r == Err::<(), StoreError>(StoreError::Duplicate)
                &&& final(db)@ == old(db)@
            },
            !code_exists(old(db)@.promo_codes, self@.code) ==> {
                &&& r == Ok::<(), StoreError>(())
                &&& final(db)@.promo_codes == old(db)@.promo_codes.push(self@)
                &&& old(db)@.same_but_promo_codes(final(db)@)
            },
    {
        broadcast use crate::database::group_db_view;
        let n = db.promo_codes.len();
        let mut i: usize = 0;
        while i < n
            invariant
                old(db).wf(),
                n == db.promo_codes@.len(),
                0 <= i <= n,
                db@ == old(db)@,
                forall|j: int| 0 <= j < i ==> (#[trigger] db@.promo_codes[j]).code != self@.code,
            decreases n - i,
        {
            if db.promo_codes[i].code == self.code {
                proof {
                    assert(db@.promo_codes[i as int].code == self@.code);
                    assert(code_exists(db@.promo_codes, self@.code));
                }
                return Err(StoreError::Duplicate);
            }
            i = i + 1;
        }
        db.promo_codes.push(self.duplicate());
        proof {
            assert(db@.promo_codes =~= old(db)@.promo_codes.push(self@));
        }
        Ok(())
    }

    /// Marks the row with this code redeemed by the account, and this copy
    /// with it — only when the row is still unredeemed, so a code is spent
    /// at most once.
    pub fn redeem(&mut self, db: &mut Database, account: &str) -> (r: Result<(), StoreError>)
        requires
            old(db).wf(),
        ensures
            final(db).wf(),
            final(db)@.promo_codes.len() == old(db)@.promo_codes.len(),
            (exists|i: int|
                0 <= i < old(db)@.promo_codes.len() && (#[trigger] old(db)@.promo_codes[i]).code
                    == old(self)@.code && old(db)@.promo_codes[i].redeemed_by is None) ==> {
                &&& r == Ok::<(), StoreError>(())
                &&& final(self)@ == (PromoCodeView {
                    redeemed_by: Some(account@),
                    ..old(self)@
                })
                &&& forall|i: int|
                    0 <= i < old(db)@.promo_codes.len() ==> final(db)@.promo_codes[i] == (
                    if old(db)@.promo_codes[i].code == old(self)@.code {
                        PromoCodeView { redeemed_by: Some(account@), ..old(db)@.promo_codes[i] }
                    } else {
                        old(db)@.promo_codes[i]
                    })
            },
            !(exists|i: int|
                0 <= i < old(db)@.promo_codes.len() && (#[trigger] old(db)@.promo_codes[i]).code
                    == old(self)@.code && old(db)@.promo_codes[i].redeemed_by is None) ==> {
                &&& r == Err::<(), StoreError>(StoreError::NotFound)
                &&& final(db)@ == old(db)@
                &&& final(self)@ == old(self)@
            },
            old(db)@.same_but_promo_codes(final(db)@),
    {
        broadcast use crate::database::group_db_view;
        let n = db.promo_codes.len();
        let mut i: usize = 0;
        while i < n
            invariant
                old(db).wf(),
                n == db.promo_codes@.len(),
                0 <= i <= n,
                db@ == old(db)@,
                *self == *old(self),
                forall|j: int|
                    0 <= j < i ==> !((#[trigger] db@.promo_codes[j]).code == old(self)@.code
                        && db@.promo_codes[j].redeemed_by is None),
            decreases n - i,
        {
            if db.promo_codes[i].code == self.code && db.promo_codes[i].redeemed_by.is_none() {
                db.promo_codes[i].redeemed_by = Some(account.to_owned());
                proof {
                    assert(db@.promo_codes =~= old(db)@.promo_codes.update(
                        i as int,
                        PromoCodeView {
                            redeemed_by: Some(account@),
                            ..old(db)@.promo_codes[i as int]
                        },
                    ));
                    assert forall|k: int|
                        0 <= k < old(db)@.promo_codes.len() implies db@.promo_codes[k] == (
                        if old(db)@.promo_codes[k].code == old(self)@.code {
                            PromoCodeView {
                                redeemed_by: Some(account@),
                                ..old(db)@.promo_codes[k]
                            }
                        } else {
                            old(db)@.promo_codes[k]
                        }) by {
                        if k != i as int && old(db)@.promo_codes[k].code == old(self)@.code {
                            assert(old(db)@.promo_codes[k].code != old(db)@.promo_codes[
                                i as int].code);
                        }
                    }
                }
                self.redeemed_by = Some(account.to_owned());
                return Ok(());
            }
            i = i + 1;
        }
        Err(StoreError::NotFound)
    }
}

} // verus!
