//! Pricing policy for creating a project.

use vstd::prelude::*;

use crate::database::{Database, DbView};
use crate::projects::{DatabaseProject, ProjectView};

verus! {

/// The price of creating a project: free for a first project while fewer
/// than 1000 projects exist, 20,000,000 credit units otherwise.
pub open spec fn spec_price(dv: DbView, user: Seq<char>) -> int {
    if dv.projects.filter(|p: ProjectView| p.owner == user).len() == 0 && dv.projects.len()
        < 1000 {
        0
    } else {
        20_000_000
    }
}

/// Computes the price the given caller pays to create a project.
pub fn get_price(db: &Database, user: &str) -> (r: i64)
    requires
        db.wf(),
    ensures
        r == spec_price(db@, user@),
{
    let owned = DatabaseProject::get_all_by_owner(db, user);
    proof {
        assert(owned@.map_values(|p: DatabaseProject| p@).len() == db@.projects.filter(
            |p: ProjectView| p.owner == user@,
        ).len());
    }
    if owned.len() == 0 {
        let count = DatabaseProject::get_count(db);
        if count < 1000 {
            return 0;
        }
    }
    20_000_000
}

} // verus!
