//! Public showcase reads: project and queue counts, and the id/name list
//! of all projects.

use vstd::prelude::*;

use crate::database::Database;
use crate::deployments::{DatabaseDeployment, DeploymentView};
use crate::projects::DatabaseProject;
use crate::worker_servers::DatabaseWorkerServer;

verus! {

/// A project as shown in the showcase.
#[derive(Debug)]
pub struct ProjectShowcase {
    pub id: i32,
    pub name: String,
}

/// The number of projects.
pub fn projects_count(db: &Database) -> (r: i64)
    requires
        db.wf(),
    ensures
        r == db@.projects.len(),
{
    DatabaseProject::get_count(db)
}

/// All projects, as id/name pairs in id order.
pub fn projects_all(db: &Database) -> (r: Vec<ProjectShowcase>)
    requires
        db.wf(),
    ensures
        r@.len() == db@.projects.len(),
        forall|i: int|
            0 <= i < r@.len() ==> (#[trigger] r@[i]).id == db@.projects[i].id && r@[i].name@
                == db@.projects[i].name,
{
    let projects = DatabaseProject::get_all(db);
    let n = projects.len();
    let mut out: Vec<ProjectShowcase> = Vec::new();
    let mut i: usize = 0;
    proof {
        assert(projects@.map_values(|p: DatabaseProject| p@).len() == db@.projects.len());
    }
    while i < n
        invariant
            n == projects@.len(),
            projects@.map_values(|p: DatabaseProject| p@) == db@.projects,
            0 <= i <= n,
            out@.len() == i,
            forall|j: int|
                0 <= j < i ==> (#[trigger] out@[j]).id == db@.projects[j].id && out@[j].name@
                    == db@.projects[j].name,
        decreases n - i,
    {
        proof {
            assert(projects@.map_values(|p: DatabaseProject| p@)[i as int] == projects@[i as int]@);
        }
        out.push(
            ProjectShowcase { id: projects[i].id, name: projects[i].name.clone() },
        );
        i = i + 1;
    }
    out
}

/// The number of queued deployments.
pub fn queue_count(db: &Database) -> (r: i64)
    requires
        db.wf(),
    ensures
        r == db@.deployments.filter(|d: DeploymentView| d.queued()).len(),
{
    DatabaseDeployment::get_queued_count(db)
}

/// The number of workers.
pub fn queue_workers(db: &Database) -> (r: i64)
    requires
        db.wf(),
    ensures
        r == db@.workers.len(),
{
    DatabaseWorkerServer::get_count(db)
}

} // verus!
