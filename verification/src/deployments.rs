//! Deployment rows: one user-submitted change request per row, tracked
//! through the two-stage coding → imagegen pipeline. Queue order is defined
//! solely by ascending id.

use vstd::prelude::*;

use crate::database::Database;
use crate::projects::{duplicate_opt_string, opt_str_view};

verus! {

/// A deployment row.
#[derive(Debug)]
pub struct DatabaseDeployment {
    pub id: i32,
    pub project: String,
    pub instructions: String,
    pub submitted_at: i64,
    pub coding_started_at: Option<i64>,
    pub coding_finished_at: Option<i64>,
    pub coding_git_hash: Option<String>,
    pub imagegen_started_at: Option<i64>,
    pub imagegen_finished_at: Option<i64>,
    pub imagegen_git_hash: Option<String>,
    pub deployment_request: Option<i64>,
    pub deleted: bool,
}

/// The abstract value of a deployment row.
pub ghost struct DeploymentView {
    pub id: int,
    pub project: Seq<char>,
    pub instructions: Seq<char>,
    pub submitted_at: int,
    pub coding_started_at: Option<int>,
    pub coding_finished_at: Option<int>,
    pub coding_git_hash: Option<Seq<char>>,
    pub imagegen_started_at: Option<int>,
    pub imagegen_finished_at: Option<int>,
    pub imagegen_git_hash: Option<Seq<char>>,
    pub deployment_request: Option<int>,
    pub deleted: bool,
}

/// The abstract value of an optional signed 64-bit integer.
pub open spec fn opt_i64_view(o: Option<i64>) -> Option<int> {
    match o {
        Some(v) => Some(v as int),
        None => None,
    }
}

/// Both defined implies ordered.
pub open spec fn le_opt(a: Option<int>, b: Option<int>) -> bool {
    a is Some && b is Some ==> a->0 <= b->0
}

impl View for DatabaseDeployment {
    type V = DeploymentView;

    open spec fn view(&self) -> DeploymentView {
        DeploymentView {
            id: self.id as int,
            project: self.project@,
            instructions: self.instructions@,
            submitted_at: self.submitted_at as int,
            coding_started_at: opt_i64_view(self.coding_started_at),
            coding_finished_at: opt_i64_view(self.coding_finished_at),
            coding_git_hash: opt_str_view(self.coding_git_hash),
            imagegen_started_at: opt_i64_view(self.imagegen_started_at),
            imagegen_finished_at: opt_i64_view(self.imagegen_finished_at),
            imagegen_git_hash: opt_str_view(self.imagegen_git_hash),
            deployment_request: opt_i64_view(self.deployment_request),
            deleted: self.deleted,
        }
    }
}

impl DeploymentView {
    /// Timestamp monotonicity: every pair of defined timestamps is
    /// ordered as `submitted ≤ coding start ≤ coding finish ≤ imagegen
    /// start ≤ imagegen finish`.
    pub open spec fn timestamps_wf(self) -> bool {
        let sub = Some(self.submitted_at);
        &&& le_opt(sub, self.coding_started_at)
        &&& le_opt(sub, self.coding_finished_at)
        &&& le_opt(sub, self.imagegen_started_at)
        &&& le_opt(sub, self.imagegen_finished_at)
        &&& le_opt(self.coding_started_at, self.coding_finished_at)
        &&& le_opt(self.coding_started_at, self.imagegen_started_at)
        &&& le_opt(self.coding_started_at, self.imagegen_finished_at)
        &&& le_opt(self.coding_finished_at, self.imagegen_started_at)
        &&& le_opt(self.coding_finished_at, self.imagegen_finished_at)
        &&& le_opt(self.imagegen_started_at, self.imagegen_finished_at)
    }

    /// The row is queued: its coding stage has not started.
    pub open spec fn queued(self) -> bool {
        self.coding_started_at is None
    }
}

/// The row is, among the queued rows of the table, the one with the least
/// id.
pub open spec fn is_next_unfinished(ds: Seq<DeploymentView>, d: DeploymentView) -> bool {
    &&& ds.contains(d)
    &&& d.queued()
    &&& forall|j: int| 0 <= j < ds.len() && (#[trigger] ds[j]).queued() ==> d.id <= ds[j].id
}

impl DatabaseDeployment {
    /// A copy with the same value.
    pub fn duplicate(&self) -> (r: Self)
        ensures
            r@ == self@,
    {
        broadcast use crate::database::group_db_view;
        DatabaseDeployment {
            id: self.id,
            project: self.project.clone(),
            instructions: self.instructions.clone(),
            submitted_at: self.submitted_at,
            coding_started_at: self.coding_started_at,
            coding_finished_at: self.coding_finished_at,
            coding_git_hash: duplicate_opt_string(&self.coding_git_hash),
            imagegen_started_at: self.imagegen_started_at,
            imagegen_finished_at: self.imagegen_finished_at,
            imagegen_git_hash: duplicate_opt_string(&self.imagegen_git_hash),
            deployment_request: self.deployment_request,
            deleted: self.deleted,
        }
    }

    /// All deployment rows for a project that are not soft-deleted, in id
    /// order.
    pub fn get_all_by_project_undeleted(db: &Database, project: &str) -> (r: Vec<
        DatabaseDeployment,
    >)
        ensures
            r@.map_values(|d: DatabaseDeployment| d@) == db@.deployments.filter(
                |d: DeploymentView| d.project == project@ && !d.deleted,
            ),
    {
        broadcast use crate::database::group_db_view;
        let ghost f = |d: DeploymentView| d.project == project@ && !d.deleted;
        let n = db.deployments.len();
        let mut out: Vec<DatabaseDeployment> = Vec::new();
        let ghost mut acc: Seq<DeploymentView> = Seq::empty();
        let mut i: usize = 0;
        proof {
            reveal(Seq::filter);
            assert(db@.deployments.subrange(0, 0) =~= Seq::<DeploymentView>::empty());
            assert(acc == db@.deployments.subrange(0, 0).filter(f));
        }
        while i < n
            invariant
                n == db.deployments@.len(),
                f == (|d: DeploymentView| d.project == project@ && !d.deleted),
                0 <= i <= n,
                acc == db@.deployments.subrange(0, i as int).filter(f),
                out@.len() == acc.len(),
                forall|j: int| 0 <= j < acc.len() ==> (#[trigger] out@[j])@ == acc[j],
            decreases n - i,
        {
            proof {
                reveal(Seq::filter);
                let pre = db@.deployments.subrange(0, i + 1);
                assert(pre.drop_last() =~= db@.deployments.subrange(0, i as int));
                assert(pre.last() == db@.deployments[i as int]);
            }
            if crate::textutil::str_eq(db.deployments[i].project.as_str(), project)
                && !db.deployments[i].deleted {
                out.push(db.deployments[i].duplicate());
                proof {
                    assert(f(db@.deployments[i as int]));
                    acc = acc.push(db@.deployments[i as int]);
                }
            } else {
                proof {
                    assert(!f(db@.deployments[i as int]));
                }
            }
            i = i + 1;
        }
        proof {
            assert(db@.deployments.subrange(0, db@.deployments.len() as int) =~= db@.deployments);
            assert(out@.map_values(|d: DatabaseDeployment| d@) =~= acc);
        }
        out
    }

    /// All deployment rows for a project whose coding stage has not
    /// started, in id order.
    pub fn get_all_by_project_unfinished(db: &Database, project: &str) -> (r: Vec<
        DatabaseDeployment,
    >)
        ensures
            r@.map_values(|d: DatabaseDeployment| d@) == db@.deployments.filter(
                |d: DeploymentView| d.project == project@ && d.queued(),
            ),
    {
        broadcast use crate::database::group_db_view;
        let ghost f = |d: DeploymentView| d.project == project@ && d.queued();
        let n = db.deployments.len();
        let mut out: Vec<DatabaseDeployment> = Vec::new();
        let ghost mut acc: Seq<DeploymentView> = Seq::empty();
        let mut i: usize = 0;
        proof {
            reveal(Seq::filter);
            assert(db@.deployments.subrange(0, 0) =~= Seq::<DeploymentView>::empty());
            assert(acc == db@.deployments.subrange(0, 0).filter(f));
        }
        while i < n
            invariant
                n == db.deployments@.len(),
                f == (|d: DeploymentView| d.project == project@ && d.queued()),
                0 <= i <= n,
                acc == db@.deployments.subrange(0, i as int).filter(f),
                out@.len() == acc.len(),
                forall|j: int| 0 <= j < acc.len() ==> (#[trigger] out@[j])@ == acc[j],
            decreases n - i,
        {
            proof {
                reveal(Seq::filter);
                let pre = db@.deployments.subrange(0, i + 1);
                assert(pre.drop_last() =~= db@.deployments.subrange(0, i as int));
                assert(pre.last() == db@.deployments[i as int]);
            }
            if crate::textutil::str_eq(db.deployments[i].project.as_str(), project)
                && db.deployments[i].coding_started_at.is_none() {
                out.push(db.deployments[i].duplicate());
                proof {
                    assert(f(db@.deployments[i as int]));
                    acc = acc.push(db@.deployments[i as int]);
                }
            } else {
                proof {
                    assert(!f(db@.deployments[i as int]));
                }
            }
            i = i + 1;
        }
        proof {
            assert(db@.deployments.subrange(0, db@.deployments.len() as int) =~= db@.deployments);
            assert(out@.map_values(|d: DatabaseDeployment| d@) =~= acc);
        }
        out
    }

    /// The queued deployment with the least id, if any: the only fairness
    /// guarantee the pipeline exposes.
    pub fn get_next_unfinished(db: &Database) -> (r: Option<DatabaseDeployment>)
        requires
            db.wf(),
        ensures
            r is Some <==> exists|i: int|
                0 <= i < db@.deployments.len() && (#[trigger] db@.deployments[i]).queued(),
            r matches Some(d) ==> is_next_unfinished(db@.deployments, d@),
    {
        broadcast use crate::database::group_db_view;
        let n = db.deployments.len();
        let mut i: usize = 0;
        while i < n
            invariant
                db.wf(),
                n == db.deployments@.len(),
                0 <= i <= n,
                forall|j: int| 0 <= j < i ==> !(#[trigger] db@.deployments[j]).queued(),
            decreases n - i,
        {
            if db.deployments[i].coding_started_at.is_none() {
                let found = db.deployments[i].duplicate();
                proof {
                    assert(db@.deployments[i as int] == found@);
                    assert forall|j: int|
                        0 <= j < db@.deployments.len() && (#[trigger] db@.deployments[j]).queued()
                            implies found@.id <= db@.deployments[j].id by {
                        if j > i as int {
                            assert(db@.deployments[i as int].id < db@.deployments[j].id);
                        }
                    }
                }
                return Some(found);
            }
            i = i + 1;
        }
        None
    }

    /// The number of queued deployments.
    pub fn get_queued_count(db: &Database) -> (r: i64)
        requires
            db.wf(),
        ensures
            r == db@.deployments.filter(|d: DeploymentView| d.queued()).len(),
            0 <= r <= db@.deployments.len(),
    {
        broadcast use crate::database::group_db_view;
        let n = db.deployments.len();
        let mut count: i64 = 0;
        let mut i: usize = 0;
        proof {
            crate::database::lemma_table_len(
                db@.deployments.map_values(|d: DeploymentView| d.id),
                db@.next_deployment_id,
            );
            reveal(Seq::filter);
        }
        while i < n
            invariant
                n == db.deployments@.len(),
                n < i32::MAX,
                0 <= i <= n,
                0 <= count <= i,
                count == db@.deployments.subrange(0, i as int).filter(
                    |d: DeploymentView| d.queued(),
                ).len(),
            decreases n - i,
        {
            proof {
                reveal(Seq::filter);
                let pre = db@.deployments.subrange(0, i + 1 as int);
                assert(pre.drop_last() =~= db@.deployments.subrange(0, i as int));
                assert(pre.last() == db@.deployments[i as int]);
            }
            if db.deployments[i].coding_started_at.is_none() {
                count = count + 1;
            }
            i = i + 1;
        }
        proof {
            assert(db@.deployments.subrange(0, db@.deployments.len() as int) =~= db@.deployments);
        }
        count
    }

    /// The number of queued deployments with an id below the given one: the
    /// queue position reported to callers.
    pub fn get_queued_count_before(db: &Database, before: i32) -> (r: i64)
        requires
            db.wf(),
        ensures
            r == db@.deployments.filter(|d: DeploymentView| d.queued() && d.id < before).len(),
            0 <= r <= db@.deployments.len(),
    {
        broadcast use crate::database::group_db_view;
        let n = db.deployments.len();
        let mut count: i64 = 0;
        let mut i: usize = 0;
        proof {
            crate::database::lemma_table_len(
                db@.deployments.map_values(|d: DeploymentView| d.id),
                db@.next_deployment_id,
            );
            reveal(Seq::filter);
        }
        while i < n
            invariant
                n == db.deployments@.len(),
                n < i32::MAX,
                0 <= i <= n,
                0 <= count <= i,
                count == db@.deployments.subrange(0, i as int).filter(
                    |d: DeploymentView| d.queued() && d.id < before,
                ).len(),
            decreases n - i,
        {
            proof {
                reveal(Seq::filter);
                let pre = db@.deployments.subrange(0, i + 1 as int);
                assert(pre.drop_last() =~= db@.deployments.subrange(0, i as int));
                assert(pre.last() == db@.deployments[i as int]);
            }
            if db.deployments[i].coding_started_at.is_none() && db.deployments[i].id < before {
                count = count + 1;
            }
            i = i + 1;
        }
        proof {
            assert(db@.deployments.subrange(0, db@.deployments.len() as int) =~= db@.deployments);
        }
        count
    }

    /// The deployment with the given id, if any.
    pub fn get_by_id(db: &Database, id: i32) -> (r: Option<DatabaseDeployment>)
        requires
            db.wf(),
        ensures
            r is Some <==> exists|i: int|
                0 <= i < db@.deployments.len() && (#[trigger] db@.deployments[i]).id == id,
            r matches Some(d) ==> db@.deployments.contains(d@) && d@.id == id,
    {
        broadcast use crate::database::group_db_view;
        let n = db.deployments.len();
        let mut i: usize = 0;
        while i < n
            invariant
                n == db.deployments@.len(),
                0 <= i <= n,
                forall|j: int| 0 <= j < i ==> (#[trigger] db@.deployments[j]).id != id,
            decreases n - i,
        {
            if db.deployments[i].id == id {
                let found = db.deployments[i].duplicate();
                proof {
                    assert(db@.deployments[i as int] == found@);
                }
                return Some(found);
            }
            i = i + 1;
        }
        None
    }

    /// Soft-deletes every deployment of the project with an id above the
    /// given one; used by project reset.
    pub fn delete_all_after(db: &mut Database, project: &str, after: i32)
        requires
            old(db).wf(),
        ensures
            final(db).wf(),
            final(db)@.deployments.len() == old(db)@.deployments.len(),
            forall|i: int|
                0 <= i < old(db)@.deployments.len() ==> final(db)@.deployments[i] == (
                if old(db)@.deployments[i].project == project@ && old(db)@.deployments[i].id
                    > after {
                    DeploymentView { deleted: true, ..old(db)@.deployments[i] }
                } else {
                    old(db)@.deployments[i]
                }),
            final(db)@.next_deployment_id == old(db)@.next_deployment_id,
            old(db)@.same_but_deployments(final(db)@),
    {
        broadcast use crate::database::group_db_view;
        let n = db.deployments.len();
        let mut i: usize = 0;
        while i < n
            invariant
                old(db).wf(),
                n == db.deployments@.len(),
                0 <= i <= n,
                db@.next_deployment_id == old(db)@.next_deployment_id,
                old(db)@.same_but_deployments(db@),
                db@.deployments.len() == old(db)@.deployments.len(),
                forall|j: int|
                    0 <= j < i ==> db@.deployments[j] == (
                    if old(db)@.deployments[j].project == project@ && old(db)@.deployments[j].id
                        > after {
                        DeploymentView { deleted: true, ..old(db)@.deployments[j] }
                    } else {
                        old(db)@.deployments[j]
                    }),
                forall|j: int| i <= j < n ==> db@.deployments[j] == old(db)@.deployments[j],
            decreases n - i,
        {
            let ghost mid = db@.deployments;
            if crate::textutil::str_eq(db.deployments[i].project.as_str(), project)
                && db.deployments[i].id > after {
                db.deployments[i].deleted = true;
                proof {
                    assert(db@.deployments =~= mid.update(
                        i as int,
                        DeploymentView { deleted: true, ..mid[i as int] },
                    ));
                }
            }
            i = i + 1;
        }
        proof {
            let pre = old(db)@;
            let post = db@;
            assert forall|w: int|
                0 <= w < post.workers.len() && (#[trigger] post.workers[w]).assignment is Some
                    implies crate::database::has_active_deployment(
                post.deployments,
                post.workers[w].assignment->0,
            ) by {
                let id = post.workers[w].assignment->0;
                assert(crate::database::has_active_deployment(pre.deployments, id));
                let k = choose|k: int|
                    0 <= k < pre.deployments.len() && (#[trigger] pre.deployments[k]).id == id
                        && pre.deployments[k].imagegen_finished_at is None;
                assert(post.deployments[k].id == id && post.deployments[k].imagegen_finished_at
                    is None);
            }
        }
    }

    /// Inserts the deployment, assigning it the next id.
    pub fn insert(&mut self, db: &mut Database)
        requires
            old(db).wf(),
            old(db)@.next_deployment_id < i32::MAX,
            old(self)@.timestamps_wf(),
        ensures
            final(db).wf(),
            final(self)@ == (DeploymentView { id: old(db)@.next_deployment_id, ..old(self)@ }),
            final(db)@.deployments == old(db)@.deployments.push(final(self)@),
            final(db)@.next_deployment_id == old(db)@.next_deployment_id + 1,
            old(db)@.same_but_deployments(final(db)@),
    {
        broadcast use crate::database::group_db_view;
        self.id = db.next_deployment_id;
        db.next_deployment_id = db.next_deployment_id + 1;
        db.deployments.push(self.duplicate());
        proof {
            let post = db@.deployments;
            let pre = old(db)@.deployments;
            assert(post =~= pre.push(self@));
            assert forall|x: int, y: int| 0 <= x < y < post.len() implies post[x].id < post[y].id by {
                if y < pre.len() {
                } else {
                    assert(post[y].id == old(db)@.next_deployment_id);
                }
            }
            assert forall|w: int|
                0 <= w < db@.workers.len() && (#[trigger] db@.workers[w]).assignment is Some
                    implies crate::database::has_active_deployment(
                post,
                db@.workers[w].assignment->0,
            ) by {
                let id = db@.workers[w].assignment->0;
                assert(db@.workers == old(db)@.workers);
                assert(crate::database::has_active_deployment(pre, id));
                let k = choose|k: int|
                    0 <= k < pre.len() && (#[trigger] pre[k]).id == id
                        && pre[k].imagegen_finished_at is None;
                assert(post[k].id == id && post[k].imagegen_finished_at is None);
            }
        }
    }

    /// Rewrites the coding start time of the row with this deployment's id, and of
    /// this copy.
    pub fn update_coding_started_at(&mut self, db: &mut Database, coding_started_at: Option<i64>)
        requires
            old(db).wf(),
            forall|i: int|
                0 <= i < old(db)@.deployments.len() && (#[trigger] old(db)@.deployments[i]).id
                    == old(self)@.id ==> (DeploymentView {
                    coding_started_at: opt_i64_view(coding_started_at),
                    ..old(db)@.deployments[i]
                }).timestamps_wf(),
        ensures
            final(db).wf(),
            final(self)@ == (DeploymentView { coding_started_at: opt_i64_view(coding_started_at), ..old(self)@ }),
            final(db)@.deployments.len() == old(db)@.deployments.len(),
            forall|i: int|
                0 <= i < old(db)@.deployments.len() ==> final(db)@.deployments[i] == (
                if old(db)@.deployments[i].id == old(self)@.id {
                    DeploymentView { coding_started_at: opt_i64_view(coding_started_at), ..old(db)@.deployments[i] }
                } else {
                    old(db)@.deployments[i]
                }),
            final(db)@.next_deployment_id == old(db)@.next_deployment_id,
            old(db)@.same_but_deployments(final(db)@),
    {
        broadcast use crate::database::group_db_view;
        let n = db.deployments.len();
        let mut i: usize = 0;
        while i < n
            invariant
                old(db).wf(),
                forall|k: int|
                    0 <= k < old(db)@.deployments.len() && (#[trigger] old(db)@.deployments[k]).id
                        == old(self)@.id ==> (DeploymentView {
                        coding_started_at: opt_i64_view(coding_started_at),
                        ..old(db)@.deployments[k]
                    }).timestamps_wf(),
                n == db.deployments@.len(),
                0 <= i <= n,
                db@ == old(db)@,
                *self == *old(self),
                forall|j: int| 0 <= j < i ==> (#[trigger] db@.deployments[j]).id != old(self)@.id,
            decreases n - i,
        {
            if db.deployments[i].id == self.id {
                db.deployments[i].coding_started_at = coding_started_at;
                proof {
                    assert(db@.deployments =~= old(db)@.deployments.update(
                        i as int,
                        DeploymentView {
                            coding_started_at: opt_i64_view(coding_started_at),
                            ..old(db)@.deployments[i as int]
                        },
                    ));
                    crate::database::lemma_active_update(
                        old(db)@.deployments,
                        db@.deployments,
                        old(db)@.workers,
                    );
                }
                self.coding_started_at = coding_started_at;
                return ;
            }
            i = i + 1;
        }
        self.coding_started_at = coding_started_at;
    }

    /// Rewrites the coding finish time of the row with this deployment's id, and of
    /// this copy.
    pub fn update_coding_finished_at(&mut self, db: &mut Database, coding_finished_at: Option<i64>)
        requires
            old(db).wf(),
            forall|i: int|
                0 <= i < old(db)@.deployments.len() && (#[trigger] old(db)@.deployments[i]).id
                    == old(self)@.id ==> (DeploymentView {
                    coding_finished_at: opt_i64_view(coding_finished_at),
                    ..old(db)@.deployments[i]
                }).timestamps_wf(),
        ensures
            final(db).wf(),
            final(self)@ == (DeploymentView { coding_finished_at: opt_i64_view(coding_finished_at), ..old(self)@ }),
            final(db)@.deployments.len() == old(db)@.deployments.len(),
            forall|i: int|
                0 <= i < old(db)@.deployments.len() ==> final(db)@.deployments[i] == (
                if old(db)@.deployments[i].id == old(self)@.id {
                    DeploymentView { coding_finished_at: opt_i64_view(coding_finished_at), ..old(db)@.deployments[i] }
                } else {
                    old(db)@.deployments[i]
                }),
            final(db)@.next_deployment_id == old(db)@.next_deployment_id,
            old(db)@.same_but_deployments(final(db)@),
    {
        broadcast use crate::database::group_db_view;
        let n = db.deployments.len();
        let mut i: usize = 0;
        while i < n
            invariant
                old(db).wf(),
                forall|k: int|
                    0 <= k < old(db)@.deployments.len() && (#[trigger] old(db)@.deployments[k]).id
                        == old(self)@.id ==> (DeploymentView {
                        coding_finished_at: opt_i64_view(coding_finished_at),
                        ..old(db)@.deployments[k]
                    }).timestamps_wf(),
                n == db.deployments@.len(),
                0 <= i <= n,
                db@ == old(db)@,
                *self == *old(self),
                forall|j: int| 0 <= j < i ==> (#[trigger] db@.deployments[j]).id != old(self)@.id,
            decreases n - i,
        {
            if db.deployments[i].id == self.id {
                db.deployments[i].coding_finished_at = coding_finished_at;
                proof {
                    assert(db@.deployments =~= old(db)@.deployments.update(
                        i as int,
                        DeploymentView {
                            coding_finished_at: opt_i64_view(coding_finished_at),
                            ..old(db)@.deployments[i as int]
                        },
                    ));
                    crate::database::lemma_active_update(
                        old(db)@.deployments,
                        db@.deployments,
                        old(db)@.workers,
                    );
                }
                self.coding_finished_at = coding_finished_at;
                return ;
            }
            i = i + 1;
        }
        self.coding_finished_at = coding_finished_at;
    }

    /// Rewrites the coding stage source hash of the row with this deployment's id, and of
    /// this copy.
    pub fn update_coding_git_hash(&mut self, db: &mut Database, coding_git_hash: Option<String>)
        requires
            old(db).wf(),
        ensures
            final(db).wf(),
            final(self)@ == (DeploymentView { coding_git_hash: opt_str_view(coding_git_hash), ..old(self)@ }),
            final(db)@.deployments.len() == old(db)@.deployments.len(),
            forall|i: int|
                0 <= i < old(db)@.deployments.len() ==> final(db)@.deployments[i] == (
                if old(db)@.deployments[i].id == old(self)@.id {
                    DeploymentView { coding_git_hash: opt_str_view(coding_git_hash), ..old(db)@.deployments[i] }
                } else {
                    old(db)@.deployments[i]
                }),
            final(db)@.next_deployment_id == old(db)@.next_deployment_id,
            old(db)@.same_but_deployments(final(db)@),
    {
        broadcast use crate::database::group_db_view;
        let n = db.deployments.len();
        let mut i: usize = 0;
        while i < n
            invariant
                old(db).wf(),
                n == db.deployments@.len(),
                0 <= i <= n,
                db@ == old(db)@,
                *self == *old(self),
                forall|j: int| 0 <= j < i ==> (#[trigger] db@.deployments[j]).id != old(self)@.id,
            decreases n - i,
        {
            if db.deployments[i].id == self.id {
                db.deployments[i].coding_git_hash = duplicate_opt_string(&coding_git_hash);
                proof {
                    assert(db@.deployments =~= old(db)@.deployments.update(
                        i as int,
                        DeploymentView {
                            coding_git_hash: opt_str_view(coding_git_hash),
                            ..old(db)@.deployments[i as int]
                        },
                    ));
                    crate::database::lemma_active_update(
                        old(db)@.deployments,
                        db@.deployments,
                        old(db)@.workers,
                    );
                }
                self.coding_git_hash = coding_git_hash;
                return ;
            }
            i = i + 1;
        }
        self.coding_git_hash = coding_git_hash;
    }

    /// Rewrites the imagegen start time of the row with this deployment's id, and of
    /// this copy.
    pub fn update_imagegen_started_at(&mut self, db: &mut Database, imagegen_started_at: Option<i64>)
        requires
            old(db).wf(),
            forall|i: int|
                0 <= i < old(db)@.deployments.len() && (#[trigger] old(db)@.deployments[i]).id
                    == old(self)@.id ==> (DeploymentView {
                    imagegen_started_at: opt_i64_view(imagegen_started_at),
                    ..old(db)@.deployments[i]
                }).timestamps_wf(),
        ensures
            final(db).wf(),
            final(self)@ == (DeploymentView { imagegen_started_at: opt_i64_view(imagegen_started_at), ..old(self)@ }),
            final(db)@.deployments.len() == old(db)@.deployments.len(),
            forall|i: int|
                0 <= i < old(db)@.deployments.len() ==> final(db)@.deployments[i] == (
                if old(db)@.deployments[i].id == old(self)@.id {
                    DeploymentView { imagegen_started_at: opt_i64_view(imagegen_started_at), ..old(db)@.deployments[i] }
                } else {
                    old(db)@.deployments[i]
                }),
            final(db)@.next_deployment_id == old(db)@.next_deployment_id,
            old(db)@.same_but_deployments(final(db)@),
    {
        broadcast use crate::database::group_db_view;
        let n = db.deployments.len();
        let mut i: usize = 0;
        while i < n
            invariant
                old(db).wf(),
                forall|k: int|
                    0 <= k < old(db)@.deployments.len() && (#[trigger] old(db)@.deployments[k]).id
                        == old(self)@.id ==> (DeploymentView {
                        imagegen_started_at: opt_i64_view(imagegen_started_at),
                        ..old(db)@.deployments[k]
                    }).timestamps_wf(),
                n == db.deployments@.len(),
                0 <= i <= n,
                db@ == old(db)@,
                *self == *old(self),
                forall|j: int| 0 <= j < i ==> (#[trigger] db@.deployments[j]).id != old(self)@.id,
            decreases n - i,
        {
            if db.deployments[i].id == self.id {
                db.deployments[i].imagegen_started_at = imagegen_started_at;
                proof {
                    assert(db@.deployments =~= old(db)@.deployments.update(
                        i as int,
                        DeploymentView {
                            imagegen_started_at: opt_i64_view(imagegen_started_at),
                            ..old(db)@.deployments[i as int]
                        },
                    ));
                    crate::database::lemma_active_update(
                        old(db)@.deployments,
                        db@.deployments,
                        old(db)@.workers,
                    );
                }
                self.imagegen_started_at = imagegen_started_at;
                return ;
            }
            i = i + 1;
        }
        self.imagegen_started_at = imagegen_started_at;
    }

    /// Rewrites the imagegen finish time of the row with this deployment's id, and of
    /// this copy.
    pub fn update_imagegen_finished_at(&mut self, db: &mut Database, imagegen_finished_at: Option<i64>)
        requires
            old(db).wf(),
            forall|i: int|
                0 <= i < old(db)@.deployments.len() && (#[trigger] old(db)@.deployments[i]).id
                    == old(self)@.id ==> (DeploymentView {
                    imagegen_finished_at: opt_i64_view(imagegen_finished_at),
                    ..old(db)@.deployments[i]
                }).timestamps_wf(),
            imagegen_finished_at is Some ==> forall|w: int|
                0 <= w < old(db)@.workers.len() ==> (#[trigger] old(db)@.workers[w]).assignment
                    != Some(old(self)@.id),
        ensures
            final(db).wf(),
            final(self)@ == (DeploymentView { imagegen_finished_at: opt_i64_view(imagegen_finished_at), ..old(self)@ }),
            final(db)@.deployments.len() == old(db)@.deployments.len(),
            forall|i: int|
                0 <= i < old(db)@.deployments.len() ==> final(db)@.deployments[i] == (
                if old(db)@.deployments[i].id == old(self)@.id {
                    DeploymentView { imagegen_finished_at: opt_i64_view(imagegen_finished_at), ..old(db)@.deployments[i] }
                } else {
                    old(db)@.deployments[i]
                }),
            final(db)@.next_deployment_id == old(db)@.next_deployment_id,
            old(db)@.same_but_deployments(final(db)@),
    {
        broadcast use crate::database::group_db_view;
        let n = db.deployments.len();
        let mut i: usize = 0;
        while i < n
            invariant
                old(db).wf(),
                forall|k: int|
                    0 <= k < old(db)@.deployments.len() && (#[trigger] old(db)@.deployments[k]).id
                        == old(self)@.id ==> (DeploymentView {
                        imagegen_finished_at: opt_i64_view(imagegen_finished_at),
                        ..old(db)@.deployments[k]
                    }).timestamps_wf(),
                imagegen_finished_at is Some ==> forall|w: int|
                    0 <= w < old(db)@.workers.len() ==> (#[trigger] old(db)@.workers[w]).assignment
                        != Some(old(self)@.id),
                n == db.deployments@.len(),
                0 <= i <= n,
                db@ == old(db)@,
                *self == *old(self),
                forall|j: int| 0 <= j < i ==> (#[trigger] db@.deployments[j]).id != old(self)@.id,
            decreases n - i,
        {
            if db.deployments[i].id == self.id {
                db.deployments[i].imagegen_finished_at = imagegen_finished_at;
                proof {
                    assert(db@.deployments =~= old(db)@.deployments.update(
                        i as int,
                        DeploymentView {
                            imagegen_finished_at: opt_i64_view(imagegen_finished_at),
                            ..old(db)@.deployments[i as int]
                        },
                    ));
                    assert forall|w: int|
                        0 <= w < db@.workers.len() && (#[trigger] db@.workers[w]).assignment
                            is Some implies crate::database::has_active_deployment(
                        db@.deployments,
                        db@.workers[w].assignment->0,
                    ) by {
                        let id = db@.workers[w].assignment->0;
                        assert(db@.workers == old(db)@.workers);
                        assert(crate::database::has_active_deployment(old(db)@.deployments, id));
                        let k = choose|k: int|
                            0 <= k < old(db)@.deployments.len() && (
                            #[trigger] old(db)@.deployments[k]).id == id && old(
                                db,
                            )@.deployments[k].imagegen_finished_at is None;
                        if imagegen_finished_at is Some {
                            assert(old(db)@.workers[w].assignment != Some(old(self)@.id));
                            assert(old(db)@.deployments[i as int].id == old(self)@.id);
                            assert(k != i as int);
                            assert(db@.deployments[k] == old(db)@.deployments[k]);
                        } else {
                            assert(db@.deployments[k].id == id && db@.deployments[
                                k].imagegen_finished_at is None);
                        }
                    }
                }
                self.imagegen_finished_at = imagegen_finished_at;
                return ;
            }
            i = i + 1;
        }
        self.imagegen_finished_at = imagegen_finished_at;
    }

    /// Rewrites the imagegen stage source hash of the row with this deployment's id, and of
    /// this copy.
    pub fn update_imagegen_git_hash(&mut self, db: &mut Database, imagegen_git_hash: Option<String>)
        requires
            old(db).wf(),
        ensures
            final(db).wf(),
            final(self)@ == (DeploymentView { imagegen_git_hash: opt_str_view(imagegen_git_hash), ..old(self)@ }),
            final(db)@.deployments.len() == old(db)@.deployments.len(),
            forall|i: int|
                0 <= i < old(db)@.deployments.len() ==> final(db)@.deployments[i] == (
                if old(db)@.deployments[i].id == old(self)@.id {
                    DeploymentView { imagegen_git_hash: opt_str_view(imagegen_git_hash), ..old(db)@.deployments[i] }
                } else {
                    old(db)@.deployments[i]
                }),
            final(db)@.next_deployment_id == old(db)@.next_deployment_id,
            old(db)@.same_but_deployments(final(db)@),
    {
        broadcast use crate::database::group_db_view;
        let n = db.deployments.len();
        let mut i: usize = 0;
        while i < n
            invariant
                old(db).wf(),
                n == db.deployments@.len(),
                0 <= i <= n,
                db@ == old(db)@,
                *self == *old(self),
                forall|j: int| 0 <= j < i ==> (#[trigger] db@.deployments[j]).id != old(self)@.id,
            decreases n - i,
        {
            if db.deployments[i].id == self.id {
                db.deployments[i].imagegen_git_hash = duplicate_opt_string(&imagegen_git_hash);
                proof {
                    assert(db@.deployments =~= old(db)@.deployments.update(
                        i as int,
                        DeploymentView {
                            imagegen_git_hash: opt_str_view(imagegen_git_hash),
                            ..old(db)@.deployments[i as int]
                        },
                    ));
                    crate::database::lemma_active_update(
                        old(db)@.deployments,
                        db@.deployments,
                        old(db)@.workers,
                    );
                }
                self.imagegen_git_hash = imagegen_git_hash;
                return ;
            }
            i = i + 1;
        }
        self.imagegen_git_hash = imagegen_git_hash;
    }

    /// Rewrites the downstream reconfiguration request id of the row with this deployment's id, and of
    /// this copy.
    pub fn update_deployment_request(&mut self, db: &mut Database, deployment_request: Option<i64>)
        requires
            old(db).wf(),
        ensures
            final(db).wf(),
            final(self)@ == (DeploymentView { deployment_request: opt_i64_view(deployment_request), ..old(self)@ }),
            final(db)@.deployments.len() == old(db)@.deployments.len(),
            forall|i: int|
                0 <= i < old(db)@.deployments.len() ==> final(db)@.deployments[i] == (
                if old(db)@.deployments[i].id == old(self)@.id {
                    DeploymentView { deployment_request: opt_i64_view(deployment_request), ..old(db)@.deployments[i] }
                } else {
                    old(db)@.deployments[i]
                }),
            final(db)@.next_deployment_id == old(db)@.next_deployment_id,
            old(db)@.same_but_deployments(final(db)@),
    {
        broadcast use crate::database::group_db_view;
        let n = db.deployments.len();
        let mut i: usize = 0;
        while i < n
            invariant
                old(db).wf(),
                n == db.deployments@.len(),
                0 <= i <= n,
                db@ == old(db)@,
                *self == *old(self),
                forall|j: int| 0 <= j < i ==> (#[trigger] db@.deployments[j]).id != old(self)@.id,
            decreases n - i,
        {
            if db.deployments[i].id == self.id {
                db.deployments[i].deployment_request = deployment_request;
                proof {
                    assert(db@.deployments =~= old(db)@.deployments.update(
                        i as int,
                        DeploymentView {
                            deployment_request: opt_i64_view(deployment_request),
                            ..old(db)@.deployments[i as int]
                        },
                    ));
                    crate::database::lemma_active_update(
                        old(db)@.deployments,
                        db@.deployments,
                        old(db)@.workers,
                    );
                }
                self.deployment_request = deployment_request;
                return ;
            }
            i = i + 1;
        }
        self.deployment_request = deployment_request;
    }
}

/// Timestamp monotonicity: in a well-formed store, every deployment
/// row's defined timestamps are ordered `submitted ≤ coding start ≤ coding
/// finish ≤ imagegen start ≤ imagegen finish`.
pub proof fn lemma_timestamps_monotone(dv: crate::database::DbView, i: int)
    requires
        dv.wf(),
        0 <= i < dv.deployments.len(),
    ensures
        dv.deployments[i].timestamps_wf(),
{
}

/// FIFO coding start: the dispatcher only ever claims the queued
/// deployment with the least id, so while a deployment with a smaller id is
/// still queued, one with a greater id is never picked — with workers
/// available at both moments, the smaller id starts coding first.
pub proof fn lemma_fifo(dv: crate::database::DbView, a: int, b: int)
    requires
        dv.wf(),
        0 <= a < dv.deployments.len(),
        0 <= b < dv.deployments.len(),
        dv.deployments[a].queued(),
        dv.deployments[b].queued(),
        dv.deployments[a].id < dv.deployments[b].id,
    ensures
        forall|d: DeploymentView|
            #[trigger] is_next_unfinished(dv.deployments, d) ==> d.id <= dv.deployments[a].id
                < dv.deployments[b].id,
{
}

} // verus!
