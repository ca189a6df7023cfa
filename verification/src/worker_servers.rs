//! Worker rows: GPU VMs that host the coder and imagegen containers. A
//! worker is bound to at most one deployment at a time; its setup state
//! machine is materialised in the row's columns.

use vstd::prelude::*;

use crate::database::{has_active_deployment, Database};
use crate::deployments::opt_i64_view;
use crate::projects::duplicate_opt_string;

verus! {

/// A worker row. The `hardware` column is the provisioner's opaque handle,
/// persisted as the JSON document it round-trips through.
#[derive(Debug)]
pub struct DatabaseWorkerServer {
    pub id: i32,
    pub hardware: String,
    pub coder_deployment: Option<i64>,
    pub imagegen_deployment: Option<i64>,
    pub setup_finished: bool,
    pub assignment: Option<i32>,
    pub dynamic: bool,
}

/// The abstract value of a worker row.
pub ghost struct WorkerView {
    pub id: int,
    pub hardware: Seq<char>,
    pub coder_deployment: Option<int>,
    pub imagegen_deployment: Option<int>,
    pub setup_finished: bool,
    pub assignment: Option<int>,
    pub dynamic: bool,
}

/// The abstract value of an optional signed 32-bit integer.
pub open spec fn opt_i32_view(o: Option<i32>) -> Option<int> {
    match o {
        Some(v) => Some(v as int),
        None => None,
    }
}

impl View for DatabaseWorkerServer {
    type V = WorkerView;

    open spec fn view(&self) -> WorkerView {
        WorkerView {
            id: self.id as int,
            hardware: self.hardware@,
            coder_deployment: opt_i64_view(self.coder_deployment),
            imagegen_deployment: opt_i64_view(self.imagegen_deployment),
            setup_finished: self.setup_finished,
            assignment: opt_i32_view(self.assignment),
            dynamic: self.dynamic,
        }
    }
}

impl DatabaseWorkerServer {
    /// A copy with the same value.
    pub fn duplicate(&self) -> (r: Self)
        ensures
            r@ == self@,
    {
        broadcast use crate::database::group_db_view;
        DatabaseWorkerServer {
            id: self.id,
            hardware: self.hardware.clone(),
            coder_deployment: self.coder_deployment,
            imagegen_deployment: self.imagegen_deployment,
            setup_finished: self.setup_finished,
            assignment: self.assignment,
            dynamic: self.dynamic,
        }
    }

    /// The number of worker rows.
    pub fn get_count(db: &Database) -> (r: i64)
        requires
            db.wf(),
        ensures
            r == db@.workers.len(),
    {
        broadcast use crate::database::group_db_view;
        proof {
            crate::database::lemma_table_len(
                db@.workers.map_values(|w: WorkerView| w.id),
                db@.next_worker_id,
            );
        }
        db.workers.len() as i64
    }

    /// All workers whose setup has not finished, in id order.
    pub fn get_all_no_setup_finished(db: &Database) -> (r: Vec<DatabaseWorkerServer>)
        ensures
            r@.map_values(|w: DatabaseWorkerServer| w@) == db@.workers.filter(
                |w: WorkerView| !w.setup_finished,
            ),
    {
        broadcast use crate::database::group_db_view;
        let ghost f = |w: WorkerView| !w.setup_finished;
        let n = db.workers.len();
        let mut out: Vec<DatabaseWorkerServer> = Vec::new();
        let ghost mut acc: Seq<WorkerView> = Seq::empty();
        let mut i: usize = 0;
        proof {
            reveal(Seq::filter);
            assert(db@.workers.subrange(0, 0) =~= Seq::<WorkerView>::empty());
            assert(acc == db@.workers.subrange(0, 0).filter(f));
        }
        while i < n
            invariant
                n == db.workers@.len(),
                f == (|w: WorkerView| !w.setup_finished),
                0 <= i <= n,
                acc == db@.workers.subrange(0, i as int).filter(f),
                out@.len() == acc.len(),
                forall|j: int| 0 <= j < acc.len() ==> (#[trigger] out@[j])@ == acc[j],
            decreases n - i,
        {
            proof {
                reveal(Seq::filter);
                let pre = db@.workers.subrange(0, i + 1);
                assert(pre.drop_last() =~= db@.workers.subrange(0, i as int));
                assert(pre.last() == db@.workers[i as int]);
            }
            if !db.workers[i].setup_finished {
                out.push(db.workers[i].duplicate());
                proof {
                    assert(f(db@.workers[i as int]));
                    acc = acc.push(db@.workers[i as int]);
                }
            } else {
                proof {
                    assert(!f(db@.workers[i as int]));
                }
            }
            i = i + 1;
        }
        proof {
            assert(db@.workers.subrange(0, db@.workers.len() as int) =~= db@.workers);
            assert(out@.map_values(|w: DatabaseWorkerServer| w@) =~= acc);
        }
        out
    }

    /// All dynamic workers with no assignment, in id order: the candidates
    /// for scale-down.
    pub fn get_all_dynamic_unassigned(db: &Database) -> (r: Vec<DatabaseWorkerServer>)
        ensures
            r@.map_values(|w: DatabaseWorkerServer| w@) == db@.workers.filter(
                |w: WorkerView| w.dynamic && w.assignment is None,
            ),
    {
        broadcast use crate::database::group_db_view;
        let ghost f = |w: WorkerView| w.dynamic && w.assignment is None;
        let n = db.workers.len();
        let mut out: Vec<DatabaseWorkerServer> = Vec::new();
        let ghost mut acc: Seq<WorkerView> = Seq::empty();
        let mut i: usize = 0;
        proof {
            reveal(Seq::filter);
            assert(db@.workers.subrange(0, 0) =~= Seq::<WorkerView>::empty());
            assert(acc == db@.workers.subrange(0, 0).filter(f));
        }
        while i < n
            invariant
                n == db.workers@.len(),
                f == (|w: WorkerView| w.dynamic && w.assignment is None),
                0 <= i <= n,
                acc == db@.workers.subrange(0, i as int).filter(f),
                out@.len() == acc.len(),
                forall|j: int| 0 <= j < acc.len() ==> (#[trigger] out@[j])@ == acc[j],
            decreases n - i,
        {
            proof {
                reveal(Seq::filter);
                let pre = db@.workers.subrange(0, i + 1);
                assert(pre.drop_last() =~= db@.workers.subrange(0, i as int));
                assert(pre.last() == db@.workers[i as int]);
            }
            if db.workers[i].dynamic && db.workers[i].assignment.is_none() {
                out.push(db.workers[i].duplicate());
                proof {
                    assert(f(db@.workers[i as int]));
                    acc = acc.push(db@.workers[i as int]);
                }
            } else {
                proof {
                    assert(!f(db@.workers[i as int]));
                }
            }
            i = i + 1;
        }
        proof {
            assert(db@.workers.subrange(0, db@.workers.len() as int) =~= db@.workers);
            assert(out@.map_values(|w: DatabaseWorkerServer| w@) =~= acc);
        }
        out
    }

    /// All workers with an assignment, in id order: the set the completion
    /// watcher iterates.
    pub fn get_all_assigned(db: &Database) -> (r: Vec<DatabaseWorkerServer>)
        ensures
            r@.map_values(|w: DatabaseWorkerServer| w@) == db@.workers.filter(
                |w: WorkerView| w.assignment is Some,
            ),
    {
        broadcast use crate::database::group_db_view;
        let ghost f = |w: WorkerView| w.assignment is Some;
        let n = db.workers.len();
        let mut out: Vec<DatabaseWorkerServer> = Vec::new();
        let ghost mut acc: Seq<WorkerView> = Seq::empty();
        let mut i: usize = 0;
        proof {
            reveal(Seq::filter);
            assert(db@.workers.subrange(0, 0) =~= Seq::<WorkerView>::empty());
            assert(acc == db@.workers.subrange(0, 0).filter(f));
        }
        while i < n
            invariant
                n == db.workers@.len(),
                f == (|w: WorkerView| w.assignment is Some),
                0 <= i <= n,
                acc == db@.workers.subrange(0, i as int).filter(f),
                out@.len() == acc.len(),
                forall|j: int| 0 <= j < acc.len() ==> (#[trigger] out@[j])@ == acc[j],
            decreases n - i,
        {
            proof {
                reveal(Seq::filter);
                let pre = db@.workers.subrange(0, i + 1);
                assert(pre.drop_last() =~= db@.workers.subrange(0, i as int));
                assert(pre.last() == db@.workers[i as int]);
            }
            if db.workers[i].assignment.is_some() {
                out.push(db.workers[i].duplicate());
                proof {
                    assert(f(db@.workers[i as int]));
                    acc = acc.push(db@.workers[i as int]);
                }
            } else {
                proof {
                    assert(!f(db@.workers[i as int]));
                }
            }
            i = i + 1;
        }
        proof {
            assert(db@.workers.subrange(0, db@.workers.len() as int) =~= db@.workers);
            assert(out@.map_values(|w: DatabaseWorkerServer| w@) =~= acc);
        }
        out
    }

    /// A worker that finished setup and has no assignment, if any.
    pub fn get_available(db: &Database) -> (r: Option<DatabaseWorkerServer>)
        requires
            db.wf(),
        ensures
            r is Some <==> exists|i: int|
                0 <= i < db@.workers.len() && (#[trigger] db@.workers[i]).setup_finished
                    && db@.workers[i].assignment is None,
            r matches Some(w) ==> db@.workers.contains(w@) && w@.setup_finished && w@.assignment
                is None,
    {
        broadcast use crate::database::group_db_view;
        let n = db.workers.len();
        let mut i: usize = 0;
        while i < n
            invariant
                n == db.workers@.len(),
                0 <= i <= n,
                forall|j: int|
                    0 <= j < i ==> !((#[trigger] db@.workers[j]).setup_finished
                        && db@.workers[j].assignment is None),
            decreases n - i,
        {
            if db.workers[i].setup_finished && db.workers[i].assignment.is_none() {
                let found = db.workers[i].duplicate();
                proof {
                    assert(db@.workers[i as int] == found@);
                }
                return Some(found);
            }
            i = i + 1;
        }
        None
    }

    /// The worker bound to the given assignment, if any.
    pub fn get_by_assignment(db: &Database, assignment: Option<i32>) -> (r: Option<
        DatabaseWorkerServer,
    >)
        requires
            db.wf(),
            assignment is Some,
        ensures
            r is Some <==> exists|i: int|
                0 <= i < db@.workers.len() && (#[trigger] db@.workers[i]).assignment == opt_i32_view(
                    assignment,
                ),
            r matches Some(w) ==> db@.workers.contains(w@) && w@.assignment == opt_i32_view(
                assignment,
            ),
    {
        broadcast use crate::database::group_db_view;
        let target: i32 = match assignment {
            Some(v) => v,
            None => {
                return None;
            },
        };
        let n = db.workers.len();
        let mut i: usize = 0;
        while i < n
            invariant
                n == db.workers@.len(),
                0 <= i <= n,
                opt_i32_view(assignment) == Some(target as int),
                forall|j: int|
                    0 <= j < i ==> (#[trigger] db@.workers[j]).assignment != Some(target as int),
            decreases n - i,
        {
            let matches_target = match db.workers[i].assignment {
                Some(a) => a == target,
                None => false,
            };
            if matches_target {
                let found = db.workers[i].duplicate();
                proof {
                    assert(db@.workers[i as int] == found@);
                }
                return Some(found);
            }
            i = i + 1;
        }
        None
    }

    /// Inserts the worker, assigning it the next id. New workers carry no
    /// assignment.
    pub fn insert(&mut self, db: &mut Database)
        requires
            old(db).wf(),
            old(db)@.next_worker_id < i32::MAX,
            old(self)@.assignment is None,
        ensures
            final(db).wf(),
            final(self)@ == (WorkerView { id: old(db)@.next_worker_id, ..old(self)@ }),
            final(db)@.workers == old(db)@.workers.push(final(self)@),
            final(db)@.next_worker_id == old(db)@.next_worker_id + 1,
            old(db)@.same_but_workers(final(db)@),
    {
        broadcast use crate::database::group_db_view;
        self.id = db.next_worker_id;
        db.next_worker_id = db.next_worker_id + 1;
        db.workers.push(self.duplicate());
        proof {
            let post = db@.workers;
            let pre = old(db)@.workers;
            assert(post =~= pre.push(self@));
            assert forall|x: int, y: int| 0 <= x < y < post.len() implies post[x].id < post[y].id by {
                if y < pre.len() {
                } else {
                    assert(post[y].id == old(db)@.next_worker_id);
                }
            }
        }
    }

    /// Rewrites the coder container deployment request id of the row with
    /// this worker's id, and of this copy.
    pub fn update_coder_deployment(&mut self, db: &mut Database, coder_deployment: Option<i64>)
        requires
            old(db).wf(),
        ensures
            final(db).wf(),
            final(self)@ == (WorkerView {
                coder_deployment: opt_i64_view(coder_deployment),
                ..old(self)@
            }),
            final(db)@.workers.len() == old(db)@.workers.len(),
            forall|i: int|
                0 <= i < old(db)@.workers.len() ==> final(db)@.workers[i] == (
                if old(db)@.workers[i].id == old(self)@.id {
                    WorkerView {
                        coder_deployment: opt_i64_view(coder_deployment),
                        ..old(db)@.workers[i]
                    }
                } else {
                    old(db)@.workers[i]
                }),
            final(db)@.next_worker_id == old(db)@.next_worker_id,
            old(db)@.same_but_workers(final(db)@),
    {
        broadcast use crate::database::group_db_view;
        let n = db.workers.len();
        let mut i: usize = 0;
        while i < n
            invariant
                old(db).wf(),
                n == db.workers@.len(),
                0 <= i <= n,
                db@ == old(db)@,
                *self == *old(self),
                forall|j: int| 0 <= j < i ==> (#[trigger] db@.workers[j]).id != old(self)@.id,
            decreases n - i,
        {
            if db.workers[i].id == self.id {
                db.workers[i].coder_deployment = coder_deployment;
                proof {
                    assert(db@.workers =~= old(db)@.workers.update(
                        i as int,
                        WorkerView {
                            coder_deployment: opt_i64_view(coder_deployment),
                            ..old(db)@.workers[i as int]
                        },
                    ));
                }
                self.coder_deployment = coder_deployment;
                return ;
            }
            i = i + 1;
        }
        self.coder_deployment = coder_deployment;
    }

    /// Rewrites the imagegen container deployment request id of the row
    /// with this worker's id, and of this copy.
    pub fn update_imagegen_deployment(&mut self, db: &mut Database, imagegen_deployment: Option<
        i64,
    >)
        requires
            old(db).wf(),
        ensures
            final(db).wf(),
            final(self)@ == (WorkerView {
                imagegen_deployment: opt_i64_view(imagegen_deployment),
                ..old(self)@
            }),
            final(db)@.workers.len() == old(db)@.workers.len(),
            forall|i: int|
                0 <= i < old(db)@.workers.len() ==> final(db)@.workers[i] == (
                if old(db)@.workers[i].id == old(self)@.id {
                    WorkerView {
                        imagegen_deployment: opt_i64_view(imagegen_deployment),
                        ..old(db)@.workers[i]
                    }
                } else {
                    old(db)@.workers[i]
                }),
            final(db)@.next_worker_id == old(db)@.next_worker_id,
            old(db)@.same_but_workers(final(db)@),
    {
        broadcast use crate::database::group_db_view;
        let n = db.workers.len();
        let mut i: usize = 0;
        while i < n
            invariant
                old(db).wf(),
                n == db.workers@.len(),
                0 <= i <= n,
                db@ == old(db)@,
                *self == *old(self),
                forall|j: int| 0 <= j < i ==> (#[trigger] db@.workers[j]).id != old(self)@.id,
            decreases n - i,
        {
            if db.workers[i].id == self.id {
                db.workers[i].imagegen_deployment = imagegen_deployment;
                proof {
                    assert(db@.workers =~= old(db)@.workers.update(
                        i as int,
                        WorkerView {
                            imagegen_deployment: opt_i64_view(imagegen_deployment),
                            ..old(db)@.workers[i as int]
                        },
                    ));
                }
                self.imagegen_deployment = imagegen_deployment;
                return ;
            }
            i = i + 1;
        }
        self.imagegen_deployment = imagegen_deployment;
    }

    /// Rewrites the setup-finished flag of the row with this worker's id,
    /// and of this copy.
    pub fn update_setup_finished(&mut self, db: &mut Database, setup_finished: bool)
        requires
            old(db).wf(),
            !setup_finished ==> forall|i: int|
                0 <= i < old(db)@.workers.len() && (#[trigger] old(db)@.workers[i]).id == old(
                    self,
                )@.id ==> old(db)@.workers[i].assignment is None,
        ensures
            final(db).wf(),
            final(self)@ == (WorkerView { setup_finished: setup_finished, ..old(self)@ }),
            final(db)@.workers.len() == old(db)@.workers.len(),
            forall|i: int|
                0 <= i < old(db)@.workers.len() ==> final(db)@.workers[i] == (
                if old(db)@.workers[i].id == old(self)@.id {
                    WorkerView { setup_finished: setup_finished, ..old(db)@.workers[i] }
                } else {
                    old(db)@.workers[i]
                }),
            final(db)@.next_worker_id == old(db)@.next_worker_id,
            old(db)@.same_but_workers(final(db)@),
    {
        broadcast use crate::database::group_db_view;
        let n = db.workers.len();
        let mut i: usize = 0;
        while i < n
            invariant
                old(db).wf(),
                !setup_finished ==> forall|k: int|
                    0 <= k < old(db)@.workers.len() && (#[trigger] old(db)@.workers[k]).id == old(
                        self,
                    )@.id ==> old(db)@.workers[k].assignment is None,
                n == db.workers@.len(),
                0 <= i <= n,
                db@ == old(db)@,
                *self == *old(self),
                forall|j: int| 0 <= j < i ==> (#[trigger] db@.workers[j]).id != old(self)@.id,
            decreases n - i,
        {
            if db.workers[i].id == self.id {
                db.workers[i].setup_finished = setup_finished;
                proof {
                    assert(db@.workers =~= old(db)@.workers.update(
                        i as int,
                        WorkerView { setup_finished: setup_finished, ..old(db)@.workers[i as int] },
                    ));
                }
                self.setup_finished = setup_finished;
                return ;
            }
            i = i + 1;
        }
        self.setup_finished = setup_finished;
    }

    /// Rewrites the assignment of the row with this worker's id, and of
    /// this copy. A non-null assignment may only be given to a worker that
    /// finished setup, may not be shared with another worker, and must name
    /// a deployment whose imagegen stage has not finished.
    pub fn update_assignment(&mut self, db: &mut Database, assignment: Option<i32>)
        requires
            old(db).wf(),
            assignment matches Some(a) ==> {
                &&& forall|i: int|
                    0 <= i < old(db)@.workers.len() && (#[trigger] old(db)@.workers[i]).id == old(
                        self,
                    )@.id ==> old(db)@.workers[i].setup_finished
                &&& forall|i: int|
                    0 <= i < old(db)@.workers.len() && (#[trigger] old(db)@.workers[i]).id != old(
                        self,
                    )@.id ==> old(db)@.workers[i].assignment != Some(a as int)
                &&& has_active_deployment(old(db)@.deployments, a as int)
            },
        ensures
            final(db).wf(),
            final(self)@ == (WorkerView { assignment: opt_i32_view(assignment), ..old(self)@ }),
            final(db)@.workers.len() == old(db)@.workers.len(),
            forall|i: int|
                0 <= i < old(db)@.workers.len() ==> final(db)@.workers[i] == (
                if old(db)@.workers[i].id == old(self)@.id {
                    WorkerView { assignment: opt_i32_view(assignment), ..old(db)@.workers[i] }
                } else {
                    old(db)@.workers[i]
                }),
            final(db)@.next_worker_id == old(db)@.next_worker_id,
            old(db)@.same_but_workers(final(db)@),
    {
        broadcast use crate::database::group_db_view;
        let n = db.workers.len();
        let mut i: usize = 0;
        while i < n
            invariant
                old(db).wf(),
                assignment matches Some(a) ==> {
                    &&& forall|k: int|
                        0 <= k < old(db)@.workers.len() && (#[trigger] old(db)@.workers[k]).id
                            == old(self)@.id ==> old(db)@.workers[k].setup_finished
                    &&& forall|k: int|
                        0 <= k < old(db)@.workers.len() && (#[trigger] old(db)@.workers[k]).id
                            != old(self)@.id ==> old(db)@.workers[k].assignment != Some(a as int)
                    &&& has_active_deployment(old(db)@.deployments, a as int)
                },
                n == db.workers@.len(),
                0 <= i <= n,
                db@ == old(db)@,
                *self == *old(self),
                forall|j: int| 0 <= j < i ==> (#[trigger] db@.workers[j]).id != old(self)@.id,
            decreases n - i,
        {
            if db.workers[i].id == self.id {
                db.workers[i].assignment = assignment;
                proof {
                    assert(db@.workers =~= old(db)@.workers.update(
                        i as int,
                        WorkerView {
                            assignment: opt_i32_view(assignment),
                            ..old(db)@.workers[i as int]
                        },
                    ));
                }
                self.assignment = assignment;
                return ;
            }
            i = i + 1;
        }
        self.assignment = assignment;
    }

    /// Removes the row with this worker's id from the store.
    pub fn delete(self, db: &mut Database)
        requires
            old(db).wf(),
        ensures
            final(db).wf(),
            final(db)@.workers == old(db)@.workers.filter(|w: WorkerView| w.id != self@.id),
            final(db)@.next_worker_id == old(db)@.next_worker_id,
            old(db)@.same_but_workers(final(db)@),
    {
        broadcast use crate::database::group_db_view;
        let ghost f = |w: WorkerView| w.id != self@.id;
        let n = db.workers.len();
        let mut out: Vec<DatabaseWorkerServer> = Vec::new();
        let ghost mut acc: Seq<WorkerView> = Seq::empty();
        let mut i: usize = 0;
        proof {
            reveal(Seq::filter);
            assert(db@.workers.subrange(0, 0) =~= Seq::<WorkerView>::empty());
            assert(acc == db@.workers.subrange(0, 0).filter(f));
        }
        while i < n
            invariant
                n == db.workers@.len(),
                f == (|w: WorkerView| w.id != self@.id),
                0 <= i <= n,
                db@ == old(db)@,
                acc == db@.workers.subrange(0, i as int).filter(f),
                out@.len() == acc.len(),
                forall|j: int| 0 <= j < acc.len() ==> (#[trigger] out@[j])@ == acc[j],
            decreases n - i,
        {
            proof {
                reveal(Seq::filter);
                let pre = db@.workers.subrange(0, i + 1);
                assert(pre.drop_last() =~= db@.workers.subrange(0, i as int));
                assert(pre.last() == db@.workers[i as int]);
            }
            if db.workers[i].id != self.id {
                out.push(db.workers[i].duplicate());
                proof {
                    assert(f(db@.workers[i as int]));
                    acc = acc.push(db@.workers[i as int]);
                }
            } else {
                proof {
                    assert(!f(db@.workers[i as int]));
                }
            }
            i = i + 1;
        }
        proof {
            assert(old(db)@.workers.subrange(0, old(db)@.workers.len() as int) =~= old(db)@.workers);
            assert(out@.map_values(|w: DatabaseWorkerServer| w@) =~= acc);
        }
        db.workers = out;
        proof {
            let pre = old(db)@.workers;
            let post = db@.workers;
            let kept = |w: WorkerView| w.id != self@.id;
            assert(post == pre.filter(kept));
            lemma_filter_worker_table(pre, kept);
            assert forall|k: int|
                0 <= k < post.len() implies 1 <= (#[trigger] post[k]).id < old(db)@.next_worker_id
                    && (post[k].assignment is Some ==> post[k].setup_finished)
                    && (post[k].assignment is Some ==> has_active_deployment(
                    db@.deployments,
                    post[k].assignment->0,
                )) by {
                assert(pre.contains(post[k]));
                let j = choose|j: int| 0 <= j < pre.len() && pre[j] == post[k];
                assert(1 <= pre[j].id < old(db)@.next_worker_id);
            }
            assert forall|x: int, y: int|
                0 <= x < post.len() && 0 <= y < post.len() && x != y && (
                #[trigger] post[x]).assignment is Some implies post[x].assignment != (
            #[trigger] post[y]).assignment by {
                let jx = choose|j: int| 0 <= j < pre.len() && pre[j] == post[x];
                let jy = choose|j: int| 0 <= j < pre.len() && pre[j] == post[y];
                if x < y {
                    assert(post[x].id < post[y].id);
                } else {
                    assert(post[y].id < post[x].id);
                }
                assert(pre[jx].id != pre[jy].id);
                assert(jx != jy);
            }
        }
    }
}

/// Filtering a worker table keeps every kept row a row of the table and
/// keeps the ids strictly increasing.
proof fn lemma_filter_worker_table(pre: Seq<WorkerView>, pred: spec_fn(WorkerView) -> bool)
    requires
        forall|x: int, y: int| 0 <= x < y < pre.len() ==> pre[x].id < pre[y].id,
    ensures
        forall|k: int|
            0 <= k < pre.filter(pred).len() ==> pre.contains(#[trigger] pre.filter(pred)[k]),
        forall|x: int, y: int|
            0 <= x < y < pre.filter(pred).len() ==> pre.filter(pred)[x].id < pre.filter(
                pred,
            )[y].id,
    decreases pre.len(),
{
    broadcast use crate::database::group_db_view;
    reveal(Seq::filter);
    if pre.len() > 0 {
        let front = pre.drop_last();
        let last = pre.last();
        lemma_filter_worker_table(front, pred);
        assert forall|k: int|
            0 <= k < front.filter(pred).len() implies pre.contains(
            #[trigger] front.filter(pred)[k],
        ) by {
            assert(front.contains(front.filter(pred)[k]));
            let j = choose|j: int| 0 <= j < front.len() && front[j] == front.filter(pred)[k];
            assert(pre[j] == front.filter(pred)[k]);
        }
        if pred(last) {
            let post = pre.filter(pred);
            assert(post == front.filter(pred).push(last));
            assert(pre.contains(last)) by {
                assert(pre[pre.len() - 1] == last);
            }
            assert forall|x: int, y: int| 0 <= x < y < post.len() implies post[x].id < post[y].id by {
                if y < post.len() - 1 {
                    assert(post[x] == front.filter(pred)[x] && post[y] == front.filter(pred)[y]);
                } else {
                    assert(post[y] == last);
                    assert(post[x] == front.filter(pred)[x]);
                    assert(front.contains(post[x]));
                    let j = choose|j: int| 0 <= j < front.len() && front[j] == post[x];
                    assert(pre[j].id < last.id);
                }
            }
        }
    }
}

} // verus!
