//! The durable state of the factory: projects, deployments, workers,
//! credits, promo codes and the waitlist, with the transactional invariants
//! the pipeline relies on (unique keys, monotone ids, monotone deployment
//! timestamps, single assignment per worker, and a non-negative credit sum
//! per account).

use vstd::prelude::*;

use crate::credits::{CreditsView, DatabaseCredits};
use crate::deployments::{DatabaseDeployment, DeploymentView};
use crate::projects::{DatabaseProject, ProjectView};
use crate::promo_code::{DatabasePromoCode, PromoCodeView};
use crate::waitlist::{DatabaseWaitlist, WaitlistView};
use crate::worker_servers::{DatabaseWorkerServer, WorkerView};

verus! {

/// Why a store mutation was rejected.
#[derive(Debug, PartialEq, Eq, Structural, Clone, Copy)]
pub enum StoreError {
    /// A row with the same key already exists.
    Duplicate,
    /// Inserting the credit entry would make the account's sum negative,
    /// or the sum would no longer fit in a signed 64-bit integer.
    InsufficientFunds,
    /// The row addressed by the operation is not in the store.
    NotFound,
}

/// The abstract value of the whole store.
#[verifier::ext_equal]
pub ghost struct DbView {
    pub projects: Seq<ProjectView>,
    pub deployments: Seq<DeploymentView>,
    pub workers: Seq<WorkerView>,
    pub credits: Seq<CreditsView>,
    pub promo_codes: Seq<PromoCodeView>,
    pub waitlist: Seq<WaitlistView>,
    pub next_project_id: int,
    pub next_deployment_id: int,
    pub next_worker_id: int,
    pub next_waitlist_id: int,
}

/// The store. Every operation keeps `wf()`; rows are only reached through
/// the operations of the row types.
pub struct Database {
    pub(crate) projects: Vec<DatabaseProject>,
    pub(crate) deployments: Vec<DatabaseDeployment>,
    pub(crate) workers: Vec<DatabaseWorkerServer>,
    pub(crate) credits: Vec<DatabaseCredits>,
    pub(crate) promo_codes: Vec<DatabasePromoCode>,
    pub(crate) waitlist: Vec<DatabaseWaitlist>,
    pub(crate) next_project_id: i32,
    pub(crate) next_deployment_id: i32,
    pub(crate) next_worker_id: i32,
    pub(crate) next_waitlist_id: i32,
}

impl View for Database {
    type V = DbView;

    open(crate) spec fn view(&self) -> DbView {
        DbView {
            projects: self.projects@.map_values(|p: DatabaseProject| p@),
            deployments: self.deployments@.map_values(|d: DatabaseDeployment| d@),
            workers: self.workers@.map_values(|w: DatabaseWorkerServer| w@),
            credits: self.credits@.map_values(|c: DatabaseCredits| c@),
            promo_codes: self.promo_codes@.map_values(|c: DatabasePromoCode| c@),
            waitlist: self.waitlist@.map_values(|w: DatabaseWaitlist| w@),
            next_project_id: self.next_project_id as int,
            next_deployment_id: self.next_deployment_id as int,
            next_worker_id: self.next_worker_id as int,
            next_waitlist_id: self.next_waitlist_id as int,
        }
    }
}

pub(crate) broadcast proof fn lemma_view_projects_len(db: &Database)
    ensures
        #[trigger] db@.projects.len() == db.projects@.len(),
{
}

pub(crate) broadcast proof fn lemma_view_projects_at(db: &Database, i: int)
    requires
        0 <= i < db.projects@.len(),
    ensures
        #[trigger] db@.projects[i] == db.projects@[i]@,
{
}

pub(crate) broadcast proof fn lemma_view_deployments_len(db: &Database)
    ensures
        #[trigger] db@.deployments.len() == db.deployments@.len(),
{
}

pub(crate) broadcast proof fn lemma_view_deployments_at(db: &Database, i: int)
    requires
        0 <= i < db.deployments@.len(),
    ensures
        #[trigger] db@.deployments[i] == db.deployments@[i]@,
{
}

pub(crate) broadcast proof fn lemma_view_workers_len(db: &Database)
    ensures
        #[trigger] db@.workers.len() == db.workers@.len(),
{
}

pub(crate) broadcast proof fn lemma_view_workers_at(db: &Database, i: int)
    requires
        0 <= i < db.workers@.len(),
    ensures
        #[trigger] db@.workers[i] == db.workers@[i]@,
{
}

pub(crate) broadcast proof fn lemma_view_credits_len(db: &Database)
    ensures
        #[trigger] db@.credits.len() == db.credits@.len(),
{
}

pub(crate) broadcast proof fn lemma_view_credits_at(db: &Database, i: int)
    requires
        0 <= i < db.credits@.len(),
    ensures
        #[trigger] db@.credits[i] == db.credits@[i]@,
{
}

pub(crate) broadcast proof fn lemma_view_promo_codes_len(db: &Database)
    ensures
        #[trigger] db@.promo_codes.len() == db.promo_codes@.len(),
{
}

pub(crate) broadcast proof fn lemma_view_promo_codes_at(db: &Database, i: int)
    requires
        0 <= i < db.promo_codes@.len(),
    ensures
        #[trigger] db@.promo_codes[i] == db.promo_codes@[i]@,
{
}

pub(crate) broadcast proof fn lemma_view_waitlist_len(db: &Database)
    ensures
        #[trigger] db@.waitlist.len() == db.waitlist@.len(),
{
}

pub(crate) broadcast proof fn lemma_view_waitlist_at(db: &Database, i: int)
    requires
        0 <= i < db.waitlist@.len(),
    ensures
        #[trigger] db@.waitlist[i] == db.waitlist@[i]@,
{
}

/// How the table views of the store relate to its vectors, element by
/// element.
pub(crate) broadcast group group_db_view {
    lemma_view_projects_len,
    lemma_view_projects_at,
    lemma_view_deployments_len,
    lemma_view_deployments_at,
    lemma_view_workers_len,
    lemma_view_workers_at,
    lemma_view_credits_len,
    lemma_view_credits_at,
    lemma_view_promo_codes_len,
    lemma_view_promo_codes_at,
    lemma_view_waitlist_len,
    lemma_view_waitlist_at,
}

/// The running sum of the credit entries of one account over a ledger
/// prefix.
pub open spec fn account_total(s: Seq<CreditsView>, account: Seq<char>) -> int
    decreases s.len(),
{
    if s.len() == 0 {
        0
    } else {
        account_total(s.drop_last(), account) + if s.last().account == account {
            s.last().credits
        } else {
            0
        }
    }
}

/// The ledger invariant: at every prefix (that is, at every observable
/// moment of the append-only ledger), every account's sum lies in
/// `[0, i64::MAX]`.
pub open spec fn credits_wf(s: Seq<CreditsView>) -> bool {
    forall|a: Seq<char>, i: int|
        0 <= i <= s.len() ==> 0 <= #[trigger] account_total(s.subrange(0, i), a) <= i64::MAX
}

/// Project table invariant: ids positive, strictly increasing and below the
/// next id; names unique.
pub open spec fn projects_wf(s: Seq<ProjectView>, next: int) -> bool {
    &&& 1 <= next <= i32::MAX
    &&& forall|i: int| 0 <= i < s.len() ==> 1 <= (#[trigger] s[i]).id < next
    &&& forall|i: int, j: int| 0 <= i < j < s.len() ==> s[i].id < s[j].id
    &&& forall|i: int, j: int|
        0 <= i < s.len() && 0 <= j < s.len() && i != j ==> (#[trigger] s[i]).name != (
        #[trigger] s[j]).name
}

/// Deployment table invariant: ids positive, strictly increasing and below
/// the next id; each row's timestamps monotone.
pub open spec fn deployments_wf(s: Seq<DeploymentView>, next: int) -> bool {
    &&& 1 <= next <= i32::MAX
    &&& forall|i: int| 0 <= i < s.len() ==> 1 <= (#[trigger] s[i]).id < next
    &&& forall|i: int, j: int| 0 <= i < j < s.len() ==> s[i].id < s[j].id
    &&& forall|i: int| 0 <= i < s.len() ==> (#[trigger] s[i]).timestamps_wf()
}

/// There is a deployment row with the given id whose imagegen stage has not
/// finished.
pub open spec fn has_active_deployment(ds: Seq<DeploymentView>, id: int) -> bool {
    exists|k: int|
        0 <= k < ds.len() && (#[trigger] ds[k]).id == id && ds[k].imagegen_finished_at is None
}

/// When an update keeps every deployment id and never finishes a row that
/// was unfinished, every worker assignment that pointed at an active
/// deployment still does.
pub proof fn lemma_active_update(
    pre: Seq<DeploymentView>,
    post: Seq<DeploymentView>,
    ws: Seq<WorkerView>,
)
    requires
        post.len() == pre.len(),
        forall|k: int| 0 <= k < pre.len() ==> (#[trigger] post[k]).id == pre[k].id,
        forall|k: int|
            0 <= k < pre.len() && (#[trigger] pre[k]).imagegen_finished_at is None
                ==> post[k].imagegen_finished_at is None,
        forall|w: int|
            0 <= w < ws.len() && (#[trigger] ws[w]).assignment is Some ==> has_active_deployment(
                pre,
                ws[w].assignment->0,
            ),
    ensures
        forall|w: int|
            0 <= w < ws.len() && (#[trigger] ws[w]).assignment is Some ==> has_active_deployment(
                post,
                ws[w].assignment->0,
            ),
{
    assert forall|w: int|
        0 <= w < ws.len() && (#[trigger] ws[w]).assignment is Some implies has_active_deployment(
        post,
        ws[w].assignment->0,
    ) by {
        let id = ws[w].assignment->0;
        assert(has_active_deployment(pre, id));
        let k = choose|k: int|
            0 <= k < pre.len() && (#[trigger] pre[k]).id == id && pre[k].imagegen_finished_at
                is None;
        assert(post[k].id == id && post[k].imagegen_finished_at is None);
    }
}

/// Worker table invariant: ids positive, strictly increasing and below the
/// next id; a non-null assignment implies finished setup, is shared by no
/// other worker, and points at a deployment whose imagegen stage has not
/// finished.
pub open spec fn workers_wf(ws: Seq<WorkerView>, ds: Seq<DeploymentView>, next: int) -> bool {
    &&& 1 <= next <= i32::MAX
    &&& forall|i: int| 0 <= i < ws.len() ==> 1 <= (#[trigger] ws[i]).id < next
    &&& forall|i: int, j: int| 0 <= i < j < ws.len() ==> ws[i].id < ws[j].id
    &&& forall|i: int| 0 <= i < ws.len() && (#[trigger] ws[i]).assignment is Some ==> ws[i].setup_finished
    &&& forall|i: int, j: int|
        0 <= i < ws.len() && 0 <= j < ws.len() && i != j && (#[trigger] ws[i]).assignment is Some
            ==> ws[i].assignment != (#[trigger] ws[j]).assignment
    &&& forall|i: int|
        0 <= i < ws.len() && (#[trigger] ws[i]).assignment is Some ==> has_active_deployment(
            ds,
            ws[i].assignment->0,
        )
}

/// Promo code table invariant: codes unique.
pub open spec fn promo_codes_wf(s: Seq<PromoCodeView>) -> bool {
    forall|i: int, j: int|
        0 <= i < s.len() && 0 <= j < s.len() && i != j ==> (#[trigger] s[i]).code != (
        #[trigger] s[j]).code
}

/// Waitlist invariant: ids positive, strictly increasing and below the next
/// id; enrolled addresses unique.
pub open spec fn waitlist_wf(s: Seq<WaitlistView>, next: int) -> bool {
    &&& 1 <= next <= i32::MAX
    &&& forall|i: int| 0 <= i < s.len() ==> 1 <= (#[trigger] s[i]).id < next
    &&& forall|i: int, j: int| 0 <= i < j < s.len() ==> s[i].id < s[j].id
    &&& forall|i: int, j: int|
        0 <= i < s.len() && 0 <= j < s.len() && i != j ==> (#[trigger] s[i]).ip != (
        #[trigger] s[j]).ip
}

/// In a table whose ids are at least 1, strictly increasing and below a
/// bound, the number of rows is below the bound too.
pub proof fn lemma_table_len(ids: Seq<int>, next: int)
    requires
        1 <= next,
        forall|i: int| 0 <= i < ids.len() ==> 1 <= #[trigger] ids[i] < next,
        forall|i: int, j: int| 0 <= i < j < ids.len() ==> ids[i] < ids[j],
    ensures
        ids.len() <= next - 1,
    decreases ids.len(),
{
    if ids.len() > 0 {
        assert(forall|i: int| 0 <= i < ids.len() - 1 ==> #[trigger] ids.drop_last()[i] == ids[i]);
        assert(ids.last() == ids[ids.len() - 1]);
        lemma_table_len(ids.drop_last(), ids.last());
        assert(ids.drop_last().len() <= ids.last() - 1);
    }
}

impl DbView {
    /// The store invariant.
    pub open spec fn wf(self) -> bool {
        &&& projects_wf(self.projects, self.next_project_id)
        &&& deployments_wf(self.deployments, self.next_deployment_id)
        &&& workers_wf(self.workers, self.deployments, self.next_worker_id)
        &&& credits_wf(self.credits)
        &&& promo_codes_wf(self.promo_codes)
        &&& waitlist_wf(self.waitlist, self.next_waitlist_id)
    }

    /// All tables except projects agree between two store values.
    pub open spec fn same_but_projects(self, other: DbView) -> bool {
        &&& self.deployments == other.deployments
        &&& self.workers == other.workers
        &&& self.credits == other.credits
        &&& self.promo_codes == other.promo_codes
        &&& self.waitlist == other.waitlist
        &&& self.next_deployment_id == other.next_deployment_id
        &&& self.next_worker_id == other.next_worker_id
        &&& self.next_waitlist_id == other.next_waitlist_id
    }

    /// All tables except deployments agree between two store values.
    pub open spec fn same_but_deployments(self, other: DbView) -> bool {
        &&& self.projects == other.projects
        &&& self.workers == other.workers
        &&& self.credits == other.credits
        &&& self.promo_codes == other.promo_codes
        &&& self.waitlist == other.waitlist
        &&& self.next_project_id == other.next_project_id
        &&& self.next_worker_id == other.next_worker_id
        &&& self.next_waitlist_id == other.next_waitlist_id
    }

    /// All tables except workers agree between two store values.
    pub open spec fn same_but_workers(self, other: DbView) -> bool {
        &&& self.projects == other.projects
        &&& self.deployments == other.deployments
        &&& self.credits == other.credits
        &&& self.promo_codes == other.promo_codes
        &&& self.waitlist == other.waitlist
        &&& self.next_project_id == other.next_project_id
        &&& self.next_deployment_id == other.next_deployment_id
        &&& self.next_waitlist_id == other.next_waitlist_id
    }

    /// All tables except credits agree between two store values.
    pub open spec fn same_but_credits(self, other: DbView) -> bool {
        &&& self.projects == other.projects
        &&& self.deployments == other.deployments
        &&& self.workers == other.workers
        &&& self.promo_codes == other.promo_codes
        &&& self.waitlist == other.waitlist
        &&& self.next_project_id == other.next_project_id
        &&& self.next_deployment_id == other.next_deployment_id
        &&& self.next_worker_id == other.next_worker_id
        &&& self.next_waitlist_id == other.next_waitlist_id
    }

    /// All tables except promo codes agree between two store values.
    pub open spec fn same_but_promo_codes(self, other: DbView) -> bool {
        &&& self.projects == other.projects
        &&& self.deployments == other.deployments
        &&& self.workers == other.workers
        &&& self.credits == other.credits
        &&& self.waitlist == other.waitlist
        &&& self.next_project_id == other.next_project_id
        &&& self.next_deployment_id == other.next_deployment_id
        &&& self.next_worker_id == other.next_worker_id
        &&& self.next_waitlist_id == other.next_waitlist_id
    }

    /// All tables except the waitlist agree between two store values.
    pub open spec fn same_but_waitlist(self, other: DbView) -> bool {
        &&& self.projects == other.projects
        &&& self.deployments == other.deployments
        &&& self.workers == other.workers
        &&& self.credits == other.credits
        &&& self.promo_codes == other.promo_codes
        &&& self.next_project_id == other.next_project_id
        &&& self.next_deployment_id == other.next_deployment_id
        &&& self.next_worker_id == other.next_worker_id
    }
}

impl Database {
    /// Whether the store invariant holds; all operations require and keep
    /// it.
    pub open spec fn wf(&self) -> bool {
        self@.wf()
    }

    /// An empty store.
    pub fn new() -> (r: Database)
        ensures
            r.wf(),
            r@.projects.len() == 0,
            r@.deployments.len() == 0,
            r@.workers.len() == 0,
            r@.credits.len() == 0,
            r@.promo_codes.len() == 0,
            r@.waitlist.len() == 0,
            r@.next_project_id == 1,
            r@.next_deployment_id == 1,
            r@.next_worker_id == 1,
            r@.next_waitlist_id == 1,
    {
        let db = Database {
            projects: Vec::new(),
            deployments: Vec::new(),
            workers: Vec::new(),
            credits: Vec::new(),
            promo_codes: Vec::new(),
            waitlist: Vec::new(),
            next_project_id: 1,
            next_deployment_id: 1,
            next_worker_id: 1,
            next_waitlist_id: 1,
        };
        proof {
            assert forall|a: Seq<char>, i: int| 0 <= i <= db@.credits.len() implies 0 <= #[trigger]
            account_total(db@.credits.subrange(0, i), a) <= i64::MAX by {
                assert(db@.credits.subrange(0, i) =~= Seq::<CreditsView>::empty());
            }
        }
        db
    }

    /// Credit non-negativity: in a well-formed store, every account's
    /// ledger sum is non-negative — and so is the sum over every prefix of
    /// the append-only ledger, that is, at every observable moment.
    pub proof fn lemma_credit_non_negative(&self, account: Seq<char>, upto: int)
        requires
            self.wf(),
            0 <= upto <= self@.credits.len(),
        ensures
            account_total(self@.credits.subrange(0, upto), account) >= 0,
            account_total(self@.credits, account) >= 0,
    {
        assert(self@.credits.subrange(0, self@.credits.len() as int) =~= self@.credits);
    }

    /// Single assignment: in a well-formed store, two distinct workers
    /// never share a non-null assignment, and no assignment points at a
    /// deployment whose imagegen stage has finished.
    pub proof fn lemma_single_assignment(&self, i: int, j: int, k: int)
        requires
            self.wf(),
            0 <= i < self@.workers.len(),
            0 <= j < self@.workers.len(),
            i != j,
            self@.workers[i].assignment is Some,
            0 <= k < self@.deployments.len(),
        ensures
            self@.workers[i].assignment != self@.workers[j].assignment,
            self@.deployments[k].id == self@.workers[i].assignment->0
                ==> self@.deployments[k].imagegen_finished_at is None,
    {
        if self@.deployments[k].id == self@.workers[i].assignment->0 {
            let id = self@.workers[i].assignment->0;
            assert(has_active_deployment(self@.deployments, id));
            let w = choose|w: int|
                0 <= w < self@.deployments.len() && (#[trigger] self@.deployments[w]).id == id
                    && self@.deployments[w].imagegen_finished_at is None;
            assert(self@.deployments[w].id == self@.deployments[k].id);
            if w < k {
                assert(self@.deployments[w].id < self@.deployments[k].id);
            } else if k < w {
                assert(self@.deployments[k].id < self@.deployments[w].id);
            }
        }
    }
}

} // verus!
