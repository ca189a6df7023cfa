//! The factory endpoints' decisions and store transactions. The
//! surrounding program extracts the caller from the request, hands plain
//! values in, and turns the outcome into an HTTP response; everything the
//! endpoints decide or change is here.

use vstd::prelude::*;

use crate::credits::{CreditsView, DatabaseCredits};
use crate::database::{account_total, Database};
use crate::deployments::{DatabaseDeployment, DeploymentView};
use crate::error::ResponseError;
use crate::price::{get_price, spec_price};
use crate::projects::{project_named, DatabaseProject, ProjectView};
use crate::promo_code::DatabasePromoCode;
use crate::runner::coder_chat_path;
use crate::textutil::{i64_string, spec_dec_i64, str_eq};
use crate::validation::{spec_valid_project, valid_project};

verus! {

/// The outcome of an endpoint, as the surrounding program reports it.
#[derive(Debug)]
pub enum ApiOutcome<T> {
    /// The request succeeded with this payload.
    Success(T),
    /// The request was rejected with a caller-actionable message.
    BadRequest(ResponseError),
    /// The request was rejected without a message.
    Invalid,
    /// The caller may not act on this resource.
    Unauthorized,
    /// The ledger refused the debit: insufficient funds.
    PaymentRequired,
    /// The project still has an unfinished deployment.
    TooManyRequests(ResponseError),
    /// The addressed resource does not exist.
    NotFound,
    /// The store refused a write the caller could not have foreseen.
    Internal,
}

/// What a reset asks the surrounding program to do besides the store
/// changes.
#[derive(Debug, PartialEq, Eq, Structural, Clone, Copy)]
pub enum ResetPlan {
    /// Rewind to a prior deployment: redeploy the pinned version.
    Rewind,
    /// Start over: recreate the source repository from the template, then
    /// redeploy.
    Recreate,
}

/// Where a deployment's live output currently comes from.
#[derive(Debug)]
pub enum LlmSource {
    /// The coder is still at work: read its chat transcript at this path.
    CoderChat(String),
    /// The imagegen stage is running: read its service log.
    ImagegenLog,
    /// The deployment is done; there is no live output.
    Finished,
}

/// The account allowed to add promo codes.
pub fn admin_account() -> (r: String)
    ensures
        r@ == "eth:519ce4c129a981b2cbb4c3990b1391da24e8ebf3"@,
{
    "eth:519ce4c129a981b2cbb4c3990b1391da24e8ebf3".to_owned()
}

/// The names of the caller's projects.
pub fn user_projects(db: &Database, user: &str) -> (r: Vec<String>)
    requires
        db.wf(),
    ensures
        r@.len() == db@.projects.filter(|p: ProjectView| p.owner == user@).len(),
        forall|i: int|
            0 <= i < r@.len() ==> (#[trigger] r@[i])@ == db@.projects.filter(
                |p: ProjectView| p.owner == user@,
            )[i].name,
{
    let owned = DatabaseProject::get_all_by_owner(db, user);
    let ghost filtered = db@.projects.filter(|p: ProjectView| p.owner == user@);
    let n = owned.len();
    let mut out: Vec<String> = Vec::new();
    let mut i: usize = 0;
    proof {
        assert(owned@.map_values(|p: DatabaseProject| p@).len() == filtered.len());
    }
    while i < n
        invariant
            n == owned@.len(),
            owned@.map_values(|p: DatabaseProject| p@) == filtered,
            0 <= i <= n,
            out@.len() == i,
            forall|j: int| 0 <= j < i ==> (#[trigger] out@[j])@ == filtered[j].name,
        decreases n - i,
    {
        proof {
            assert(owned@.map_values(|p: DatabaseProject| p@)[i as int] == owned@[i as int]@);
        }
        out.push(owned[i].name.clone());
        i = i + 1;
    }
    out
}

/// The caller's credit balance; zero for an account with no ledger rows.
pub fn user_credits(db: &Database, user: &str) -> (r: i64)
    requires
        db.wf(),
    ensures
        r == account_total(db@.credits, user@),
{
    match DatabaseCredits::get_total_credits_by_account(db, user) {
        Some(total) => total,
        None => 0,
    }
}

/// Builds the not-a-valid-name rejection.
fn invalid_name_error(project: &str) -> (r: ResponseError)
    ensures
        r.error@ == project@ + " is not a valid project name."@,
{
    ResponseError::new(project.to_owned().concat(" is not a valid project name."))
}

/// Builds the does-not-exist rejection.
fn missing_project_error(project: &str) -> (r: ResponseError)
    ensures
        r.error@ == project@ + " does not exist."@,
{
    ResponseError::new(project.to_owned().concat(" does not exist."))
}

/// Whether a project name is free.
pub fn project_available(db: &Database, project: &str) -> (r: ApiOutcome<bool>)
    requires
        db.wf(),
    ensures
        !spec_valid_project(project@) ==> (r matches ApiOutcome::BadRequest(e) && e.error@
            == project@ + " is not a valid project name."@),
        spec_valid_project(project@) ==> (r matches ApiOutcome::Success(free) && free == !project_named(
            db@.projects,
            project@,
        )),
{
    if !valid_project(project) {
        return ApiOutcome::BadRequest(invalid_name_error(project));
    }
    match DatabaseProject::get_by_name(db, project) {
        Some(_) => ApiOutcome::Success(false),
        None => ApiOutcome::Success(true),
    }
}

/// The price the caller pays to create a project.
pub fn project_price(db: &Database, user: &str) -> (r: i64)
    requires
        db.wf(),
    ensures
        r == spec_price(db@, user@),
{
    get_price(db, user)
}

/// Creates a project for the caller: validates the name, checks it is
/// free, debits the price from the caller's ledger (rejected when the sum
/// would go negative), and inserts the row. Repository creation and the
/// downstream redeploy follow outside on success.
pub fn project_create(db: &mut Database, user: &str, project: &str, now: i64) -> (r: ApiOutcome<
    (),
>)
    requires
        old(db).wf(),
        old(db)@.next_project_id < i32::MAX,
    ensures
        final(db).wf(),
        ({
            let valid = spec_valid_project(project@);
            let taken = project_named(old(db)@.projects, project@);
            let price = spec_price(old(db)@, user@);
            let total = account_total(old(db)@.credits, user@);
            &&& (!valid ==> (r matches ApiOutcome::BadRequest(e) && e.error@ == project@
                + " is not a valid project name."@ && final(db)@ == old(db)@))
            &&& (valid && taken ==> (r matches ApiOutcome::BadRequest(e) && e.error@ == "Project "@
                + project@ + " already exists."@ && final(db)@ == old(db)@))
            &&& (valid && !taken && total - price < 0 ==> r is PaymentRequired && final(db)@ == old(
                db,
            )@)
            &&& (valid && !taken && total - price >= 0 ==> {
                &&& r is Success
                &&& final(db)@.credits == old(db)@.credits.push(
                    CreditsView {
                        account: user@,
                        credits: -price,
                        description: "Create project "@ + project@,
                        date: now as int,
                    },
                )
                &&& final(db)@.projects == old(db)@.projects.push(
                    ProjectView {
                        id: old(db)@.next_project_id,
                        name: project@,
                        owner: user@,
                        account_association: None,
                        base_build: None,
                        version: None,
                        nft_mint: None,
                    },
                )
                &&& final(db)@.next_project_id == old(db)@.next_project_id + 1
                &&& final(db)@.deployments == old(db)@.deployments
                &&& final(db)@.workers == old(db)@.workers
                &&& final(db)@.promo_codes == old(db)@.promo_codes
                &&& final(db)@.waitlist == old(db)@.waitlist
                &&& final(db)@.next_deployment_id == old(db)@.next_deployment_id
                &&& final(db)@.next_worker_id == old(db)@.next_worker_id
                &&& final(db)@.next_waitlist_id == old(db)@.next_waitlist_id
            })
        }),
{
    if !valid_project(project) {
        return ApiOutcome::BadRequest(invalid_name_error(project));
    }
    match DatabaseProject::get_by_name(db, project) {
        Some(_) => {
            return ApiOutcome::BadRequest(
                ResponseError::new(
                    "Project ".to_owned().concat(project).concat(" already exists."),
                ),
            );
        },
        None => {},
    }
    let price = get_price(db, user);
    let entry = DatabaseCredits {
        account: user.to_owned(),
        credits: -price,
        description: "Create project ".to_owned().concat(project),
        date: now,
    };
    proof {
        assert(db@.credits.subrange(0, db@.credits.len() as int) =~= db@.credits);
        assert(0 <= account_total(db@.credits.subrange(0, db@.credits.len() as int), user@)
            <= i64::MAX);
    }
    match entry.insert(db) {
        Err(_) => {
            return ApiOutcome::PaymentRequired;
        },
        Ok(()) => {},
    }
    let mut row = DatabaseProject {
        id: 0,
        name: project.to_owned(),
        owner: user.to_owned(),
        account_association: None,
        base_build: None,
        version: None,
        nft_mint: None,
    };
    match row.insert(db) {
        Ok(()) => ApiOutcome::Success(()),
        Err(_) => {
            proof {
                assert(false);
            }
            ApiOutcome::Internal
        },
    }
}

/// Submits a change request: validates, checks ownership, rejects while a
/// prior deployment of the project is still unfinished, and inserts the
/// deployment row. Returns the new deployment id.
pub fn project_change(db: &mut Database, user: &str, project: &str, instructions: &str, now: i64) -> (r:
    ApiOutcome<i32>)
    requires
        old(db).wf(),
        old(db)@.next_deployment_id < i32::MAX,
    ensures
        final(db).wf(),
        ({
            let valid = spec_valid_project(project@);
            let named = project_named(old(db)@.projects, project@);
            let owner_ok = forall|i: int|
                0 <= i < old(db)@.projects.len() && (#[trigger] old(db)@.projects[i]).name
                    == project@ ==> old(db)@.projects[i].owner == user@;
            let unfinished = old(db)@.deployments.filter(
                |d: DeploymentView| d.project == project@ && d.queued(),
            );
            &&& (!valid ==> (r matches ApiOutcome::BadRequest(e) && e.error@ == project@
                + " is not a valid project name."@ && final(db)@ == old(db)@))
            &&& (valid && !named ==> (r matches ApiOutcome::BadRequest(e) && e.error@ == project@
                + " does not exist."@ && final(db)@ == old(db)@))
            &&& (valid && named && !owner_ok ==> r is Unauthorized && final(db)@ == old(db)@)
            &&& (valid && named && owner_ok && unfinished.len() > 0 ==> (r matches ApiOutcome::TooManyRequests(
                e,
            ) && e.error@ == "Deployment "@ + spec_dec_i64(unfinished[0].id)
                + " wasn't completed yet."@ && final(db)@ == old(db)@))
            &&& (valid && named && owner_ok && unfinished.len() == 0 ==> {
                &&& r matches ApiOutcome::Success(id) && id == old(db)@.next_deployment_id
                &&& final(db)@.deployments == old(db)@.deployments.push(
                    DeploymentView {
                        id: old(db)@.next_deployment_id,
                        project: project@,
                        instructions: instructions@,
                        submitted_at: now as int,
                        coding_started_at: None,
                        coding_finished_at: None,
                        coding_git_hash: None,
                        imagegen_started_at: None,
                        imagegen_finished_at: None,
                        imagegen_git_hash: None,
                        deployment_request: None,
                        deleted: false,
                    },
                )
                &&& final(db)@.next_deployment_id == old(db)@.next_deployment_id + 1
                &&& old(db)@.same_but_deployments(final(db)@)
            })
        }),
{
    if !valid_project(project) {
        return ApiOutcome::BadRequest(invalid_name_error(project));
    }
    let row = match DatabaseProject::get_by_name(db, project) {
        Some(p) => p,
        None => {
            return ApiOutcome::BadRequest(missing_project_error(project));
        },
    };
    if !str_eq(row.owner.as_str(), user) {
        proof {
            let pre = db@.projects;
            assert(pre.contains(row@));
            let k = choose|k: int| 0 <= k < pre.len() && pre[k] == row@;
            assert(pre[k].name == project@ && pre[k].owner != user@);
        }
        return ApiOutcome::Unauthorized;
    }
    proof {
        let pre = db@.projects;
        assert(pre.contains(row@));
        let k = choose|k: int| 0 <= k < pre.len() && pre[k] == row@;
        assert forall|i: int|
            0 <= i < pre.len() && (#[trigger] pre[i]).name == project@ implies pre[i].owner
            == user@ by {
            if i != k {
                assert(pre[i].name != pre[k].name);
            }
        }
    }
    let unfinished = DatabaseDeployment::get_all_by_project_unfinished(db, project);
    if unfinished.len() > 0 {
        let ghost filtered = db@.deployments.filter(
            |d: DeploymentView| d.project == project@ && d.queued(),
        );
        proof {
            assert(unfinished@.map_values(|d: DatabaseDeployment| d@).len() == filtered.len());
            assert(unfinished@.map_values(|d: DatabaseDeployment| d@)[0] == unfinished@[0]@);
        }
        let first_id = unfinished[0].id;
        let message = "Deployment ".to_owned().concat(i64_string(first_id as i64).as_str()).concat(
            " wasn't completed yet.",
        );
        return ApiOutcome::TooManyRequests(ResponseError::new(message));
    }
    let ghost filtered = db@.deployments.filter(
        |d: DeploymentView| d.project == project@ && d.queued(),
    );
    proof {
        assert(unfinished@.map_values(|d: DatabaseDeployment| d@).len() == filtered.len());
    }
    let mut row = DatabaseDeployment {
        id: 0,
        project: project.to_owned(),
        instructions: instructions.to_owned(),
        submitted_at: now,
        coding_started_at: None,
        coding_finished_at: None,
        coding_git_hash: None,
        imagegen_started_at: None,
        imagegen_finished_at: None,
        imagegen_git_hash: None,
        deployment_request: None,
        deleted: false,
    };
    row.insert(db);
    ApiOutcome::Success(row.id)
}

/// The project's undeleted deployments, oldest first.
pub fn project_history(db: &Database, user: &str, project: &str) -> (r: ApiOutcome<Vec<
    DatabaseDeployment,
>>)
    requires
        db.wf(),
    ensures
        ({
            let valid = spec_valid_project(project@);
            let named = project_named(db@.projects, project@);
            let owner_ok = forall|i: int|
                0 <= i < db@.projects.len() && (#[trigger] db@.projects[i]).name == project@
                    ==> db@.projects[i].owner == user@;
            &&& (!valid ==> (r matches ApiOutcome::BadRequest(e) && e.error@ == project@
                + " is not a valid project name."@))
            &&& (valid && !named ==> (r matches ApiOutcome::BadRequest(e) && e.error@ == project@
                + " does not exist."@))
            &&& (valid && named && !owner_ok ==> r is Unauthorized)
            &&& (valid && named && owner_ok ==> (r matches ApiOutcome::Success(h) && h@.map_values(
                |d: DatabaseDeployment| d@,
            ) == db@.deployments.filter(|d: DeploymentView| d.project == project@ && !d.deleted)))
        }),
{
    if !valid_project(project) {
        return ApiOutcome::BadRequest(invalid_name_error(project));
    }
    let row = match DatabaseProject::get_by_name(db, project) {
        Some(p) => p,
        None => {
            return ApiOutcome::BadRequest(missing_project_error(project));
        },
    };
    if !str_eq(row.owner.as_str(), user) {
        proof {
            let pre = db@.projects;
            assert(pre.contains(row@));
            let k = choose|k: int| 0 <= k < pre.len() && pre[k] == row@;
            assert(pre[k].name == project@ && pre[k].owner != user@);
        }
        return ApiOutcome::Unauthorized;
    }
    proof {
        let pre = db@.projects;
        assert(pre.contains(row@));
        let k = choose|k: int| 0 <= k < pre.len() && pre[k] == row@;
        assert forall|i: int|
            0 <= i < pre.len() && (#[trigger] pre[i]).name == project@ implies pre[i].owner
            == user@ by {
            if i != k {
                assert(pre[i].name != pre[k].name);
            }
        }
    }
    ApiOutcome::Success(DatabaseDeployment::get_all_by_project_undeleted(db, project))
}

/// Resets a project: soft-deletes deployments after the target (all of
/// them when none is given) and rewrites the pinned version to the
/// target's imagegen source hash (clears it when starting over). The
/// returned plan tells the surrounding program whether to recreate the
/// repository; the downstream redeploy follows either way.
pub fn project_reset(db: &mut Database, user: &str, project: &str, deployment: Option<i32>) -> (r:
    ApiOutcome<ResetPlan>)
    requires
        old(db).wf(),
    ensures
        final(db).wf(),
        ({
            let valid = spec_valid_project(project@);
            let named = project_named(old(db)@.projects, project@);
            let owner_ok = forall|i: int|
                0 <= i < old(db)@.projects.len() && (#[trigger] old(db)@.projects[i]).name
                    == project@ ==> old(db)@.projects[i].owner == user@;
            &&& (!valid ==> (r matches ApiOutcome::BadRequest(e) && e.error@ == project@
                + " is not a valid project name."@ && final(db)@ == old(db)@))
            &&& (valid && !named ==> (r matches ApiOutcome::BadRequest(e) && e.error@ == project@
                + " does not exist."@ && final(db)@ == old(db)@))
            &&& (valid && named && !owner_ok ==> r is Unauthorized && final(db)@ == old(db)@)
            &&& (deployment matches Some(dep_id) ==> (valid && named && owner_ok) ==> {
                let target_exists = exists|k: int|
                    0 <= k < old(db)@.deployments.len() && (#[trigger] old(
                        db,
                    )@.deployments[k]).id == dep_id;
                &&& (!target_exists ==> (r matches ApiOutcome::BadRequest(e) && e.error@
                    == spec_dec_i64(dep_id as int) + " does not exist."@ && final(db)@ == old(db)@))
                &&& (target_exists ==> forall|k: int|
                    0 <= k < old(db)@.deployments.len() && (#[trigger] old(
                        db,
                    )@.deployments[k]).id == dep_id ==> {
                        let target = old(db)@.deployments[k];
                        &&& (target.project != project@ ==> (r matches ApiOutcome::BadRequest(e)
                            && e.error@ == "Deployment "@ + spec_dec_i64(dep_id as int)
                            + " does not belong to "@ + project@ + "."@ && final(db)@ == old(db)@))
                        &&& (target.project == project@ ==> {
                            &&& r matches ApiOutcome::Success(plan) && plan == ResetPlan::Rewind
                            &&& final(db)@.deployments.len() == old(db)@.deployments.len()
                            &&& forall|i: int|
                                0 <= i < old(db)@.deployments.len()
                                    ==> final(db)@.deployments[i] == (
                                if old(db)@.deployments[i].project == project@ && old(
                                    db,
                                )@.deployments[i].id > dep_id {
                                    DeploymentView { deleted: true, ..old(db)@.deployments[i] }
                                } else {
                                    old(db)@.deployments[i]
                                })
                            &&& final(db)@.projects.len() == old(db)@.projects.len()
                            &&& forall|i: int|
                                0 <= i < old(db)@.projects.len() ==> final(db)@.projects[i] == (
                                if old(db)@.projects[i].name == project@ {
                                    ProjectView {
                                        version: target.imagegen_git_hash,
                                        ..old(db)@.projects[i]
                                    }
                                } else {
                                    old(db)@.projects[i]
                                })
                        })
                    })
            })
            &&& (valid && named && owner_ok && deployment is None ==> {
                &&& r matches ApiOutcome::Success(plan) && plan == ResetPlan::Recreate
                &&& final(db)@.deployments.len() == old(db)@.deployments.len()
                &&& forall|i: int|
                    0 <= i < old(db)@.deployments.len() ==> final(db)@.deployments[i] == (
                    if old(db)@.deployments[i].project == project@ && old(db)@.deployments[i].id
                        > 0 {
                        DeploymentView { deleted: true, ..old(db)@.deployments[i] }
                    } else {
                        old(db)@.deployments[i]
                    })
                &&& final(db)@.projects.len() == old(db)@.projects.len()
                &&& forall|i: int|
                    0 <= i < old(db)@.projects.len() ==> final(db)@.projects[i] == (
                    if old(db)@.projects[i].name == project@ {
                        ProjectView { version: None, ..old(db)@.projects[i] }
                    } else {
                        old(db)@.projects[i]
                    })
            })
        }),
{
    if !valid_project(project) {
        return ApiOutcome::BadRequest(invalid_name_error(project));
    }
    let row = match DatabaseProject::get_by_name(db, project) {
        Some(p) => p,
        None => {
            return ApiOutcome::BadRequest(missing_project_error(project));
        },
    };
    if !str_eq(row.owner.as_str(), user) {
        proof {
            let pre = db@.projects;
            assert(pre.contains(row@));
            let k = choose|k: int| 0 <= k < pre.len() && pre[k] == row@;
            assert(pre[k].name == project@ && pre[k].owner != user@);
        }
        return ApiOutcome::Unauthorized;
    }
    proof {
        let pre = db@.projects;
        assert(pre.contains(row@));
        let k = choose|k: int| 0 <= k < pre.len() && pre[k] == row@;
        assert forall|i: int|
            0 <= i < pre.len() && (#[trigger] pre[i]).name == project@ implies pre[i].owner
            == user@ by {
            if i != k {
                assert(pre[i].name != pre[k].name);
            }
        }
    }
    let mut row = row;
    match deployment {
        Some(dep_id) => {
            let target = match DatabaseDeployment::get_by_id(db, dep_id) {
                Some(d) => d,
                None => {
                    return ApiOutcome::BadRequest(
                        ResponseError::new(
                            i64_string(dep_id as i64).concat(" does not exist."),
                        ),
                    );
                },
            };
            if !str_eq(target.project.as_str(), project) {
                proof {
                    let ds = db@.deployments;
                    assert(ds.contains(target@));
                    let k = choose|k: int| 0 <= k < ds.len() && ds[k] == target@;
                    assert forall|j: int|
                        0 <= j < ds.len() && (#[trigger] ds[j]).id == dep_id implies ds[j].project
                        != project@ by {
                        if j != k {
                            if j < k {
                                assert(ds[j].id < ds[k].id);
                            } else {
                                assert(ds[k].id < ds[j].id);
                            }
                        }
                    }
                }
                return ApiOutcome::BadRequest(
                    ResponseError::new(
                        "Deployment ".to_owned().concat(i64_string(dep_id as i64).as_str()).concat(
                            " does not belong to ",
                        ).concat(project).concat("."),
                    ),
                );
            }
            proof {
                let ds = db@.deployments;
                assert(ds.contains(target@));
                let k = choose|k: int| 0 <= k < ds.len() && ds[k] == target@;
                assert forall|j: int|
                    0 <= j < ds.len() && (#[trigger] ds[j]).id == dep_id implies ds[j] == target@
                    by {
                    if j != k {
                        if j < k {
                            assert(ds[j].id < ds[k].id);
                        } else {
                            assert(ds[k].id < ds[j].id);
                        }
                    }
                }
            }
            DatabaseDeployment::delete_all_after(db, project, dep_id);
            row.update_version(db, crate::projects::duplicate_opt_string(&target.imagegen_git_hash));
            ApiOutcome::Success(ResetPlan::Rewind)
        },
        None => {
            DatabaseDeployment::delete_all_after(db, project, 0);
            row.update_version(db, None);
            ApiOutcome::Success(ResetPlan::Recreate)
        },
    }
}

/// Rewrites a project's account association; the downstream redeploy
/// follows outside on success.
pub fn project_account_association(
    db: &mut Database,
    user: &str,
    project: &str,
    account_association: crate::projects::AccountAssociation,
) -> (r: ApiOutcome<()>)
    requires
        old(db).wf(),
    ensures
        final(db).wf(),
        ({
            let valid = spec_valid_project(project@);
            let named = project_named(old(db)@.projects, project@);
            let owner_ok = forall|i: int|
                0 <= i < old(db)@.projects.len() && (#[trigger] old(db)@.projects[i]).name
                    == project@ ==> old(db)@.projects[i].owner == user@;
            &&& (!valid ==> (r matches ApiOutcome::BadRequest(e) && e.error@ == project@
                + " is not a valid project name."@ && final(db)@ == old(db)@))
            &&& (valid && !named ==> (r matches ApiOutcome::BadRequest(e) && e.error@ == project@
                + " does not exist."@ && final(db)@ == old(db)@))
            &&& (valid && named && !owner_ok ==> r is Unauthorized && final(db)@ == old(db)@)
            &&& (valid && named && owner_ok ==> {
                &&& r is Success
                &&& final(db)@.projects.len() == old(db)@.projects.len()
                &&& forall|i: int|
                    0 <= i < old(db)@.projects.len() ==> final(db)@.projects[i] == (
                    if old(db)@.projects[i].name == project@ {
                        ProjectView {
                            account_association: Some(account_association@),
                            ..old(db)@.projects[i]
                        }
                    } else {
                        old(db)@.projects[i]
                    })
                &&& old(db)@.same_but_projects(final(db)@)
                &&& final(db)@.next_project_id == old(db)@.next_project_id
            })
        }),
{
    if !valid_project(project) {
        return ApiOutcome::BadRequest(invalid_name_error(project));
    }
    let row = match DatabaseProject::get_by_name(db, project) {
        Some(p) => p,
        None => {
            return ApiOutcome::BadRequest(missing_project_error(project));
        },
    };
    if !str_eq(row.owner.as_str(), user) {
        proof {
            let pre = db@.projects;
            assert(pre.contains(row@));
            let k = choose|k: int| 0 <= k < pre.len() && pre[k] == row@;
            assert(pre[k].name == project@ && pre[k].owner != user@);
        }
        return ApiOutcome::Unauthorized;
    }
    proof {
        let pre = db@.projects;
        assert(pre.contains(row@));
        let k = choose|k: int| 0 <= k < pre.len() && pre[k] == row@;
        assert forall|i: int|
            0 <= i < pre.len() && (#[trigger] pre[i]).name == project@ implies pre[i].owner
            == user@ by {
            if i != k {
                assert(pre[i].name != pre[k].name);
            }
        }
    }
    let mut row = row;
    row.update_account_association(db, account_association);
    ApiOutcome::Success(())
}

/// Rewrites a project's base build; the downstream redeploy follows
/// outside on success.
pub fn project_base_build(
    db: &mut Database,
    user: &str,
    project: &str,
    base_build: crate::projects::BaseBuild,
) -> (r: ApiOutcome<()>)
    requires
        old(db).wf(),
    ensures
        final(db).wf(),
        ({
            let valid = spec_valid_project(project@);
            let named = project_named(old(db)@.projects, project@);
            let owner_ok = forall|i: int|
                0 <= i < old(db)@.projects.len() && (#[trigger] old(db)@.projects[i]).name
                    == project@ ==> old(db)@.projects[i].owner == user@;
            &&& (!valid ==> (r matches ApiOutcome::BadRequest(e) && e.error@ == project@
                + " is not a valid project name."@ && final(db)@ == old(db)@))
            &&& (valid && !named ==> (r matches ApiOutcome::BadRequest(e) && e.error@ == project@
                + " does not exist."@ && final(db)@ == old(db)@))
            &&& (valid && named && !owner_ok ==> r is Unauthorized && final(db)@ == old(db)@)
            &&& (valid && named && owner_ok ==> {
                &&& r is Success
                &&& final(db)@.projects.len() == old(db)@.projects.len()
                &&& forall|i: int|
                    0 <= i < old(db)@.projects.len() ==> final(db)@.projects[i] == (
                    if old(db)@.projects[i].name == project@ {
                        ProjectView { base_build: Some(base_build@), ..old(db)@.projects[i] }
                    } else {
                        old(db)@.projects[i]
                    })
                &&& old(db)@.same_but_projects(final(db)@)
                &&& final(db)@.next_project_id == old(db)@.next_project_id
            })
        }),
{
    if !valid_project(project) {
        return ApiOutcome::BadRequest(invalid_name_error(project));
    }
    let row = match DatabaseProject::get_by_name(db, project) {
        Some(p) => p,
        None => {
            return ApiOutcome::BadRequest(missing_project_error(project));
        },
    };
    if !str_eq(row.owner.as_str(), user) {
        proof {
            let pre = db@.projects;
            assert(pre.contains(row@));
            let k = choose|k: int| 0 <= k < pre.len() && pre[k] == row@;
            assert(pre[k].name == project@ && pre[k].owner != user@);
        }
        return ApiOutcome::Unauthorized;
    }
    proof {
        let pre = db@.projects;
        assert(pre.contains(row@));
        let k = choose|k: int| 0 <= k < pre.len() && pre[k] == row@;
        assert forall|i: int|
            0 <= i < pre.len() && (#[trigger] pre[i]).name == project@ implies pre[i].owner
            == user@ by {
            if i != k {
                assert(pre[i].name != pre[k].name);
            }
        }
    }
    let mut row = row;
    row.update_base_build(db, base_build);
    ApiOutcome::Success(())
}

/// Where a deployment's live output comes from right now: the coder chat
/// while coding runs, the imagegen log afterwards, nothing once done.
pub fn deployment_llm_output(db: &Database, user: &str, deployment: i32) -> (r: ApiOutcome<
    LlmSource,
>)
    requires
        db.wf(),
    ensures
        ({
            let found = exists|k: int|
                0 <= k < db@.deployments.len() && (#[trigger] db@.deployments[k]).id == deployment;
            &&& (!found ==> r is NotFound)
            &&& (found ==> forall|k: int|
                0 <= k < db@.deployments.len() && (#[trigger] db@.deployments[k]).id == deployment
                    ==> {
                    let d = db@.deployments[k];
                    let named = project_named(db@.projects, d.project);
                    let owner_ok = forall|i: int|
                        0 <= i < db@.projects.len() && (#[trigger] db@.projects[i]).name
                            == d.project ==> db@.projects[i].owner == user@;
                    &&& (!named ==> (r matches ApiOutcome::BadRequest(e) && e.error@ == d.project
                        + " does not exist."@))
                    &&& (named && !owner_ok ==> r is Unauthorized)
                    &&& (named && owner_ok && d.coding_finished_at is None ==> (r matches ApiOutcome::Success(
                        s,
                    ) && s matches LlmSource::CoderChat(p) && p@
                        == "/var/lib/miniapp-factory-coder/projects/"@ + d.project
                        + "/.aider.chat.history.md"@))
                    &&& (named && owner_ok && d.coding_finished_at is Some
                        && d.imagegen_finished_at is None ==> (r matches ApiOutcome::Success(s)
                        && s is ImagegenLog))
                    &&& (named && owner_ok && d.coding_finished_at is Some
                        && d.imagegen_finished_at is Some ==> (r matches ApiOutcome::Success(s)
                        && s is Finished))
                })
        }),
{
    let dep = match DatabaseDeployment::get_by_id(db, deployment) {
        Some(d) => d,
        None => {
            return ApiOutcome::NotFound;
        },
    };
    proof {
        let ds = db@.deployments;
        assert(ds.contains(dep@));
        let k = choose|k: int| 0 <= k < ds.len() && ds[k] == dep@;
        assert forall|j: int|
            0 <= j < ds.len() && (#[trigger] ds[j]).id == deployment implies ds[j] == dep@ by {
            if j != k {
                if j < k {
                    assert(ds[j].id < ds[k].id);
                } else {
                    assert(ds[k].id < ds[j].id);
                }
            }
        }
    }
    let row = match DatabaseProject::get_by_name(db, dep.project.as_str()) {
        Some(p) => p,
        None => {
            return ApiOutcome::BadRequest(missing_project_error(dep.project.as_str()));
        },
    };
    if !str_eq(row.owner.as_str(), user) {
        proof {
            let pre = db@.projects;
            assert(pre.contains(row@));
            let k = choose|k: int| 0 <= k < pre.len() && pre[k] == row@;
            assert(pre[k].name == dep@.project && pre[k].owner != user@);
        }
        return ApiOutcome::Unauthorized;
    }
    proof {
        let pre = db@.projects;
        assert(pre.contains(row@));
        let k = choose|k: int| 0 <= k < pre.len() && pre[k] == row@;
        assert forall|i: int|
            0 <= i < pre.len() && (#[trigger] pre[i]).name == dep@.project implies pre[i].owner
            == user@ by {
            if i != k {
                assert(pre[i].name != pre[k].name);
            }
        }
    }
    if dep.coding_finished_at.is_none() {
        ApiOutcome::Success(LlmSource::CoderChat(coder_chat_path(dep.project.as_str())))
    } else if dep.imagegen_finished_at.is_none() {
        ApiOutcome::Success(LlmSource::ImagegenLog)
    } else {
        ApiOutcome::Success(LlmSource::Finished)
    }
}

/// The number of queued deployments ahead of the given one.
pub fn deployment_queue(db: &Database, user: &str, deployment: i32) -> (r: ApiOutcome<i64>)
    requires
        db.wf(),
    ensures
        ({
            let found = exists|k: int|
                0 <= k < db@.deployments.len() && (#[trigger] db@.deployments[k]).id == deployment;
            &&& (!found ==> r is NotFound)
            &&& (found ==> forall|k: int|
                0 <= k < db@.deployments.len() && (#[trigger] db@.deployments[k]).id == deployment
                    ==> {
                    let d = db@.deployments[k];
                    let named = project_named(db@.projects, d.project);
                    let owner_ok = forall|i: int|
                        0 <= i < db@.projects.len() && (#[trigger] db@.projects[i]).name
                            == d.project ==> db@.projects[i].owner == user@;
                    &&& (!named ==> (r matches ApiOutcome::BadRequest(e) && e.error@ == d.project
                        + " does not exist."@))
                    &&& (named && !owner_ok ==> r is Unauthorized)
                    &&& (named && owner_ok ==> (r matches ApiOutcome::Success(count) && count
                        == db@.deployments.filter(
                        |x: DeploymentView| x.queued() && x.id < deployment,
                    ).len()))
                })
        }),
{
    let dep = match DatabaseDeployment::get_by_id(db, deployment) {
        Some(d) => d,
        None => {
            return ApiOutcome::NotFound;
        },
    };
    proof {
        let ds = db@.deployments;
        assert(ds.contains(dep@));
        let k = choose|k: int| 0 <= k < ds.len() && ds[k] == dep@;
        assert forall|j: int|
            0 <= j < ds.len() && (#[trigger] ds[j]).id == deployment implies ds[j] == dep@ by {
            if j != k {
                if j < k {
                    assert(ds[j].id < ds[k].id);
                } else {
                    assert(ds[k].id < ds[j].id);
                }
            }
        }
    }
    let row = match DatabaseProject::get_by_name(db, dep.project.as_str()) {
        Some(p) => p,
        None => {
            return ApiOutcome::BadRequest(missing_project_error(dep.project.as_str()));
        },
    };
    if !str_eq(row.owner.as_str(), user) {
        proof {
            let pre = db@.projects;
            assert(pre.contains(row@));
            let k = choose|k: int| 0 <= k < pre.len() && pre[k] == row@;
            assert(pre[k].name == dep@.project && pre[k].owner != user@);
        }
        return ApiOutcome::Unauthorized;
    }
    proof {
        let pre = db@.projects;
        assert(pre.contains(row@));
        let k = choose|k: int| 0 <= k < pre.len() && pre[k] == row@;
        assert forall|i: int|
            0 <= i < pre.len() && (#[trigger] pre[i]).name == dep@.project implies pre[i].owner
            == user@ by {
            if i != k {
                assert(pre[i].name != pre[k].name);
            }
        }
    }
    ApiOutcome::Success(DatabaseDeployment::get_queued_count_before(db, deployment))
}

/// Redeems a promo code for the caller: marks the code spent (a code is
/// spent at most once) and grants its credits.
pub fn code_redeem(db: &mut Database, user: &str, code: &str, now: i64) -> (r: ApiOutcome<()>)
    requires
        old(db).wf(),
    ensures
        final(db).wf(),
        ({
            let available = exists|i: int|
                0 <= i < old(db)@.promo_codes.len() && (#[trigger] old(db)@.promo_codes[i]).code
                    == code@ && old(db)@.promo_codes[i].redeemed_by is None;
            &&& (!available ==> r is Invalid && final(db)@ == old(db)@)
            &&& (available ==> forall|i: int|
                0 <= i < old(db)@.promo_codes.len() && (#[trigger] old(db)@.promo_codes[i]).code
                    == code@ && old(db)@.promo_codes[i].redeemed_by is None ==> {
                    let granted = old(db)@.promo_codes[i].credits;
                    let total = account_total(old(db)@.credits, user@);
                    &&& final(db)@.promo_codes.len() == old(db)@.promo_codes.len()
                    &&& forall|j: int|
                        0 <= j < old(db)@.promo_codes.len() ==> final(db)@.promo_codes[j] == (
                        if old(db)@.promo_codes[j].code == code@ {
                            crate::promo_code::PromoCodeView {
                                redeemed_by: Some(user@),
                                ..old(db)@.promo_codes[j]
                            }
                        } else {
                            old(db)@.promo_codes[j]
                        })
                    &&& (0 <= total + granted <= i64::MAX ==> r is Success
                        && final(db)@.credits == old(db)@.credits.push(
                        CreditsView {
                            account: user@,
                            credits: granted,
                            description: old(db)@.promo_codes[i].description,
                            date: now as int,
                        },
                    ))
                    &&& (!(0 <= total + granted <= i64::MAX) ==> r is Internal && final(db)@.credits
                        == old(db)@.credits)
                })
        }),
{
    let mut found = match DatabasePromoCode::get_unredeemed_by_code(db, code) {
        Some(c) => c,
        None => {
            return ApiOutcome::Invalid;
        },
    };
    proof {
        let ps = db@.promo_codes;
        assert(ps.contains(found@));
        let k = choose|k: int| 0 <= k < ps.len() && ps[k] == found@;
        assert forall|j: int|
            0 <= j < ps.len() && (#[trigger] ps[j]).code == code@ implies ps[j] == found@ by {
            if j != k {
                assert(ps[j].code != ps[k].code);
            }
        }
    }
    match found.redeem(db, user) {
        Ok(()) => {},
        Err(_) => {
            proof {
                assert(false);
            }
            return ApiOutcome::Internal;
        },
    }
    let entry = DatabaseCredits {
        account: user.to_owned(),
        credits: found.credits,
        description: found.description.clone(),
        date: now,
    };
    match entry.insert(db) {
        Ok(()) => ApiOutcome::Success(()),
        Err(_) => ApiOutcome::Internal,
    }
}

/// What adding one promo code does to the table: nothing when the code
/// exists, a fresh unredeemed row otherwise.
pub open spec fn spec_add_code(
    s: Seq<crate::promo_code::PromoCodeView>,
    c: crate::models::PromoCode,
) -> Seq<crate::promo_code::PromoCodeView> {
    if crate::promo_code::code_exists(s, c.code@) {
        s
    } else {
        s.push(
            crate::promo_code::PromoCodeView {
                code: c.code@,
                credits: c.credits as int,
                description: c.description@,
                redeemed_by: None,
            },
        )
    }
}

/// Adds promo codes; only the admin account may. Codes whose code string
/// already exists are skipped.
pub fn code_add(db: &mut Database, user: &str, codes: &Vec<crate::models::PromoCode>) -> (r:
    ApiOutcome<()>)
    requires
        old(db).wf(),
    ensures
        final(db).wf(),
        user@ != "eth:519ce4c129a981b2cbb4c3990b1391da24e8ebf3"@ ==> r is Unauthorized
            && final(db)@ == old(db)@,
        user@ == "eth:519ce4c129a981b2cbb4c3990b1391da24e8ebf3"@ ==> {
            &&& r is Success
            &&& final(db)@.promo_codes == codes@.fold_left(
                old(db)@.promo_codes,
                |acc: Seq<crate::promo_code::PromoCodeView>, c: crate::models::PromoCode|
                    spec_add_code(acc, c),
            )
            &&& old(db)@.same_but_promo_codes(final(db)@)
        },
{
    let admin = admin_account();
    if !str_eq(user, admin.as_str()) {
        return ApiOutcome::Unauthorized;
    }
    let ghost f = |acc: Seq<crate::promo_code::PromoCodeView>, c: crate::models::PromoCode|
        spec_add_code(acc, c);
    let n = codes.len();
    let mut i: usize = 0;
    proof {
        assert(codes@.subrange(0, 0) =~= Seq::<crate::models::PromoCode>::empty());
        assert(codes@.subrange(0, 0).fold_left(old(db)@.promo_codes, f) == old(db)@.promo_codes);
    }
    while i < n
        invariant
            old(db).wf(),
            db.wf(),
            n == codes@.len(),
            f == (
            |acc: Seq<crate::promo_code::PromoCodeView>, c: crate::models::PromoCode|
                spec_add_code(acc, c)),
            0 <= i <= n,
            db@.promo_codes == codes@.subrange(0, i as int).fold_left(old(db)@.promo_codes, f),
            old(db)@.same_but_promo_codes(db@),
        decreases n - i,
    {
        proof {
            let pre = codes@.subrange(0, i + 1);
            assert(pre.drop_last() =~= codes@.subrange(0, i as int));
            assert(pre.last() == codes@[i as int]);
        }
        let row = DatabasePromoCode {
            code: codes[i].code.clone(),
            credits: codes[i].credits,
            description: codes[i].description.clone(),
            redeemed_by: None,
        };
        let ghost before = db@.promo_codes;
        let outcome = row.insert(db);
        proof {
            assert(row@ == (crate::promo_code::PromoCodeView {
                code: codes@[i as int].code@,
                credits: codes@[i as int].credits as int,
                description: codes@[i as int].description@,
                redeemed_by: None,
            }));
            assert(db@.promo_codes == spec_add_code(before, codes@[i as int]));
        }
        i = i + 1;
    }
    proof {
        assert(codes@.subrange(0, codes@.len() as int) =~= codes@);
    }
    ApiOutcome::Success(())
}

} // verus!
