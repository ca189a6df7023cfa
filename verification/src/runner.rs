//! The deployment pipeline: fleet sizing, the worker setup state machine,
//! dispatch of queued deployments to available workers, and the two-stage
//! completion transactions the watcher applies. Remote calls are made by
//! the surrounding program; every decision and every store mutation is
//! here.

use vstd::prelude::*;

use crate::database::{has_active_deployment, Database};
use crate::deployments::{DatabaseDeployment, DeploymentView};
use crate::json::{
    coder_assignment_json, imagegen_assignment_json, parse_git_hash, spec_coder_assignment_json,
    spec_imagegen_assignment_json, spec_parse_git_hash,
};
use crate::projects::{opt_str_view, DatabaseProject, ProjectView};
use crate::textutil::{spec_replace_char, str_eq};
use crate::worker_servers::{DatabaseWorkerServer, WorkerView};

verus! {

/// The coder input document: what the coder container is asked to do.
#[derive(Debug)]
pub struct CoderAssignment {
    pub project: String,
    pub instructions: String,
    pub version: Option<String>,
}

impl CoderAssignment {
    /// Renders the assignment as the coder input file.
    pub fn to_json(&self) -> (r: String)
        ensures
            r@ == spec_coder_assignment_json(
                self.project@,
                self.instructions@,
                opt_str_view(self.version),
            ),
    {
        coder_assignment_json(
            self.project.as_str(),
            self.instructions.as_str(),
            &self.version,
        )
    }
}

/// The coder output document: the source hash the coder produced.
#[derive(Debug)]
pub struct CoderOutput {
    pub git_hash: String,
}

impl CoderOutput {
    /// Parses a coder output file.
    pub fn parse(doc: &str) -> (r: Option<CoderOutput>)
        ensures
            r is Some <==> spec_parse_git_hash(doc@) is Some,
            r matches Some(o) ==> spec_parse_git_hash(doc@) == Some(o.git_hash@),
    {
        match parse_git_hash(doc) {
            Some(git_hash) => Some(CoderOutput { git_hash }),
            None => None,
        }
    }
}

/// The imagegen input document.
#[derive(Debug)]
pub struct ImagegenAssignment {
    pub project: String,
}

impl ImagegenAssignment {
    /// Renders the assignment as the imagegen input file.
    pub fn to_json(&self) -> (r: String)
        ensures
            r@ == spec_imagegen_assignment_json(self.project@),
    {
        imagegen_assignment_json(self.project.as_str())
    }
}

/// The imagegen output document.
#[derive(Debug)]
pub struct ImagegenOutput {
    pub git_hash: String,
}

impl ImagegenOutput {
    /// Parses an imagegen output file.
    pub fn parse(doc: &str) -> (r: Option<ImagegenOutput>)
        ensures
            r is Some <==> spec_parse_git_hash(doc@) is Some,
            r matches Some(o) ==> spec_parse_git_hash(doc@) == Some(o.git_hash@),
    {
        match parse_git_hash(doc) {
            Some(git_hash) => Some(ImagegenOutput { git_hash }),
            None => None,
        }
    }
}

/// What the fleet manager should do next for a worker whose setup has not
/// finished.
#[derive(Debug, PartialEq, Eq, Structural, Clone, Copy)]
pub enum SetupPlan {
    /// No container request yet: submit the coder container configuration.
    DeployCoder,
    /// The coder request is pending: poll it; on success submit the
    /// imagegen container configuration.
    PollCoder(u32),
    /// The imagegen request is pending: poll it; on success finalize the
    /// worker.
    PollImagegen(u32),
    /// A stored request id does not fit in 32 bits; the worker is skipped.
    InvalidRequestId,
}

/// The next setup step for a worker row, decided from its columns alone:
/// the row is the state.
pub open spec fn spec_setup_plan(w: WorkerView) -> SetupPlan {
    match w.imagegen_deployment {
        Some(r) => if 0 <= r <= u32::MAX {
            SetupPlan::PollImagegen(r as u32)
        } else {
            SetupPlan::InvalidRequestId
        },
        None => match w.coder_deployment {
            Some(r) => if 0 <= r <= u32::MAX {
                SetupPlan::PollCoder(r as u32)
            } else {
                SetupPlan::InvalidRequestId
            },
            None => SetupPlan::DeployCoder,
        },
    }
}

/// Decides the next setup step for a worker.
pub fn setup_plan(server: &DatabaseWorkerServer) -> (r: SetupPlan)
    ensures
        r == spec_setup_plan(server@),
{
    match server.imagegen_deployment {
        Some(request) => {
            if 0 <= request && request <= u32::MAX as i64 {
                SetupPlan::PollImagegen(request as u32)
            } else {
                SetupPlan::InvalidRequestId
            }
        },
        None => match server.coder_deployment {
            Some(request) => {
                if 0 <= request && request <= u32::MAX as i64 {
                    SetupPlan::PollCoder(request as u32)
                } else {
                    SetupPlan::InvalidRequestId
                }
            },
            None => SetupPlan::DeployCoder,
        },
    }
}

/// Setup idempotence: the state machine deploys the coder container
/// only while no coder request id is stored, and the imagegen container
/// only after the coder id is stored and while no imagegen id is — so each
/// request id is written at most once, and re-running the machine from any
/// persisted row never duplicates a container deployment.
pub proof fn lemma_setup_single_write(w: WorkerView)
    ensures
        spec_setup_plan(w) == SetupPlan::DeployCoder ==> w.coder_deployment is None
            && w.imagegen_deployment is None,
        spec_setup_plan(w) matches SetupPlan::PollCoder(x) ==> w.coder_deployment == Some(
            x as int,
        ) && w.imagegen_deployment is None,
        spec_setup_plan(w) matches SetupPlan::PollImagegen(x) ==> w.imagegen_deployment == Some(
            x as int,
        ),
{
}

/// How many workers the fleet manager should add: one more per three
/// queued deployments, beyond the fleet it already has. Non-positive means
/// none.
pub fn extra_servers(queued: i64, servers: i64) -> (r: i64)
    requires
        0 <= queued,
        0 <= servers,
    ensures
        r == queued / 3 - (servers - 1),
{
    queued / 3 - (servers - 1)
}

/// Whether the process list holds a process with the given name.
pub fn any_process_named(processes: &Vec<String>, name: &str) -> (r: bool)
    ensures
        r == exists|i: int|
            0 <= i < processes@.len() && (#[trigger] processes@[i])@ == name@,
{
    let n = processes.len();
    let mut i: usize = 0;
    while i < n
        invariant
            n == processes@.len(),
            0 <= i <= n,
            forall|j: int| 0 <= j < i ==> (#[trigger] processes@[j])@ != name@,
        decreases n - i,
    {
        if str_eq(processes[i].as_str(), name) {
            proof {
                assert(processes@[i as int]@ == name@);
            }
            return true;
        }
        i = i + 1;
    }
    false
}

/// Whether the coder service is still running: while it is, the coding
/// stage is not complete.
pub fn coder_service_running(processes: &Vec<String>) -> (r: bool)
    ensures
        r == exists|i: int|
            0 <= i < processes@.len() && (#[trigger] processes@[i])@
                == "miniapp-factory-coder.service"@,
{
    any_process_named(processes, "miniapp-factory-coder.service")
}

/// Whether the imagegen service is still running.
pub fn imagegen_service_running(processes: &Vec<String>) -> (r: bool)
    ensures
        r == exists|i: int|
            0 <= i < processes@.len() && (#[trigger] processes@[i])@
                == "miniapp-factory-imagegen.service"@,
{
    any_process_named(processes, "miniapp-factory-imagegen.service")
}

/// Whether the model loader is still downloading: setup must wait for it.
pub fn model_loader_running(processes: &Vec<String>) -> (r: bool)
    ensures
        r == exists|i: int|
            0 <= i < processes@.len() && (#[trigger] processes@[i])@
                == "ollama-model-loader.service"@,
{
    any_process_named(processes, "ollama-model-loader.service")
}

/// A user or group entry reported by a node.
#[derive(Debug)]
pub struct IdName {
    pub id: u32,
    pub name: String,
}

/// The id of the first entry with the given name, if any.
pub fn find_id_by_name(entries: &Vec<IdName>, name: &str) -> (r: Option<u32>)
    ensures
        r is Some <==> exists|i: int|
            0 <= i < entries@.len() && (#[trigger] entries@[i]).name@ == name@,
        r matches Some(id) ==> exists|i: int|
            0 <= i < entries@.len() && (#[trigger] entries@[i]).name@ == name@ && entries@[i].id
                == id && (forall|j: int| 0 <= j < i ==> (#[trigger] entries@[j]).name@ != name@),
{
    let n = entries.len();
    let mut i: usize = 0;
    while i < n
        invariant
            n == entries@.len(),
            0 <= i <= n,
            forall|j: int| 0 <= j < i ==> (#[trigger] entries@[j]).name@ != name@,
        decreases n - i,
    {
        if str_eq(entries[i].name.as_str(), name) {
            proof {
                assert(entries@[i as int].name@ == name@);
            }
            return Some(entries[i].id);
        }
        i = i + 1;
    }
    None
}

/// Who a file permission entry applies to.
#[derive(Debug, PartialEq, Eq, Structural, Clone, Copy)]
pub enum PermEntity {
    User(u32),
    Group(u32),
    Any,
}

/// One file permission entry handed to a node agent.
#[derive(Debug, PartialEq, Eq, Structural, Clone, Copy)]
pub struct FilePermission {
    pub entity: PermEntity,
    pub read: bool,
    pub write: bool,
    pub execute: bool,
}

/// The id to grant to when the lookup failed: the default id.
pub open spec fn id_or_zero(id: Option<u32>) -> u32 {
    match id {
        Some(v) => v,
        None => 0,
    }
}

/// The permissions put on an assignment file: read and write for the
/// service user, nothing for its group or anyone else.
pub fn assignment_permissions(user: Option<u32>, group: Option<u32>) -> (r: Vec<FilePermission>)
    ensures
        r@.len() == 3,
        r@[0] == (FilePermission {
            entity: PermEntity::User(id_or_zero(user)),
            read: true,
            write: true,
            execute: false,
        }),
        r@[1] == (FilePermission {
            entity: PermEntity::Group(id_or_zero(group)),
            read: false,
            write: false,
            execute: false,
        }),
        r@[2] == (FilePermission { entity: PermEntity::Any, read: false, write: false, execute: false }),
{
    let user_id = match user {
        Some(v) => v,
        None => 0,
    };
    let group_id = match group {
        Some(v) => v,
        None => 0,
    };
    let mut out: Vec<FilePermission> = Vec::new();
    out.push(FilePermission { entity: PermEntity::User(user_id), read: true, write: true, execute: false });
    out.push(
        FilePermission { entity: PermEntity::Group(group_id), read: false, write: false, execute: false },
    );
    out.push(FilePermission { entity: PermEntity::Any, read: false, write: false, execute: false });
    out
}

/// The permissions put on the pushed SSH key: read-only for the service
/// user, nothing for its group or anyone else.
pub fn ssh_key_permissions(user: Option<u32>, group: Option<u32>) -> (r: Vec<FilePermission>)
    ensures
        r@.len() == 3,
        r@[0] == (FilePermission {
            entity: PermEntity::User(id_or_zero(user)),
            read: true,
            write: false,
            execute: false,
        }),
        r@[1] == (FilePermission {
            entity: PermEntity::Group(id_or_zero(group)),
            read: false,
            write: false,
            execute: false,
        }),
        r@[2] == (FilePermission { entity: PermEntity::Any, read: false, write: false, execute: false }),
{
    let user_id = match user {
        Some(v) => v,
        None => 0,
    };
    let group_id = match group {
        Some(v) => v,
        None => 0,
    };
    let mut out: Vec<FilePermission> = Vec::new();
    out.push(FilePermission { entity: PermEntity::User(user_id), read: true, write: false, execute: false });
    out.push(
        FilePermission { entity: PermEntity::Group(group_id), read: false, write: false, execute: false },
    );
    out.push(FilePermission { entity: PermEntity::Any, read: false, write: false, execute: false });
    out
}

/// A fresh worker row for a newly provisioned VM: dynamic, no requests, no
/// assignment, setup unfinished.
pub fn new_worker_server(hardware: String) -> (r: DatabaseWorkerServer)
    ensures
        r@ == (WorkerView {
            id: 0,
            hardware: hardware@,
            coder_deployment: None,
            imagegen_deployment: None,
            setup_finished: false,
            assignment: None,
            dynamic: true,
        }),
{
    DatabaseWorkerServer {
        id: 0,
        hardware,
        coder_deployment: None,
        imagegen_deployment: None,
        setup_finished: false,
        assignment: None,
        dynamic: true,
    }
}

/// The VM name for a random suffix.
pub fn vm_name(suffix: &str) -> (r: String)
    ensures
        r@ == "miniapp-factory-coder-"@ + suffix@,
{
    "miniapp-factory-coder-".to_owned().concat(suffix)
}

/// The path of the coder chat transcript for a project.
pub fn coder_chat_path(project: &str) -> (r: String)
    ensures
        r@ == "/var/lib/miniapp-factory-coder/projects/"@ + project@ + "/.aider.chat.history.md"@,
{
    "/var/lib/miniapp-factory-coder/projects/".to_owned().concat(project).concat(
        "/.aider.chat.history.md",
    )
}

/// Records a dispatch: binds the worker to the deployment and stamps the
/// coding start, in one transaction.
pub fn record_dispatch(
    db: &mut Database,
    deployment: &mut DatabaseDeployment,
    server: &mut DatabaseWorkerServer,
    now: i64,
)
    requires
        old(db).wf(),
        forall|i: int|
            0 <= i < old(db)@.workers.len() && (#[trigger] old(db)@.workers[i]).id == old(
                server,
            )@.id ==> old(db)@.workers[i].setup_finished,
        forall|i: int|
            0 <= i < old(db)@.workers.len() ==> (#[trigger] old(db)@.workers[i]).assignment
                != Some(old(deployment)@.id),
        has_active_deployment(old(db)@.deployments, old(deployment)@.id),
        forall|i: int|
            0 <= i < old(db)@.deployments.len() && (#[trigger] old(db)@.deployments[i]).id == old(
                deployment,
            )@.id ==> (DeploymentView {
                coding_started_at: Some(now as int),
                ..old(db)@.deployments[i]
            }).timestamps_wf(),
    ensures
        final(db).wf(),
        final(server)@ == (WorkerView {
            assignment: Some(old(deployment)@.id),
            ..old(server)@
        }),
        final(deployment)@ == (DeploymentView {
            coding_started_at: Some(now as int),
            ..old(deployment)@
        }),
        final(db)@.workers.len() == old(db)@.workers.len(),
        forall|i: int|
            0 <= i < old(db)@.workers.len() ==> final(db)@.workers[i] == (
            if old(db)@.workers[i].id == old(server)@.id {
                WorkerView { assignment: Some(old(deployment)@.id), ..old(db)@.workers[i] }
            } else {
                old(db)@.workers[i]
            }),
        final(db)@.deployments.len() == old(db)@.deployments.len(),
        forall|i: int|
            0 <= i < old(db)@.deployments.len() ==> final(db)@.deployments[i] == (
            if old(db)@.deployments[i].id == old(deployment)@.id {
                DeploymentView {
                    coding_started_at: Some(now as int),
                    ..old(db)@.deployments[i]
                }
            } else {
                old(db)@.deployments[i]
            }),
        final(db)@.projects == old(db)@.projects,
        final(db)@.credits == old(db)@.credits,
        final(db)@.promo_codes == old(db)@.promo_codes,
        final(db)@.waitlist == old(db)@.waitlist,
        final(db)@.next_project_id == old(db)@.next_project_id,
        final(db)@.next_deployment_id == old(db)@.next_deployment_id,
        final(db)@.next_worker_id == old(db)@.next_worker_id,
        final(db)@.next_waitlist_id == old(db)@.next_waitlist_id,
{
    let deployment_id = deployment.id;
    server.update_assignment(db, Some(deployment_id));
    deployment.update_coding_started_at(db, Some(now));
}

/// Records the end of the coding stage: the finish time and the coder's
/// source hash, in one transaction.
pub fn record_coding_finished(
    db: &mut Database,
    deployment: &mut DatabaseDeployment,
    now: i64,
    git_hash: String,
)
    requires
        old(db).wf(),
        forall|i: int|
            0 <= i < old(db)@.deployments.len() && (#[trigger] old(db)@.deployments[i]).id == old(
                deployment,
            )@.id ==> (DeploymentView {
                coding_finished_at: Some(now as int),
                ..old(db)@.deployments[i]
            }).timestamps_wf(),
    ensures
        final(db).wf(),
        final(deployment)@ == (DeploymentView {
            coding_finished_at: Some(now as int),
            coding_git_hash: Some(git_hash@),
            ..old(deployment)@
        }),
        final(db)@.deployments.len() == old(db)@.deployments.len(),
        forall|i: int|
            0 <= i < old(db)@.deployments.len() ==> final(db)@.deployments[i] == (
            if old(db)@.deployments[i].id == old(deployment)@.id {
                DeploymentView {
                    coding_finished_at: Some(now as int),
                    coding_git_hash: Some(git_hash@),
                    ..old(db)@.deployments[i]
                }
            } else {
                old(db)@.deployments[i]
            }),
        old(db)@.same_but_deployments(final(db)@),
        final(db)@.next_deployment_id == old(db)@.next_deployment_id,
{
    deployment.update_coding_finished_at(db, Some(now));
    deployment.update_coding_git_hash(db, Some(git_hash));
}

/// Records the start of the imagegen stage.
pub fn record_imagegen_started(db: &mut Database, deployment: &mut DatabaseDeployment, now: i64)
    requires
        old(db).wf(),
        forall|i: int|
            0 <= i < old(db)@.deployments.len() && (#[trigger] old(db)@.deployments[i]).id == old(
                deployment,
            )@.id ==> (DeploymentView {
                imagegen_started_at: Some(now as int),
                ..old(db)@.deployments[i]
            }).timestamps_wf(),
    ensures
        final(db).wf(),
        final(deployment)@ == (DeploymentView {
            imagegen_started_at: Some(now as int),
            ..old(deployment)@
        }),
        final(db)@.deployments.len() == old(db)@.deployments.len(),
        forall|i: int|
            0 <= i < old(db)@.deployments.len() ==> final(db)@.deployments[i] == (
            if old(db)@.deployments[i].id == old(deployment)@.id {
                DeploymentView {
                    imagegen_started_at: Some(now as int),
                    ..old(db)@.deployments[i]
                }
            } else {
                old(db)@.deployments[i]
            }),
        old(db)@.same_but_deployments(final(db)@),
        final(db)@.next_deployment_id == old(db)@.next_deployment_id,
{
    deployment.update_imagegen_started_at(db, Some(now));
}

/// Records the end of the imagegen stage: the finish time and source hash,
/// the worker released, and the project's pinned version cleared, in one
/// transaction.
pub fn record_imagegen_finished(
    db: &mut Database,
    deployment: &mut DatabaseDeployment,
    server: &mut DatabaseWorkerServer,
    project: &mut DatabaseProject,
    now: i64,
    git_hash: String,
)
    requires
        old(db).wf(),
        forall|i: int|
            0 <= i < old(db)@.workers.len() && (#[trigger] old(db)@.workers[i]).id != old(
                server,
            )@.id ==> old(db)@.workers[i].assignment != Some(old(deployment)@.id),
        forall|i: int|
            0 <= i < old(db)@.deployments.len() && (#[trigger] old(db)@.deployments[i]).id == old(
                deployment,
            )@.id ==> (DeploymentView {
                imagegen_finished_at: Some(now as int),
                ..old(db)@.deployments[i]
            }).timestamps_wf(),
    ensures
        final(db).wf(),
        final(server)@ == (WorkerView { assignment: None, ..old(server)@ }),
        final(deployment)@ == (DeploymentView {
            imagegen_finished_at: Some(now as int),
            imagegen_git_hash: Some(git_hash@),
            ..old(deployment)@
        }),
        final(project)@ == (ProjectView { version: None, ..old(project)@ }),
        final(db)@.workers.len() == old(db)@.workers.len(),
        forall|i: int|
            0 <= i < old(db)@.workers.len() ==> final(db)@.workers[i] == (
            if old(db)@.workers[i].id == old(server)@.id {
                WorkerView { assignment: None, ..old(db)@.workers[i] }
            } else {
                old(db)@.workers[i]
            }),
        final(db)@.deployments.len() == old(db)@.deployments.len(),
        forall|i: int|
            0 <= i < old(db)@.deployments.len() ==> final(db)@.deployments[i] == (
            if old(db)@.deployments[i].id == old(deployment)@.id {
                DeploymentView {
                    imagegen_finished_at: Some(now as int),
                    imagegen_git_hash: Some(git_hash@),
                    ..old(db)@.deployments[i]
                }
            } else {
                old(db)@.deployments[i]
            }),
        final(db)@.projects.len() == old(db)@.projects.len(),
        forall|i: int|
            0 <= i < old(db)@.projects.len() ==> final(db)@.projects[i] == (
            if old(db)@.projects[i].name == old(project)@.name {
                ProjectView { version: None, ..old(db)@.projects[i] }
            } else {
                old(db)@.projects[i]
            }),
        final(db)@.credits == old(db)@.credits,
        final(db)@.promo_codes == old(db)@.promo_codes,
        final(db)@.waitlist == old(db)@.waitlist,
        final(db)@.next_project_id == old(db)@.next_project_id,
        final(db)@.next_deployment_id == old(db)@.next_deployment_id,
        final(db)@.next_worker_id == old(db)@.next_worker_id,
        final(db)@.next_waitlist_id == old(db)@.next_waitlist_id,
{
    server.update_assignment(db, None);
    deployment.update_imagegen_finished_at(db, Some(now));
    deployment.update_imagegen_git_hash(db, Some(git_hash));
    project.update_version(db, None);
}


/// The Nix flake of the coder container.
pub open spec fn spec_coder_flake() -> Seq<char> {
    "{
  inputs = {
    xnode-manager.url = \"github:Openmesh-Network/xnode-manager\";
    miniapp-factory-coder.url = \"github:OpenxAI-Network/miniapp-factory-coder\";
    nixpkgs.follows = \"miniapp-factory-coder/nixpkgs\";
    host.url = \"path:/etc/nixos\";
    host-nixpkgs.follows = \"host/nixpkgs\";
  };

  nixConfig = {
    extra-substituters = [
      \"https://openxai.cachix.org\"
      \"https://nix-community.cachix.org\"
      \"https://cuda-maintainers.cachix.org\"
    ];
    extra-trusted-public-keys = [
      \"openxai.cachix.org-1:3evd2khRVc/2NiGwVmypAF4VAklFmOpMuNs1K28bMQE=\"
      \"nix-community.cachix.org-1:mB9FSh9qf2dCimDSUo8Zy7bkq5CX+/rkCWyvRCYg3Fs=\"
      \"cuda-maintainers.cachix.org-1:0dq3bujKpuEPMCX6U4WylrUDZ9JyUG0VpVZa7CNfq5E=\"
    ];
  };

  outputs = inputs: {
    nixosConfigurations.container = inputs.nixpkgs.lib.nixosSystem {
      specialArgs = {
        inherit inputs;
      };
      modules = [
        inputs.xnode-manager.nixosModules.container
        {
          services.xnode-container.xnode-config = {
            host-platform = ./xnode-config/host-platform;
            state-version = ./xnode-config/state-version;
            hostname = ./xnode-config/hostname;
          };
        }
        inputs.miniapp-factory-coder.nixosModules.default
        (
          { pkgs, ... }@args:
          let
            host-pkgs = import inputs.host-nixpkgs {
              system = pkgs.system;
              config = {
                allowUnfree = true;
              };
            };
          in
          {
            services.miniapp-factory-coder.enable = true;

            services.ollama.acceleration = \"cuda\";
            hardware.graphics = {
              enable = true;
              extraPackages = [
                pkgs.nvidia-vaapi-driver
              ];
            };
            hardware.nvidia.open = true;
            services.xserver.videoDrivers = [ \"nvidia\" ];
            hardware.nvidia.package = host-pkgs.linuxPackages.nvidiaPackages.stable;
          }
        )
      ];
    };
  };
}"@
}

/// The coder container configuration submitted during worker setup.
pub fn coder_flake() -> (r: String)
    ensures
        r@ == spec_coder_flake(),
{
    "{
  inputs = {
    xnode-manager.url = \"github:Openmesh-Network/xnode-manager\";
    miniapp-factory-coder.url = \"github:OpenxAI-Network/miniapp-factory-coder\";
    nixpkgs.follows = \"miniapp-factory-coder/nixpkgs\";
    host.url = \"path:/etc/nixos\";
    host-nixpkgs.follows = \"host/nixpkgs\";
  };

  nixConfig = {
    extra-substituters = [
      \"https://openxai.cachix.org\"
      \"https://nix-community.cachix.org\"
      \"https://cuda-maintainers.cachix.org\"
    ];
    extra-trusted-public-keys = [
      \"openxai.cachix.org-1:3evd2khRVc/2NiGwVmypAF4VAklFmOpMuNs1K28bMQE=\"
      \"nix-community.cachix.org-1:mB9FSh9qf2dCimDSUo8Zy7bkq5CX+/rkCWyvRCYg3Fs=\"
      \"cuda-maintainers.cachix.org-1:0dq3bujKpuEPMCX6U4WylrUDZ9JyUG0VpVZa7CNfq5E=\"
    ];
  };

  outputs = inputs: {
    nixosConfigurations.container = inputs.nixpkgs.lib.nixosSystem {
      specialArgs = {
        inherit inputs;
      };
      modules = [
        inputs.xnode-manager.nixosModules.container
        {
          services.xnode-container.xnode-config = {
            host-platform = ./xnode-config/host-platform;
            state-version = ./xnode-config/state-version;
            hostname = ./xnode-config/hostname;
          };
        }
        inputs.miniapp-factory-coder.nixosModules.default
        (
          { pkgs, ... }@args:
          let
            host-pkgs = import inputs.host-nixpkgs {
              system = pkgs.system;
              config = {
                allowUnfree = true;
              };
            };
          in
          {
            services.miniapp-factory-coder.enable = true;

            services.ollama.acceleration = \"cuda\";
            hardware.graphics = {
              enable = true;
              extraPackages = [
                pkgs.nvidia-vaapi-driver
              ];
            };
            hardware.nvidia.open = true;
            services.xserver.videoDrivers = [ \"nvidia\" ];
            hardware.nvidia.package = host-pkgs.linuxPackages.nvidiaPackages.stable;
          }
        )
      ];
    };
  };
}".to_owned()
}

/// The Nix flake of the imagegen container.
pub open spec fn spec_imagegen_flake() -> Seq<char> {
    "{
  inputs = {
    xnode-manager.url = \"github:Openmesh-Network/xnode-manager\";
    nixified-ai.url = \"github:nixified-ai/flake\";
    miniapp-factory-imagegen.url = \"github:OpenxAI-Network/miniapp-factory-imagegen\";
    nixpkgs.follows = \"nixified-ai/nixpkgs\";
    host.url = \"path:/etc/nixos\";
    host-nixpkgs.follows = \"host/nixpkgs\";
  };

  nixConfig = {
    extra-substituters = [
      \"https://ai.cachix.org\"
      \"https://nix-community.cachix.org\"
      \"https://cuda-maintainers.cachix.org\"
    ];
    extra-trusted-public-keys = [
      \"ai.cachix.org-1:N9dzRK+alWwoKXQlnn0H6aUx0lU/mspIoz8hMvGvbbc=\"
      \"nix-community.cachix.org-1:mB9FSh9qf2dCimDSUo8Zy7bkq5CX+/rkCWyvRCYg3Fs=\"
      \"cuda-maintainers.cachix.org-1:0dq3bujKpuEPMCX6U4WylrUDZ9JyUG0VpVZa7CNfq5E=\"
    ];
  };

  outputs = inputs: {
    nixosConfigurations.container = inputs.nixpkgs.lib.nixosSystem {
      specialArgs = {
        inherit inputs;
      };
      modules = [
        inputs.xnode-manager.nixosModules.container
        {
          services.xnode-container.xnode-config = {
            host-platform = ./xnode-config/host-platform;
            state-version = ./xnode-config/state-version;
            hostname = ./xnode-config/hostname;
          };
        }
        inputs.nixified-ai.nixosModules.comfyui
        inputs.miniapp-factory-imagegen.nixosModules.default
        (
          { pkgs, ... }@args:
          let
            host-pkgs = import inputs.host-nixpkgs {
              system = pkgs.system;
              config = {
                allowUnfree = true;
              };
            };
          in
          {
            services.miniapp-factory-imagegen.enable = true;

            systemd.services.comfyui.serviceConfig.DynamicUser = args.lib.mkForce false;
            systemd.services.comfyui.serviceConfig.ProtectHome = args.lib.mkForce false;
            services.comfyui.enable = true;
            services.comfyui.user = \"miniapp-factory-imagegen\";
            services.comfyui.models = [
              (pkgs.fetchResource {
                name = \"qwen-image-Q4_K_M.gguf\";
                url = \"https://huggingface.co/city96/Qwen-Image-gguf/resolve/main/qwen-image-Q4_K_M.gguf\";
                sha256 = \"sha256-xvSRA2A7mkknUCVJ+2FckQOGz8Z1sUZjJZMLoQ0qEfQ=\";
                passthru = {
                  comfyui.installPaths = [ \"diffusion_models\" ];
                };
              })
              (pkgs.fetchResource {
                name = \"Qwen-Image-Lightning-4steps-V2.0.safetensors\";
                url = \"https://huggingface.co/lightx2v/Qwen-Image-Lightning/resolve/main/Qwen-Image-Lightning-4steps-V2.0.safetensors\";
                sha256 = \"sha256-h4xRm3WqoZxfN+9XsxKsA16Tago2sU4CJp6d/VPSwig=\";
                passthru = {
                  comfyui.installPaths = [ \"loras\" ];
                };
              })
              (pkgs.fetchResource {
                name = \"qwen_2.5_vl_7b_fp8_scaled.safetensors\";
                url = \"https://huggingface.co/Comfy-Org/Qwen-Image_ComfyUI/resolve/main/split_files/text_encoders/qwen_2.5_vl_7b_fp8_scaled.safetensors\";
                sha256 = \"sha256-y1Y22FKg6mqQdasb70lsDbeu8TwCNQVx44iuqVnFwLQ=\";
                passthru = {
                  comfyui.installPaths = [ \"text_encoders\" ];
                };
              })
              (pkgs.fetchResource {
                name = \"qwen_image_vae.safetensors\";
                url = \"https://huggingface.co/Comfy-Org/Qwen-Image_ComfyUI/resolve/main/split_files/vae/qwen_image_vae.safetensors\";
                sha256 = \"sha256-pwWA8CE+Z5Z+6clfBbtADo+wgwfgF6kkvzRBIj4CPR8=\";
                passthru = {
                  comfyui.installPaths = [ \"vae\" ];
                };
              })
            ];
            services.comfyui.customNodes = [
              pkgs.comfyuiPackages.comfyui-gguf
            ];
            services.comfyui.extraFlags = [ \"--cache-none\" ];

            nixpkgs.config.allowUnfree = true;
            nixpkgs.config.cudaSupport = true;

            hardware.graphics = {
              enable = true;
              extraPackages = [
                pkgs.nvidia-vaapi-driver
              ];
            };
            hardware.nvidia.open = true;
            services.xserver.videoDrivers = [ \"nvidia\" ];
            hardware.nvidia.package = host-pkgs.linuxPackages.nvidiaPackages.stable;
          }
        )
      ];
    };
  };
}"@
}

/// The imagegen container configuration submitted during worker setup.
pub fn imagegen_flake() -> (r: String)
    ensures
        r@ == spec_imagegen_flake(),
{
    "{
  inputs = {
    xnode-manager.url = \"github:Openmesh-Network/xnode-manager\";
    nixified-ai.url = \"github:nixified-ai/flake\";
    miniapp-factory-imagegen.url = \"github:OpenxAI-Network/miniapp-factory-imagegen\";
    nixpkgs.follows = \"nixified-ai/nixpkgs\";
    host.url = \"path:/etc/nixos\";
    host-nixpkgs.follows = \"host/nixpkgs\";
  };

  nixConfig = {
    extra-substituters = [
      \"https://ai.cachix.org\"
      \"https://nix-community.cachix.org\"
      \"https://cuda-maintainers.cachix.org\"
    ];
    extra-trusted-public-keys = [
      \"ai.cachix.org-1:N9dzRK+alWwoKXQlnn0H6aUx0lU/mspIoz8hMvGvbbc=\"
      \"nix-community.cachix.org-1:mB9FSh9qf2dCimDSUo8Zy7bkq5CX+/rkCWyvRCYg3Fs=\"
      \"cuda-maintainers.cachix.org-1:0dq3bujKpuEPMCX6U4WylrUDZ9JyUG0VpVZa7CNfq5E=\"
    ];
  };

  outputs = inputs: {
    nixosConfigurations.container = inputs.nixpkgs.lib.nixosSystem {
      specialArgs = {
        inherit inputs;
      };
      modules = [
        inputs.xnode-manager.nixosModules.container
        {
          services.xnode-container.xnode-config = {
            host-platform = ./xnode-config/host-platform;
            state-version = ./xnode-config/state-version;
            hostname = ./xnode-config/hostname;
          };
        }
        inputs.nixified-ai.nixosModules.comfyui
        inputs.miniapp-factory-imagegen.nixosModules.default
        (
          { pkgs, ... }@args:
          let
            host-pkgs = import inputs.host-nixpkgs {
              system = pkgs.system;
              config = {
                allowUnfree = true;
              };
            };
          in
          {
            services.miniapp-factory-imagegen.enable = true;

            systemd.services.comfyui.serviceConfig.DynamicUser = args.lib.mkForce false;
            systemd.services.comfyui.serviceConfig.ProtectHome = args.lib.mkForce false;
            services.comfyui.enable = true;
            services.comfyui.user = \"miniapp-factory-imagegen\";
            services.comfyui.models = [
              (pkgs.fetchResource {
                name = \"qwen-image-Q4_K_M.gguf\";
                url = \"https://huggingface.co/city96/Qwen-Image-gguf/resolve/main/qwen-image-Q4_K_M.gguf\";
                sha256 = \"sha256-xvSRA2A7mkknUCVJ+2FckQOGz8Z1sUZjJZMLoQ0qEfQ=\";
                passthru = {
                  comfyui.installPaths = [ \"diffusion_models\" ];
                };
              })
              (pkgs.fetchResource {
                name = \"Qwen-Image-Lightning-4steps-V2.0.safetensors\";
                url = \"https://huggingface.co/lightx2v/Qwen-Image-Lightning/resolve/main/Qwen-Image-Lightning-4steps-V2.0.safetensors\";
                sha256 = \"sha256-h4xRm3WqoZxfN+9XsxKsA16Tago2sU4CJp6d/VPSwig=\";
                passthru = {
                  comfyui.installPaths = [ \"loras\" ];
                };
              })
              (pkgs.fetchResource {
                name = \"qwen_2.5_vl_7b_fp8_scaled.safetensors\";
                url = \"https://huggingface.co/Comfy-Org/Qwen-Image_ComfyUI/resolve/main/split_files/text_encoders/qwen_2.5_vl_7b_fp8_scaled.safetensors\";
                sha256 = \"sha256-y1Y22FKg6mqQdasb70lsDbeu8TwCNQVx44iuqVnFwLQ=\";
                passthru = {
                  comfyui.installPaths = [ \"text_encoders\" ];
                };
              })
              (pkgs.fetchResource {
                name = \"qwen_image_vae.safetensors\";
                url = \"https://huggingface.co/Comfy-Org/Qwen-Image_ComfyUI/resolve/main/split_files/vae/qwen_image_vae.safetensors\";
                sha256 = \"sha256-pwWA8CE+Z5Z+6clfBbtADo+wgwfgF6kkvzRBIj4CPR8=\";
                passthru = {
                  comfyui.installPaths = [ \"vae\" ];
                };
              })
            ];
            services.comfyui.customNodes = [
              pkgs.comfyuiPackages.comfyui-gguf
            ];
            services.comfyui.extraFlags = [ \"--cache-none\" ];

            nixpkgs.config.allowUnfree = true;
            nixpkgs.config.cudaSupport = true;

            hardware.graphics = {
              enable = true;
              extraPackages = [
                pkgs.nvidia-vaapi-driver
              ];
            };
            hardware.nvidia.open = true;
            services.xserver.videoDrivers = [ \"nvidia\" ];
            hardware.nvidia.package = host-pkgs.linuxPackages.nvidiaPackages.stable;
          }
        )
      ];
    };
  };
}".to_owned()
}

/// The escaped initial OS configuration handed to the provisioner for a
/// new GPU VM: the base fragment with quotes, newlines and backslashes
/// escaped, in that order, as the provisioning request expects.
pub fn initial_os_config() -> (r: String)
    ensures
        r@ == spec_replace_char(
            spec_replace_char(
                spec_replace_char(
                    "nixpkgs.config.allowUnfree = true;\nhardware.graphics = { enable = true; extraPackages = [ pkgs.nvidia-vaapi-driver ]; };\nhardware.nvidia.open = true;\nservices.xserver.videoDrivers = [ \"nvidia\" ];"@,
                    '"',
                    "\\\""@,
                ),
                '\n',
                "\\n"@,
            ),
            '\\',
            "\\\\\\"@,
        ),
{
    let base =
        "nixpkgs.config.allowUnfree = true;\nhardware.graphics = { enable = true; extraPackages = [ pkgs.nvidia-vaapi-driver ]; };\nhardware.nvidia.open = true;\nservices.xserver.videoDrivers = [ \"nvidia\" ];";
    let step1 = crate::textutil::replace_char(base, '"', "\\\"");
    let step2 = crate::textutil::replace_char(step1.as_str(), '\n', "\\n");
    crate::textutil::replace_char(step2.as_str(), '\\', "\\\\\\")
}

} // verus!
