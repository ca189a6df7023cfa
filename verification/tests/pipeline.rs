//! Pipeline tests: queue order, the two-stage completion, fleet sizing and
//! the worker setup state machine.

use miniapp_factory::database::Database;
use miniapp_factory::deployments::DatabaseDeployment;
use miniapp_factory::handlers::{
    deployment_llm_output, deployment_queue, project_change, project_create, project_history,
    project_reset, ApiOutcome, LlmSource, ResetPlan,
};
use miniapp_factory::runner::{
    coder_service_running, extra_servers, imagegen_service_running, model_loader_running,
    new_worker_server, record_coding_finished, record_dispatch, record_imagegen_finished,
    record_imagegen_started, setup_plan, CoderOutput, ImagegenOutput, SetupPlan,
};
use miniapp_factory::worker_servers::DatabaseWorkerServer;

fn create_ok(db: &mut Database, user: &str, project: &str, now: i64) {
    match project_create(db, user, project, now) {
        ApiOutcome::Success(()) => {}
        _ => panic!("expected project creation to succeed"),
    }
}

fn change_ok(db: &mut Database, user: &str, project: &str, instructions: &str, now: i64) -> i32 {
    match project_change(db, user, project, instructions, now) {
        ApiOutcome::Success(id) => id,
        _ => panic!("expected change submission to succeed"),
    }
}

fn ready_worker(db: &mut Database) -> DatabaseWorkerServer {
    let mut worker = new_worker_server("{\"vm\":\"test\"}".to_string());
    worker.insert(db);
    worker.update_setup_finished(db, true);
    worker
}

/// Runs a full two-stage completion for whatever the worker is assigned.
fn finish_assignment(
    db: &mut Database,
    worker: &mut DatabaseWorkerServer,
    deployment_id: i32,
    now: i64,
    coder_doc: &str,
    imagegen_doc: &str,
) {
    let mut dep = DatabaseDeployment::get_by_id(db, deployment_id).unwrap();
    let coder = CoderOutput::parse(coder_doc).unwrap();
    record_coding_finished(db, &mut dep, now, coder.git_hash);
    record_imagegen_started(db, &mut dep, now + 1);
    let imagegen = ImagegenOutput::parse(imagegen_doc).unwrap();
    let mut project =
        miniapp_factory::projects::DatabaseProject::get_by_name(db, dep.project.as_str()).unwrap();
    record_imagegen_finished(db, &mut dep, worker, &mut project, now + 2, imagegen.git_hash);
}

#[test]
fn queue_is_served_in_id_order_with_one_worker() {
    let mut db = Database::new();
    let users = [
        "eth:00000000000000000000000000000000000000a1",
        "eth:00000000000000000000000000000000000000a2",
        "eth:00000000000000000000000000000000000000a3",
    ];
    let mut ids = Vec::new();
    for (k, user) in users.iter().enumerate() {
        let name = format!("proj-{}", k);
        create_ok(&mut db, user, &name, 1);
        ids.push(change_ok(&mut db, user, &name, "build it", 2));
    }
    let mut worker = ready_worker(&mut db);
    let mut started_order = Vec::new();
    let mut now = 10;
    for _ in 0..3 {
        let mut dep = DatabaseDeployment::get_next_unfinished(&db).unwrap();
        let free = DatabaseWorkerServer::get_available(&db).unwrap();
        assert_eq!(free.id, worker.id);
        record_dispatch(&mut db, &mut dep, &mut worker, now);
        started_order.push(dep.id);
        finish_assignment(
            &mut db,
            &mut worker,
            dep.id,
            now + 1,
            "{\"git_hash\":\"h1\"}",
            "{\"git_hash\":\"h2\"}",
        );
        now += 10;
    }
    assert_eq!(started_order, ids);
    assert!(DatabaseDeployment::get_next_unfinished(&db).is_none());
}

#[test]
fn two_stage_completion_records_hashes_and_request() {
    let mut db = Database::new();
    let user = "eth:00000000000000000000000000000000000000aa";
    create_ok(&mut db, user, "demo", 1);
    let dep_id = change_ok(&mut db, user, "demo", "make it blue", 2);
    let mut worker = ready_worker(&mut db);

    let mut dep = DatabaseDeployment::get_next_unfinished(&db).unwrap();
    record_dispatch(&mut db, &mut dep, &mut worker, 10);
    assert_eq!(dep.id, dep_id);
    assert_eq!(dep.coding_started_at, Some(10));
    match deployment_llm_output(&db, user, dep_id) {
        ApiOutcome::Success(LlmSource::CoderChat(path)) => {
            assert_eq!(path, "/var/lib/miniapp-factory-coder/projects/demo/.aider.chat.history.md")
        }
        _ => panic!("expected the coder chat source"),
    }

    // The coder service has exited and the output file holds "abc".
    let processes = vec!["ollama.service".to_string()];
    assert!(!coder_service_running(&processes));
    let coder = CoderOutput::parse("{\"git_hash\":\"abc\"}").unwrap();
    record_coding_finished(&mut db, &mut dep, 20, coder.git_hash);
    record_imagegen_started(&mut db, &mut dep, 21);
    let row = DatabaseDeployment::get_by_id(&db, dep_id).unwrap();
    assert_eq!(row.coding_finished_at, Some(20));
    assert_eq!(row.coding_git_hash, Some("abc".to_string()));
    assert_eq!(row.imagegen_started_at, Some(21));
    match deployment_llm_output(&db, user, dep_id) {
        ApiOutcome::Success(LlmSource::ImagegenLog) => {}
        _ => panic!("expected the imagegen log source"),
    }

    // The imagegen service has exited with "def".
    assert!(!imagegen_service_running(&processes));
    let imagegen = ImagegenOutput::parse("{\"git_hash\":\"def\"}").unwrap();
    let mut project =
        miniapp_factory::projects::DatabaseProject::get_by_name(&db, "demo").unwrap();
    record_imagegen_finished(&mut db, &mut dep, &mut worker, &mut project, 30, imagegen.git_hash);
    dep.update_deployment_request(&mut db, Some(41));

    let row = DatabaseDeployment::get_by_id(&db, dep_id).unwrap();
    assert_eq!(row.imagegen_finished_at, Some(30));
    assert_eq!(row.imagegen_git_hash, Some("def".to_string()));
    assert!(row.deployment_request.unwrap() > 0);
    let project = miniapp_factory::projects::DatabaseProject::get_by_name(&db, "demo").unwrap();
    assert_eq!(project.version, None);
    let worker_row = DatabaseWorkerServer::get_available(&db).unwrap();
    assert_eq!(worker_row.assignment, None);
}

#[test]
fn fleet_scales_up_one_worker_per_three_queued() {
    assert_eq!(extra_servers(9, 1), 3);
    assert_eq!(extra_servers(0, 1), 0);
    assert_eq!(extra_servers(2, 1), 0);
    assert_eq!(extra_servers(3, 2), 0);
    assert_eq!(extra_servers(10, 0), 4);
    assert_eq!(extra_servers(1, 5), -4);
}

#[test]
fn fleet_scales_down_idle_dynamic_workers() {
    let mut db = Database::new();
    ready_worker(&mut db);
    ready_worker(&mut db);
    assert_eq!(DatabaseDeployment::get_queued_count(&db), 0);
    let idle = DatabaseWorkerServer::get_all_dynamic_unassigned(&db);
    assert_eq!(idle.len(), 2);
    for worker in idle {
        worker.delete(&mut db);
    }
    assert_eq!(DatabaseWorkerServer::get_count(&db), 0);
}

#[test]
fn setup_state_machine_writes_each_request_once() {
    let mut db = Database::new();
    let mut worker = new_worker_server("{}".to_string());
    worker.insert(&mut db);
    assert_eq!(setup_plan(&worker), SetupPlan::DeployCoder);
    worker.update_coder_deployment(&mut db, Some(5));
    assert_eq!(setup_plan(&worker), SetupPlan::PollCoder(5));
    worker.update_imagegen_deployment(&mut db, Some(6));
    assert_eq!(setup_plan(&worker), SetupPlan::PollImagegen(6));
    worker.update_imagegen_deployment(&mut db, Some(i64::MAX));
    assert_eq!(setup_plan(&worker), SetupPlan::InvalidRequestId);

    let loading = vec!["ollama-model-loader.service".to_string()];
    assert!(model_loader_running(&loading));
    assert!(!model_loader_running(&vec!["other.service".to_string()]));
}

#[test]
fn change_is_rejected_while_a_deployment_is_unfinished() {
    let mut db = Database::new();
    let user = "eth:00000000000000000000000000000000000000aa";
    create_ok(&mut db, user, "demo", 1);
    let id = change_ok(&mut db, user, "demo", "first", 2);
    match project_change(&mut db, user, "demo", "second", 3) {
        ApiOutcome::TooManyRequests(e) => {
            assert_eq!(e.error, format!("Deployment {} wasn't completed yet.", id))
        }
        _ => panic!("expected a busy rejection"),
    }
    match project_change(&mut db, "eth:other", "demo", "third", 4) {
        ApiOutcome::Unauthorized => {}
        _ => panic!("expected an ownership rejection"),
    }
}

#[test]
fn reset_rewinds_version_and_soft_deletes_later_rows() {
    let mut db = Database::new();
    let user = "eth:00000000000000000000000000000000000000aa";
    create_ok(&mut db, user, "demo", 1);
    let mut worker = ready_worker(&mut db);

    let first = change_ok(&mut db, user, "demo", "one", 2);
    let mut dep = DatabaseDeployment::get_next_unfinished(&db).unwrap();
    record_dispatch(&mut db, &mut dep, &mut worker, 3);
    finish_assignment(
        &mut db,
        &mut worker,
        first,
        4,
        "{\"git_hash\":\"c1\"}",
        "{\"git_hash\":\"i1\"}",
    );

    let second = change_ok(&mut db, user, "demo", "two", 10);
    let mut dep = DatabaseDeployment::get_next_unfinished(&db).unwrap();
    record_dispatch(&mut db, &mut dep, &mut worker, 11);
    finish_assignment(
        &mut db,
        &mut worker,
        second,
        12,
        "{\"git_hash\":\"c2\"}",
        "{\"git_hash\":\"i2\"}",
    );

    match project_reset(&mut db, user, "demo", Some(first)) {
        ApiOutcome::Success(ResetPlan::Rewind) => {}
        _ => panic!("expected a rewind"),
    }
    let project = miniapp_factory::projects::DatabaseProject::get_by_name(&db, "demo").unwrap();
    assert_eq!(project.version, Some("i1".to_string()));
    let history = match project_history(&db, user, "demo") {
        ApiOutcome::Success(h) => h,
        _ => panic!("expected history"),
    };
    assert_eq!(history.len(), 1);
    assert_eq!(history[0].id, first);

    match project_reset(&mut db, user, "demo", None) {
        ApiOutcome::Success(ResetPlan::Recreate) => {}
        _ => panic!("expected a recreate"),
    }
    let project = miniapp_factory::projects::DatabaseProject::get_by_name(&db, "demo").unwrap();
    assert_eq!(project.version, None);
    let history = match project_history(&db, user, "demo") {
        ApiOutcome::Success(h) => h,
        _ => panic!("expected history"),
    };
    assert_eq!(history.len(), 0);
}

#[test]
fn queue_position_counts_earlier_queued_rows() {
    let mut db = Database::new();
    let user = "eth:00000000000000000000000000000000000000aa";
    let other = "eth:00000000000000000000000000000000000000ab";
    create_ok(&mut db, user, "one", 1);
    create_ok(&mut db, other, "two", 1);
    let first = change_ok(&mut db, user, "one", "a", 2);
    let second = change_ok(&mut db, other, "two", "b", 3);
    match deployment_queue(&db, user, first) {
        ApiOutcome::Success(count) => assert_eq!(count, 0),
        _ => panic!("expected a queue count"),
    }
    match deployment_queue(&db, other, second) {
        ApiOutcome::Success(count) => assert_eq!(count, 1),
        _ => panic!("expected a queue count"),
    }
    match deployment_queue(&db, user, 999) {
        ApiOutcome::NotFound => {}
        _ => panic!("expected a missing deployment"),
    }
}
