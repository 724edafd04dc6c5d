use cncore::error::PlatformError;
use cncore::json::{JsonValue, Member};
use cncore::models::{
    Task, TaskDependency, TaskRequest, TaskStatus, TaskTimeouts, Tenant, TenantSettings,
    WorkflowRunStatus, WorkflowStep,
};
use cncore::orchestration::{
    step_payload_value, workflow_context, OrchestrationEngine, SchedulerStrategy, StepPhase,
    TaskPolicy, WorkflowContext, WorkflowRunState,
};
use cncore::persistence::InMemoryPersistence;
use cncore::time::minutes;

fn fresh_id() -> u128 {
    uuid::Uuid::new_v4().as_u128()
}

fn now() -> i64 {
    chrono::Utc::now().timestamp_millis()
}

fn foo_bar() -> JsonValue {
    JsonValue::Object(vec![Member { name: "foo".into(), value: JsonValue::text("bar") }])
}

fn status_ok() -> JsonValue {
    JsonValue::Object(vec![Member { name: "status".into(), value: JsonValue::text("ok") }])
}

fn tenant(id: u128) -> Tenant {
    Tenant { id, name: "Tenant".into(), created_at: now(), settings: TenantSettings::default() }
}

fn step(name: &str, kind: &str, dependencies: Vec<TaskDependency>) -> WorkflowStep {
    WorkflowStep { id: fresh_id(), name: name.into(), task_kind: kind.into(), dependencies }
}

fn request(tenant_id: u128, kind: &str) -> TaskRequest {
    TaskRequest { tenant_id, kind: kind.into(), payload: foo_bar() }
}

#[test]
fn workflow_schedule_and_completion() {
    let mut storage = InMemoryPersistence::new();
    let mut engine = OrchestrationEngine::new();
    let tenant_id = fresh_id();
    storage.insert_tenant(tenant(tenant_id)).unwrap();
    let workflow = engine
        .register_workflow(
            &mut storage,
            tenant_id,
            "bootstrap",
            vec![WorkflowStep {
                id: fresh_id(),
                name: "step1".into(),
                task_kind: "configure".into(),
                dependencies: Vec::new(),
            }],
        )
        .unwrap();
    let tasks = engine
        .schedule_workflow(&mut storage, workflow.id, tenant_id, foo_bar())
        .unwrap();
    assert_eq!(tasks.len(), 1);
    let lease = engine
        .lease_next_task(&mut storage, tenant_id, fresh_id(), minutes(5))
        .unwrap()
        .expect("task available");
    let completed = engine
        .complete_task(&mut storage, lease.task.id, Some(status_ok()))
        .unwrap();
    assert_eq!(completed.status, TaskStatus::Completed);
    assert_eq!(
        completed.result.unwrap().get("status").and_then(|v| v.as_str()),
        Some("ok")
    );
}

#[test]
fn lease_can_be_renewed() {
    let mut storage = InMemoryPersistence::new();
    let mut engine = OrchestrationEngine::new();
    let tenant_id = fresh_id();
    storage.insert_tenant(tenant(tenant_id)).unwrap();

    let task = engine
        .schedule_task(
            &mut storage,
            TaskRequest { tenant_id, kind: "simple".into(), payload: foo_bar() },
        )
        .unwrap();

    let lease = engine
        .lease_next_task(&mut storage, tenant_id, fresh_id(), minutes(5))
        .unwrap()
        .expect("task available");
    assert_eq!(lease.task.id, task.id);
    assert_eq!(lease.lease_version, 1);

    let renewed = engine
        .renew_task_lease(
            &storage,
            lease.task.id,
            lease.worker_id,
            lease.lease_token,
            minutes(10),
        )
        .unwrap();
    assert_eq!(renewed.lease_version, 2);
    assert!(renewed.lease_expires_at > lease.lease_expires_at);
}

#[test]
fn workflow_failure_triggers_compensation() {
    let mut storage = InMemoryPersistence::new();
    let mut engine = OrchestrationEngine::new();
    let tenant_id = fresh_id();
    storage.insert_tenant(tenant(tenant_id)).unwrap();

    let workflow = engine
        .register_workflow(
            &mut storage,
            tenant_id,
            "with-compensation",
            vec![
                WorkflowStep {
                    id: fresh_id(),
                    name: "primary".into(),
                    task_kind: "configure".into(),
                    dependencies: Vec::new(),
                },
                WorkflowStep {
                    id: fresh_id(),
                    name: "compensate".into(),
                    task_kind: "cleanup".into(),
                    dependencies: vec![TaskDependency {
                        task_kind: "configure".into(),
                        required_status: TaskStatus::Failed,
                    }],
                },
            ],
        )
        .unwrap();

    let tasks = engine
        .schedule_workflow(&mut storage, workflow.id, tenant_id, foo_bar())
        .unwrap();
    assert_eq!(tasks.len(), 1);
    let lease = engine
        .lease_next_task(&mut storage, tenant_id, fresh_id(), minutes(5))
        .unwrap()
        .expect("primary task available");
    assert_eq!(lease.task.kind, "configure");

    let run_id = uuid::Uuid::parse_str(
        lease
            .task
            .payload
            .get("workflow_run_id")
            .and_then(|v| v.as_str())
            .expect("run id"),
    )
    .unwrap()
    .as_u128();
    assert!(engine.get_workflow_run(run_id).is_some());

    engine
        .fail_task(&mut storage, lease.task.id, "boom", false)
        .expect("task failure handled");

    let pending = storage.list_pending_tasks(tenant_id).unwrap();
    assert!(pending.iter().any(|task| task.kind == "cleanup"));

    let compensation = engine
        .lease_next_task(&mut storage, tenant_id, fresh_id(), minutes(5))
        .unwrap()
        .expect("compensation task");
    assert_eq!(compensation.task.kind, "cleanup");

    engine
        .complete_task(&mut storage, compensation.task.id, None)
        .expect("compensation completed");

    assert!(engine.get_workflow_run(run_id).is_none());
}

#[test]
fn scheduled_task_is_pending_and_never_attempted() {
    let mut storage = InMemoryPersistence::new();
    let mut engine = OrchestrationEngine::new();
    engine.register_task_policy(
        "timed",
        TaskPolicy {
            timeouts: Some(TaskTimeouts {
                lease_seconds: Some(7),
                execution_seconds: Some(60),
                retry_backoff_seconds: None,
            }),
            ..TaskPolicy::default()
        },
    );
    let before = now();
    let task = engine.schedule_task(&mut storage, request(1, "timed")).unwrap();
    let after = now();
    assert_eq!(task.status, TaskStatus::Pending);
    assert_eq!(task.attempts, 0);
    assert_eq!(task.tenant_id, 1);
    assert_eq!(task.kind, "timed");
    assert_eq!(task.payload, foo_bar());
    assert!(before <= task.scheduled_at && task.scheduled_at <= after);
    assert_eq!(task.started_at, None);
    assert_eq!(task.completed_at, None);
    assert_eq!(task.last_error, None);
    assert_eq!(task.result, None);
    assert_eq!(task.timeouts.unwrap().lease_seconds, Some(7));
    let other = engine.schedule_task(&mut storage, request(1, "plain")).unwrap();
    assert_eq!(other.timeouts, None);
    assert_ne!(other.id, task.id);
    assert_eq!(storage.get_task(task.id).unwrap(), Some(task.clone()));
    // The timeouts of the policy decide the lease span.
    let lease = engine
        .lease_next_task_with(&mut storage, 1, 5, minutes(5), 1_000, 77)
        .unwrap()
        .unwrap();
    assert_eq!(lease.task.id, task.id);
    assert_eq!(lease.lease_expires_at, 1_000 + 7_000);
    let plain = engine
        .lease_next_task_with(&mut storage, 1, 5, minutes(5), 1_000, 78)
        .unwrap()
        .unwrap();
    assert_eq!(plain.lease_expires_at, 1_000 + 300_000);
}

#[test]
fn schedule_with_a_taken_identifier_is_a_conflict() {
    let mut storage = InMemoryPersistence::new();
    let engine = OrchestrationEngine::new();
    engine.schedule_task_with(&mut storage, request(1, "k"), 42, 10).unwrap();
    assert_eq!(
        engine.schedule_task_with(&mut storage, request(1, "k"), 42, 11).unwrap_err(),
        PlatformError::Conflict("task")
    );
    assert_eq!(storage.list_pending_tasks(1).unwrap().len(), 1);
}

#[test]
fn task_with_retry() {
    let mut storage = InMemoryPersistence::new();
    let mut engine = OrchestrationEngine::new();
    engine.register_task_policy(
        "k",
        TaskPolicy { max_retries: 1, backoff_seconds: Some(0), ..TaskPolicy::default() },
    );
    let task = engine.schedule_task(&mut storage, request(1, "k")).unwrap();
    engine.lease_next_task(&mut storage, 1, 9, minutes(5)).unwrap().unwrap();
    let retried = engine.fail_task(&mut storage, task.id, "boom", true).unwrap();
    assert_eq!(retried.status, TaskStatus::Pending);
    assert_eq!(retried.attempts, 1);
    assert_eq!(retried.last_error.as_deref(), Some("boom"));
    assert_eq!(retried.started_at, None);
    assert_eq!(engine.lease_state(task.id), None);
    engine.lease_next_task(&mut storage, 1, 9, minutes(5)).unwrap().unwrap();
    let failed = engine.fail_task(&mut storage, task.id, "boom", true).unwrap();
    assert_eq!(failed.status, TaskStatus::Failed);
    assert_eq!(failed.attempts, 2);
    assert!(failed.completed_at.is_some());
    assert_eq!(storage.get_task(task.id).unwrap().unwrap().status, TaskStatus::Failed);
    assert!(engine.lease_next_task(&mut storage, 1, 9, minutes(5)).unwrap().is_none());
}

#[test]
fn no_retries_means_failed_at_the_first_failure() {
    let mut storage = InMemoryPersistence::new();
    let mut engine = OrchestrationEngine::new();
    engine.register_task_policy("k", TaskPolicy { max_retries: 0, ..TaskPolicy::default() });
    let task = engine.schedule_task(&mut storage, request(1, "k")).unwrap();
    let failed = engine.fail_task(&mut storage, task.id, "boom", true).unwrap();
    assert_eq!(failed.status, TaskStatus::Failed);
    assert_eq!(failed.attempts, 1);
}

#[test]
fn retry_waits_for_the_backoff_of_the_policy() {
    let mut storage = InMemoryPersistence::new();
    let mut engine = OrchestrationEngine::new();
    let task = engine.schedule_task_with(&mut storage, request(1, "k"), 1, 100).unwrap();
    // The default policy: three retries, thirty seconds of backoff.
    let again = engine.fail_task_with(&mut storage, task.id, "e1", true, &vec![], 1_000).unwrap();
    assert_eq!(again.status, TaskStatus::Pending);
    assert_eq!(again.scheduled_at, 31_000);
    assert_eq!(again.attempts, 1);
    engine.fail_task_with(&mut storage, task.id, "e2", true, &vec![], 2_000).unwrap();
    let third = engine.fail_task_with(&mut storage, task.id, "e3", true, &vec![], 3_000).unwrap();
    assert_eq!(third.status, TaskStatus::Pending);
    assert_eq!(third.attempts, 3);
    let fourth = engine.fail_task_with(&mut storage, task.id, "e4", true, &vec![], 4_000).unwrap();
    assert_eq!(fourth.status, TaskStatus::Failed);
    assert_eq!(fourth.attempts, 4);
    assert_eq!(fourth.completed_at, Some(4_000));
    assert_eq!(fourth.last_error.as_deref(), Some("e4"));
    // Without a retry asked for the first failure is final.
    let other = engine.schedule_task_with(&mut storage, request(1, "k"), 2, 100).unwrap();
    let done = engine.fail_task_with(&mut storage, other.id, "e", false, &vec![], 5_000).unwrap();
    assert_eq!(done.status, TaskStatus::Failed);
    assert_eq!(
        engine.fail_task(&mut storage, 999, "e", true).unwrap_err(),
        PlatformError::NotFound("task")
    );
    assert_eq!(
        engine.complete_task(&mut storage, 999, None).unwrap_err(),
        PlatformError::NotFound("task")
    );
}

#[test]
fn lease_renewal() {
    let mut storage = InMemoryPersistence::new();
    let mut engine = OrchestrationEngine::new();
    let task = engine.schedule_task(&mut storage, request(1, "k")).unwrap();
    let lease = engine
        .lease_next_task_with(&mut storage, 1, 10, minutes(5), 1_000_000, 55)
        .unwrap()
        .unwrap();
    assert_eq!(lease.lease_version, 1);
    assert_eq!(lease.lease_token, 55);
    assert_eq!(lease.worker_id, 10);
    assert_eq!(lease.leased_at, 1_000_000);
    assert_eq!(lease.lease_expires_at, 1_300_000);
    assert_eq!(lease.task.status, TaskStatus::InProgress);
    assert_eq!(lease.task.started_at, Some(1_000_000));
    let renewed = engine
        .renew_task_lease_with(&storage, task.id, 10, 55, minutes(10), 1_100_000)
        .unwrap();
    assert_eq!(renewed.lease_version, 2);
    assert_eq!(renewed.lease_expires_at, 1_300_000 + 600_000);
    assert_eq!(renewed.leased_at, 1_000_000);
    assert_eq!(
        engine
            .renew_task_lease_with(&storage, task.id, 11, 55, minutes(10), 1_100_000)
            .unwrap_err(),
        PlatformError::InvalidInput("worker mismatch")
    );
    assert_eq!(
        engine
            .renew_task_lease_with(&storage, task.id, 10, 56, minutes(10), 1_100_000)
            .unwrap_err(),
        PlatformError::InvalidInput("invalid lease token")
    );
    assert_eq!(
        engine
            .renew_task_lease_with(&storage, 12345, 10, 55, minutes(10), 1_100_000)
            .unwrap_err(),
        PlatformError::InvalidInput("lease not found")
    );
    // At the instant of expiry the lease can still be renewed, a millisecond later not.
    assert!(engine
        .renew_task_lease_with(&storage, task.id, 10, 55, 0, 1_900_000)
        .is_ok());
    assert_eq!(
        engine
            .renew_task_lease_with(&storage, task.id, 10, 55, minutes(10), 1_900_001)
            .unwrap_err(),
        PlatformError::InvalidInput("lease expired")
    );
    assert_eq!(engine.lease_state(task.id).unwrap().version, 3);
    // Completion removes the lease: a renewal then finds none.
    engine.complete_task(&mut storage, task.id, None).unwrap();
    assert_eq!(engine.lease_state(task.id), None);
    assert_eq!(
        engine
            .renew_task_lease_with(&storage, task.id, 10, 55, minutes(10), 1_100_000)
            .unwrap_err(),
        PlatformError::InvalidInput("lease not found")
    );
}

#[test]
fn nothing_pending_means_no_lease() {
    let mut storage = InMemoryPersistence::new();
    let mut engine = OrchestrationEngine::new();
    assert!(engine.lease_next_task(&mut storage, 1, 2, minutes(1)).unwrap().is_none());
    engine.schedule_task(&mut storage, request(2, "k")).unwrap();
    // Tasks of another tenant are not offered.
    assert!(engine.lease_next_task(&mut storage, 1, 2, minutes(1)).unwrap().is_none());
    assert!(engine.lease_next_task(&mut storage, 2, 2, minutes(1)).unwrap().is_some());
    // A leased task is not offered twice.
    assert!(engine.lease_next_task(&mut storage, 2, 3, minutes(1)).unwrap().is_none());
}

#[test]
fn fifo_takes_the_earliest_scheduled() {
    let mut storage = InMemoryPersistence::new();
    let mut engine = OrchestrationEngine::new();
    engine.schedule_task_with(&mut storage, request(1, "a"), 1, 300).unwrap();
    engine.schedule_task_with(&mut storage, request(1, "b"), 2, 100).unwrap();
    engine.schedule_task_with(&mut storage, request(1, "c"), 3, 100).unwrap();
    engine.schedule_task_with(&mut storage, request(1, "d"), 4, 200).unwrap();
    let order: Vec<u128> = (0..4)
        .map(|_| {
            engine
                .lease_next_task(&mut storage, 1, 9, minutes(1))
                .unwrap()
                .unwrap()
                .task
                .id
        })
        .collect();
    assert_eq!(order, vec![2, 3, 4, 1]);
}

#[test]
fn priority_takes_the_lowest_number_then_the_earliest() {
    let mut storage = InMemoryPersistence::new();
    let mut engine = OrchestrationEngine::new();
    engine.set_scheduler_strategy(SchedulerStrategy::Priority);
    engine.register_task_policy("urgent", TaskPolicy { priority: 1, ..TaskPolicy::default() });
    engine.register_task_policy("idle", TaskPolicy { priority: 500, ..TaskPolicy::default() });
    engine.schedule_task_with(&mut storage, request(1, "idle"), 1, 100).unwrap();
    engine.schedule_task_with(&mut storage, request(1, "normal"), 2, 300).unwrap();
    engine.schedule_task_with(&mut storage, request(1, "urgent"), 3, 400).unwrap();
    engine.schedule_task_with(&mut storage, request(1, "normal"), 4, 200).unwrap();
    engine.schedule_task_with(&mut storage, request(1, "urgent"), 5, 350).unwrap();
    let order: Vec<u128> = (0..5)
        .map(|_| {
            engine
                .lease_next_task(&mut storage, 1, 9, minutes(1))
                .unwrap()
                .unwrap()
                .task
                .id
        })
        .collect();
    assert_eq!(order, vec![5, 3, 4, 2, 1]);
    // A policy registered again replaces the one before.
    engine.register_task_policy("urgent", TaskPolicy { priority: 900, ..TaskPolicy::default() });
    assert_eq!(engine.task_policy("urgent").priority, 900);
    assert_eq!(engine.task_policy("unknown"), TaskPolicy::default());
    assert_eq!(TaskPolicy::default().max_retries, 3);
    assert_eq!(TaskPolicy::default().backoff_seconds, Some(30));
    assert_eq!(TaskPolicy::default().priority, 100);
}

#[test]
fn fairness_avoids_the_kind_dispatched_last() {
    let mut storage = InMemoryPersistence::new();
    let mut engine = OrchestrationEngine::new();
    engine.set_scheduler_strategy(SchedulerStrategy::FairnessByKind);
    engine.schedule_task_with(&mut storage, request(1, "a"), 1, 100).unwrap();
    engine.schedule_task_with(&mut storage, request(1, "a"), 2, 200).unwrap();
    engine.schedule_task_with(&mut storage, request(1, "b"), 3, 300).unwrap();
    engine.schedule_task_with(&mut storage, request(1, "a"), 4, 400).unwrap();
    let order: Vec<u128> = (0..4)
        .map(|_| {
            engine
                .lease_next_task(&mut storage, 1, 9, minutes(1))
                .unwrap()
                .unwrap()
                .task
                .id
        })
        .collect();
    // a, then b because a was last, then a, then a because nothing else is left.
    assert_eq!(order, vec![1, 3, 2, 4]);
    // Changing the strategy forgets the kind dispatched last.
    engine.schedule_task_with(&mut storage, request(1, "a"), 5, 500).unwrap();
    engine.schedule_task_with(&mut storage, request(1, "b"), 6, 600).unwrap();
    engine.set_scheduler_strategy(SchedulerStrategy::FairnessByKind);
    let next = engine.lease_next_task(&mut storage, 1, 9, minutes(1)).unwrap().unwrap();
    assert_eq!(next.task.id, 5);
}

#[test]
fn workflow_of_another_tenant_is_forbidden() {
    let mut storage = InMemoryPersistence::new();
    let mut engine = OrchestrationEngine::new();
    let workflow = engine
        .register_workflow(&mut storage, 1, "w", vec![step("s", "k", vec![])])
        .unwrap();
    assert_eq!(
        engine.schedule_workflow(&mut storage, workflow.id, 2, JsonValue::Null).unwrap_err(),
        PlatformError::Forbidden
    );
    assert_eq!(
        engine.schedule_workflow(&mut storage, fresh_id(), 1, JsonValue::Null).unwrap_err(),
        PlatformError::NotFound("workflow")
    );
    assert_eq!(
        engine.register_workflow(&mut storage, 1, "empty", vec![]).unwrap_err(),
        PlatformError::InvalidInput("workflow steps required")
    );
    assert_eq!(storage.list_pending_tasks(2).unwrap().len(), 0);
    assert_eq!(storage.list_workflows(1).unwrap().len(), 1);
}

#[test]
fn workflow_fans_out_in_dependency_order() {
    let mut storage = InMemoryPersistence::new();
    let mut engine = OrchestrationEngine::new();
    let needs = |kind: &str| {
        vec![TaskDependency { task_kind: kind.into(), required_status: TaskStatus::Completed }]
    };
    let steps = vec![
        step("build", "build", vec![]),
        step("test", "test", needs("build")),
        step("lint", "lint", needs("build")),
        step("ship", "ship", vec![
            TaskDependency { task_kind: "test".into(), required_status: TaskStatus::Completed },
            TaskDependency { task_kind: "lint".into(), required_status: TaskStatus::Completed },
        ]),
    ];
    let ids: Vec<u128> = steps.iter().map(|s| s.id).collect();
    let workflow = engine.register_workflow(&mut storage, 1, "pipeline", steps).unwrap();
    let input = foo_bar();
    let first = engine
        .schedule_workflow_with(&mut storage, workflow.id, 1, input.clone(), 777, &vec![901, 902], 1_000)
        .unwrap();
    assert_eq!(first.len(), 1);
    assert_eq!(first[0].id, 901);
    assert_eq!(first[0].kind, "build");
    assert_eq!(first[0].scheduled_at, 1_000);
    assert_eq!(
        first[0].payload,
        step_payload_value(workflow.id, 777, ids[0], &input)
    );
    assert_eq!(
        workflow_context(&first[0]),
        Some(WorkflowContext { workflow_id: workflow.id, run_id: 777, step_id: ids[0] })
    );
    assert_eq!(first[0].payload.get("input"), Some(&input));
    assert_eq!(
        first[0].payload.get("step_id").and_then(|v| v.as_str()),
        Some(uuid::Uuid::from_u128(ids[0]).to_string().as_str())
    );
    let run = engine.get_workflow_run(777).unwrap();
    assert_eq!(run.status, WorkflowRunStatus::Running);
    assert_eq!(run.workflow_id, workflow.id);
    assert_eq!(run.tenant_id, 1);
    assert_eq!(run.created_at, 1_000);
    assert_eq!(run.started_at, Some(1_000));
    assert_eq!(run.completed_at, None);
    assert_eq!(run.current_step, None);
    assert_eq!(run.context, input);

    engine.complete_task_with(&mut storage, first[0].id, None, &vec![911, 912, 913], 2_000).unwrap();
    let pending = storage.list_pending_tasks(1).unwrap();
    let kinds: Vec<&str> = pending.iter().map(|t| t.kind.as_str()).collect();
    assert_eq!(kinds, vec!["test", "lint"]);
    assert_eq!(pending.iter().map(|t| t.id).collect::<Vec<u128>>(), vec![911, 912]);
    let run = engine.get_workflow_run(777).unwrap();
    assert_eq!(run.current_step, Some(ids[0]));
    assert_eq!(run.updated_at, 2_000);
    assert_eq!(run.status, WorkflowRunStatus::Running);

    engine.complete_task_with(&mut storage, pending[0].id, None, &vec![921], 3_000).unwrap();
    assert_eq!(storage.list_pending_tasks(1).unwrap().len(), 1);
    engine.complete_task_with(&mut storage, pending[1].id, None, &vec![931], 4_000).unwrap();
    let last = storage.list_pending_tasks(1).unwrap();
    assert_eq!(last.len(), 1);
    assert_eq!(last[0].kind, "ship");
    assert!(engine.get_workflow_run(777).is_some());
    engine.complete_task_with(&mut storage, last[0].id, None, &vec![], 5_000).unwrap();
    assert!(engine.get_workflow_run(777).is_none());
    assert_eq!(storage.list_pending_tasks(1).unwrap().len(), 0);
}

#[test]
fn run_state_records_outcomes_and_finishes() {
    let a = step("a", "configure", vec![]);
    let b = step(
        "b",
        "cleanup",
        vec![TaskDependency { task_kind: "configure".into(), required_status: TaskStatus::Failed }],
    );
    let run = cncore::models::WorkflowRun {
        id: 1,
        tenant_id: 2,
        workflow_id: 3,
        status: WorkflowRunStatus::Running,
        current_step: None,
        created_at: 10,
        updated_at: 10,
        started_at: Some(10),
        completed_at: None,
        context: JsonValue::Null,
    };
    let mut state = WorkflowRunState::new(run, &vec![a.clone(), b.clone()]);
    assert_eq!(state.slots.len(), 2);
    let ready = state.pop_ready_steps();
    assert_eq!(ready, vec![a.clone()]);
    assert_eq!(state.slots[0].phase, StepPhase::Inflight);
    assert_eq!(state.slots[1].phase, StepPhase::Waiting);
    assert_eq!(state.pop_ready_steps(), vec![]);
    state.mark_step_outcome(a.id, false, 20);
    assert_eq!(state.failed_kinds, vec!["configure".to_string()]);
    assert!(state.completed_kinds.is_empty());
    assert_eq!(state.run.status, WorkflowRunStatus::Running);
    assert_eq!(state.run.completed_at, None);
    assert_eq!(state.run.current_step, Some(a.id));
    assert_eq!(state.run.updated_at, 20);
    assert_eq!(state.pop_ready_steps(), vec![b.clone()]);
    state.mark_step_outcome(b.id, true, 30);
    assert_eq!(state.completed_kinds, vec!["cleanup".to_string()]);
    // A kind has failed in the run, so the run finishes as failed.
    assert_eq!(state.run.status, WorkflowRunStatus::Failed);
    assert_eq!(state.run.completed_at, Some(30));
}

#[test]
fn run_without_failures_finishes_completed() {
    let mut storage = InMemoryPersistence::new();
    let mut engine = OrchestrationEngine::new();
    let workflow = engine
        .register_workflow(&mut storage, 1, "w", vec![step("s", "k", vec![])])
        .unwrap();
    let tasks = engine
        .schedule_workflow_with(&mut storage, workflow.id, 1, JsonValue::Null, 5, &vec![50], 100)
        .unwrap();
    let mut probe = WorkflowRunState::new(
        engine.get_workflow_run(5).unwrap(),
        &workflow.steps,
    );
    probe.pop_ready_steps();
    probe.mark_step_outcome(workflow.steps[0].id, true, 200);
    assert_eq!(probe.run.status, WorkflowRunStatus::Completed);
    assert_eq!(probe.run.completed_at, Some(200));
    engine.complete_task(&mut storage, tasks[0].id, None).unwrap();
    assert!(engine.get_workflow_run(5).is_none());
}

#[test]
fn workflow_without_a_ready_step_is_pending() {
    let mut storage = InMemoryPersistence::new();
    let mut engine = OrchestrationEngine::new();
    let blocked = step(
        "blocked",
        "k",
        vec![TaskDependency { task_kind: "never".into(), required_status: TaskStatus::Completed }],
    );
    let workflow = engine.register_workflow(&mut storage, 1, "w", vec![blocked]).unwrap();
    let tasks = engine
        .schedule_workflow_with(&mut storage, workflow.id, 1, JsonValue::Null, 9, &vec![], 100)
        .unwrap();
    assert!(tasks.is_empty());
    assert_eq!(engine.get_workflow_run(9).unwrap().status, WorkflowRunStatus::Pending);
    // Dependencies on pending or in-progress steps gate nothing.
    let open = step(
        "open",
        "k",
        vec![
            TaskDependency { task_kind: "x".into(), required_status: TaskStatus::Pending },
            TaskDependency { task_kind: "y".into(), required_status: TaskStatus::InProgress },
        ],
    );
    let other = engine.register_workflow(&mut storage, 1, "w2", vec![open]).unwrap();
    let tasks = engine
        .schedule_workflow_with(&mut storage, other.id, 1, JsonValue::Null, 10, &vec![60], 100)
        .unwrap();
    assert_eq!(tasks.len(), 1);
}

#[test]
fn payload_without_workflow_members_names_no_position() {
    let task = |payload: JsonValue| Task {
        id: 1,
        tenant_id: 1,
        kind: "k".into(),
        payload,
        status: TaskStatus::Pending,
        attempts: 0,
        scheduled_at: 0,
        started_at: None,
        completed_at: None,
        last_error: None,
        result: None,
        timeouts: None,
    };
    assert_eq!(workflow_context(&task(foo_bar())), None);
    assert_eq!(workflow_context(&task(JsonValue::Null)), None);
    assert_eq!(workflow_context(&task(JsonValue::text("x"))), None);
    let member = |name: &str, value: &str| Member { name: name.into(), value: JsonValue::text(value) };
    let id = "550e8400-e29b-41d4-a716-446655440000";
    let full = JsonValue::Object(vec![
        member("workflow_id", id),
        member("workflow_run_id", "00000000-0000-0000-0000-000000000002"),
        member("step_id", "00000000-0000-0000-0000-000000000003"),
    ]);
    assert_eq!(
        workflow_context(&task(full)),
        Some(WorkflowContext {
            workflow_id: 0x550e8400_e29b_41d4_a716_446655440000,
            run_id: 2,
            step_id: 3,
        })
    );
    let not_an_id = JsonValue::Object(vec![
        member("workflow_id", id),
        member("workflow_run_id", "two"),
        member("step_id", id),
    ]);
    assert_eq!(workflow_context(&task(not_an_id)), None);
    let number = JsonValue::Object(vec![
        member("workflow_id", id),
        Member { name: "workflow_run_id".into(), value: JsonValue::Number(2) },
        member("step_id", id),
    ]);
    assert_eq!(workflow_context(&task(number)), None);
    // The last member of a name counts.
    let twice = JsonValue::Object(vec![
        member("k", "first"),
        member("k", "second"),
    ]);
    assert_eq!(twice.get("k").and_then(|v| v.as_str()), Some("second"));
    assert_eq!(twice.get("missing"), None);
    assert_eq!(JsonValue::Number(5).as_i64(), Some(5));
    assert_eq!(JsonValue::Null.as_i64(), None);
    assert!(JsonValue::Null.is_null());
    assert!(!JsonValue::Bool(false).is_null());
}

#[test]
fn completing_a_task_outside_a_workflow_changes_no_run() {
    let mut storage = InMemoryPersistence::new();
    let mut engine = OrchestrationEngine::new();
    let task = engine.schedule_task(&mut storage, request(1, "k")).unwrap();
    let done = engine
        .complete_task_with(&mut storage, task.id, Some(status_ok()), &vec![], 500)
        .unwrap();
    assert_eq!(done.status, TaskStatus::Completed);
    assert_eq!(done.completed_at, Some(500));
    assert_eq!(done.result, Some(status_ok()));
    assert_eq!(storage.get_task(task.id).unwrap(), Some(done));
    assert!(storage.list_pending_tasks(1).unwrap().is_empty());
}

#[test]
fn lease_versions_rise_across_a_retry() {
    let mut storage = InMemoryPersistence::new();
    let mut engine = OrchestrationEngine::new();
    engine.register_task_policy(
        "k",
        TaskPolicy { max_retries: 3, backoff_seconds: Some(0), ..TaskPolicy::default() },
    );
    let task = engine.schedule_task(&mut storage, request(1, "k")).unwrap();
    assert_eq!(engine.lease_version(task.id), 0);
    let first = engine.lease_next_task(&mut storage, 1, 9, minutes(5)).unwrap().unwrap();
    assert_eq!(first.lease_version, 1);
    let renewed = engine
        .renew_task_lease(&storage, task.id, 9, first.lease_token, minutes(1))
        .unwrap();
    assert_eq!(renewed.lease_version, 2);
    assert_eq!(engine.lease_version(task.id), 2);

    engine.fail_task(&mut storage, task.id, "boom", true).unwrap();
    assert_eq!(engine.lease_state(task.id), None);
    assert_eq!(engine.lease_version(task.id), 2);
    assert_eq!(
        engine.renew_task_lease(&storage, task.id, 9, first.lease_token, minutes(1)),
        Err(PlatformError::InvalidInput("lease not found"))
    );

    let second = engine.lease_next_task(&mut storage, 1, 8, minutes(5)).unwrap().unwrap();
    assert_eq!(second.task.id, task.id);
    assert_eq!(second.lease_version, 3);
    assert_eq!(engine.lease_state(task.id).unwrap().version, 3);
    let again = engine
        .renew_task_lease(&storage, task.id, 8, second.lease_token, minutes(1))
        .unwrap();
    assert_eq!(again.lease_version, 4);

    engine.complete_task(&mut storage, task.id, None).unwrap();
    assert_eq!(engine.lease_state(task.id), None);
    assert_eq!(engine.lease_version(task.id), 4);

    let other = engine.schedule_task(&mut storage, request(1, "k")).unwrap();
    let lease = engine.lease_next_task(&mut storage, 1, 9, minutes(5)).unwrap().unwrap();
    assert_eq!(lease.task.id, other.id);
    assert_eq!(lease.lease_version, 1);
}

#[test]
fn fan_out_stops_at_a_taken_or_wanting_identifier() {
    let mut storage = InMemoryPersistence::new();
    let mut engine = OrchestrationEngine::new();
    let steps = vec![step("a", "ka", vec![]), step("b", "kb", vec![]), step("c", "kc", vec![])];
    let workflow = engine.register_workflow(&mut storage, 1, "w", steps).unwrap();
    engine.schedule_task_with(&mut storage, request(1, "other"), 72, 10).unwrap();

    // The second identifier is taken: the first task stays enqueued, no run is indexed.
    let taken = engine.schedule_workflow_with(
        &mut storage,
        workflow.id,
        1,
        JsonValue::Null,
        1,
        &vec![71, 72, 73],
        100,
    );
    assert_eq!(taken, Err(PlatformError::Conflict("task")));
    assert!(engine.get_workflow_run(1).is_none());
    let kinds: Vec<String> =
        storage.list_pending_tasks(1).unwrap().into_iter().map(|t| t.kind).collect();
    assert_eq!(kinds, vec!["other", "ka"]);

    // An identifier is wanting for the third step.
    let wanting = engine.schedule_workflow_with(
        &mut storage,
        workflow.id,
        1,
        JsonValue::Null,
        2,
        &vec![81, 82],
        200,
    );
    assert_eq!(wanting, Err(PlatformError::Conflict("task")));
    assert_eq!(storage.list_pending_tasks(1).unwrap().len(), 4);

    // Free identifiers for every step: all three tasks go in, under them and in order.
    let tasks = engine
        .schedule_workflow_with(&mut storage, workflow.id, 1, JsonValue::Null, 3, &vec![91, 92, 93, 94], 300)
        .unwrap();
    assert_eq!(tasks.iter().map(|t| t.id).collect::<Vec<u128>>(), vec![91, 92, 93]);
    assert_eq!(
        tasks.iter().map(|t| t.kind.as_str()).collect::<Vec<&str>>(),
        vec!["ka", "kb", "kc"]
    );
    assert_eq!(engine.get_workflow_run(3).unwrap().status, WorkflowRunStatus::Running);

    // The engine draws an identifier for every step by itself.
    let drawn = engine.schedule_workflow(&mut storage, workflow.id, 1, JsonValue::Null).unwrap();
    assert_eq!(drawn.len(), 3);
}
