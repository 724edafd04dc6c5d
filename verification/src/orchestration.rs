//! The orchestration engine: the task queue, lease bookkeeping, the retry policy, and the
//! workflow runtime that fans steps out to tasks.
//!
//! The engine keeps the policy of each task kind, the state of each active workflow run,
//! the lease of each leased task, for each task that was ever leased the highest version
//! of a lease handed out for it, and the kind it dispatched last. The stores are handed
//! to each operation.
use vstd::prelude::*;
use vstd::string::StringExecFns;
use crate::error::{result_view, PlatformError, PlatformResult};
use crate::ids::random_id;
use crate::json::{JsonModel, JsonValue};
use crate::models::{
    Task, TaskLease, TaskLeaseView, TaskRequest, TaskStatus, TaskTimeouts, TaskView, Workflow,
    WorkflowRun, WorkflowRunStatus, WorkflowRunView, WorkflowStep, WorkflowStepView, WorkflowView,
};
use crate::persistence::{
    enqueued, enqueued_all, lemma_pending_of, pending_of, task_updated, InMemoryPersistence,
    StoreView,
};
use crate::table::{
    arranged, distinct, fetch, find, lemma_arranged, lemma_contains_present, lemma_position,
    lemma_put, lemma_replaced, lemma_without, lookup, present, put, put_row, remove_row, replaced,
    set_row, without, Record,
};
use crate::text::{
    find_text, lemma_text_position, lemma_text_position_is, same_text, text_position,
};
use crate::time::{after, clamp, now_millis, shifted, span_of_seconds, Millis, Timestamp};
use crate::scheduling::{
    admitted, chosen, eligible, first_best, goes_before, policy_for, some_eligible,
};
pub use crate::scheduling::{SchedulerStrategy, TaskPolicy};
use crate::workflow::{
    after_dispatch, context_of, dispatched, initial_slots, is_terminal, lemma_marked,
    lemma_resolved_none_ready, marked, ready_steps, step_payload, terminal, RunStateView,
};
pub use crate::workflow::{
    step_payload_value, workflow_context, StepPhase, WorkflowContext, WorkflowRunState,
};

verus! {

/// The lease on a task: who holds it, under which token, in which version, until when.
#[derive(Debug, Clone, Copy, PartialEq, Eq)]
pub struct LeaseState {
    pub task_id: u128,
    pub version: u64,
    pub token: u128,
    pub worker_id: u128,
    pub leased_at: Timestamp,
    pub lease_expires_at: Timestamp,
}

impl DeepView for LeaseState {
    type V = LeaseState;

    open spec fn deep_view(&self) -> LeaseState {
        *self
    }
}

impl Record for LeaseState {
    open spec fn view_key(view: LeaseState) -> u128 {
        view.task_id
    }

    fn key(&self) -> (k: u128) {
        self.task_id
    }

    fn duplicate(&self) -> (copy: Self) {
        *self
    }
}

/// The highest version of a lease that was handed out for a task. It is kept when the
/// lease is cleared, so that the next lease of the task has a higher version.
#[derive(Debug, Clone, Copy, PartialEq, Eq)]
pub struct LeaseCount {
    pub task_id: u128,
    pub version: u64,
}

impl DeepView for LeaseCount {
    type V = LeaseCount;

    open spec fn deep_view(&self) -> LeaseCount {
        *self
    }
}

impl Record for LeaseCount {
    open spec fn view_key(view: LeaseCount) -> u128 {
        view.task_id
    }

    fn key(&self) -> (k: u128) {
        self.task_id
    }

    fn duplicate(&self) -> (copy: Self) {
        *self
    }
}

/// A freshly enqueued task: pending, never attempted, scheduled for `now`.
pub open spec fn new_task(
    tenant_id: u128,
    kind: Seq<char>,
    payload: JsonModel,
    timeouts: Option<TaskTimeouts>,
    id: u128,
    now: Timestamp,
) -> TaskView {
    TaskView {
        id,
        tenant_id,
        kind,
        payload,
        status: TaskStatus::Pending,
        attempts: 0,
        scheduled_at: now,
        started_at: None,
        completed_at: None,
        last_error: None,
        result: None,
        timeouts,
    }
}

/// The mathematical value of the engine: its tables.
pub struct EngineView {
    pub scheduler: SchedulerStrategy,
    pub policy_kinds: Seq<Seq<char>>,
    pub policy_values: Seq<TaskPolicy>,
    pub runs: Seq<RunStateView>,
    pub leases: Seq<LeaseState>,
    /// For each task that was ever leased, the highest version handed out for it.
    pub lease_counts: Seq<LeaseCount>,
    pub last_kind: Option<Seq<char>>,
}

/// The highest version of a lease that was handed out for a task so far; zero for a task
/// that was never leased.
pub open spec fn handed(engine: EngineView, task_id: u128) -> u64 {
    match lookup::<LeaseCount>(engine.lease_counts, task_id) {
        Some(count) => count.version,
        None => 0,
    }
}

/// What holds of every engine: each kind has one policy at most, each task one lease and
/// one count of versions at most, each run one state at most, the version of every lease
/// is the highest handed out for its task, and no run in the index is finished or has an
/// instant of completion.
pub open spec fn engine_wf(engine: EngineView) -> bool {
    &&& engine.policy_kinds.len() == engine.policy_values.len()
    &&& distinct::<WorkflowRunState>(engine.runs)
    &&& distinct::<LeaseState>(engine.leases)
    &&& distinct::<LeaseCount>(engine.lease_counts)
    &&& forall|id: u128|
        (#[trigger] lookup::<LeaseState>(engine.leases, id)) is Some ==> handed(engine, id)
            == lookup::<LeaseState>(engine.leases, id)->0.version
    &&& forall|i: int| 0 <= i < engine.runs.len() ==> !terminal((#[trigger] engine.runs[i]).run.status)
    &&& forall|i: int|
        0 <= i < engine.runs.len() ==> (#[trigger] engine.runs[i]).run.completed_at is None
}

/// The policy that an engine applies to a kind.
pub open spec fn engine_policy(engine: EngineView, kind: Seq<char>) -> TaskPolicy {
    policy_for(engine.policy_kinds, engine.policy_values, kind)
}

/// The task that step `step` of a run is dispatched as.
pub open spec fn step_task(
    engine: EngineView,
    run: WorkflowRunView,
    input: JsonModel,
    step: WorkflowStepView,
    id: u128,
    now: Timestamp,
) -> TaskView {
    new_task(
        run.tenant_id,
        step.task_kind,
        step_payload(run.workflow_id, run.id, step.id, input),
        engine_policy(engine, step.task_kind).timeouts,
        id,
        now,
    )
}

/// `tasks` are the tasks that `steps` of a run are dispatched as, one for one.
pub open spec fn fanned_out(
    engine: EngineView,
    run: WorkflowRunView,
    input: JsonModel,
    steps: Seq<WorkflowStepView>,
    ids: Seq<u128>,
    now: Timestamp,
    tasks: Seq<TaskView>,
) -> bool {
    &&& tasks.len() == steps.len()
    &&& tasks.len() <= ids.len()
    &&& forall|k: int|
        0 <= k < tasks.len() ==> #[trigger] tasks[k] == step_task(
            engine,
            run,
            input,
            steps[k],
            ids[k],
            now,
        )
}

/// Why a fan-out of `steps` steps stopped after the tasks `spawned`, leaving the store
/// `s1`: all steps went in, or no identifier was at hand for the next step, or the
/// identifier for it was taken.
pub open spec fn fan_stopped(s1: StoreView, ids: Seq<u128>, spawned: Seq<TaskView>, steps: int)
    -> bool {
    spawned.len() < steps ==> spawned.len() >= ids.len() || present::<Task>(
        s1.tasks,
        ids[spawned.len() as int],
    )
}

/// The state of the run that a payload names, if the payload names one that is active.
pub open spec fn run_of(engine: EngineView, payload: JsonModel) -> Option<RunStateView> {
    match context_of(payload) {
        Some(ctx) => lookup::<WorkflowRunState>(engine.runs, ctx.run_id),
        None => None,
    }
}

/// How the outcome of a task drives the run it belongs to.
///
/// A task that names no active run changes nothing. Else the outcome of its step is
/// recorded, the steps that became ready are dispatched as the tasks `spawned`, and a run
/// that is finished leaves the index. `ok` is false where enqueueing stopped at a task
/// whose identifier was taken; the steps are then dispatched in the run all the same.
pub open spec fn outcome_handled(
    e0: EngineView,
    s0: StoreView,
    payload: JsonModel,
    success: bool,
    ids: Seq<u128>,
    now: Timestamp,
    e1: EngineView,
    s1: StoreView,
    spawned: Seq<TaskView>,
    ok: bool,
) -> bool {
    match run_of(e0, payload) {
        None => e1 == e0 && s1 == s0 && spawned.len() == 0 && ok,
        Some(state) => {
            let ctx = context_of(payload)->0;
            let seen = marked(state, ctx.step_id, success, now);
            let ready = ready_steps(seen.slots, seen.completed_kinds, seen.failed_kinds);
            let next = after_dispatch(seen);
            &&& spawned.len() <= ready.len()
            &&& ok == (spawned.len() == ready.len())
            &&& fanned_out(
                e0,
                seen.run,
                seen.run.context,
                ready.take(spawned.len() as int),
                ids,
                now,
                spawned,
            )
            &&& s1 == enqueued_all(s0, spawned)
            &&& fan_stopped(s1, ids, spawned, ready.len() as int)
            &&& e1 == EngineView {
                runs: if ok && terminal(seen.run.status) {
                    without::<WorkflowRunState>(e0.runs, ctx.run_id)
                } else {
                    replaced::<WorkflowRunState>(e0.runs, next)
                },
                ..e0
            }
        },
    }
}

/// The span of a lease: the lease seconds of the task's timeouts where it has them, else
/// the span the worker asked for.
pub open spec fn lease_window(timeouts: Option<TaskTimeouts>, asked: Millis) -> int {
    match timeouts {
        Some(t) => match t.lease_seconds {
            Some(secs) => clamp(secs * 1000),
            None => asked as int,
        },
        None => asked as int,
    }
}

/// The kind dispatched last, after a task of kind `kind` was chosen.
pub open spec fn last_kind_after(engine: EngineView, kind: Seq<char>) -> Option<Seq<char>> {
    if engine.scheduler == SchedulerStrategy::FairnessByKind {
        Some(kind)
    } else {
        engine.last_kind
    }
}

/// The number of steps of a stored workflow; none for a workflow that is not stored.
pub open spec fn workflow_steps(store: StoreView, workflow_id: u128) -> nat {
    match lookup::<Workflow>(store.workflows, workflow_id) {
        Some(workflow) => workflow.steps.len(),
        None => 0,
    }
}

/// The number of steps of the run that a task belongs to: as many identifiers are
/// drawn when the task is settled, one for every step that its outcome may make ready.
pub open spec fn steps_at_stake(engine: EngineView, store: StoreView, task_id: u128) -> nat {
    match lookup::<Task>(store.tasks, task_id) {
        Some(task) => match run_of(engine, task.payload) {
            Some(state) => state.slots.len(),
            None => 0,
        },
        None => 0,
    }
}

/// What scheduling a task does: the task is enqueued under `id`, or the identifier is
/// taken and nothing changes.
pub open spec fn schedule_task_post(
    engine: EngineView,
    s0: StoreView,
    request: TaskView,
    s1: StoreView,
    r: PlatformResult<TaskView>,
) -> bool {
    if present::<Task>(s0.tasks, request.id) {
        r == Err::<TaskView, PlatformError>(PlatformError::Conflict("task")) && s1 == s0
    } else {
        r == Ok::<TaskView, PlatformError>(request) && s1 == enqueued(s0, request)
    }
}

/// What leasing the next task of a tenant does at `now` under the lease token `token`.
///
/// With nothing pending nothing changes. Else the chosen task goes in progress, started
/// at `now`, and gets a lease whose version is one more than the highest version that
/// was ever handed out for the task, or 1 if it was never leased.
pub open spec fn lease_post(
    e0: EngineView,
    s0: StoreView,
    tenant_id: u128,
    worker_id: u128,
    asked: Millis,
    now: Timestamp,
    token: u128,
    e1: EngineView,
    s1: StoreView,
    r: PlatformResult<Option<TaskLeaseView>>,
) -> bool {
    let pending = arranged::<Task>(pending_of(s0.tasks, tenant_id));
    if pending.len() == 0 {
        r == Ok::<Option<TaskLeaseView>, PlatformError>(None) && e1 == e0 && s1 == s0
    } else {
        exists|at: int|
            {
                &&& #[trigger] chosen(
                    e0.scheduler,
                    e0.policy_kinds,
                    e0.policy_values,
                    e0.last_kind,
                    pending,
                    at,
                )
                &&& lease_of_choice(e0, s0, pending[at], worker_id, asked, now, token, e1, s1, r)
            }
    }
}

/// What leasing the chosen task `task` does.
pub open spec fn lease_of_choice(
    e0: EngineView,
    s0: StoreView,
    task: TaskView,
    worker_id: u128,
    asked: Millis,
    now: Timestamp,
    token: u128,
    e1: EngineView,
    s1: StoreView,
    r: PlatformResult<Option<TaskLeaseView>>,
) -> bool {
    let before = handed(e0, task.id);
    if before == u64::MAX {
        &&& r == Err::<Option<TaskLeaseView>, PlatformError>(
            PlatformError::Internal("lease version exhausted"),
        )
        &&& s1 == s0
        &&& e1 == EngineView { last_kind: last_kind_after(e0, task.kind), ..e0 }
    } else {
        let started = TaskView { status: TaskStatus::InProgress, started_at: Some(now), ..task };
        let lease = LeaseState {
            task_id: task.id,
            version: (before + 1) as u64,
            token,
            worker_id,
            leased_at: now,
            lease_expires_at: shifted(now as int, lease_window(task.timeouts, asked)) as i64,
        };
        &&& s1 == task_updated(s0, started)
        &&& e1 == EngineView {
            leases: put::<LeaseState>(e0.leases, lease),
            lease_counts: put::<LeaseCount>(
                e0.lease_counts,
                LeaseCount { task_id: task.id, version: lease.version },
            ),
            last_kind: last_kind_after(e0, task.kind),
            ..e0
        }
        &&& r == Ok::<Option<TaskLeaseView>, PlatformError>(
            Some(
                TaskLeaseView {
                    task: started,
                    worker_id,
                    leased_at: now,
                    lease_expires_at: lease.lease_expires_at,
                    lease_version: lease.version,
                    lease_token: token,
                },
            ),
        )
    }
}

/// What renewing a lease does at `now`.
///
/// The lease must exist, be held by `worker_id` under `token`, and not have expired; else
/// the renewal is refused as invalid input and nothing changes. A renewed lease is one
/// version on and expires `extend_by` later.
pub open spec fn renew_post(
    e0: EngineView,
    store: StoreView,
    task_id: u128,
    worker_id: u128,
    token: u128,
    extend_by: Millis,
    now: Timestamp,
    e1: EngineView,
    r: PlatformResult<TaskLeaseView>,
) -> bool {
    match lookup::<LeaseState>(e0.leases, task_id) {
        None => r == Err::<TaskLeaseView, PlatformError>(
            PlatformError::InvalidInput("lease not found"),
        ) && e1 == e0,
        Some(lease) => {
            if lease.worker_id != worker_id {
                r == Err::<TaskLeaseView, PlatformError>(
                    PlatformError::InvalidInput("worker mismatch"),
                ) && e1 == e0
            } else if lease.token != token {
                r == Err::<TaskLeaseView, PlatformError>(
                    PlatformError::InvalidInput("invalid lease token"),
                ) && e1 == e0
            } else if lease.lease_expires_at < now {
                r == Err::<TaskLeaseView, PlatformError>(
                    PlatformError::InvalidInput("lease expired"),
                ) && e1 == e0
            } else if lease.version == u64::MAX {
                r == Err::<TaskLeaseView, PlatformError>(
                    PlatformError::Internal("lease version exhausted"),
                ) && e1 == e0
            } else {
                let renewed = LeaseState {
                    version: (lease.version + 1) as u64,
                    lease_expires_at: shifted(lease.lease_expires_at as int, extend_by as int) as i64,
                    ..lease
                };
                &&& e1 == EngineView {
                    leases: replaced::<LeaseState>(e0.leases, renewed),
                    lease_counts: put::<LeaseCount>(
                        e0.lease_counts,
                        LeaseCount { task_id, version: renewed.version },
                    ),
                    ..e0
                }
                &&& match lookup::<Task>(store.tasks, task_id) {
                    None => r == Err::<TaskLeaseView, PlatformError>(
                        PlatformError::NotFound("task"),
                    ),
                    Some(task) => r == Ok::<TaskLeaseView, PlatformError>(
                        TaskLeaseView {
                            task,
                            worker_id: renewed.worker_id,
                            leased_at: renewed.leased_at,
                            lease_expires_at: renewed.lease_expires_at,
                            lease_version: renewed.version,
                            lease_token: renewed.token,
                        },
                    ),
                }
            }
        },
    }
}

/// What completing a task does at `now`: the task is completed with the result, its
/// lease is gone, and its run, if it has one, is driven on.
pub open spec fn complete_post(
    e0: EngineView,
    s0: StoreView,
    task_id: u128,
    result: Option<JsonModel>,
    ids: Seq<u128>,
    now: Timestamp,
    e1: EngineView,
    s1: StoreView,
    r: PlatformResult<TaskView>,
) -> bool {
    match lookup::<Task>(s0.tasks, task_id) {
        None => r == Err::<TaskView, PlatformError>(PlatformError::NotFound("task")) && e1 == e0
            && s1 == s0,
        Some(task) => {
            let done = TaskView {
                status: TaskStatus::Completed,
                completed_at: Some(now),
                result,
                ..task
            };
            settled(e0, s0, done, true, ids, now, e1, s1, r)
        },
    }
}

/// What settling a task as `done` does: the task is replaced, its lease is gone, and
/// its run, if it has one, is driven on by the outcome.
pub open spec fn settled(
    e0: EngineView,
    s0: StoreView,
    done: TaskView,
    success: bool,
    ids: Seq<u128>,
    now: Timestamp,
    e1: EngineView,
    s1: StoreView,
    r: PlatformResult<TaskView>,
) -> bool {
    let stored = task_updated(s0, done);
    let released = EngineView { leases: without::<LeaseState>(e0.leases, done.id), ..e0 };
    exists|spawned: Seq<TaskView>|
        {
            &&& #[trigger] outcome_handled(
                released,
                stored,
                done.payload,
                success,
                ids,
                now,
                e1,
                s1,
                spawned,
                r is Ok,
            )
            &&& r is Ok ==> r == Ok::<TaskView, PlatformError>(done)
            &&& r is Err ==> r == Err::<TaskView, PlatformError>(PlatformError::Conflict("task"))
        }
}

/// The attempts of a task after one more failure.
pub open spec fn one_more(attempts: u32) -> u32 {
    if attempts == u32::MAX {
        attempts
    } else {
        (attempts + 1) as u32
    }
}

/// The span a failed task waits before it is pending again.
pub open spec fn backoff_span(policy: TaskPolicy) -> int {
    match policy.backoff_seconds {
        Some(secs) => clamp(secs * 1000),
        None => 0,
    }
}

/// What failing a task does at `now`.
///
/// The attempts go up by one and the error is recorded. If a retry is asked for and the
/// attempts do not exceed the retries of the policy, the task is pending again, scheduled
/// after the backoff. Else the task is failed at `now` and its run, if it has one, is
/// driven on. Either way its lease is gone.
pub open spec fn fail_post(
    e0: EngineView,
    s0: StoreView,
    task_id: u128,
    error: Seq<char>,
    retry: bool,
    ids: Seq<u128>,
    now: Timestamp,
    e1: EngineView,
    s1: StoreView,
    r: PlatformResult<TaskView>,
) -> bool {
    match lookup::<Task>(s0.tasks, task_id) {
        None => r == Err::<TaskView, PlatformError>(PlatformError::NotFound("task")) && e1 == e0
            && s1 == s0,
        Some(task) => {
            let attempts = one_more(task.attempts);
            let policy = engine_policy(e0, task.kind);
            if retry && attempts <= policy.max_retries {
                let again = TaskView {
                    attempts,
                    last_error: Some(error),
                    status: TaskStatus::Pending,
                    started_at: None,
                    completed_at: None,
                    scheduled_at: shifted(now as int, backoff_span(policy)) as i64,
                    ..task
                };
                &&& r == Ok::<TaskView, PlatformError>(again)
                &&& s1 == task_updated(s0, again)
                &&& e1 == EngineView { leases: without::<LeaseState>(e0.leases, task_id), ..e0 }
            } else {
                let failed = TaskView {
                    attempts,
                    last_error: Some(error),
                    status: TaskStatus::Failed,
                    completed_at: Some(now),
                    ..task
                };
                settled(e0, s0, failed, false, ids, now, e1, s1, r)
            }
        },
    }
}

/// What scheduling a workflow does at `now` as the run `run_id`.
///
/// The workflow must exist and belong to the tenant. The run starts with every step
/// waiting; the steps that are ready at once are dispatched as the tasks that are
/// returned, and the run enters the index: running, or pending if no step was ready.
pub open spec fn schedule_workflow_post(
    e0: EngineView,
    s0: StoreView,
    workflow_id: u128,
    tenant_id: u128,
    input: JsonModel,
    run_id: u128,
    ids: Seq<u128>,
    now: Timestamp,
    e1: EngineView,
    s1: StoreView,
    r: PlatformResult<Seq<TaskView>>,
) -> bool {
    match lookup::<Workflow>(s0.workflows, workflow_id) {
        None => r == Err::<Seq<TaskView>, PlatformError>(PlatformError::NotFound("workflow"))
            && e1 == e0 && s1 == s0,
        Some(workflow) => {
            if workflow.tenant_id != tenant_id {
                r == Err::<Seq<TaskView>, PlatformError>(PlatformError::Forbidden) && e1 == e0
                    && s1 == s0
            } else {
                let slots = initial_slots(workflow.steps);
                let ready = ready_steps(slots, Seq::empty(), Seq::empty());
                let run = first_run(workflow.id, tenant_id, input, run_id, now);
                match r {
                    Ok(tasks) => {
                        &&& fanned_out(e0, run, input, ready, ids, now, tasks)
                        &&& s1 == enqueued_all(s0, tasks)
                        &&& e1 == EngineView {
                            runs: put::<WorkflowRunState>(
                                e0.runs,
                                RunStateView {
                                    run: WorkflowRunView {
                                        status: if tasks.len() == 0 {
                                            WorkflowRunStatus::Pending
                                        } else {
                                            WorkflowRunStatus::Running
                                        },
                                        ..run
                                    },
                                    slots: dispatched(slots, Seq::empty(), Seq::empty()),
                                    completed_kinds: Seq::empty(),
                                    failed_kinds: Seq::empty(),
                                },
                            ),
                            ..e0
                        }
                    },
                    Err(e) => {
                        &&& e == PlatformError::Conflict("task")
                        &&& e1 == e0
                        &&& exists|spawned: Seq<TaskView>|
                            {
                                &&& spawned.len() < ready.len()
                                &&& #[trigger] fanned_out(
                                    e0,
                                    run,
                                    input,
                                    ready.take(spawned.len() as int),
                                    ids,
                                    now,
                                    spawned,
                                )
                                &&& s1 == enqueued_all(s0, spawned)
                                &&& fan_stopped(s1, ids, spawned, ready.len() as int)
                            }
                    },
                }
            }
        },
    }
}

/// The run of a workflow as it starts.
pub open spec fn first_run(
    workflow_id: u128,
    tenant_id: u128,
    input: JsonModel,
    run_id: u128,
    now: Timestamp,
) -> WorkflowRunView {
    WorkflowRunView {
        id: run_id,
        tenant_id,
        workflow_id,
        status: WorkflowRunStatus::Running,
        current_step: None,
        created_at: now,
        updated_at: now,
        started_at: Some(now),
        completed_at: None,
        context: input,
    }
}

/// `kinds` and `values` with `policy` registered for `kind`.
pub open spec fn with_policy(engine: EngineView, kind: Seq<char>, policy: TaskPolicy)
    -> EngineView {
    let at = text_position(engine.policy_kinds, kind);
    if at < engine.policy_kinds.len() {
        EngineView { policy_values: engine.policy_values.update(at, policy), ..engine }
    } else {
        EngineView {
            policy_kinds: engine.policy_kinds.push(kind),
            policy_values: engine.policy_values.push(policy),
            ..engine
        }
    }
}

/// After a policy is registered for a kind it is the policy of that kind, and the policy
/// of every other kind is what it was.
pub proof fn law_registered_policy_applies(engine: EngineView, kind: Seq<char>, policy: TaskPolicy)
    requires
        engine.policy_kinds.len() == engine.policy_values.len(),
    ensures
        engine_policy(with_policy(engine, kind, policy), kind) == policy,
        forall|other: Seq<char>|
            other != kind ==> #[trigger] engine_policy(with_policy(engine, kind, policy), other)
                == engine_policy(engine, other),
{
    let kinds = engine.policy_kinds;
    let at = text_position(kinds, kind);
    lemma_text_position(kinds, kind);
    if at < kinds.len() {
        assert forall|other: Seq<char>| other != kind implies #[trigger] engine_policy(
            with_policy(engine, kind, policy),
            other,
        ) == engine_policy(engine, other) by {
            lemma_text_position(kinds, other);
        }
    } else {
        let grown = kinds.push(kind);
        assert forall|j: int| 0 <= j < kinds.len() implies #[trigger] grown[j] != kind by {
            assert(grown[j] == kinds[j]);
        }
        lemma_text_position_is(grown, kind, kinds.len() as int);
        assert forall|other: Seq<char>| other != kind implies #[trigger] engine_policy(
            with_policy(engine, kind, policy),
            other,
        ) == engine_policy(engine, other) by {
            lemma_text_position(kinds, other);
            let p = text_position(kinds, other);
            assert forall|j: int| 0 <= j < p implies #[trigger] grown[j] != other by {
                assert(grown[j] == kinds[j]);
            }
            if p < kinds.len() {
                assert(grown[p] == kinds[p]);
                lemma_text_position_is(grown, other, p);
            } else {
                lemma_text_position_is(grown, other, grown.len() as int);
            }
        }
    }
}

/// The engine as it starts: first in first out, no policies, no runs, no leases.
pub open spec fn fresh_engine() -> EngineView {
    EngineView {
        scheduler: SchedulerStrategy::Fifo,
        policy_kinds: Seq::empty(),
        policy_values: Seq::empty(),
        runs: Seq::empty(),
        leases: Seq::empty(),
        lease_counts: Seq::empty(),
        last_kind: None,
    }
}

/// The orchestration engine.
pub struct OrchestrationEngine {
    scheduler: SchedulerStrategy,
    policy_kinds: Vec<String>,
    policy_values: Vec<TaskPolicy>,
    workflow_runs: Vec<WorkflowRunState>,
    lease_states: Vec<LeaseState>,
    lease_counts: Vec<LeaseCount>,
    last_kind: Option<String>,
}

impl View for OrchestrationEngine {
    type V = EngineView;

    closed spec fn view(&self) -> EngineView {
        EngineView {
            scheduler: self.scheduler,
            policy_kinds: self.policy_kinds.deep_view(),
            policy_values: self.policy_values@,
            runs: self.workflow_runs.deep_view(),
            leases: self.lease_states.deep_view(),
            lease_counts: self.lease_counts.deep_view(),
            last_kind: self.last_kind.deep_view(),
        }
    }
}

impl OrchestrationEngine {
    /// Whether the engine is well formed.
    pub open spec fn wf(&self) -> bool {
        engine_wf(self@)
    }

    /// A new engine.
    pub fn new() -> (engine: Self)
        ensures
            engine.wf(),
            engine@ == fresh_engine(),
    {
        let engine = OrchestrationEngine {
            scheduler: SchedulerStrategy::Fifo,
            policy_kinds: Vec::new(),
            policy_values: Vec::new(),
            workflow_runs: Vec::new(),
            lease_states: Vec::new(),
            lease_counts: Vec::new(),
            last_kind: None,
        };
        assert(engine.policy_kinds.deep_view() =~= Seq::empty());
        assert(engine.policy_values@ =~= Seq::empty());
        assert(engine.workflow_runs.deep_view() =~= Seq::empty());
        assert(engine.lease_states.deep_view() =~= Seq::empty());
        assert(engine.lease_counts.deep_view() =~= Seq::empty());
        engine
    }

    /// Changes the strategy; the kind dispatched last is forgotten.
    pub fn set_scheduler_strategy(&mut self, strategy: SchedulerStrategy)
        requires
            old(self).wf(),
        ensures
            final(self).wf(),
            final(self)@ == (EngineView { scheduler: strategy, last_kind: None, ..old(self)@ }),
    {
        self.last_kind = None;
        self.scheduler = strategy;
    }

    /// Registers the policy of a task kind, in the place of the one it had.
    pub fn register_task_policy(&mut self, kind: &str, policy: TaskPolicy)
        requires
            old(self).wf(),
        ensures
            final(self).wf(),
            final(self)@ == with_policy(old(self)@, kind@, policy),
    {
        match find_text(&self.policy_kinds, kind) {
            Some(at) => {
                self.policy_values.set(at, policy);
            },
            None => {
                let ghost kinds = self.policy_kinds.deep_view();
                self.policy_kinds.push(String::from_str(kind));
                self.policy_values.push(policy);
                assert(self.policy_kinds.deep_view() =~= kinds.push(kind@));
            },
        }
    }

    /// The policy of a task kind.
    pub fn task_policy(&self, kind: &str) -> (policy: TaskPolicy)
        requires
            self.wf(),
        ensures
            policy == engine_policy(self@, kind@),
    {
        match find_text(&self.policy_kinds, kind) {
            Some(at) => self.policy_values[at],
            None => TaskPolicy::default(),
        }
    }

    /// The run with identifier `run_id`, while it is active: a run that is returned is
    /// pending or running and has no instant of completion. A run that has finished is
    /// not in the index and is not returned.
    pub fn get_workflow_run(&self, run_id: u128) -> (run: Option<WorkflowRun>)
        ensures
            run.deep_view() == match lookup::<WorkflowRunState>(self@.runs, run_id) {
                Some(state) => Some(state.run),
                None => None,
            },
            self.wf() ==> (run matches Some(found) ==> found.id == run_id && !terminal(
                found.deep_view().status,
            ) && found.completed_at is None),
    {
        match find(&self.workflow_runs, run_id) {
            Some(at) => {
                assert(self.workflow_runs.deep_view()[at as int]
                    == self.workflow_runs@[at as int].deep_view());
                proof {
                    lemma_position::<WorkflowRunState>(self.workflow_runs.deep_view(), run_id);
                }
                Some(self.workflow_runs[at].run.clone())
            },
            None => None,
        }
    }

    /// The lease on a task, while it is leased.
    pub fn lease_state(&self, task_id: u128) -> (lease: Option<LeaseState>)
        ensures
            lease == lookup::<LeaseState>(self@.leases, task_id),
    {
        fetch(&self.lease_states, task_id)
    }

    /// The highest version of a lease that was handed out for a task so far; zero for a
    /// task that was never leased.
    pub fn lease_version(&self, task_id: u128) -> (version: u64)
        ensures
            version == handed(self@, task_id),
    {
        match fetch(&self.lease_counts, task_id) {
            Some(count) => count.version,
            None => 0,
        }
    }

    /// The number of steps of the run that a task belongs to.
    fn count_steps_at_stake(&self, store: &InMemoryPersistence, task_id: u128) -> (steps: usize)
        ensures
            steps == steps_at_stake(self@, store@, task_id),
    {
        let task = match store.get_task(task_id) {
            Ok(Some(task)) => task,
            _ => {
                return 0;
            },
        };
        let ctx = match workflow_context(&task) {
            Some(ctx) => ctx,
            None => {
                return 0;
            },
        };
        match find(&self.workflow_runs, ctx.run_id) {
            Some(at) => {
                assert(self.workflow_runs.deep_view()[at as int]
                    == self.workflow_runs@[at as int].deep_view());
                self.workflow_runs[at].slots.len()
            },
            None => 0,
        }
    }

    fn clear_lease(&mut self, task_id: u128)
        requires
            old(self).wf(),
        ensures
            final(self).wf(),
            final(self)@ == (EngineView {
                leases: without::<LeaseState>(old(self)@.leases, task_id),
                ..old(self)@
            }),
    {
        proof {
            lemma_without::<LeaseState>(self.lease_states.deep_view(), task_id);
        }
        remove_row(&mut self.lease_states, task_id);
    }

    fn task_goes_before(&self, a: &Task, b: &Task) -> (r: bool)
        requires
            self.wf(),
        ensures
            r == goes_before(
                self@.scheduler,
                self@.policy_kinds,
                self@.policy_values,
                a.deep_view(),
                b.deep_view(),
            ),
    {
        match self.scheduler {
            SchedulerStrategy::Priority => {
                let pa = self.task_policy(a.kind.as_str()).priority;
                let pb = self.task_policy(b.kind.as_str()).priority;
                pa < pb || (pa == pb && a.scheduled_at < b.scheduled_at)
            },
            _ => a.scheduled_at < b.scheduled_at,
        }
    }

    fn is_eligible(&self, task: &Task) -> (r: bool)
        ensures
            r == eligible(self@.scheduler, self@.last_kind, task.deep_view()),
    {
        match self.scheduler {
            SchedulerStrategy::FairnessByKind => match &self.last_kind {
                Some(kind) => !same_text(task.kind.as_str(), kind.as_str()),
                None => true,
            },
            _ => true,
        }
    }

    fn is_admitted(&self, task: &Task, restrict: bool) -> (r: bool)
        ensures
            r == admitted(self@.scheduler, self@.last_kind, restrict, task.deep_view()),
    {
        if restrict {
            self.is_eligible(task)
        } else {
            true
        }
    }

    /// The first of the best admitted tasks, if a task is admitted.
    fn best_of(&self, pending: &Vec<Task>, restrict: bool) -> (found: Option<usize>)
        requires
            self.wf(),
        ensures
            match found {
                Some(at) => at < pending.len() && first_best(
                    self@.scheduler,
                    self@.policy_kinds,
                    self@.policy_values,
                    self@.last_kind,
                    restrict,
                    pending.deep_view(),
                    at as int,
                ),
                None => forall|j: int|
                    0 <= j < pending.len() ==> !admitted(
                        self@.scheduler,
                        self@.last_kind,
                        restrict,
                        #[trigger] pending.deep_view()[j],
                    ),
            },
    {
        let ghost tasks = pending.deep_view();
        let mut best: Option<usize> = None;
        let mut i: usize = 0;
        while i < pending.len()
            invariant
                i <= pending.len(),
                self.wf(),
                tasks == pending.deep_view(),
                match best {
                    Some(at) => {
                        &&& at < i
                        &&& admitted(self@.scheduler, self@.last_kind, restrict, tasks[at as int])
                        &&& forall|j: int|
                            0 <= j < i && admitted(
                                self@.scheduler,
                                self@.last_kind,
                                restrict,
                                #[trigger] tasks[j],
                            ) ==> !goes_before(
                                self@.scheduler,
                                self@.policy_kinds,
                                self@.policy_values,
                                tasks[j],
                                tasks[at as int],
                            )
                        &&& forall|j: int|
                            0 <= j < at && admitted(
                                self@.scheduler,
                                self@.last_kind,
                                restrict,
                                #[trigger] tasks[j],
                            ) ==> goes_before(
                                self@.scheduler,
                                self@.policy_kinds,
                                self@.policy_values,
                                tasks[at as int],
                                tasks[j],
                            )
                    },
                    None => forall|j: int|
                        0 <= j < i ==> !admitted(
                            self@.scheduler,
                            self@.last_kind,
                            restrict,
                            #[trigger] tasks[j],
                        ),
                },
            decreases pending.len() - i,
        {
            assert(tasks[i as int] == pending@[i as int].deep_view());
            if self.is_admitted(&pending[i], restrict) {
                match best {
                    Some(at) => {
                        assert(tasks[at as int] == pending@[at as int].deep_view());
                        if self.task_goes_before(&pending[i], &pending[at]) {
                            best = Some(i);
                        }
                    },
                    None => {
                        best = Some(i);
                    },
                }
            }
            i = i + 1;
        }
        best
    }

    /// Chooses the next task under the strategy, and notes its kind where the strategy
    /// is fairness by kind.
    fn select_task(&mut self, pending: &Vec<Task>) -> (found: Option<usize>)
        requires
            old(self).wf(),
        ensures
            final(self).wf(),
            match found {
                Some(at) => {
                    &&& at < pending.len()
                    &&& chosen(
                        old(self)@.scheduler,
                        old(self)@.policy_kinds,
                        old(self)@.policy_values,
                        old(self)@.last_kind,
                        pending.deep_view(),
                        at as int,
                    )
                    &&& final(self)@ == (EngineView {
                        last_kind: last_kind_after(old(self)@, pending.deep_view()[at as int].kind),
                        ..old(self)@
                    })
                },
                None => pending.len() == 0 && final(self)@ == old(self)@,
            },
    {
        if pending.len() == 0 {
            return None;
        }
        let ghost tasks = pending.deep_view();
        let preferred = self.best_of(pending, true);
        let found = match preferred {
            Some(at) => {
                assert(eligible(self@.scheduler, self@.last_kind, tasks[at as int]));
                Some(at)
            },
            None => {
                assert(!some_eligible(self@.scheduler, self@.last_kind, tasks));
                let any = self.best_of(pending, false);
                assert(admitted(self@.scheduler, self@.last_kind, false, tasks[0]));
                any
            },
        };
        match found {
            Some(at) => {
                assert(tasks[at as int] == pending@[at as int].deep_view());
                match self.scheduler {
                    SchedulerStrategy::FairnessByKind => {
                        self.last_kind = Some(pending[at].kind.clone());
                    },
                    _ => {},
                }
            },
            None => {},
        }
        found
    }
}

impl OrchestrationEngine {
    /// Enqueues a task under the identifier `id`, scheduled for `now`.
    pub fn schedule_task_with(
        &self,
        store: &mut InMemoryPersistence,
        request: TaskRequest,
        id: u128,
        now: Timestamp,
    ) -> (r: PlatformResult<Task>)
        requires
            self.wf(),
            old(store).wf(),
        ensures
            final(store).wf(),
            schedule_task_post(
                self@,
                old(store)@,
                new_task(
                    request.tenant_id,
                    request.kind@,
                    request.payload.deep_view(),
                    engine_policy(self@, request.kind@).timeouts,
                    id,
                    now,
                ),
                final(store)@,
                result_view(r),
            ),
    {
        let policy = self.task_policy(request.kind.as_str());
        let task = Task {
            id,
            tenant_id: request.tenant_id,
            kind: request.kind,
            payload: request.payload,
            status: TaskStatus::Pending,
            attempts: 0,
            scheduled_at: now,
            started_at: None,
            completed_at: None,
            last_error: None,
            result: None,
            timeouts: policy.timeouts,
        };
        match store.enqueue_task(task.clone()) {
            Ok(()) => Ok(task),
            Err(e) => Err(e),
        }
    }

    /// Creates a pending task, never attempted, scheduled for now, with the timeouts that
    /// the policy of its kind registers. `Conflict("task")` where the fresh identifier is
    /// taken.
    pub fn schedule_task(&self, store: &mut InMemoryPersistence, request: TaskRequest) -> (r:
        PlatformResult<Task>)
        requires
            self.wf(),
            old(store).wf(),
        ensures
            final(store).wf(),
            exists|id: u128, now: Timestamp| #[trigger]
                schedule_task_post(
                    self@,
                    old(store)@,
                    new_task(
                        request.tenant_id,
                        request.kind@,
                        request.payload.deep_view(),
                        engine_policy(self@, request.kind@).timeouts,
                        id,
                        now,
                    ),
                    final(store)@,
                    result_view(r),
                ),
    {
        let id = random_id();
        let now = now_millis();
        self.schedule_task_with(store, request, id, now)
    }

    /// Dispatches `steps` of a run as tasks, in order, until all are enqueued or the
    /// identifier drawn for one is taken. Returns the tasks enqueued and whether all were.
    fn fan_out(
        &self,
        store: &mut InMemoryPersistence,
        run: &WorkflowRun,
        input: &JsonValue,
        steps: &Vec<WorkflowStep>,
        ids: &Vec<u128>,
        now: Timestamp,
    ) -> (out: (Vec<Task>, bool))
        requires
            self.wf(),
            old(store).wf(),
        ensures
            final(store).wf(),
            out.0.len() <= steps.len(),
            out.1 == (out.0.len() == steps.len()),
            fanned_out(
                self@,
                run.deep_view(),
                input.deep_view(),
                steps.deep_view().take(out.0.len() as int),
                ids@,
                now,
                out.0.deep_view(),
            ),
            final(store)@ == enqueued_all(old(store)@, out.0.deep_view()),
            fan_stopped(final(store)@, ids@, out.0.deep_view(), steps.len() as int),
    {
        let mut tasks: Vec<Task> = Vec::new();
        let mut i: usize = 0;
        proof {
            assert(tasks.deep_view() =~= Seq::empty());

        }
        while i < steps.len()
            invariant
                i <= steps.len(),
                tasks.len() == i,
                self.wf(),
                store.wf(),
                fanned_out(
                    self@,
                    run.deep_view(),
                    input.deep_view(),
                    steps.deep_view().take(i as int),
                    ids@,
                    now,
                    tasks.deep_view(),
                ),
                store@ == enqueued_all(old(store)@, tasks.deep_view()),
            decreases steps.len() - i,
        {
            if i >= ids.len() {
                return (tasks, false);
            }
            let payload = step_payload_value(run.workflow_id, run.id, steps[i].id, input);
            let request = TaskRequest {
                tenant_id: run.tenant_id,
                kind: steps[i].task_kind.clone(),
                payload,
            };
            let id = ids[i];
            let ghost before = tasks.deep_view();
            let ghost stored = store@;
            match self.schedule_task_with(store, request, id, now) {
                Ok(task) => {
                    let ghost added = task.deep_view();
                    tasks.push(task);
                    proof {
                        let views = steps.deep_view();
                        let grown = tasks.deep_view();
                        assert(grown =~= before.push(added));
                        assert(views[i as int] == steps@[i as int].deep_view());
                        assert forall|k: int| 0 <= k < grown.len() implies #[trigger] grown[k]
                            == step_task(
                            self@,
                            run.deep_view(),
                            input.deep_view(),
                            views.take(i + 1)[k],
                            ids@[k],
                            now,
                        ) by {
                            if k < i {
                                assert(grown[k] == before[k]);
                                assert(views.take(i + 1)[k] == views.take(i as int)[k]);
                            }
                        }
                        assert(grown.drop_last() =~= before);
                        assert(grown.last() == added);
                    }
                },
                Err(_) => {
                    assert(present::<Task>(store@.tasks, id));
                    return (tasks, false);
                },
            }
            i = i + 1;
        }
        (tasks, true)
    }

    /// Drives the run of a settled task on. Returns the tasks dispatched and whether all
    /// that were due were enqueued.
    fn handle_task_outcome(
        &mut self,
        store: &mut InMemoryPersistence,
        task: &Task,
        success: bool,
        ids: &Vec<u128>,
        now: Timestamp,
    ) -> (out: (Vec<Task>, bool))
        requires
            old(self).wf(),
            old(store).wf(),
        ensures
            final(self).wf(),
            final(store).wf(),
            outcome_handled(
                old(self)@,
                old(store)@,
                task.payload.deep_view(),
                success,
                ids@,
                now,
                final(self)@,
                final(store)@,
                out.0.deep_view(),
                out.1,
            ),
    {
        let nothing: Vec<Task> = Vec::new();
        assert(nothing.deep_view() =~= Seq::empty());
        let ctx = match workflow_context(task) {
            Some(ctx) => ctx,
            None => {

                return (nothing, true);
            },
        };
        let at = match find(&self.workflow_runs, ctx.run_id) {
            Some(at) => at,
            None => {
                return (nothing, true);
            },
        };
        let ghost runs = self.workflow_runs.deep_view();
        let ghost state0 = runs[at as int];
        proof {
            assert(state0 == self.workflow_runs@[at as int].deep_view());
            lemma_position::<WorkflowRunState>(runs, ctx.run_id);
            lemma_marked(state0, ctx.step_id, success, now);
        }
        let mut state = self.workflow_runs[at].clone();
        state.mark_step_outcome(ctx.step_id, success, now);
        let ghost seen = state.deep_view();
        let finished = is_terminal(state.run.status);
        let run = state.run.clone();
        let ready = state.pop_ready_steps();
        proof {
            if finished {
                lemma_resolved_none_ready(seen.slots, seen.completed_kinds, seen.failed_kinds);
            }
        }
        let (spawned, ok) = self.fan_out(store, &run, &run.context, &ready, ids, now);
        proof {
            assert(ready.deep_view().take(ready.len() as int) =~= ready.deep_view());
        }
        if ok && finished {
            proof {
                lemma_without::<WorkflowRunState>(runs, ctx.run_id);
                let rest = without::<WorkflowRunState>(runs, ctx.run_id);
                assert forall|i: int| 0 <= i < rest.len() implies !terminal(
                    (#[trigger] rest[i]).run.status,
                ) by {
                    let a = if i < at { i } else { i + 1 };
                    assert(rest[i] == runs[a]);
                }
            }
            remove_row(&mut self.workflow_runs, ctx.run_id);
        } else {
            proof {
                lemma_replaced::<WorkflowRunState>(runs, state.deep_view());
                let changed = replaced::<WorkflowRunState>(runs, state.deep_view());
                assert forall|i: int| 0 <= i < changed.len() implies !terminal(
                    (#[trigger] changed[i]).run.status,
                ) by {
                    if i != at {
                        assert(changed[i] == runs[i]);
                    }
                }
            }
            set_row(&mut self.workflow_runs, at, state);
        }
        (spawned, ok)
    }
}

/// What registering a workflow does under the identifier `id` at `now`: a workflow
/// without steps is invalid input, a taken identifier a conflict; else the workflow is
/// stored and returned.
pub open spec fn register_workflow_post(
    s0: StoreView,
    workflow: WorkflowView,
    s1: StoreView,
    r: PlatformResult<WorkflowView>,
) -> bool {
    if workflow.steps.len() == 0 {
        r == Err::<WorkflowView, PlatformError>(
            PlatformError::InvalidInput("workflow steps required"),
        ) && s1 == s0
    } else if present::<Workflow>(s0.workflows, workflow.id) {
        r == Err::<WorkflowView, PlatformError>(PlatformError::Conflict("workflow")) && s1 == s0
    } else {
        r == Ok::<WorkflowView, PlatformError>(workflow) && s1 == (StoreView {
            workflows: s0.workflows.push(workflow),
            ..s0
        })
    }
}

impl OrchestrationEngine {
    /// Stores a workflow under the identifier `id`, created at `now`.
    pub fn register_workflow_with(
        &self,
        store: &mut InMemoryPersistence,
        tenant_id: u128,
        name: &str,
        steps: Vec<WorkflowStep>,
        id: u128,
        now: Timestamp,
    ) -> (r: PlatformResult<Workflow>)
        requires
            old(store).wf(),
        ensures
            final(store).wf(),
            register_workflow_post(
                old(store)@,
                WorkflowView {
                    id,
                    tenant_id,
                    name: name@,
                    steps: steps.deep_view(),
                    created_at: now,
                },
                final(store)@,
                result_view(r),
            ),
    {
        if steps.len() == 0 {
            return Err(PlatformError::InvalidInput("workflow steps required"));
        }
        let workflow = Workflow {
            id,
            tenant_id,
            name: String::from_str(name),
            steps,
            created_at: now,
        };
        match store.insert_workflow(workflow.clone()) {
            Ok(()) => Ok(workflow),
            Err(e) => Err(e),
        }
    }

    /// Registers a workflow of the tenant. A workflow needs at least one step.
    pub fn register_workflow(
        &self,
        store: &mut InMemoryPersistence,
        tenant_id: u128,
        name: &str,
        steps: Vec<WorkflowStep>,
    ) -> (r: PlatformResult<Workflow>)
        requires
            old(store).wf(),
        ensures
            final(store).wf(),
            exists|id: u128, now: Timestamp| #[trigger]
                register_workflow_post(
                    old(store)@,
                    WorkflowView {
                        id,
                        tenant_id,
                        name: name@,
                        steps: steps.deep_view(),
                        created_at: now,
                    },
                    final(store)@,
                    result_view(r),
                ),
    {
        let id = random_id();
        let now = now_millis();
        self.register_workflow_with(store, tenant_id, name, steps, id, now)
    }

    /// Starts a run of a workflow under the identifier `run_id` at `now`; the tasks of the
    /// steps that are ready go by the identifiers `ids`, in their order.
    pub fn schedule_workflow_with(
        &mut self,
        store: &mut InMemoryPersistence,
        workflow_id: u128,
        tenant_id: u128,
        initial_payload: JsonValue,
        run_id: u128,
        ids: &Vec<u128>,
        now: Timestamp,
    ) -> (r: PlatformResult<Vec<Task>>)
        requires
            old(self).wf(),
            old(store).wf(),
        ensures
            final(self).wf(),
            final(store).wf(),
            schedule_workflow_post(
                old(self)@,
                old(store)@,
                workflow_id,
                tenant_id,
                initial_payload.deep_view(),
                run_id,
                ids@,
                now,
                final(self)@,
                final(store)@,
                result_view(r),
            ),
    {
        let workflow = match store.get_workflow(workflow_id) {
            Ok(Some(workflow)) => workflow,
            Ok(None) => {
                return Err(PlatformError::NotFound("workflow"));
            },
            Err(e) => {
                return Err(e);
            },
        };
        if workflow.tenant_id != tenant_id {
            return Err(PlatformError::Forbidden);
        }
        proof {
            lemma_position::<Workflow>(store@.workflows, workflow_id);
        }
        let run = WorkflowRun {
            id: run_id,
            tenant_id,
            workflow_id: workflow.id,
            status: WorkflowRunStatus::Running,
            current_step: None,
            created_at: now,
            updated_at: now,
            started_at: Some(now),
            completed_at: None,
            context: initial_payload.clone(),
        };
        let mut state = WorkflowRunState::new(run.clone(), &workflow.steps);
        let ready = state.pop_ready_steps();
        let (scheduled, ok) = self.fan_out(store, &run, &initial_payload, &ready, ids, now);
        if !ok {
            return Err(PlatformError::Conflict("task"));
        }
        proof {
            assert(ready.deep_view().take(ready.len() as int) =~= ready.deep_view());
        }
        if scheduled.len() == 0 {
            state.run.status = WorkflowRunStatus::Pending;
        }
        proof {
            let runs = self.workflow_runs.deep_view();
            lemma_put::<WorkflowRunState>(runs, state.deep_view());
            let changed = put::<WorkflowRunState>(runs, state.deep_view());
            lemma_position::<WorkflowRunState>(runs, run_id);
            assert forall|i: int| 0 <= i < changed.len() implies !terminal(
                (#[trigger] changed[i]).run.status,
            ) by {
                if i < runs.len() && changed[i] != state.deep_view() {
                    assert(changed[i] == runs[i]);
                }
            }
        }
        put_row(&mut self.workflow_runs, state);
        Ok(scheduled)
    }

    /// Starts a run of a workflow: verifies that the workflow is the tenant's, dispatches
    /// the steps that are ready at once, and returns their tasks. `Forbidden` where the
    /// workflow belongs to another tenant.
    pub fn schedule_workflow(
        &mut self,
        store: &mut InMemoryPersistence,
        workflow_id: u128,
        tenant_id: u128,
        initial_payload: JsonValue,
    ) -> (r: PlatformResult<Vec<Task>>)
        requires
            old(self).wf(),
            old(store).wf(),
        ensures
            final(self).wf(),
            final(store).wf(),
            exists|run_id: u128, ids: Seq<u128>, now: Timestamp|
                ids.len() == workflow_steps(old(store)@, workflow_id)
                    && #[trigger] schedule_workflow_post(
                    old(self)@,
                    old(store)@,
                    workflow_id,
                    tenant_id,
                    initial_payload.deep_view(),
                    run_id,
                    ids,
                    now,
                    final(self)@,
                    final(store)@,
                    result_view(r),
                ),
    {
        let steps = match store.get_workflow(workflow_id) {
            Ok(Some(workflow)) => workflow.steps.len(),
            _ => 0,
        };
        let run_id = random_id();
        let ids = draw_ids(steps);
        let now = now_millis();
        self.schedule_workflow_with(store, workflow_id, tenant_id, initial_payload, run_id, &ids, now)
    }

    /// Leases the next task of a tenant to a worker at `now`, under the token `token`.
    pub fn lease_next_task_with(
        &mut self,
        store: &mut InMemoryPersistence,
        tenant_id: u128,
        worker_id: u128,
        lease_ttl: Millis,
        now: Timestamp,
        token: u128,
    ) -> (r: PlatformResult<Option<TaskLease>>)
        requires
            old(self).wf(),
            old(store).wf(),
        ensures
            final(self).wf(),
            final(store).wf(),
            lease_post(
                old(self)@,
                old(store)@,
                tenant_id,
                worker_id,
                lease_ttl,
                now,
                token,
                final(self)@,
                final(store)@,
                result_view(r),
            ),
    {
        let pending = match store.list_pending_tasks(tenant_id) {
            Ok(pending) => pending,
            Err(e) => {
                return Err(e);
            },
        };
        let ghost listing = pending.deep_view();
        let at = match self.select_task(&pending) {
            Some(at) => at,
            None => {
                return Ok(None);
            },
        };
        let ghost choice = listing[at as int];
        proof {
            broadcast use vstd::seq_lib::group_to_multiset_ensures;

            assert(choice == pending@[at as int].deep_view());
            let due = pending_of(store@.tasks, tenant_id);
            lemma_arranged::<Task>(due);
            lemma_pending_of(store@.tasks, tenant_id);
            assert(listing.to_multiset().count(choice) > 0);
            assert(due.contains(choice));
            assert(store@.tasks.contains(choice));
            lemma_contains_present::<Task>(store@.tasks, choice);
        }
        let mut task = pending[at].clone();
        let before = self.lease_version(task.id);
        if before == u64::MAX {
            return Err(PlatformError::Internal("lease version exhausted"));
        }
        let version: u64 = before + 1;
        task.status = TaskStatus::InProgress;
        task.started_at = Some(now);
        match store.update_task(task.clone()) {
            Ok(()) => {},
            Err(e) => {
                return Err(e);
            },
        }
        let window = match task.timeouts {
            Some(timeouts) => match timeouts.lease_seconds {
                Some(secs) => span_of_seconds(secs),
                None => lease_ttl,
            },
            None => lease_ttl,
        };
        let lease_state = LeaseState {
            task_id: task.id,
            version,
            token,
            worker_id,
            leased_at: now,
            lease_expires_at: after(now, window),
        };
        let count = LeaseCount { task_id: task.id, version };
        proof {
            lemma_put::<LeaseState>(self.lease_states.deep_view(), lease_state);
            lemma_put::<LeaseCount>(self.lease_counts.deep_view(), count);
        }
        put_row(&mut self.lease_states, lease_state);
        put_row(&mut self.lease_counts, count);
        let lease = TaskLease {
            task,
            worker_id,
            leased_at: now,
            lease_expires_at: lease_state.lease_expires_at,
            lease_version: version,
            lease_token: token,
        };
        proof {
            assert(lease_of_choice(
                old(self)@,
                old(store)@,
                choice,
                worker_id,
                lease_ttl,
                now,
                token,
                self@,
                store@,
                result_view(Ok::<Option<TaskLease>, PlatformError>(Some(lease))),
            ));
        }
        Ok(Some(lease))
    }

    /// Selects the next pending task of the tenant under the active strategy, sets it in
    /// progress and leases it to the worker. Returns no lease where nothing is pending.
    pub fn lease_next_task(
        &mut self,
        store: &mut InMemoryPersistence,
        tenant_id: u128,
        worker_id: u128,
        lease_ttl: Millis,
    ) -> (r: PlatformResult<Option<TaskLease>>)
        requires
            old(self).wf(),
            old(store).wf(),
        ensures
            final(self).wf(),
            final(store).wf(),
            exists|now: Timestamp, token: u128| #[trigger]
                lease_post(
                    old(self)@,
                    old(store)@,
                    tenant_id,
                    worker_id,
                    lease_ttl,
                    now,
                    token,
                    final(self)@,
                    final(store)@,
                    result_view(r),
                ),
    {
        let now = now_millis();
        let token = random_id();
        self.lease_next_task_with(store, tenant_id, worker_id, lease_ttl, now, token)
    }

    /// Renews the lease on a task at `now`.
    pub fn renew_task_lease_with(
        &mut self,
        store: &InMemoryPersistence,
        task_id: u128,
        worker_id: u128,
        lease_token: u128,
        extend_by: Millis,
        now: Timestamp,
    ) -> (r: PlatformResult<TaskLease>)
        requires
            old(self).wf(),
        ensures
            final(self).wf(),
            renew_post(
                old(self)@,
                store@,
                task_id,
                worker_id,
                lease_token,
                extend_by,
                now,
                final(self)@,
                result_view(r),
            ),
    {
        let at = match find(&self.lease_states, task_id) {
            Some(at) => at,
            None => {
                return Err(PlatformError::InvalidInput("lease not found"));
            },
        };
        let lease = self.lease_states[at];
        proof {
            assert(self.lease_states.deep_view()[at as int] == lease);
            lemma_position::<LeaseState>(self.lease_states.deep_view(), task_id);
        }
        if lease.worker_id != worker_id {
            return Err(PlatformError::InvalidInput("worker mismatch"));
        }
        if lease.token != lease_token {
            return Err(PlatformError::InvalidInput("invalid lease token"));
        }
        if lease.lease_expires_at < now {
            return Err(PlatformError::InvalidInput("lease expired"));
        }
        if lease.version == u64::MAX {
            return Err(PlatformError::Internal("lease version exhausted"));
        }
        let renewed = LeaseState {
            task_id: lease.task_id,
            version: lease.version + 1,
            token: lease.token,
            worker_id: lease.worker_id,
            leased_at: lease.leased_at,
            lease_expires_at: after(lease.lease_expires_at, extend_by),
        };
        let count = LeaseCount { task_id, version: renewed.version };
        proof {
            lemma_replaced::<LeaseState>(self.lease_states.deep_view(), renewed);
            lemma_put::<LeaseCount>(self.lease_counts.deep_view(), count);
        }
        set_row(&mut self.lease_states, at, renewed);
        put_row(&mut self.lease_counts, count);
        let task = match store.get_task(task_id) {
            Ok(Some(task)) => task,
            Ok(None) => {
                return Err(PlatformError::NotFound("task"));
            },
            Err(e) => {
                return Err(e);
            },
        };
        Ok(
            TaskLease {
                task,
                worker_id: renewed.worker_id,
                leased_at: renewed.leased_at,
                lease_expires_at: renewed.lease_expires_at,
                lease_version: renewed.version,
                lease_token: renewed.token,
            },
        )
    }

    /// Renews the lease on a task: one version on, expiring `extend_by` later. The lease
    /// must be held by the worker under the token and must not have expired.
    pub fn renew_task_lease(
        &mut self,
        store: &InMemoryPersistence,
        task_id: u128,
        worker_id: u128,
        lease_token: u128,
        extend_by: Millis,
    ) -> (r: PlatformResult<TaskLease>)
        requires
            old(self).wf(),
        ensures
            final(self).wf(),
            exists|now: Timestamp| #[trigger]
                renew_post(
                    old(self)@,
                    store@,
                    task_id,
                    worker_id,
                    lease_token,
                    extend_by,
                    now,
                    final(self)@,
                    result_view(r),
                ),
    {
        let now = now_millis();
        self.renew_task_lease_with(store, task_id, worker_id, lease_token, extend_by, now)
    }

    /// Settles a task as `done`: stores it, drops its lease and drives its run on.
    fn settle(
        &mut self,
        store: &mut InMemoryPersistence,
        done: Task,
        success: bool,
        ids: &Vec<u128>,
        now: Timestamp,
    ) -> (r: PlatformResult<Task>)
        requires
            old(self).wf(),
            old(store).wf(),
            present::<Task>(old(store)@.tasks, done.id),
        ensures
            final(self).wf(),
            final(store).wf(),
            settled(
                old(self)@,
                old(store)@,
                done.deep_view(),
                success,
                ids@,
                now,
                final(self)@,
                final(store)@,
                result_view(r),
            ),
    {
        match store.update_task(done.clone()) {
            Ok(()) => {},
            Err(e) => {
                return Err(e);
            },
        }
        self.clear_lease(done.id);
        let (spawned, ok) = self.handle_task_outcome(store, &done, success, ids, now);
        let r = if ok {
            Ok(done)
        } else {
            Err(PlatformError::Conflict("task"))
        };
        proof {
            let stored = task_updated(old(store)@, done.deep_view());
            let released = EngineView {
                leases: without::<LeaseState>(old(self)@.leases, done.id),
                ..old(self)@
            };
            assert(outcome_handled(
                released,
                stored,
                done.deep_view().payload,
                success,
                ids@,
                now,
                self@,
                store@,
                spawned.deep_view(),
                result_view(r) is Ok,
            ));
        }
        r
    }

    /// Completes a task at `now`; the tasks of the steps that its outcome makes ready go
    /// by the identifiers `ids`, in their order.
    pub fn complete_task_with(
        &mut self,
        store: &mut InMemoryPersistence,
        task_id: u128,
        result: Option<JsonValue>,
        ids: &Vec<u128>,
        now: Timestamp,
    ) -> (r: PlatformResult<Task>)
        requires
            old(self).wf(),
            old(store).wf(),
        ensures
            final(self).wf(),
            final(store).wf(),
            complete_post(
                old(self)@,
                old(store)@,
                task_id,
                result.deep_view(),
                ids@,
                now,
                final(self)@,
                final(store)@,
                result_view(r),
            ),
    {
        let mut task = match store.get_task(task_id) {
            Ok(Some(task)) => task,
            Ok(None) => {
                return Err(PlatformError::NotFound("task"));
            },
            Err(e) => {
                return Err(e);
            },
        };
        proof {
            lemma_position::<Task>(store@.tasks, task_id);
        }
        task.status = TaskStatus::Completed;
        task.completed_at = Some(now);
        task.result = result;
        self.settle(store, task, true, ids, now)
    }

    /// Sets a task completed, now, with its result; clears its lease; and drives the
    /// workflow run that owns it.
    pub fn complete_task(
        &mut self,
        store: &mut InMemoryPersistence,
        task_id: u128,
        result: Option<JsonValue>,
    ) -> (r: PlatformResult<Task>)
        requires
            old(self).wf(),
            old(store).wf(),
        ensures
            final(self).wf(),
            final(store).wf(),
            exists|ids: Seq<u128>, now: Timestamp|
                ids.len() == steps_at_stake(old(self)@, old(store)@, task_id)
                    && #[trigger] complete_post(
                    old(self)@,
                    old(store)@,
                    task_id,
                    result.deep_view(),
                    ids,
                    now,
                    final(self)@,
                    final(store)@,
                    result_view(r),
                ),
    {
        let ids = draw_ids(self.count_steps_at_stake(store, task_id));
        let now = now_millis();
        self.complete_task_with(store, task_id, result, &ids, now)
    }

    /// Fails a task at `now`; the tasks of the steps that its outcome makes ready go by
    /// the identifiers `ids`, in their order.
    pub fn fail_task_with(
        &mut self,
        store: &mut InMemoryPersistence,
        task_id: u128,
        error: &str,
        retry: bool,
        ids: &Vec<u128>,
        now: Timestamp,
    ) -> (r: PlatformResult<Task>)
        requires
            old(self).wf(),
            old(store).wf(),
        ensures
            final(self).wf(),
            final(store).wf(),
            fail_post(
                old(self)@,
                old(store)@,
                task_id,
                error@,
                retry,
                ids@,
                now,
                final(self)@,
                final(store)@,
                result_view(r),
            ),
    {
        let mut task = match store.get_task(task_id) {
            Ok(Some(task)) => task,
            Ok(None) => {
                return Err(PlatformError::NotFound("task"));
            },
            Err(e) => {
                return Err(e);
            },
        };
        proof {
            lemma_position::<Task>(store@.tasks, task_id);
        }
        if task.attempts < u32::MAX {
            task.attempts = task.attempts + 1;
        }
        task.last_error = Some(String::from_str(error));
        let policy = self.task_policy(task.kind.as_str());
        let should_retry = retry && task.attempts <= policy.max_retries;
        if should_retry {
            task.status = TaskStatus::Pending;
            task.started_at = None;
            task.completed_at = None;
            let backoff = match policy.backoff_seconds {
                Some(secs) => span_of_seconds(secs),
                None => 0,
            };
            task.scheduled_at = after(now, backoff);
            match store.update_task(task.clone()) {
                Ok(()) => {},
                Err(e) => {
                    return Err(e);
                },
            }
            self.clear_lease(task_id);
            Ok(task)
        } else {
            task.status = TaskStatus::Failed;
            task.completed_at = Some(now);
            self.settle(store, task, false, ids, now)
        }
    }

    /// Counts the attempt and records the error; then either resets the task to pending
    /// after the backoff of its policy, or finalizes it as failed and drives the workflow
    /// run that owns it. Clears the lease.
    pub fn fail_task(
        &mut self,
        store: &mut InMemoryPersistence,
        task_id: u128,
        error: &str,
        retry: bool,
    ) -> (r: PlatformResult<Task>)
        requires
            old(self).wf(),
            old(store).wf(),
        ensures
            final(self).wf(),
            final(store).wf(),
            exists|ids: Seq<u128>, now: Timestamp|
                ids.len() == steps_at_stake(old(self)@, old(store)@, task_id) && #[trigger] fail_post(
                    old(self)@,
                    old(store)@,
                    task_id,
                    error@,
                    retry,
                    ids,
                    now,
                    final(self)@,
                    final(store)@,
                    result_view(r),
                ),
    {
        let ids = draw_ids(self.count_steps_at_stake(store, task_id));
        let now = now_millis();
        self.fail_task_with(store, task_id, error, retry, &ids, now)
    }
}

/// Draws as many identifiers at random.
fn draw_ids(count: usize) -> (ids: Vec<u128>)
    ensures
        ids@.len() == count,
{
    let mut ids: Vec<u128> = Vec::new();
    while ids.len() < count
        invariant
            ids@.len() <= count,
        decreases count - ids@.len(),
    {
        ids.push(random_id());
    }
    ids
}

} // verus!
