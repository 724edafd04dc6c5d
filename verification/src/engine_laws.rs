//! What holds of the orchestration engine across operations: leases, runs and outcomes.
use vstd::prelude::*;
use crate::error::{PlatformError, PlatformResult};
use crate::json::JsonModel;
use crate::models::{
    Task, TaskLeaseView, TaskStatus, TaskView, Workflow, WorkflowRunStatus, WorkflowRunView,
    WorkflowStepView,
};
use crate::orchestration::{
    complete_post, engine_policy, engine_wf, fail_post, fan_stopped, fanned_out, first_run, handed,
    lease_of_choice, lease_post, outcome_handled, renew_post, run_of, schedule_workflow_post,
    settled, EngineView, LeaseCount, LeaseState,
};
use crate::workflow::{
    after_dispatch, context_of, dispatched, initial_slots, lemma_marked,
    lemma_resolved_none_ready, marked, ready_steps, terminal, RunStateView, StepSlot,
    StepSlotView, WorkflowRunState,
};
use crate::persistence::{enqueued, enqueued_all, pending_of, store_wf, StoreView};
use crate::scheduling::chosen;
use crate::store_laws::{law_pending_listing, law_updated_task_leaves_pending};
use crate::table::{
    arranged, lemma_contains_present, lemma_position, lemma_put, lemma_replaced, lemma_without,
    lookup, present, Record,
};
use crate::time::{shifted, Millis, Timestamp};

verus! {

/// At any instant a task has one lease at most: no two leases of a well-formed engine
/// are on the same task.
pub proof fn law_one_lease_per_task(engine: EngineView, i: int, j: int)
    requires
        engine_wf(engine),
        0 <= i < engine.leases.len(),
        0 <= j < engine.leases.len(),
        i != j,
    ensures
        engine.leases[i].task_id != engine.leases[j].task_id,
{
    if i < j {
        assert(LeaseState::view_key(engine.leases[i]) != LeaseState::view_key(engine.leases[j]));
    } else {
        assert(LeaseState::view_key(engine.leases[j]) != LeaseState::view_key(engine.leases[i]));
    }
}

/// A successful renewal finds a lease on the task and leaves one whose version is
/// exactly one more; the lease returned carries that version, which is above every
/// version handed out for the task before and is from then on the highest handed out.
pub proof fn law_renewal_raises_version(
    e0: EngineView,
    store: StoreView,
    task_id: u128,
    worker_id: u128,
    token: u128,
    extend_by: Millis,
    now: Timestamp,
    e1: EngineView,
    lease: TaskLeaseView,
)
    requires
        engine_wf(e0),
        renew_post(
            e0,
            store,
            task_id,
            worker_id,
            token,
            extend_by,
            now,
            e1,
            Ok::<TaskLeaseView, PlatformError>(lease),
        ),
    ensures
        lookup::<LeaseState>(e0.leases, task_id) is Some,
        lookup::<LeaseState>(e1.leases, task_id) is Some,
        lease.lease_version == lookup::<LeaseState>(e0.leases, task_id)->0.version + 1,
        lease.lease_version == lookup::<LeaseState>(e1.leases, task_id)->0.version,
        lease.lease_version == handed(e0, task_id) + 1,
        lease.lease_version == handed(e1, task_id),
        forall|other: u128| other != task_id ==> handed(e1, other) == handed(e0, other),
        lease.task.id == task_id,
        lease.worker_id == worker_id,
        lease.lease_token == token,
        lease.leased_at == lookup::<LeaseState>(e0.leases, task_id)->0.leased_at,
        lease.lease_expires_at == shifted(
            lookup::<LeaseState>(e0.leases, task_id)->0.lease_expires_at as int,
            extend_by as int,
        ),
        lookup::<LeaseState>(e0.leases, task_id)->0.lease_expires_at + extend_by <= i64::MAX
            && lookup::<LeaseState>(e0.leases, task_id)->0.lease_expires_at + extend_by
            >= i64::MIN ==> lease.lease_expires_at == lookup::<LeaseState>(
            e0.leases,
            task_id,
        )->0.lease_expires_at + extend_by,
{
    lemma_position::<Task>(store.tasks, task_id);
    let before = lookup::<LeaseState>(e0.leases, task_id)->0;
    lemma_put::<LeaseCount>(
        e0.lease_counts,
        LeaseCount { task_id, version: (before.version + 1) as u64 },
    );
    lemma_position::<LeaseState>(e0.leases, task_id);
    let renewed = LeaseState {
        version: (before.version + 1) as u64,
        lease_expires_at: crate::time::shifted(before.lease_expires_at as int, extend_by as int) as i64,
        ..before
    };
    lemma_replaced::<LeaseState>(e0.leases, renewed);
}

/// A renewal after the lease has expired is refused as invalid input, and so is one by
/// another worker or under another token; the engine is then unchanged.
pub proof fn law_renewal_refused(
    e0: EngineView,
    store: StoreView,
    task_id: u128,
    worker_id: u128,
    token: u128,
    extend_by: Millis,
    now: Timestamp,
    e1: EngineView,
    r: PlatformResult<TaskLeaseView>,
)
    requires
        renew_post(e0, store, task_id, worker_id, token, extend_by, now, e1, r),
        lookup::<LeaseState>(e0.leases, task_id) matches Some(lease) ==> lease.worker_id
            != worker_id || lease.token != token || lease.lease_expires_at < now,
    ensures
        r matches Err(PlatformError::InvalidInput(_)),
        e1 == e0,
{
}

/// A successful lease leaves a lease on the task whose version is one more than the
/// highest version that was ever handed out for the task, and 1 for a task that was
/// never leased. The count of versions outlives the lease, so the version of a task
/// that is leased again after a retry is above all its earlier ones.
pub proof fn law_lease_raises_version(
    e0: EngineView,
    s0: StoreView,
    tenant_id: u128,
    worker_id: u128,
    asked: Millis,
    now: Timestamp,
    token: u128,
    e1: EngineView,
    s1: StoreView,
    lease: TaskLeaseView,
)
    requires
        engine_wf(e0),
        lease_post(
            e0,
            s0,
            tenant_id,
            worker_id,
            asked,
            now,
            token,
            e1,
            s1,
            Ok::<Option<TaskLeaseView>, PlatformError>(Some(lease)),
        ),
    ensures
        lease.lease_version >= 1,
        lease.lease_version == handed(e0, lease.task.id) + 1,
        lease.lease_version == handed(e1, lease.task.id),
        forall|other: u128| other != lease.task.id ==> handed(e1, other) == handed(e0, other),
        lookup::<LeaseState>(e0.leases, lease.task.id) matches Some(prior) ==> lease.lease_version
            == prior.version + 1,
        lookup::<LeaseState>(e1.leases, lease.task.id) matches Some(held) && held.version
            == lease.lease_version && held.worker_id == worker_id && held.token == token,
        lease.task.status == TaskStatus::InProgress,
        lease.task.started_at == Some(now),
{
    let pending = crate::table::arranged::<crate::models::Task>(
        crate::persistence::pending_of(s0.tasks, tenant_id),
    );
    let at = choose|at: int|
        {
            &&& #[trigger] crate::scheduling::chosen(
                e0.scheduler,
                e0.policy_kinds,
                e0.policy_values,
                e0.last_kind,
                pending,
                at,
            )
            &&& lease_of_choice(
                e0,
                s0,
                pending[at],
                worker_id,
                asked,
                now,
                token,
                e1,
                s1,
                Ok::<Option<TaskLeaseView>, PlatformError>(Some(lease)),
            )
        };
    let task = pending[at];
    let held = LeaseState {
        task_id: task.id,
        version: (handed(e0, task.id) + 1) as u64,
        token,
        worker_id,
        leased_at: now,
        lease_expires_at: crate::time::shifted(
            now as int,
            crate::orchestration::lease_window(task.timeouts, asked),
        ) as i64,
    };
    lemma_put::<LeaseState>(e0.leases, held);
    lemma_put::<LeaseCount>(
        e0.lease_counts,
        LeaseCount { task_id: task.id, version: held.version },
    );
}

/// Once a task is completed or has failed for good, it has no lease: a renewal then
/// finds none.
pub proof fn law_settled_task_has_no_lease(
    e0: EngineView,
    s0: StoreView,
    done: TaskView,
    success: bool,
    ids: Seq<u128>,
    now: Timestamp,
    e1: EngineView,
    s1: StoreView,
    r: PlatformResult<TaskView>,
)
    requires
        engine_wf(e0),
        settled(e0, s0, done, success, ids, now, e1, s1, r),
    ensures
        !present::<LeaseState>(e1.leases, done.id),
{
    lemma_without::<LeaseState>(e0.leases, done.id);
}

/// No run in the index of a well-formed engine is finished: the run found under an
/// identifier has that identifier, is pending or running, and has no instant of
/// completion.
pub proof fn law_active_runs_unfinished(engine: EngineView, run_id: u128)
    requires
        engine_wf(engine),
        present::<WorkflowRunState>(engine.runs, run_id),
    ensures
        lookup::<WorkflowRunState>(engine.runs, run_id)->0.run.id == run_id,
        !terminal(lookup::<WorkflowRunState>(engine.runs, run_id)->0.run.status),
        lookup::<WorkflowRunState>(engine.runs, run_id)->0.run.completed_at is None,
{
    lemma_position::<WorkflowRunState>(engine.runs, run_id);
}

/// When the outcome of a task finishes its run, the run has the instant of its
/// completion and is absent from the index.
pub proof fn law_finished_run_leaves_index(
    e0: EngineView,
    s0: StoreView,
    payload: JsonModel,
    success: bool,
    ids: Seq<u128>,
    now: Timestamp,
    e1: EngineView,
    s1: StoreView,
    spawned: Seq<TaskView>,
    ok: bool,
)
    requires
        engine_wf(e0),
        outcome_handled(e0, s0, payload, success, ids, now, e1, s1, spawned, ok),
        run_of(e0, payload) is Some,
        terminal(
            marked(run_of(e0, payload)->0, context_of(payload)->0.step_id, success, now).run.status,
        ),
    ensures
        ok,
        spawned.len() == 0,
        marked(
            run_of(e0, payload)->0,
            context_of(payload)->0.step_id,
            success,
            now,
        ).run.completed_at == Some(now),
        !present::<WorkflowRunState>(e1.runs, context_of(payload)->0.run_id),
{
    let ctx = context_of(payload)->0;
    let state = run_of(e0, payload)->0;
    lemma_position::<WorkflowRunState>(e0.runs, ctx.run_id);
    lemma_marked(state, ctx.step_id, success, now);
    let seen = marked(state, ctx.step_id, success, now);
    lemma_resolved_none_ready(seen.slots, seen.completed_kinds, seen.failed_kinds);
    lemma_without::<WorkflowRunState>(e0.runs, ctx.run_id);
}

/// When a task that names a known step of an active run is settled, the kind of the step
/// is among the completed kinds of the run on success and among its failed kinds on
/// failure; and the run, unless finished, is in the index with that kind recorded.
pub proof fn law_outcome_recorded(
    e0: EngineView,
    s0: StoreView,
    payload: JsonModel,
    success: bool,
    ids: Seq<u128>,
    now: Timestamp,
    e1: EngineView,
    s1: StoreView,
    spawned: Seq<TaskView>,
    ok: bool,
)
    requires
        engine_wf(e0),
        outcome_handled(e0, s0, payload, success, ids, now, e1, s1, spawned, ok),
        run_of(e0, payload) is Some,
        present::<StepSlot>(run_of(e0, payload)->0.slots, context_of(payload)->0.step_id),
    ensures
        ({
            let ctx = context_of(payload)->0;
            let state = run_of(e0, payload)->0;
            let kind = lookup::<StepSlot>(state.slots, ctx.step_id)->0.step.task_kind;
            let seen = marked(state, ctx.step_id, success, now);
            &&& success ==> seen.completed_kinds.contains(kind)
            &&& !success ==> seen.failed_kinds.contains(kind)
            &&& !terminal(seen.run.status) ==> lookup::<WorkflowRunState>(e1.runs, ctx.run_id)
                == Some(after_dispatch(seen))
            &&& after_dispatch(seen).completed_kinds == seen.completed_kinds
            &&& after_dispatch(seen).failed_kinds == seen.failed_kinds
        }),
{
    let ctx = context_of(payload)->0;
    let state = run_of(e0, payload)->0;
    lemma_position::<WorkflowRunState>(e0.runs, ctx.run_id);
    lemma_marked(state, ctx.step_id, success, now);
    let seen = marked(state, ctx.step_id, success, now);
    lemma_replaced::<WorkflowRunState>(e0.runs, after_dispatch(seen));
}

/// Scheduling a workflow of another tenant is forbidden and changes nothing.
pub proof fn law_foreign_workflow_forbidden(
    e0: EngineView,
    s0: StoreView,
    workflow_id: u128,
    tenant_id: u128,
    input: JsonModel,
    run_id: u128,
    ids: Seq<u128>,
    now: Timestamp,
    e1: EngineView,
    s1: StoreView,
    r: PlatformResult<Seq<TaskView>>,
)
    requires
        schedule_workflow_post(e0, s0, workflow_id, tenant_id, input, run_id, ids, now, e1, s1, r),
        lookup::<Workflow>(s0.workflows, workflow_id) matches Some(workflow) && workflow.tenant_id
            != tenant_id,
    ensures
        r == Err::<Seq<TaskView>, PlatformError>(PlatformError::Forbidden),
        e1 == e0,
        s1 == s0,
{
}

/// A task whose policy allows no retry ends failed at its first failure, with one more
/// attempt counted, whether or not a retry was asked for.
pub proof fn law_no_retry_fails_at_once(
    e0: EngineView,
    s0: StoreView,
    task_id: u128,
    error: Seq<char>,
    retry: bool,
    ids: Seq<u128>,
    now: Timestamp,
    e1: EngineView,
    s1: StoreView,
    task: TaskView,
)
    requires
        fail_post(e0, s0, task_id, error, retry, ids, now, e1, s1, Ok::<TaskView, PlatformError>(task)),
        lookup::<crate::models::Task>(s0.tasks, task_id) matches Some(before) && engine_policy(
            e0,
            before.kind,
        ).max_retries == 0 && before.attempts < u32::MAX,
    ensures
        task.status == TaskStatus::Failed,
        task.attempts == lookup::<crate::models::Task>(s0.tasks, task_id)->0.attempts + 1,
        task.completed_at == Some(now),
{
}

/// A task is dispatched once: the task of a lease was a pending task of the tenant, and
/// once it is leased no listing of pending tasks holds it, so that the next lease is of
/// another task.
pub proof fn law_leased_task_leaves_pending(
    e0: EngineView,
    s0: StoreView,
    tenant_id: u128,
    worker_id: u128,
    asked: Millis,
    now: Timestamp,
    token: u128,
    e1: EngineView,
    s1: StoreView,
    lease: TaskLeaseView,
    other: u128,
)
    requires
        store_wf(s0),
        lease_post(
            e0,
            s0,
            tenant_id,
            worker_id,
            asked,
            now,
            token,
            e1,
            s1,
            Ok::<Option<TaskLeaseView>, PlatformError>(Some(lease)),
        ),
    ensures
        lookup::<Task>(s0.tasks, lease.task.id) matches Some(before) && before.tenant_id
            == tenant_id && before.status == TaskStatus::Pending,
        forall|t: TaskView|
            #[trigger] arranged::<Task>(pending_of(s1.tasks, other)).contains(t) ==> t.id
                != lease.task.id,
{
    let pending = arranged::<Task>(pending_of(s0.tasks, tenant_id));
    let at = choose|at: int|
        {
            &&& #[trigger] chosen(
                e0.scheduler,
                e0.policy_kinds,
                e0.policy_values,
                e0.last_kind,
                pending,
                at,
            )
            &&& lease_of_choice(
                e0,
                s0,
                pending[at],
                worker_id,
                asked,
                now,
                token,
                e1,
                s1,
                Ok::<Option<TaskLeaseView>, PlatformError>(Some(lease)),
            )
        };
    let task = pending[at];
    law_pending_listing(s0.tasks, tenant_id);
    assert(pending.contains(task));
    lemma_contains_present::<Task>(s0.tasks, task);
    let started = TaskView { status: TaskStatus::InProgress, started_at: Some(now), ..task };
    law_updated_task_leaves_pending(s0.tasks, started, other);
}

/// Completing a task and failing it, with or without a retry, clear its lease and keep
/// the highest version handed out for every task: a renewal after them is refused, and
/// the next lease of the task is of a higher version.
pub proof fn law_settling_keeps_versions(
    e0: EngineView,
    s0: StoreView,
    task_id: u128,
    error: Seq<char>,
    retry: bool,
    result: Option<JsonModel>,
    ids: Seq<u128>,
    now: Timestamp,
    e1: EngineView,
    s1: StoreView,
    r: PlatformResult<TaskView>,
)
    requires
        engine_wf(e0),
        r is Ok,
        fail_post(e0, s0, task_id, error, retry, ids, now, e1, s1, r) || complete_post(
            e0,
            s0,
            task_id,
            result,
            ids,
            now,
            e1,
            s1,
            r,
        ),
    ensures
        e1.lease_counts == e0.lease_counts,
        forall|id: u128| handed(e1, id) == handed(e0, id),
        lookup::<LeaseState>(e1.leases, task_id) is None,
{
    lemma_without::<LeaseState>(e0.leases, task_id);
    lemma_position::<Task>(s0.tasks, task_id);
}

/// Scheduling a workflow of the tenant fails only where the identifier drawn for a task
/// is taken. So a workflow with one step ready at the start is scheduled whenever the
/// first identifier is free: the task of that step is returned and enqueued under it,
/// pending, and the run is in the index, running.
pub proof fn law_first_step_is_scheduled(
    e0: EngineView,
    s0: StoreView,
    workflow_id: u128,
    tenant_id: u128,
    input: JsonModel,
    run_id: u128,
    ids: Seq<u128>,
    now: Timestamp,
    e1: EngineView,
    s1: StoreView,
    r: PlatformResult<Seq<TaskView>>,
)
    requires
        engine_wf(e0),
        schedule_workflow_post(e0, s0, workflow_id, tenant_id, input, run_id, ids, now, e1, s1, r),
        lookup::<Workflow>(s0.workflows, workflow_id) matches Some(workflow) && workflow.tenant_id
            == tenant_id && ready_steps(
            initial_slots(workflow.steps),
            Seq::empty(),
            Seq::empty(),
        ).len() == 1,
        ids.len() >= 1,
        !present::<Task>(s0.tasks, ids[0]),
    ensures
        r matches Ok(tasks) && tasks.len() == 1 && tasks[0].id == ids[0] && tasks[0].status
            == TaskStatus::Pending && tasks[0].tenant_id == tenant_id && tasks[0].kind
            == ready_steps(
            initial_slots(lookup::<Workflow>(s0.workflows, workflow_id)->0.steps),
            Seq::empty(),
            Seq::empty(),
        )[0].task_kind && s1 == enqueued(s0, tasks[0]),
        lookup::<WorkflowRunState>(e1.runs, run_id) matches Some(state) && state.run.status
            == WorkflowRunStatus::Running && state.run.workflow_id == workflow_id,
{
    let workflow = lookup::<Workflow>(s0.workflows, workflow_id)->0;
    lemma_position::<Workflow>(s0.workflows, workflow_id);
    let slots = initial_slots(workflow.steps);
    let ready = ready_steps(slots, Seq::empty(), Seq::empty());
    let run = first_run(workflow.id, tenant_id, input, run_id, now);
    match r {
        Ok(tasks) => {
            assert(tasks.drop_last().len() == 0);
            assert(enqueued_all(s0, tasks.drop_last()) == s0);
            assert(tasks.last() == tasks[0]);
            let started = RunStateView {
                run: WorkflowRunView { status: WorkflowRunStatus::Running, ..run },
                slots: dispatched(slots, Seq::empty(), Seq::empty()),
                completed_kinds: Seq::empty(),
                failed_kinds: Seq::empty(),
            };
            lemma_put::<WorkflowRunState>(e0.runs, started);
        },
        Err(_) => {
            let spawned = choose|spawned: Seq<TaskView>|
                {
                    &&& spawned.len() < ready.len()
                    &&& #[trigger] fanned_out(
                        e0,
                        run,
                        input,
                        ready.take(spawned.len() as int),
                        ids,
                        now,
                        spawned,
                    )
                    &&& s1 == enqueued_all(s0, spawned)
                    &&& fan_stopped(s1, ids, spawned, ready.len() as int)
                };
            assert(s1 == s0);
        },
    }
}

/// No more steps are ready than there are steps.
pub proof fn lemma_ready_within(
    slots: Seq<StepSlotView>,
    completed: Seq<Seq<char>>,
    failed: Seq<Seq<char>>,
)
    ensures
        ready_steps(slots, completed, failed).len() <= slots.len(),
    decreases slots.len(),
{
    if slots.len() > 0 {
        lemma_ready_within(slots.drop_last(), completed, failed);
    }
}

/// With an identifier for every step of the run, handling the outcome of a task fails
/// only where the identifier for the next task is taken: an identifier is never wanting.
pub proof fn law_outcome_fails_on_a_taken_identifier(
    e0: EngineView,
    s0: StoreView,
    payload: JsonModel,
    success: bool,
    ids: Seq<u128>,
    now: Timestamp,
    e1: EngineView,
    s1: StoreView,
    spawned: Seq<TaskView>,
    ok: bool,
)
    requires
        outcome_handled(e0, s0, payload, success, ids, now, e1, s1, spawned, ok),
        run_of(e0, payload) matches Some(state) ==> ids.len() >= state.slots.len(),
        !ok,
    ensures
        spawned.len() < ids.len(),
        present::<Task>(s1.tasks, ids[spawned.len() as int]),
{
    let state = run_of(e0, payload)->0;
    let seen = marked(state, context_of(payload)->0.step_id, success, now);
    let ready = ready_steps(seen.slots, seen.completed_kinds, seen.failed_kinds);
    lemma_ready_within(seen.slots, seen.completed_kinds, seen.failed_kinds);
    lemma_position::<StepSlot>(state.slots, context_of(payload)->0.step_id);
    assert(seen.slots.len() == state.slots.len());
    assert(spawned.len() < ready.len());
    assert(fan_stopped(s1, ids, spawned, ready.len() as int));
}

/// A workflow starts with no more slots than it has steps.
pub proof fn lemma_initial_within(steps: Seq<WorkflowStepView>)
    ensures
        initial_slots(steps).len() <= steps.len(),
    decreases steps.len(),
{
    if steps.len() > 0 {
        lemma_initial_within(steps.drop_last());
        lemma_position::<StepSlot>(initial_slots(steps.drop_last()), steps.last().id);
    }
}

/// With an identifier for every step of the workflow, scheduling it as its tenant fails
/// only where the identifier for the next task is taken.
pub proof fn law_schedule_fails_on_a_taken_identifier(
    e0: EngineView,
    s0: StoreView,
    workflow_id: u128,
    tenant_id: u128,
    input: JsonModel,
    run_id: u128,
    ids: Seq<u128>,
    now: Timestamp,
    e1: EngineView,
    s1: StoreView,
    r: PlatformResult<Seq<TaskView>>,
)
    requires
        schedule_workflow_post(e0, s0, workflow_id, tenant_id, input, run_id, ids, now, e1, s1, r),
        lookup::<Workflow>(s0.workflows, workflow_id) matches Some(workflow) && workflow.tenant_id
            == tenant_id && ids.len() >= workflow.steps.len(),
        r is Err,
    ensures
        r == Err::<Seq<TaskView>, PlatformError>(PlatformError::Conflict("task")),
        exists|k: int| 0 <= k < ids.len() && #[trigger] present::<Task>(s1.tasks, ids[k]),
{
    let workflow = lookup::<Workflow>(s0.workflows, workflow_id)->0;
    let slots = initial_slots(workflow.steps);
    let ready = ready_steps(slots, Seq::empty(), Seq::empty());
    let run = first_run(workflow.id, tenant_id, input, run_id, now);
    lemma_ready_within(slots, Seq::empty(), Seq::empty());
    lemma_initial_within(workflow.steps);
    let spawned = choose|spawned: Seq<TaskView>|
        {
            &&& spawned.len() < ready.len()
            &&& #[trigger] fanned_out(
                e0,
                run,
                input,
                ready.take(spawned.len() as int),
                ids,
                now,
                spawned,
            )
            &&& s1 == enqueued_all(s0, spawned)
            &&& fan_stopped(s1, ids, spawned, ready.len() as int)
        };
    assert(present::<Task>(s1.tasks, ids[spawned.len() as int]));
}

/// Whether a task has ended: it is completed or failed.
pub open spec fn ended(task: TaskView) -> bool {
    task.status == TaskStatus::Completed || task.status == TaskStatus::Failed
}

/// A task handed back by a completion is completed, at the instant of the completion,
/// with as many attempts as before.
pub proof fn law_completed_task_has_ended(
    e0: EngineView,
    s0: StoreView,
    task_id: u128,
    result: Option<JsonModel>,
    ids: Seq<u128>,
    now: Timestamp,
    e1: EngineView,
    s1: StoreView,
    task: TaskView,
)
    requires
        complete_post(e0, s0, task_id, result, ids, now, e1, s1, Ok::<TaskView, PlatformError>(task)),
    ensures
        task.status == TaskStatus::Completed,
        task.completed_at == Some(now),
        lookup::<crate::models::Task>(s0.tasks, task_id) matches Some(before) && task.attempts
            == before.attempts,
{
}

/// A task handed back by a failure has a time of completion exactly if it has ended, and
/// its attempts have not fallen: they are one more than before, unless they could not be
/// counted higher.
pub proof fn law_failed_task_counts_an_attempt(
    e0: EngineView,
    s0: StoreView,
    task_id: u128,
    error: Seq<char>,
    retry: bool,
    ids: Seq<u128>,
    now: Timestamp,
    e1: EngineView,
    s1: StoreView,
    task: TaskView,
)
    requires
        fail_post(e0, s0, task_id, error, retry, ids, now, e1, s1, Ok::<TaskView, PlatformError>(task)),
    ensures
        task.completed_at is Some <==> ended(task),
        task.status == TaskStatus::Pending || task.status == TaskStatus::Failed,
        task.last_error == Some(error),
        lookup::<crate::models::Task>(s0.tasks, task_id) matches Some(before) && task.attempts
            >= before.attempts && (before.attempts < u32::MAX ==> task.attempts == before.attempts
            + 1),
{
}

} // verus!
