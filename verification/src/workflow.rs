//! The state of a workflow run: which steps wait, which are in flight, which task kinds
//! have completed and which have failed; and the payload that ties a task to its step.
use vstd::prelude::*;
use vstd::string::StringExecFns;
use crate::ids::{id_text, parse_id, uuid_parse, uuid_text};
use crate::json::{member_text, JsonModel, JsonValue, Member, MemberModel};
use crate::models::{
    Task, TaskDependency, TaskDependencyView, TaskStatus, WorkflowRun, WorkflowRunStatus,
    WorkflowRunView, WorkflowStep, WorkflowStepView,
};
use crate::table::{
    copy_rows, find, lemma_position, lookup, position, present, put, put_row, set_row, Record,
};
use crate::text::{clone_texts, find_text, lemma_text_position};
use crate::time::{after, Timestamp};

verus! {

/// The mathematical value of a step and its phase within a run.
pub struct StepSlotView {
    pub step: WorkflowStepView,
    pub phase: StepPhase,
}

/// Where a step of a run stands: not yet dispatched, dispatched and unresolved, or
/// resolved.
#[derive(Debug, Clone, Copy, PartialEq, Eq, Structural)]
pub enum StepPhase {
    Waiting,
    Inflight,
    Resolved,
}

/// A step of a run and its phase.
#[derive(Debug)]
pub struct StepSlot {
    pub step: WorkflowStep,
    pub phase: StepPhase,
}

impl DeepView for StepSlot {
    type V = StepSlotView;

    open spec fn deep_view(&self) -> StepSlotView {
        StepSlotView { step: self.step.deep_view(), phase: self.phase }
    }
}

impl Clone for StepSlot {
    fn clone(&self) -> (copy: Self)
        ensures
            copy.deep_view() == self.deep_view(),
    {
        StepSlot { step: self.step.clone(), phase: self.phase }
    }
}

impl Record for StepSlot {
    open spec fn view_key(view: StepSlotView) -> u128 {
        view.step.id
    }

    fn key(&self) -> (k: u128) {
        self.step.id
    }

    fn duplicate(&self) -> (copy: Self) {
        self.clone()
    }
}

/// The state of one active run: the run itself, its steps with their phases, and the
/// task kinds that have completed and that have failed in it.
#[derive(Debug)]
pub struct WorkflowRunState {
    pub run: WorkflowRun,
    pub slots: Vec<StepSlot>,
    pub completed_kinds: Vec<String>,
    pub failed_kinds: Vec<String>,
}

/// The mathematical value of a [`WorkflowRunState`].
pub struct RunStateView {
    pub run: WorkflowRunView,
    pub slots: Seq<StepSlotView>,
    pub completed_kinds: Seq<Seq<char>>,
    pub failed_kinds: Seq<Seq<char>>,
}

impl DeepView for WorkflowRunState {
    type V = RunStateView;

    open spec fn deep_view(&self) -> RunStateView {
        RunStateView {
            run: self.run.deep_view(),
            slots: self.slots.deep_view(),
            completed_kinds: self.completed_kinds.deep_view(),
            failed_kinds: self.failed_kinds.deep_view(),
        }
    }
}

impl Clone for WorkflowRunState {
    fn clone(&self) -> (copy: Self)
        ensures
            copy.deep_view() == self.deep_view(),
    {
        WorkflowRunState {
            run: self.run.clone(),
            slots: copy_rows(&self.slots),
            completed_kinds: clone_texts(&self.completed_kinds),
            failed_kinds: clone_texts(&self.failed_kinds),
        }
    }
}

impl Record for WorkflowRunState {
    open spec fn view_key(view: RunStateView) -> u128 {
        view.run.id
    }

    fn key(&self) -> (k: u128) {
        self.run.id
    }

    fn duplicate(&self) -> (copy: Self) {
        self.clone()
    }
}

/// The slots of a run that has dispatched nothing: one waiting slot for each step
/// identifier, holding the last step of that identifier.
pub open spec fn initial_slots(steps: Seq<WorkflowStepView>) -> Seq<StepSlotView>
    decreases steps.len(),
{
    if steps.len() == 0 {
        Seq::empty()
    } else {
        put::<StepSlot>(
            initial_slots(steps.drop_last()),
            StepSlotView { step: steps.last(), phase: StepPhase::Waiting },
        )
    }
}

/// Whether a dependency is satisfied: a required completion by a completed step of that
/// kind, a required failure by a failed step of that kind; the other two statuses gate
/// nothing.
pub open spec fn dep_met(
    dep: TaskDependencyView,
    completed: Seq<Seq<char>>,
    failed: Seq<Seq<char>>,
) -> bool {
    match dep.required_status {
        TaskStatus::Completed => completed.contains(dep.task_kind),
        TaskStatus::Failed => failed.contains(dep.task_kind),
        TaskStatus::Pending => true,
        TaskStatus::InProgress => true,
    }
}

/// Whether every dependency is satisfied.
pub open spec fn deps_met(
    deps: Seq<TaskDependencyView>,
    completed: Seq<Seq<char>>,
    failed: Seq<Seq<char>>,
) -> bool {
    forall|i: int| 0 <= i < deps.len() ==> dep_met(#[trigger] deps[i], completed, failed)
}

/// A slot is ready when its step waits and all its dependencies are satisfied.
pub open spec fn slot_ready(
    slot: StepSlotView,
    completed: Seq<Seq<char>>,
    failed: Seq<Seq<char>>,
) -> bool {
    slot.phase == StepPhase::Waiting && deps_met(slot.step.dependencies, completed, failed)
}

/// The steps of the ready slots, in slot order.
pub open spec fn ready_steps(
    slots: Seq<StepSlotView>,
    completed: Seq<Seq<char>>,
    failed: Seq<Seq<char>>,
) -> Seq<WorkflowStepView>
    decreases slots.len(),
{
    if slots.len() == 0 {
        Seq::empty()
    } else {
        let earlier = ready_steps(slots.drop_last(), completed, failed);
        if slot_ready(slots.last(), completed, failed) {
            earlier.push(slots.last().step)
        } else {
            earlier
        }
    }
}

/// A slot after the ready steps were dispatched: in flight if it was ready, else as before.
pub open spec fn dispatched_slot(
    slot: StepSlotView,
    completed: Seq<Seq<char>>,
    failed: Seq<Seq<char>>,
) -> StepSlotView {
    if slot_ready(slot, completed, failed) {
        StepSlotView { step: slot.step, phase: StepPhase::Inflight }
    } else {
        slot
    }
}

/// The slots after the ready steps were dispatched.
pub open spec fn dispatched(
    slots: Seq<StepSlotView>,
    completed: Seq<Seq<char>>,
    failed: Seq<Seq<char>>,
) -> Seq<StepSlotView> {
    Seq::new(slots.len(), |i: int| dispatched_slot(slots[i], completed, failed))
}

/// The state of a run after its ready steps were dispatched.
pub open spec fn after_dispatch(state: RunStateView) -> RunStateView {
    RunStateView {
        slots: dispatched(state.slots, state.completed_kinds, state.failed_kinds),
        ..state
    }
}

/// `kinds` with `kind` among them.
pub open spec fn noted(kinds: Seq<Seq<char>>, kind: Seq<char>) -> Seq<Seq<char>> {
    if kinds.contains(kind) {
        kinds
    } else {
        kinds.push(kind)
    }
}

/// No step waits and none is in flight.
pub open spec fn all_resolved(slots: Seq<StepSlotView>) -> bool {
    forall|i: int| 0 <= i < slots.len() ==> (#[trigger] slots[i]).phase == StepPhase::Resolved
}

/// Whether a run status is terminal.
pub open spec fn terminal(status: WorkflowRunStatus) -> bool {
    status == WorkflowRunStatus::Completed || status == WorkflowRunStatus::Failed || status
        == WorkflowRunStatus::Cancelled
}

/// The state of a run after the outcome of step `step_id` was recorded at `now`.
///
/// The kind of a known step joins the completed or the failed kinds, and the step leaves
/// the steps in flight. The run notes the step and the instant. If then no step waits and
/// none is in flight, the run is finished at `now`: completed if no kind has failed,
/// failed otherwise.
pub open spec fn marked(state: RunStateView, step_id: u128, success: bool, now: Timestamp)
    -> RunStateView {
    let at = position::<StepSlot>(state.slots, step_id);
    let known = at < state.slots.len();
    let completed = if known && success {
        noted(state.completed_kinds, state.slots[at].step.task_kind)
    } else {
        state.completed_kinds
    };
    let failed = if known && !success {
        noted(state.failed_kinds, state.slots[at].step.task_kind)
    } else {
        state.failed_kinds
    };
    let slots = if known && state.slots[at].phase == StepPhase::Inflight {
        state.slots.update(
            at,
            StepSlotView { step: state.slots[at].step, phase: StepPhase::Resolved },
        )
    } else {
        state.slots
    };
    let idle = all_resolved(slots);
    RunStateView {
        run: WorkflowRunView {
            current_step: Some(step_id),
            updated_at: now,
            completed_at: if idle {
                Some(now)
            } else {
                state.run.completed_at
            },
            status: if idle {
                if failed.len() == 0 {
                    WorkflowRunStatus::Completed
                } else {
                    WorkflowRunStatus::Failed
                }
            } else {
                state.run.status
            },
            ..state.run
        },
        slots,
        completed_kinds: completed,
        failed_kinds: failed,
    }
}

/// Recording the outcome of a known step puts its kind among the completed kinds on
/// success and among the failed kinds on failure; and a run that is finished by it has
/// the instant of its completion.
pub proof fn lemma_marked(state: RunStateView, step_id: u128, success: bool, now: Timestamp)
    ensures
        present::<StepSlot>(state.slots, step_id) && success ==> marked(
            state,
            step_id,
            success,
            now,
        ).completed_kinds.contains(lookup::<StepSlot>(state.slots, step_id)->0.step.task_kind),
        present::<StepSlot>(state.slots, step_id) && !success ==> marked(
            state,
            step_id,
            success,
            now,
        ).failed_kinds.contains(lookup::<StepSlot>(state.slots, step_id)->0.step.task_kind),
        !terminal(state.run.status) ==> (terminal(marked(state, step_id, success, now).run.status)
            <==> all_resolved(marked(state, step_id, success, now).slots)),
        all_resolved(marked(state, step_id, success, now).slots) ==> marked(
            state,
            step_id,
            success,
            now,
        ).run.completed_at == Some(now),
        forall|kind: Seq<char>|
            state.completed_kinds.contains(kind) ==> #[trigger] marked(
                state,
                step_id,
                success,
                now,
            ).completed_kinds.contains(kind),
        forall|kind: Seq<char>|
            state.failed_kinds.contains(kind) ==> #[trigger] marked(
                state,
                step_id,
                success,
                now,
            ).failed_kinds.contains(kind),
{
    let at = position::<StepSlot>(state.slots, step_id);
    lemma_position::<StepSlot>(state.slots, step_id);
    if at < state.slots.len() {
        let kind = state.slots[at].step.task_kind;
        lemma_noted(state.completed_kinds, kind);
        lemma_noted(state.failed_kinds, kind);
    }
}

/// Noting a kind keeps every kind and holds the noted one.
pub proof fn lemma_noted(kinds: Seq<Seq<char>>, kind: Seq<char>)
    ensures
        noted(kinds, kind).contains(kind),
        forall|other: Seq<char>| kinds.contains(other) ==> #[trigger] noted(kinds, kind).contains(
            other,
        ),
{
    if !kinds.contains(kind) {
        let grown = kinds.push(kind);
        assert(grown[kinds.len() as int] == kind);
        assert forall|other: Seq<char>| kinds.contains(other) implies #[trigger] grown.contains(
            other,
        ) by {
            let k = choose|k: int| 0 <= k < kinds.len() && kinds[k] == other;
            assert(grown[k] == other);
        }
    }
}

/// When no step waits, no step is ready.
pub proof fn lemma_resolved_none_ready(
    slots: Seq<StepSlotView>,
    completed: Seq<Seq<char>>,
    failed: Seq<Seq<char>>,
)
    requires
        all_resolved(slots),
    ensures
        ready_steps(slots, completed, failed).len() == 0,
        dispatched(slots, completed, failed) == slots,
    decreases slots.len(),
{
    if slots.len() > 0 {
        let shorter = slots.drop_last();
        assert forall|i: int| 0 <= i < shorter.len() implies (#[trigger] shorter[i]).phase
            == StepPhase::Resolved by {
            assert(shorter[i] == slots[i]);
        }
        lemma_resolved_none_ready(shorter, completed, failed);
        assert(slots[slots.len() - 1].phase == StepPhase::Resolved);
    }
    assert(dispatched(slots, completed, failed) =~= slots);
}

impl WorkflowRunState {
    /// The state of a run that has dispatched nothing.
    pub fn new(run: WorkflowRun, steps: &Vec<WorkflowStep>) -> (state: Self)
        ensures
            state.deep_view() == (RunStateView {
                run: run.deep_view(),
                slots: initial_slots(steps.deep_view()),
                completed_kinds: Seq::empty(),
                failed_kinds: Seq::empty(),
            }),
    {
        let mut slots: Vec<StepSlot> = Vec::new();
        let mut i: usize = 0;
        assert(steps.deep_view().take(0) =~= Seq::empty());
        assert(slots.deep_view() =~= Seq::empty());
        while i < steps.len()
            invariant
                i <= steps.len(),
                slots.deep_view() == initial_slots(steps.deep_view().take(i as int)),
            decreases steps.len() - i,
        {
            proof {
                let views = steps.deep_view();
                assert(views.take(i + 1).drop_last() =~= views.take(i as int));
                assert(views.take(i + 1).last() == steps@[i as int].deep_view());
            }
            put_row(&mut slots, StepSlot { step: steps[i].clone(), phase: StepPhase::Waiting });
            i = i + 1;
        }
        assert(steps.deep_view().take(steps.len() as int) =~= steps.deep_view());
        let state = WorkflowRunState {
            run,
            slots,
            completed_kinds: Vec::new(),
            failed_kinds: Vec::new(),
        };
        assert(state.completed_kinds.deep_view() =~= Seq::empty());
        assert(state.failed_kinds.deep_view() =~= Seq::empty());
        state
    }

    fn dependency_met(&self, dep: &TaskDependency) -> (met: bool)
        ensures
            met == dep_met(
                dep.deep_view(),
                self.completed_kinds.deep_view(),
                self.failed_kinds.deep_view(),
            ),
    {
        proof {
            lemma_text_position(self.completed_kinds.deep_view(), dep.task_kind@);
            lemma_text_position(self.failed_kinds.deep_view(), dep.task_kind@);
        }
        match dep.required_status {
            TaskStatus::Completed => find_text(
                &self.completed_kinds,
                dep.task_kind.as_str(),
            ).is_some(),
            TaskStatus::Failed => find_text(&self.failed_kinds, dep.task_kind.as_str()).is_some(),
            TaskStatus::Pending => true,
            TaskStatus::InProgress => true,
        }
    }

    fn slot_is_ready(&self, at: usize) -> (ready: bool)
        requires
            at < self.slots.len(),
        ensures
            ready == slot_ready(
                self.slots@[at as int].deep_view(),
                self.completed_kinds.deep_view(),
                self.failed_kinds.deep_view(),
            ),
    {
        match self.slots[at].phase {
            StepPhase::Waiting => {},
            _ => {
                return false;
            },
        }
        let deps = &self.slots[at].step.dependencies;
        let mut i: usize = 0;
        while i < deps.len()
            invariant
                i <= deps.len(),
                at < self.slots.len(),
                *deps == self.slots@[at as int].step.dependencies,
                self.slots@[at as int].phase == StepPhase::Waiting,
                forall|j: int|
                    0 <= j < i ==> dep_met(
                        #[trigger] deps.deep_view()[j],
                        self.completed_kinds.deep_view(),
                        self.failed_kinds.deep_view(),
                    ),
            decreases deps.len() - i,
        {
            if !self.dependency_met(&deps[i]) {
                assert(deps.deep_view()[i as int] == deps@[i as int].deep_view());
                return false;
            }
            assert(deps.deep_view()[i as int] == deps@[i as int].deep_view());
            i = i + 1;
        }
        true
    }

    /// Dispatches every ready step: it leaves the waiting steps for the steps in flight.
    /// Returns the dispatched steps in slot order.
    pub fn pop_ready_steps(&mut self) -> (ready: Vec<WorkflowStep>)
        ensures
            final(self).deep_view() == after_dispatch(old(self).deep_view()),
            ready.deep_view() == ready_steps(
                old(self).slots.deep_view(),
                old(self).completed_kinds.deep_view(),
                old(self).failed_kinds.deep_view(),
            ),
    {
        let ghost before = self.slots.deep_view();
        let ghost completed = self.completed_kinds.deep_view();
        let ghost failed = self.failed_kinds.deep_view();
        let mut ready: Vec<WorkflowStep> = Vec::new();
        let mut i: usize = 0;
        assert(before.take(0) =~= Seq::empty());
        assert(ready.deep_view() =~= Seq::empty());
        while i < self.slots.len()
            invariant
                i <= self.slots.len(),
                self.run == old(self).run,
                self.completed_kinds == old(self).completed_kinds,
                self.failed_kinds == old(self).failed_kinds,
                completed == self.completed_kinds.deep_view(),
                failed == self.failed_kinds.deep_view(),
                before == old(self).slots.deep_view(),
                self.slots.deep_view().len() == before.len(),
                forall|k: int|
                    0 <= k < i ==> #[trigger] self.slots.deep_view()[k] == dispatched_slot(
                        before[k],
                        completed,
                        failed,
                    ),
                forall|k: int|
                    i <= k < before.len() ==> #[trigger] self.slots.deep_view()[k] == before[k],
                ready.deep_view() == ready_steps(before.take(i as int), completed, failed),
            decreases self.slots.len() - i,
        {
            proof {
                assert(before.take(i + 1).drop_last() =~= before.take(i as int));
                assert(before.take(i + 1).last() == before[i as int]);
                assert(self.slots.deep_view()[i as int] == self.slots@[i as int].deep_view());
            }
            if self.slot_is_ready(i) {
                let step = self.slots[i].step.clone();
                let ghost current = self.slots.deep_view();
                set_row(
                    &mut self.slots,
                    i,
                    StepSlot { step: step.clone(), phase: StepPhase::Inflight },
                );
                let ghost listed = ready.deep_view();
                let ghost added = step.deep_view();
                ready.push(step);
                assert(ready.deep_view() =~= listed.push(added));
            }
            i = i + 1;
        }
        proof {
            assert(before.take(before.len() as int) =~= before);
            assert(self.slots.deep_view() =~= dispatched(before, completed, failed));
        }
        ready
    }

    fn is_idle(&self) -> (idle: bool)
        ensures
            idle == all_resolved(self.slots.deep_view()),
    {
        let mut i: usize = 0;
        while i < self.slots.len()
            invariant
                i <= self.slots.len(),
                forall|j: int|
                    0 <= j < i ==> (#[trigger] self.slots.deep_view()[j]).phase
                        == StepPhase::Resolved,
            decreases self.slots.len() - i,
        {
            assert(self.slots.deep_view()[i as int] == self.slots@[i as int].deep_view());
            match self.slots[i].phase {
                StepPhase::Resolved => {},
                _ => {
                    return false;
                },
            }
            i = i + 1;
        }
        true
    }

    /// Records the outcome of a step at `now`.
    pub fn mark_step_outcome(&mut self, step_id: u128, success: bool, now: Timestamp)
        ensures
            final(self).deep_view() == marked(old(self).deep_view(), step_id, success, now),
    {
        match find(&self.slots, step_id) {
            Some(at) => {
                assert(self.slots.deep_view()[at as int] == self.slots@[at as int].deep_view());
                let kind = self.slots[at].step.task_kind.clone();
                if success {
                    proof {
                        lemma_text_position(self.completed_kinds.deep_view(), kind@);
                    }
                    if find_text(&self.completed_kinds, kind.as_str()).is_none() {
                        let ghost kinds = self.completed_kinds.deep_view();
                        self.completed_kinds.push(kind);
                        assert(self.completed_kinds.deep_view() =~= kinds.push(kind@));
                    }
                } else {
                    proof {
                        lemma_text_position(self.failed_kinds.deep_view(), kind@);
                    }
                    if find_text(&self.failed_kinds, kind.as_str()).is_none() {
                        let ghost kinds = self.failed_kinds.deep_view();
                        self.failed_kinds.push(kind);
                        assert(self.failed_kinds.deep_view() =~= kinds.push(kind@));
                    }
                }
                match self.slots[at].phase {
                    StepPhase::Inflight => {
                        let step = self.slots[at].step.clone();
                        set_row(&mut self.slots, at, StepSlot { step, phase: StepPhase::Resolved });
                    },
                    _ => {},
                }
            },
            None => {},
        }
        self.run.current_step = Some(step_id);
        self.run.updated_at = now;
        if self.is_idle() {
            self.run.completed_at = Some(now);
            if self.failed_kinds.len() == 0 {
                self.run.status = WorkflowRunStatus::Completed;
            } else {
                self.run.status = WorkflowRunStatus::Failed;
            }
        }
    }
}

/// The workflow position that a task payload names.
#[derive(Debug, Clone, Copy, PartialEq, Eq)]
pub struct WorkflowContext {
    pub workflow_id: u128,
    pub run_id: u128,
    pub step_id: u128,
}

/// The identifier that the text member `key` of a payload denotes.
pub open spec fn member_id(payload: JsonModel, key: Seq<char>) -> Option<u128> {
    match member_text(payload, key) {
        Some(text) => uuid_parse(text),
        None => None,
    }
}

/// The workflow position that a payload names: its members `workflow_id`,
/// `workflow_run_id` and `step_id`, where all three are texts that denote identifiers.
pub open spec fn context_of(payload: JsonModel) -> Option<WorkflowContext> {
    match (
        member_id(payload, "workflow_id"@),
        member_id(payload, "workflow_run_id"@),
        member_id(payload, "step_id"@),
    ) {
        (Some(workflow_id), Some(run_id), Some(step_id)) => Some(
            WorkflowContext { workflow_id, run_id, step_id },
        ),
        _ => None,
    }
}

/// The payload of the task of a workflow step: the workflow, the run and the step by the
/// text of their identifiers, and the input.
pub open spec fn step_payload(workflow_id: u128, run_id: u128, step_id: u128, input: JsonModel)
    -> JsonModel {
    JsonModel::Object(
        seq![
            MemberModel { name: "input"@, value: input },
            MemberModel { name: "step_id"@, value: JsonModel::Text(uuid_text(step_id)) },
            MemberModel { name: "workflow_id"@, value: JsonModel::Text(uuid_text(workflow_id)) },
            MemberModel { name: "workflow_run_id"@, value: JsonModel::Text(uuid_text(run_id)) },
        ],
    )
}

/// The identifier that the text member `key` of a payload denotes.
fn member_identifier(payload: &JsonValue, key: &str) -> (id: Option<u128>)
    ensures
        id == member_id(payload.deep_view(), key@),
{
    match payload.get(key) {
        Some(value) => match value.as_str() {
            Some(text) => parse_id(text),
            None => None,
        },
        None => None,
    }
}

/// The workflow position that the payload of a task names.
pub fn workflow_context(task: &Task) -> (context: Option<WorkflowContext>)
    ensures
        context == context_of(task.payload.deep_view()),
{
    let workflow_id = member_identifier(&task.payload, "workflow_id");
    let run_id = member_identifier(&task.payload, "workflow_run_id");
    let step_id = member_identifier(&task.payload, "step_id");
    match (workflow_id, run_id, step_id) {
        (Some(workflow_id), Some(run_id), Some(step_id)) => Some(
            WorkflowContext { workflow_id, run_id, step_id },
        ),
        _ => None,
    }
}

/// The payload of the task of a workflow step. It names the position it was made for.
pub fn step_payload_value(workflow_id: u128, run_id: u128, step_id: u128, input: &JsonValue)
    -> (payload: JsonValue)
    ensures
        payload.deep_view() == step_payload(workflow_id, run_id, step_id, input.deep_view()),
        context_of(payload.deep_view()) == Some(WorkflowContext { workflow_id, run_id, step_id }),
{
    let mut members: Vec<Member> = Vec::new();
    members.push(Member { name: String::from_str("input"), value: input.clone() });
    members.push(
        Member { name: String::from_str("step_id"), value: JsonValue::Text(id_text(step_id)) },
    );
    members.push(
        Member {
            name: String::from_str("workflow_id"),
            value: JsonValue::Text(id_text(workflow_id)),
        },
    );
    members.push(
        Member {
            name: String::from_str("workflow_run_id"),
            value: JsonValue::Text(id_text(run_id)),
        },
    );
    let payload = JsonValue::Object(members);
    proof {
        let want = step_payload(workflow_id, run_id, step_id, input.deep_view());
        let got = payload.deep_view()->Object_0;
        reveal_with_fuel(crate::json::last_member, 5);
        assert(got.len() == 4);
        assert(members@[1].value.deep_view() == JsonModel::Text(uuid_text(step_id)));
        assert(members@[2].value.deep_view() == JsonModel::Text(uuid_text(workflow_id)));
        assert(members@[3].value.deep_view() == JsonModel::Text(uuid_text(run_id)));
        assert(got[0] == MemberModel { name: "input"@, value: input.deep_view() });
        assert(got[1] == MemberModel {
            name: "step_id"@,
            value: JsonModel::Text(uuid_text(step_id)),
        });
        assert(got[2] == MemberModel {
            name: "workflow_id"@,
            value: JsonModel::Text(uuid_text(workflow_id)),
        });
        assert(got[3] == MemberModel {
            name: "workflow_run_id"@,
            value: JsonModel::Text(uuid_text(run_id)),
        });
        assert(got =~= want->Object_0);
        reveal_strlit("input");
        reveal_strlit("step_id");
        reveal_strlit("workflow_id");
        reveal_strlit("workflow_run_id");
        assert("input"@.len() == 5);
        assert("step_id"@.len() == 7);
        assert("workflow_id"@.len() == 11);
        assert("workflow_run_id"@.len() == 15);
        let three = got.drop_last();
        let two = three.drop_last();
        let one = two.drop_last();
        assert(got.last() == got[3]);
        assert(three.last() == got[2]);
        assert(two.last() == got[1]);
        assert(one.last() == got[0]);
        assert(member_text(payload.deep_view(), "workflow_run_id"@) == Some(uuid_text(run_id)));
        assert(member_text(payload.deep_view(), "workflow_id"@) == Some(uuid_text(workflow_id)));
        assert(member_text(payload.deep_view(), "step_id"@) == Some(uuid_text(step_id)));
    }
    payload
}

/// Whether a run status is terminal.
pub fn is_terminal(status: WorkflowRunStatus) -> (r: bool)
    ensures
        r == terminal(status),
{
    match status {
        WorkflowRunStatus::Completed => true,
        WorkflowRunStatus::Failed => true,
        WorkflowRunStatus::Cancelled => true,
        _ => false,
    }
}

} // verus!
