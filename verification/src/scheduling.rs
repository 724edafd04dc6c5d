//! How the next task is chosen: the policy of each task kind and the scheduler
//! strategies.
use vstd::prelude::*;
use crate::models::{TaskTimeouts, TaskView};
use crate::text::text_position;

verus! {

/// How tasks of one kind are retried, ranked and timed.
#[derive(Debug, Clone, Copy, PartialEq, Eq)]
pub struct TaskPolicy {
    pub timeouts: Option<TaskTimeouts>,
    pub max_retries: u32,
    pub backoff_seconds: Option<u64>,
    pub priority: u32,
}

/// The policy of a kind that has none registered: three retries, thirty seconds of
/// backoff, priority 100, no timeouts.
pub open spec fn default_policy() -> TaskPolicy {
    TaskPolicy { timeouts: None, max_retries: 3, backoff_seconds: Some(30), priority: 100 }
}

impl Default for TaskPolicy {
    fn default() -> (policy: Self)
        ensures
            policy == default_policy(),
    {
        TaskPolicy { timeouts: None, max_retries: 3, backoff_seconds: Some(30), priority: 100 }
    }
}

/// How the next task is chosen among the pending ones.
#[derive(Debug, Clone, Copy, PartialEq, Eq, Structural)]
pub enum SchedulerStrategy {
    /// The earliest scheduled task wins.
    Fifo,
    /// The lowest numeric priority wins; ties go to the earliest scheduled task.
    Priority,
    /// The earliest scheduled task whose kind differs from the kind dispatched last wins;
    /// if every pending task is of that kind, the earliest scheduled one wins.
    FairnessByKind,
}

/// The policy registered for `kind`, or the default policy.
pub open spec fn policy_for(kinds: Seq<Seq<char>>, values: Seq<TaskPolicy>, kind: Seq<char>)
    -> TaskPolicy {
    let at = text_position(kinds, kind);
    if at < kinds.len() && at < values.len() {
        values[at]
    } else {
        default_policy()
    }
}

/// Whether `a` goes strictly before `b` under a strategy: by scheduled instant, under
/// `Priority` by priority first.
pub open spec fn goes_before(
    strategy: SchedulerStrategy,
    kinds: Seq<Seq<char>>,
    values: Seq<TaskPolicy>,
    a: TaskView,
    b: TaskView,
) -> bool {
    match strategy {
        SchedulerStrategy::Priority => {
            let pa = policy_for(kinds, values, a.kind).priority;
            let pb = policy_for(kinds, values, b.kind).priority;
            pa < pb || (pa == pb && a.scheduled_at < b.scheduled_at)
        },
        _ => a.scheduled_at < b.scheduled_at,
    }
}

/// Whether a task may be chosen while another kind is to be preferred: under
/// `FairnessByKind` a task of the kind dispatched last may not.
pub open spec fn eligible(strategy: SchedulerStrategy, avoid: Option<Seq<char>>, task: TaskView)
    -> bool {
    strategy == SchedulerStrategy::FairnessByKind ==> (avoid matches Some(kind) ==> task.kind
        != kind)
}

/// Whether a task is admitted to a choice: every task is unless the choice is restricted
/// to the eligible ones.
pub open spec fn admitted(
    strategy: SchedulerStrategy,
    avoid: Option<Seq<char>>,
    restrict: bool,
    task: TaskView,
) -> bool {
    restrict ==> eligible(strategy, avoid, task)
}

/// `at` is the first of the best admitted tasks: no admitted task goes before it, and it
/// goes before every admitted task that stands earlier in the list.
pub open spec fn first_best(
    strategy: SchedulerStrategy,
    kinds: Seq<Seq<char>>,
    values: Seq<TaskPolicy>,
    avoid: Option<Seq<char>>,
    restrict: bool,
    pending: Seq<TaskView>,
    at: int,
) -> bool {
    &&& 0 <= at < pending.len()
    &&& admitted(strategy, avoid, restrict, pending[at])
    &&& forall|j: int|
        0 <= j < pending.len() && admitted(strategy, avoid, restrict, #[trigger] pending[j])
            ==> !goes_before(strategy, kinds, values, pending[j], pending[at])
    &&& forall|j: int|
        0 <= j < at && admitted(strategy, avoid, restrict, #[trigger] pending[j]) ==> goes_before(
            strategy,
            kinds,
            values,
            pending[at],
            pending[j],
        )
}

/// Whether some pending task is eligible.
pub open spec fn some_eligible(
    strategy: SchedulerStrategy,
    avoid: Option<Seq<char>>,
    pending: Seq<TaskView>,
) -> bool {
    exists|j: int| 0 <= j < pending.len() && eligible(strategy, avoid, #[trigger] pending[j])
}

/// `at` is the task a strategy chooses: the first of the best eligible tasks, or of all
/// tasks if none is eligible.
pub open spec fn chosen(
    strategy: SchedulerStrategy,
    kinds: Seq<Seq<char>>,
    values: Seq<TaskPolicy>,
    avoid: Option<Seq<char>>,
    pending: Seq<TaskView>,
    at: int,
) -> bool {
    first_best(
        strategy,
        kinds,
        values,
        avoid,
        some_eligible(strategy, avoid, pending),
        pending,
        at,
    )
}

/// At most one task is the chosen one.
pub proof fn law_choice_is_unique(
    strategy: SchedulerStrategy,
    kinds: Seq<Seq<char>>,
    values: Seq<TaskPolicy>,
    avoid: Option<Seq<char>>,
    pending: Seq<TaskView>,
    a: int,
    b: int,
)
    requires
        chosen(strategy, kinds, values, avoid, pending, a),
        chosen(strategy, kinds, values, avoid, pending, b),
    ensures
        a == b,
{
    if a < b {
        assert(goes_before(strategy, kinds, values, pending[b], pending[a]));
    } else if b < a {
        assert(goes_before(strategy, kinds, values, pending[a], pending[b]));
    }
}

/// Under `Fifo` the chosen task is one that is scheduled no later than any other.
pub proof fn law_fifo_takes_earliest(
    kinds: Seq<Seq<char>>,
    values: Seq<TaskPolicy>,
    avoid: Option<Seq<char>>,
    pending: Seq<TaskView>,
    at: int,
)
    requires
        chosen(SchedulerStrategy::Fifo, kinds, values, avoid, pending, at),
    ensures
        forall|j: int|
            0 <= j < pending.len() ==> pending[at].scheduled_at <= (
            #[trigger] pending[j]).scheduled_at,
{
    assert forall|j: int| 0 <= j < pending.len() implies pending[at].scheduled_at <= (
    #[trigger] pending[j]).scheduled_at by {
        assert(admitted(
            SchedulerStrategy::Fifo,
            avoid,
            some_eligible(SchedulerStrategy::Fifo, avoid, pending),
            pending[j],
        ));
    }
}

} // verus!
