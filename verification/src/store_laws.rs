//! What holds of the store of tasks across its operations.
use vstd::prelude::*;
use crate::models::{Task, TaskStatus, TaskView};
use crate::persistence::{lemma_pending_of, pending_of};
use crate::table::{
    arranged, distinct, lemma_arranged, lemma_contains_present, lemma_replaced, lookup, ordered,
    present, replaced,
};

verus! {

/// The pending tasks of a tenant are listed in the order of the instants they are
/// scheduled for, none before an earlier one; the listing holds the pending tasks of the
/// tenant that are in the store, and nothing else.
pub proof fn law_pending_listing(tasks: Seq<TaskView>, tenant: u128)
    ensures
        forall|i: int, j: int|
            0 <= i < j < arranged::<Task>(pending_of(tasks, tenant)).len() ==> (
            #[trigger] arranged::<Task>(pending_of(tasks, tenant))[i]).scheduled_at <= (
            #[trigger] arranged::<Task>(pending_of(tasks, tenant))[j]).scheduled_at,
        forall|t: TaskView|
            #[trigger] arranged::<Task>(pending_of(tasks, tenant)).contains(t) <==> (
            tasks.contains(t) && t.tenant_id == tenant && t.status == TaskStatus::Pending),
{
    broadcast use vstd::seq_lib::group_to_multiset_ensures;

    let pending = pending_of(tasks, tenant);
    let listing = arranged::<Task>(pending);
    lemma_arranged::<Task>(pending);
    lemma_pending_of(tasks, tenant);
    assert(ordered::<Task>(listing));
    assert forall|t: TaskView| #[trigger] listing.contains(t) <==> (tasks.contains(t)
        && t.tenant_id == tenant && t.status == TaskStatus::Pending) by {
        assert(listing.contains(t) <==> listing.to_multiset().count(t) > 0);
        assert(pending.contains(t) <==> pending.to_multiset().count(t) > 0);
    }
}

/// Once a task is updated to a status other than pending, no listing of pending tasks
/// holds a task of its identifier.
pub proof fn law_updated_task_leaves_pending(tasks: Seq<TaskView>, task: TaskView, tenant: u128)
    requires
        distinct::<Task>(tasks),
        present::<Task>(tasks, task.id),
        task.status != TaskStatus::Pending,
    ensures
        forall|t: TaskView|
            #[trigger] arranged::<Task>(pending_of(replaced::<Task>(tasks, task), tenant)).contains(
                t,
            ) ==> t.id != task.id,
{
    let after = replaced::<Task>(tasks, task);
    lemma_replaced::<Task>(tasks, task);
    law_pending_listing(after, tenant);
    assert forall|t: TaskView| #[trigger] arranged::<Task>(pending_of(after, tenant)).contains(
        t,
    ) implies t.id != task.id by {
        if t.id == task.id {
            lemma_contains_present::<Task>(after, t);
            assert(lookup::<Task>(after, task.id) == Some(t));
        }
    }
}

} // verus!
