//! What becomes of the chunks whose meshes are being built in the background.
use vstd::prelude::*;

verus! {

/// What has to be done about a chunk's task after it has been polled.
#[derive(Debug)]
pub enum PollAction<M> {
    /// Leave the task as it is.
    Wait,
    /// Remove the task; there is nothing to show.
    Remove,
    /// Show the mesh and remove the task.
    SpawnAndRemove(M),
}

/// What has to be done about a task that gave `polled`: nothing while it is unfinished, else its
/// outcome, which is a mesh or nothing.
pub open spec fn spec_poll_terrain<M>(polled: Option<Option<M>>) -> PollAction<M> {
    match polled {
        None => PollAction::Wait,
        Some(None) => PollAction::Remove,
        Some(Some(mesh)) => PollAction::SpawnAndRemove(mesh),
    }
}

/// What has to be done about a task that gave `polled`.
pub fn poll_terrain<M>(polled: Option<Option<M>>) -> (action: PollAction<M>)
    ensures
        action == spec_poll_terrain(polled),
{
    match polled {
        None => PollAction::Wait,
        Some(None) => PollAction::Remove,
        Some(Some(mesh)) => PollAction::SpawnAndRemove(mesh),
    }
}

/// The meshes shown after a round in which the tasks gave `polls`, in the order of the tasks.
pub open spec fn shown<M>(polls: Seq<Option<Option<M>>>) -> Seq<M>
    decreases polls.len(),
{
    if polls.len() == 0 {
        seq![]
    } else {
        let before = shown(polls.drop_last());
        match spec_poll_terrain(polls.last()) {
            PollAction::SpawnAndRemove(mesh) => before.push(mesh),
            _ => before,
        }
    }
}

/// Those of the tasks that are still there after a round in which they gave `polls`.
pub open spec fn remaining<T, M>(tasks: Seq<T>, polls: Seq<Option<Option<M>>>) -> Seq<T>
    decreases polls.len(),
{
    if polls.len() == 0 {
        seq![]
    } else {
        let before = remaining(tasks, polls.drop_last());
        match spec_poll_terrain(polls.last()) {
            PollAction::Wait => before.push(tasks[polls.len() - 1]),
            _ => before,
        }
    }
}

/// Whether the task is one of those that are unfinished.
pub open spec fn is_pending<T, M>(tasks: Seq<T>, polls: Seq<Option<Option<M>>>, task: T) -> bool {
    exists|i: int| 0 <= i < polls.len() && #[trigger] polls[i] is None && tasks[i] == task
}

/// A task is waited for just while it is unfinished, and a mesh is shown just if the task finished with
/// it: that mesh and no other.
pub proof fn law_outcome_decides<M>(polled: Option<Option<M>>, action: PollAction<M>)
    requires
        call_ensures(poll_terrain::<M>, (polled,), action),
    ensures
        action is Wait <==> polled is None,
        action is Remove <==> polled == Some(None::<M>),
        action is SpawnAndRemove <==> polled is Some && polled->0 is Some,
        polled matches Some(Some(mesh)) ==> action == PollAction::SpawnAndRemove(mesh),
{
}

/// The meshes shown in a round are those of the tasks that finished with one, in the order of the
/// tasks: one more task adds its mesh at the end, if it has one, and stays, if it is unfinished.
pub proof fn law_one_more_task<T, M>(
    tasks: Seq<T>,
    polls: Seq<Option<Option<M>>>,
    task: T,
    polled: Option<Option<M>>,
)
    requires
        tasks.len() == polls.len(),
    ensures
        shown(polls.push(polled)) == (match polled {
            Some(Some(mesh)) => shown(polls).push(mesh),
            _ => shown(polls),
        }),
        remaining(tasks.push(task), polls.push(polled)) == (if polled is None {
            remaining(tasks, polls).push(task)
        } else {
            remaining(tasks, polls)
        }),
{
    assert(polls.push(polled).drop_last() =~= polls);
    lemma_remaining_of_prefix(tasks.push(task), tasks, polls);
}

/// In a round as many meshes are shown as tasks finished with one, and as many tasks stay as are
/// unfinished.
pub proof fn law_counts_of_a_round<T, M>(tasks: Seq<T>, polls: Seq<Option<Option<M>>>)
    requires
        tasks.len() == polls.len(),
    ensures
        shown(polls).len() == polls.filter(|p: Option<Option<M>>| p is Some && p->0 is Some).len(),
        remaining(tasks, polls).len() == polls.filter(|p: Option<Option<M>>| p is None).len(),
        shown(polls).len() + remaining(tasks, polls).len() + polls.filter(
            |p: Option<Option<M>>| p is Some && p->0 is None,
        ).len() == polls.len(),
    decreases polls.len(),
{
    reveal(Seq::filter);
    if polls.len() > 0 {
        law_counts_of_a_round(tasks.drop_last(), polls.drop_last());
        lemma_remaining_of_prefix(tasks, tasks.drop_last(), polls.drop_last());
    }
}

/// What remains of the polled tasks does not depend on those that come after them.
proof fn lemma_remaining_of_prefix<T, M>(s: Seq<T>, t: Seq<T>, polls: Seq<Option<Option<M>>>)
    requires
        polls.len() <= s.len(),
        polls.len() <= t.len(),
        forall|i: int| 0 <= i < polls.len() ==> s[i] == t[i],
    ensures
        remaining(s, polls) == remaining(t, polls),
    decreases polls.len(),
{
    if polls.len() > 0 {
        lemma_remaining_of_prefix(s, t, polls.drop_last());
    }
}

/// Just the unfinished tasks stay.
pub proof fn law_just_the_unfinished_stay<T, M>(
    tasks: Seq<T>,
    polls: Seq<Option<Option<M>>>,
    task: T,
)
    requires
        tasks.len() == polls.len(),
    ensures
        remaining(tasks, polls).contains(task) <==> is_pending(tasks, polls, task),
    decreases polls.len(),
{
    if polls.len() > 0 {
        let last = polls.len() - 1;
        let earlier = polls.drop_last();
        let before = remaining(tasks, earlier);
        law_just_the_unfinished_stay(tasks.drop_last(), earlier, task);
        lemma_remaining_of_prefix(tasks, tasks.drop_last(), earlier);
        if remaining(tasks, polls).contains(task) {
            let k = choose|k: int|
                0 <= k < remaining(tasks, polls).len() && remaining(tasks, polls)[k] == task;
            if k < before.len() {
                assert(before[k] == task);
                assert(before.contains(task));
                let i = choose|i: int|
                    0 <= i < earlier.len() && #[trigger] earlier[i] is None && tasks.drop_last()[i]
                        == task;
                assert(polls[i] is None && tasks[i] == task);
            } else {
                assert(polls[last] is None && tasks[last] == task);
            }
        }
        if is_pending(tasks, polls, task) {
            let i = choose|i: int|
                0 <= i < polls.len() && #[trigger] polls[i] is None && tasks[i] == task;
            if i < last {
                assert(earlier[i] is None && tasks.drop_last()[i] == task);
                let k = choose|k: int| 0 <= k < before.len() && before[k] == task;
                assert(remaining(tasks, polls)[k] == task);
            } else {
                assert(remaining(tasks, polls).last() == task);
            }
        }
    }
}

/// A round in which no task has finished changes nothing: nothing is shown and every task stays. So
/// the mesh of a finished task is shown once, for the task does not come to another round.
pub proof fn law_idle_round_changes_nothing<T, M>(tasks: Seq<T>, polls: Seq<Option<Option<M>>>)
    requires
        tasks.len() == polls.len(),
        forall|i: int| 0 <= i < polls.len() ==> #[trigger] polls[i] is None,
    ensures
        shown(polls) == Seq::<M>::empty(),
        remaining(tasks, polls) == tasks,
    decreases polls.len(),
{
    if polls.len() > 0 {
        let earlier = polls.drop_last();
        assert forall|i: int| 0 <= i < earlier.len() implies #[trigger] earlier[i] is None by {
            assert(polls[i] is None);
        }
        law_idle_round_changes_nothing(tasks.drop_last(), earlier);
        lemma_remaining_of_prefix(tasks, tasks.drop_last(), earlier);
        assert(polls[polls.len() - 1] is None);
        assert(remaining(tasks, polls) =~= tasks);
    }
}

} // verus!
