use vstd::prelude::*;

use crate::store::{
    add_post, completed_tasks, ids_distinct, open_tasks, purge_post, store_invariant, toggle_post,
    StoreModel,
};
use crate::task::Task;

verus! {

/// One operation of a session took the store from `a` to `b`.
pub open spec fn session_step(a: StoreModel, b: StoreModel) -> bool {
    ||| exists|title: Seq<char>| add_post(a, title, b)
    ||| exists|id: u64| toggle_post(a, id, b)
    ||| purge_post(a, b)
}

/// `states` is a session: it starts from a store that keeps its invariant,
/// and each state follows from the one before by one operation.
pub open spec fn is_session(states: Seq<StoreModel>) -> bool {
    &&& states.len() > 0
    &&& store_invariant(states[0])
    &&& forall|k: int| 0 <= k < states.len() - 1 ==> session_step(#[trigger] states[k], states[k + 1])
}

/// The step from `a` to `b` was an `add` that created a task.
pub open spec fn created_task(a: StoreModel, b: StoreModel) -> bool {
    b.tasks.len() == a.tasks.len() + 1 && b.next_id == a.next_id + 1
}

proof fn lemma_step_facts(a: StoreModel, b: StoreModel)
    requires
        session_step(a, b),
    ensures
        b.next_id >= a.next_id,
        created_task(a, b) ==> b.tasks.last().id == a.next_id,
        !created_task(a, b) ==> b.next_id == a.next_id,
{
    if exists|title: Seq<char>| add_post(a, title, b) {
        let title = choose|title: Seq<char>| add_post(a, title, b);
        assert(add_post(a, title, b));
    }
}

proof fn lemma_counter_never_drops(states: Seq<StoreModel>, i: int, j: int)
    requires
        is_session(states),
        0 <= i <= j < states.len(),
    ensures
        states[i].next_id <= states[j].next_id,
    decreases j - i,
{
    if i < j {
        lemma_counter_never_drops(states, i, j - 1);
        assert(session_step(states[j - 1], states[j]));
        lemma_step_facts(states[j - 1], states[j]);
    }
}

/// Over a session, a task created by a later `add` has a strictly larger id
/// than one created by an earlier `add`, so no two created tasks share an id,
/// whatever was purged in between.
pub proof fn lemma_created_ids_increase(states: Seq<StoreModel>, i: int, j: int)
    requires
        is_session(states),
        0 <= i < j < states.len() - 1,
        created_task(states[i], states[i + 1]),
        created_task(states[j], states[j + 1]),
    ensures
        states[i + 1].tasks.last().id < states[j + 1].tasks.last().id,
{
    assert(session_step(states[i], states[i + 1]));
    assert(session_step(states[j], states[j + 1]));
    lemma_step_facts(states[i], states[i + 1]);
    lemma_step_facts(states[j], states[j + 1]);
    lemma_counter_never_drops(states, i + 1, j);
}

/// Every state of a session keeps the store's invariant; in particular the
/// tasks it holds have pairwise distinct ids.
pub proof fn lemma_session_keeps_ids_distinct(states: Seq<StoreModel>, k: int)
    requires
        is_session(states),
        0 <= k < states.len(),
    ensures
        store_invariant(states[k]),
        ids_distinct(states[k].tasks),
    decreases k,
{
    if k > 0 {
        lemma_session_keeps_ids_distinct(states, k - 1);
        assert(session_step(states[k - 1], states[k]));
        lemma_step_keeps_invariant(states[k - 1], states[k]);
    }
}

proof fn lemma_step_keeps_invariant(a: StoreModel, b: StoreModel)
    requires
        store_invariant(a),
        session_step(a, b),
    ensures
        store_invariant(b),
{
    if exists|title: Seq<char>| add_post(a, title, b) {
        let title = choose|title: Seq<char>| add_post(a, title, b);
        assert(add_post(a, title, b));
        if b != a {
            assert forall|i: int| 0 <= i < a.tasks.len() implies b.tasks[i] == a.tasks[i] by {
                assert(b.tasks.drop_last()[i] == b.tasks[i]);
            }
        }
    } else if exists|id: u64| toggle_post(a, id, b) {
        let id = choose|id: u64| toggle_post(a, id, b);
        assert(toggle_post(a, id, b));
    } else {
        lemma_open_tasks_come_from(a.tasks);
    }
}

proof fn lemma_open_tasks_come_from(s: Seq<Task>)
    ensures
        ids_distinct(s) ==> ids_distinct(open_tasks(s)),
        forall|k: int| 0 <= k < open_tasks(s).len() ==> s.contains(#[trigger] open_tasks(s)[k]),
    decreases s.len(),
{
    reveal(Seq::filter);
    if s.len() > 0 {
        let rest = s.drop_last();
        lemma_open_tasks_come_from(rest);
        assert forall|k: int| 0 <= k < open_tasks(s).len() implies s.contains(
            #[trigger] open_tasks(s)[k],
        ) by {
            if k < open_tasks(rest).len() {
                assert(rest.contains(open_tasks(rest)[k]));
                let m = choose|m: int| 0 <= m < rest.len() && rest[m] == open_tasks(rest)[k];
                assert(s[m] == rest[m]);
            } else {
                assert(s[s.len() - 1] == s.last());
            }
        }
        if ids_distinct(s) {
            assert forall|k: int| 0 <= k < open_tasks(rest).len() implies open_tasks(rest)[k].id
                != s.last().id by {
                assert(rest.contains(open_tasks(rest)[k]));
                let m = choose|m: int| 0 <= m < rest.len() && rest[m] == open_tasks(rest)[k];
                assert(s[m] == rest[m]);
            }
            assert(ids_distinct(rest));
        }
    }
}

/// Toggling the same id twice in a row gives back the store as it was: the
/// flag returns to its old value, and no other task or position changes.
pub proof fn lemma_toggle_twice(a: StoreModel, id: u64, b: StoreModel, c: StoreModel)
    requires
        toggle_post(a, id, b),
        toggle_post(b, id, c),
    ensures
        c == a,
{
    assert(c.tasks =~= a.tasks);
}

proof fn lemma_filter_split(s: Seq<Task>)
    ensures
        open_tasks(s).len() + completed_tasks(s).len() == s.len(),
    decreases s.len(),
{
    reveal(Seq::filter);
    if s.len() > 0 {
        lemma_filter_split(s.drop_last());
    }
}

/// After a purge the store holds exactly the tasks that were open before, in
/// their order, and it has lost as many tasks as were completed.
pub proof fn lemma_purge_keeps_open(a: StoreModel, b: StoreModel)
    requires
        purge_post(a, b),
    ensures
        b.tasks == open_tasks(a.tasks),
        forall|k: int| 0 <= k < b.tasks.len() ==> !(#[trigger] b.tasks[k]).completed,
        a.tasks.len() - b.tasks.len() == completed_tasks(a.tasks).len(),
{
    lemma_filter_split(a.tasks);
    assert forall|k: int| 0 <= k < b.tasks.len() implies !(#[trigger] b.tasks[k]).completed by {
        a.tasks.lemma_filter_pred(|t: Task| !t.completed, k);
    }
}

} // verus!
