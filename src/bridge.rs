use vstd::prelude::*;

use crate::store::{ids_below, next_id_after, titles_nonempty, valid_seed, TaskStore};
use crate::task::Task;

verus! {

/// The tasks that a store starts from, given what was read back from storage:
/// `None` when nothing was stored or it did not decode as a list of tasks.
/// A decoded list that breaks the store's invariant counts as no prior state.
pub open spec fn seed_of(decoded: Option<Seq<Task>>) -> Seq<Task> {
    match decoded {
        Some(s) => if valid_seed(s) {
            s
        } else {
            Seq::empty()
        },
        None => Seq::empty(),
    }
}

/// The view of what was read back from storage.
pub open spec fn decoded_view(decoded: Option<Vec<Task>>) -> Option<Seq<Task>> {
    match decoded {
        Some(v) => Some(v@),
        None => None,
    }
}

/// Whether a store can start from `tasks`.
pub fn is_valid_seed(tasks: &Vec<Task>) -> (r: bool)
    ensures
        r == valid_seed(tasks@),
{
    let n = tasks.len();
    let mut i: usize = 0;
    while i < n
        invariant
            n == tasks@.len(),
            0 <= i <= n,
            titles_nonempty(tasks@.take(i as int)),
            ids_below(tasks@.take(i as int), u64::MAX as nat),
            forall|a: int, b: int| 0 <= a < i && 0 <= b < n && a != b ==> tasks@[a].id != tasks@[b].id,
        decreases n - i,
    {
        let t = &tasks[i];
        if t.title.as_str().is_empty() || t.id == u64::MAX {
            assert(tasks@[i as int] == t);
            return false;
        }
        let mut j: usize = 0;
        while j < n
            invariant
                n == tasks@.len(),
                0 <= i < n,
                0 <= j <= n,
                t == tasks@[i as int],
                forall|b: int| 0 <= b < j && b != i ==> tasks@[i as int].id != tasks@[b].id,
            decreases n - j,
        {
            if j != i && tasks[j].id == t.id {
                return false;
            }
            j = j + 1;
        }
        assert(tasks@.take(i + 1)[i as int] == tasks@[i as int]);
        i = i + 1;
    }
    assert(tasks@.take(i as int) =~= tasks@);
    true
}

/// The tasks to start from: those that were decoded, when there were any and
/// a store can start from them, else none.
pub fn seed_from(decoded: Option<Vec<Task>>) -> (r: Vec<Task>)
    ensures
        r@ == seed_of(decoded_view(decoded)),
{
    match decoded {
        Some(tasks) => if is_valid_seed(&tasks) {
            tasks
        } else {
            Vec::new()
        },
        None => Vec::new(),
    }
}

/// The store at startup, from what was read back from storage. It never
/// fails: missing or unusable data gives an empty store.
pub fn restore(decoded: Option<Vec<Task>>) -> (r: TaskStore)
    ensures
        r.wf(),
        r@.tasks == seed_of(decoded_view(decoded)),
        r@.next_id == next_id_after(r@.tasks),
{
    let seed = seed_from(decoded);
    TaskStore::initialize(seed)
}

} // verus!
