use vstd::prelude::*;

use crate::task::Task;
use crate::text::{trim_seq, trim_text};

verus! {

/// What a store holds: its tasks in display order, and the identifier that
/// the next successful `add` hands out.
pub struct StoreModel {
    pub tasks: Seq<Task>,
    pub next_id: nat,
}

/// No two tasks of `s` share an id.
pub open spec fn ids_distinct(s: Seq<Task>) -> bool {
    forall|i: int, j: int| 0 <= i < s.len() && 0 <= j < s.len() && i != j ==> s[i].id != s[j].id
}

/// Every task of `s` has an id below `n`.
pub open spec fn ids_below(s: Seq<Task>, n: nat) -> bool {
    forall|i: int| 0 <= i < s.len() ==> s[i].id < n
}

/// Every task of `s` has a non-empty title.
pub open spec fn titles_nonempty(s: Seq<Task>) -> bool {
    forall|i: int| 0 <= i < s.len() ==> s[i].title@.len() > 0
}

/// A sequence that a store can start from: distinct ids, non-empty titles, and
/// no id so large that the counter after it would not fit in a `u64`.
pub open spec fn valid_seed(s: Seq<Task>) -> bool {
    &&& ids_distinct(s)
    &&& titles_nonempty(s)
    &&& ids_below(s, u64::MAX as nat)
}

/// One more than the largest id in `s`, or 0 when `s` is empty.
pub open spec fn next_id_after(s: Seq<Task>) -> nat
    decreases s.len(),
{
    if s.len() == 0 {
        0
    } else {
        let rest = next_id_after(s.drop_last());
        let here = (s.last().id + 1) as nat;
        if rest >= here {
            rest
        } else {
            here
        }
    }
}

/// What holds of a store between operations.
pub open spec fn store_invariant(m: StoreModel) -> bool {
    &&& ids_distinct(m.tasks)
    &&& titles_nonempty(m.tasks)
    &&& ids_below(m.tasks, m.next_id)
    &&& m.next_id <= u64::MAX
}

/// The tasks of `s` that are completed, in order.
pub open spec fn completed_tasks(s: Seq<Task>) -> Seq<Task> {
    s.filter(|t: Task| t.completed)
}

/// The tasks of `s` that are still open, in order.
pub open spec fn open_tasks(s: Seq<Task>) -> Seq<Task> {
    s.filter(|t: Task| !t.completed)
}

/// `t` with its completion flag inverted.
pub open spec fn flipped(t: Task) -> Task {
    Task { id: t.id, title: t.title, completed: !t.completed }
}

/// `s` with every task whose id is `id` flipped, in place.
pub open spec fn toggle_seq(s: Seq<Task>, id: u64) -> Seq<Task> {
    Seq::new(s.len(), |i: int| if s[i].id == id { flipped(s[i]) } else { s[i] })
}

/// `b` is what `add(title)` leaves of `a`. A title that is blank once trimmed
/// leaves the store as it was, and so does an exhausted counter.
pub open spec fn add_post(a: StoreModel, title: Seq<char>, b: StoreModel) -> bool {
    let t = trim_seq(title);
    if t.len() == 0 || a.next_id >= u64::MAX {
        b == a
    } else {
        &&& b.next_id == a.next_id + 1
        &&& b.tasks.len() == a.tasks.len() + 1
        &&& b.tasks.drop_last() == a.tasks
        &&& b.tasks.last().id == a.next_id
        &&& b.tasks.last().title@ == t
        &&& !b.tasks.last().completed
    }
}

/// `b` is what `toggle(id)` leaves of `a`.
pub open spec fn toggle_post(a: StoreModel, id: u64, b: StoreModel) -> bool {
    b == StoreModel { tasks: toggle_seq(a.tasks, id), next_id: a.next_id }
}

/// `b` is what `purge_completed()` leaves of `a`.
pub open spec fn purge_post(a: StoreModel, b: StoreModel) -> bool {
    b == StoreModel { tasks: open_tasks(a.tasks), next_id: a.next_id }
}

proof fn lemma_ids_below_next(s: Seq<Task>)
    ensures
        ids_below(s, next_id_after(s)),
    decreases s.len(),
{
    if s.len() > 0 {
        lemma_ids_below_next(s.drop_last());
        assert forall|i: int| 0 <= i < s.len() implies s[i].id < next_id_after(s) by {
            if i < s.len() - 1 {
                assert(s[i] == s.drop_last()[i]);
            }
        }
    }
}

/// The in-memory list of tasks and the counter that identifies new ones.
pub struct TaskStore {
    tasks: Vec<Task>,
    next_id: u64,
}

impl View for TaskStore {
    type V = StoreModel;

    closed spec fn view(&self) -> StoreModel {
        StoreModel { tasks: self.tasks@, next_id: self.next_id as nat }
    }
}

impl TaskStore {
    /// The store's invariant holds.
    pub open spec fn wf(&self) -> bool {
        store_invariant(self@)
    }

    /// An empty store whose first task gets id 0.
    pub fn new() -> (r: TaskStore)
        ensures
            r.wf(),
            r@.tasks.len() == 0,
            r@.next_id == 0,
    {
        TaskStore { tasks: Vec::new(), next_id: 0 }
    }

    /// A store holding `seed`, whose next task gets one more than the largest
    /// id of `seed` (0 when `seed` is empty).
    pub fn initialize(seed: Vec<Task>) -> (r: TaskStore)
        requires
            valid_seed(seed@),
        ensures
            r.wf(),
            r@.tasks == seed@,
            r@.next_id == next_id_after(seed@),
    {
        let mut next: u64 = 0;
        let mut i: usize = 0;
        while i < seed.len()
            invariant
                0 <= i <= seed@.len(),
                valid_seed(seed@),
                next as nat == next_id_after(seed@.take(i as int)),
            decreases seed@.len() - i,
        {
            assert(seed@.take(i + 1).drop_last() =~= seed@.take(i as int));
            assert(seed@.take(i + 1).last() == seed@[i as int]);
            if seed[i].id >= next {
                next = seed[i].id + 1;
            }
            i = i + 1;
        }
        assert(seed@.take(i as int) =~= seed@);
        proof {
            lemma_ids_below_next(seed@);
        }
        TaskStore { tasks: seed, next_id: next }
    }

    /// A copy of the tasks, in display order.
    pub fn snapshot(&self) -> (r: Vec<Task>)
        ensures
            r@ == self@.tasks,
    {
        let mut r: Vec<Task> = Vec::new();
        let mut i: usize = 0;
        while i < self.tasks.len()
            invariant
                0 <= i <= self.tasks@.len(),
                r@ == self.tasks@.take(i as int),
            decreases self.tasks@.len() - i,
        {
            r.push(self.tasks[i].clone());
            assert(r@ =~= self.tasks@.take(i + 1));
            i = i + 1;
        }
        assert(self.tasks@.take(i as int) =~= self.tasks@);
        r
    }

    /// Appends a task titled with `title` trimmed, unless that is empty.
    /// Returns the tasks afterwards.
    pub fn add(&mut self, title: &str) -> (r: Vec<Task>)
        requires
            old(self).wf(),
        ensures
            final(self).wf(),
            add_post(old(self)@, title@, final(self)@),
            r@ == final(self)@.tasks,
    {
        let t = trim_text(title);
        if t.as_str().is_empty() || self.next_id == u64::MAX {
            return self.snapshot();
        }
        let ghost before = self@;
        self.tasks.push(Task { id: self.next_id, title: t, completed: false });
        self.next_id = self.next_id + 1;
        assert(self@.tasks.drop_last() =~= before.tasks);
        assert forall|i: int| 0 <= i < before.tasks.len() implies self@.tasks[i] == before.tasks[i] by {
            assert(self@.tasks.drop_last()[i] == self@.tasks[i]);
        }
        self.snapshot()
    }

    /// Flips the completion flag of the task with id `id`, where there is one,
    /// keeping its place. Returns the tasks afterwards.
    pub fn toggle(&mut self, id: u64) -> (r: Vec<Task>)
        requires
            old(self).wf(),
        ensures
            final(self).wf(),
            toggle_post(old(self)@, id, final(self)@),
            r@ == final(self)@.tasks,
    {
        let ghost before = self@;
        let mut i: usize = 0;
        while i < self.tasks.len()
            invariant
                0 <= i <= self.tasks@.len(),
                self.tasks@.len() == before.tasks.len(),
                self.next_id == before.next_id,
                store_invariant(before),
                forall|j: int| 0 <= j < i ==> self.tasks@[j] == toggle_seq(before.tasks, id)[j],
                forall|j: int| i <= j < self.tasks@.len() ==> self.tasks@[j] == before.tasks[j],
            decreases self.tasks@.len() - i,
        {
            if self.tasks[i].id == id {
                let cur = &self.tasks[i];
                let next = Task { id: cur.id, title: cur.title.clone(), completed: !cur.completed };
                self.tasks[i] = next;
            }
            i = i + 1;
        }
        assert(self.tasks@ =~= toggle_seq(before.tasks, id));
        self.snapshot()
    }

    /// Removes every completed task, keeping the order of the others.
    /// Returns the tasks afterwards.
    pub fn purge_completed(&mut self) -> (r: Vec<Task>)
        requires
            old(self).wf(),
        ensures
            final(self).wf(),
            purge_post(old(self)@, final(self)@),
            r@ == final(self)@.tasks,
    {
        let ghost before = self@;
        let mut kept: Vec<Task> = Vec::new();
        let ghost mut from: Seq<int> = Seq::empty();
        let mut i: usize = 0;
        while i < self.tasks.len()
            invariant
                0 <= i <= self.tasks@.len(),
                self@ == before,
                kept@ == open_tasks(self.tasks@.take(i as int)),
                from.len() == kept@.len(),
                forall|k: int| 0 <= k < from.len() ==> 0 <= #[trigger] from[k] < i,
                forall|k: int| 0 <= k < from.len() ==> kept@[k] == self.tasks@[#[trigger] from[k]],
                forall|k: int, l: int| 0 <= k < l < from.len() ==> from[k] < from[l],
            decreases self.tasks@.len() - i,
        {
            proof {
                reveal(Seq::filter);
                assert(self.tasks@.take(i + 1).drop_last() =~= self.tasks@.take(i as int));
                assert(self.tasks@.take(i + 1).last() == self.tasks@[i as int]);
            }
            if !self.tasks[i].completed {
                kept.push(self.tasks[i].clone());
                proof {
                    from = from.push(i as int);
                }
            }
            i = i + 1;
        }
        assert(self.tasks@.take(i as int) =~= self.tasks@);
        assert forall|k: int, l: int| 0 <= k < kept@.len() && 0 <= l < kept@.len() && k != l
            implies kept@[k].id != kept@[l].id by {
            assert(kept@[k] == self.tasks@[from[k]]);
            assert(kept@[l] == self.tasks@[from[l]]);
        }
        assert forall|k: int| 0 <= k < kept@.len() implies kept@[k].id < before.next_id
            && kept@[k].title@.len() > 0 by {
            assert(kept@[k] == self.tasks@[from[k]]);
        }
        self.tasks = kept;
        self.snapshot()
    }

    /// The number of tasks, and the number of those that are completed.
    pub fn counts(&self) -> (r: (usize, usize))
        ensures
            r.0 == self@.tasks.len(),
            r.1 == completed_tasks(self@.tasks).len(),
    {
        let mut done: usize = 0;
        let mut i: usize = 0;
        while i < self.tasks.len()
            invariant
                0 <= i <= self.tasks@.len(),
                done == completed_tasks(self.tasks@.take(i as int)).len(),
                done <= i,
            decreases self.tasks@.len() - i,
        {
            proof {
                reveal(Seq::filter);
                assert(self.tasks@.take(i + 1).drop_last() =~= self.tasks@.take(i as int));
                assert(self.tasks@.take(i + 1).last() == self.tasks@[i as int]);
            }
            if self.tasks[i].completed {
                done = done + 1;
            }
            i = i + 1;
        }
        assert(self.tasks@.take(i as int) =~= self.tasks@);
        (self.tasks.len(), done)
    }
}

} // verus!
