use vstd::prelude::*;

verus! {

/// One entry of the list: an identifier, a title and a completion flag.
#[derive(Debug, PartialEq, Eq)]
pub struct Task {
    pub id: u64,
    pub title: String,
    pub completed: bool,
}

impl Clone for Task {
    fn clone(&self) -> (r: Task)
        ensures
            r == *self,
    {
        Task { id: self.id, title: self.title.clone(), completed: self.completed }
    }
}

impl Task {
    /// A task that is not yet completed.
    pub fn new(id: u64, title: &str) -> (r: Task)
        ensures
            r.id == id,
            r.title@ == title@,
            !r.completed,
    {
        Task { id, title: title.to_owned(), completed: false }
    }
}

} // verus!
