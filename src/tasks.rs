//! The mothership's own queue of pickup tasks, drained first in, first out.
use vstd::prelude::*;
use std::collections::VecDeque;
use crate::geometry::Coordinate;

verus! {

/// A first-in, first-out queue of task positions.
#[derive(Debug)]
pub struct TaskQueue {
    pub tasks: VecDeque<Coordinate>,
}

impl View for TaskQueue {
    type V = Seq<Coordinate>;

    open spec fn view(&self) -> Seq<Coordinate> {
        self.tasks@
    }
}

impl TaskQueue {
    /// A queue holding `tasks`, first to last.
    pub fn from_tasks(tasks: Vec<Coordinate>) -> (r: TaskQueue)
        ensures
            r@ == tasks@,
    {
        let mut q: VecDeque<Coordinate> = VecDeque::new();
        let mut i: usize = 0;
        while i < tasks.len()
            invariant
                0 <= i <= tasks@.len(),
                q@ == tasks@.take(i as int),
            decreases tasks@.len() - i,
        {
            q.push_back(tasks[i]);
            i += 1;
            assert(q@ =~= tasks@.take(i as int));
        }
        assert(tasks@.take(i as int) =~= tasks@);
        TaskQueue { tasks: q }
    }

    /// Adds a task at the back.
    pub fn push(&mut self, task: Coordinate)
        ensures
            final(self)@ == old(self)@.push(task),
    {
        self.tasks.push_back(task);
    }

    /// Takes the task at the front, if any.
    pub fn next_task(&mut self) -> (r: Option<Coordinate>)
        ensures
            old(self)@.len() == 0 ==> r.is_none() && final(self)@ == old(self)@,
            old(self)@.len() > 0 ==> r == Some(old(self)@[0]) && final(self)@ == old(
                self,
            )@.drop_first(),
    {
        self.tasks.pop_front()
    }

    /// The number of tasks waiting.
    pub fn len(&self) -> (r: usize)
        ensures
            r == self@.len(),
    {
        self.tasks.len()
    }
}

} // verus!
