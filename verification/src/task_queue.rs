//! FIFO task queue with a shutdown flag.
//!
//! The queue holds the state that threads share behind a mutex: the pending
//! tasks, oldest first, and whether the queue has been closed. Each method is
//! one critical section. Waiting for a task is not done here: the blocking
//! pops report `Wait` and the caller sleeps on its condition variable until a
//! push or a close wakes it.
use vstd::prelude::*;
use std::collections::VecDeque;
use crate::task::Task;

verus! {

/// Abstract state of a task queue.
pub ghost struct QueueState {
    /// Pending tasks, front first.
    pub tasks: Seq<Task>,
    /// Whether the queue has been closed.
    pub closed: bool,
}

/// What a shutdown-aware blocking pop decides in one critical section.
pub enum PopStep {
    /// The front task was removed and is handed out.
    Ready(Task),
    /// The queue is closed and empty: no task will ever come.
    Closed,
    /// The queue is open and empty: wait for a push or a close, then retry.
    Wait,
}

/// A FIFO queue of robot tasks that can be closed.
pub struct TaskQueue {
    queue: VecDeque<Task>,
    closed: bool,
}

impl View for TaskQueue {
    type V = QueueState;

    closed spec fn view(&self) -> QueueState {
        QueueState { tasks: self.queue@, closed: self.closed }
    }
}

/// The state after pushing `task`: unchanged when closed, else `task` at the back.
pub open spec fn push_spec(s: QueueState, task: Task) -> QueueState {
    if s.closed {
        s
    } else {
        QueueState { tasks: s.tasks.push(task), ..s }
    }
}

/// The state after removing the front task, if any.
pub open spec fn pop_spec(s: QueueState) -> QueueState {
    if s.tasks.len() == 0 {
        s
    } else {
        QueueState { tasks: s.tasks.drop_first(), ..s }
    }
}

/// The front task, if any.
pub open spec fn front_spec(s: QueueState) -> Option<Task> {
    if s.tasks.len() == 0 {
        None
    } else {
        Some(s.tasks[0])
    }
}

/// What one step of a shutdown-aware blocking pop decides in state `s`.
pub open spec fn pop_step_spec(s: QueueState) -> PopStep {
    if s.tasks.len() > 0 {
        PopStep::Ready(s.tasks[0])
    } else if s.closed {
        PopStep::Closed
    } else {
        PopStep::Wait
    }
}

/// The state after closing.
pub open spec fn close_spec(s: QueueState) -> QueueState {
    QueueState { closed: true, ..s }
}

impl TaskQueue {
    /// Create an empty, open task queue.
    pub fn new() -> (q: TaskQueue)
        ensures
            q@.tasks == Seq::<Task>::empty(),
            !q@.closed,
    {
        TaskQueue { queue: VecDeque::new(), closed: false }
    }

    /// Push a task at the back; hands the task back if the queue is closed.
    pub fn push(&mut self, task: Task) -> (res: Result<(), Task>)
        ensures
            final(self)@ == push_spec(old(self)@, task),
            old(self)@.closed <==> res is Err,
            res matches Err(t) ==> t == task,
    {
        if self.closed {
            return Err(task);
        }
        self.queue.push_back(task);
        Ok(())
    }

    /// Remove and return the front task without waiting.
    pub fn try_pop(&mut self) -> (res: Option<Task>)
        ensures
            res == front_spec(old(self)@),
            final(self)@ == pop_spec(old(self)@),
    {
        self.queue.pop_front()
    }

    /// One step of a blocking pop that treats a closed queue as fatal: the
    /// front task, or `None` when the caller has to wait for a push.
    pub fn pop_blocking(&mut self) -> (res: Option<Task>)
        requires
            !(old(self)@.closed && old(self)@.tasks.len() == 0),
        ensures
            res == front_spec(old(self)@),
            final(self)@ == pop_spec(old(self)@),
    {
        self.queue.pop_front()
    }

    /// One step of a blocking pop that ends when the queue is closed: the front
    /// task if there is one, else `Closed` when closed, else `Wait`.
    pub fn pop_blocking_or_closed(&mut self) -> (res: PopStep)
        ensures
            final(self)@ == pop_spec(old(self)@),
            res == pop_step_spec(old(self)@),
    {
        match self.queue.pop_front() {
            Some(task) => PopStep::Ready(task),
            None => {
                if self.closed {
                    PopStep::Closed
                } else {
                    PopStep::Wait
                }
            },
        }
    }

    /// Close the queue: later pushes are refused; queued tasks can still be popped.
    pub fn close(&mut self)
        ensures
            final(self)@ == close_spec(old(self)@),
    {
        self.closed = true;
    }

    /// Remove every queued task and return how many there were.
    pub fn drain(&mut self) -> (n: usize)
        ensures
            n == old(self)@.tasks.len(),
            final(self)@.tasks == Seq::<Task>::empty(),
            final(self)@.closed == old(self)@.closed,
    {
        let total = self.queue.len();
        let mut n: usize = 0;
        while self.queue.len() > 0
            invariant
                total == old(self).queue@.len(),
                n + self.queue@.len() == total,
                self.closed == old(self).closed,
            decreases self.queue@.len(),
        {
            self.queue.pop_front();
            n = n + 1;
        }
        n
    }

    /// Current number of queued tasks.
    pub fn len(&self) -> (n: usize)
        ensures
            n == self@.tasks.len(),
    {
        self.queue.len()
    }

    /// Whether the queue has been closed.
    pub fn is_closed(&self) -> (b: bool)
        ensures
            b == self@.closed,
    {
        self.closed
    }
}

/// Tasks leave in the order they entered: pushing onto an open queue does not
/// change which task comes out next unless the queue was empty, and pushing
/// commutes with popping a non-empty queue.
pub proof fn law_fifo_order(s: QueueState, task: Task)
    requires
        !s.closed,
    ensures
        front_spec(push_spec(s, task)) == (if s.tasks.len() == 0 { Some(task) } else { front_spec(s) }),
        s.tasks.len() > 0 ==> pop_spec(push_spec(s, task)) == push_spec(pop_spec(s), task),
{
    if s.tasks.len() > 0 {
        assert(s.tasks.push(task).drop_first() =~= s.tasks.drop_first().push(task));
    }
}

/// A task is handed out at most once: a pop returns the front task and leaves
/// exactly the tasks behind it, in order.
pub proof fn law_pop_hands_out_once(s: QueueState)
    requires
        s.tasks.len() > 0,
    ensures
        s.tasks == seq![front_spec(s)->0] + pop_spec(s).tasks,
{
    assert(s.tasks =~= seq![s.tasks[0]] + s.tasks.drop_first());
}

/// The blocking pop that treats a closed queue as fatal agrees with the
/// shutdown-aware one: it hands out the same task, waits where that waits,
/// and the one case it leaves out, a closed and empty queue, is exactly
/// where the shutdown-aware pop reports `Closed`.
pub proof fn law_pop_blocking_agrees(s: QueueState)
    ensures
        !(s.closed && s.tasks.len() == 0) <==> !(pop_step_spec(s) is Closed),
        !(s.closed && s.tasks.len() == 0) ==> front_spec(s) == match pop_step_spec(s) {
            PopStep::Ready(t) => Some(t),
            _ => None::<Task>,
        },
{
}

/// Closing is permanent and refuses later pushes, while queued tasks stay and
/// can still be popped.
pub proof fn law_closed_queue(s: QueueState, task: Task)
    ensures
        close_spec(s).closed,
        close_spec(s).tasks == s.tasks,
        s.closed ==> push_spec(s, task) == s,
        s.closed ==> pop_spec(s).closed,
{
}

} // verus!
