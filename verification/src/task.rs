use vstd::prelude::*;
use vstd::string::*;

verus! {

/// Identifier of a task.
pub type TaskId = u64;

/// Identifier of a robot.
pub type RobotId = u64;

/// Identifier of a zone; zones are numbered from 1.
pub type ZoneId = u64;

/// A unit of work that a robot fetches from the queue.
#[derive(Debug)]
pub struct Task {
    pub id: TaskId,
    pub description: String,
}

impl Task {
    /// Build a task from its id and a human-readable description.
    pub fn new(id: TaskId, description: &str) -> (task: Task)
        ensures
            task.id == id,
            task.description@ == description@,
    {
        Task { id, description: String::from_str(description) }
    }
}

} // verus!
