//! The text lines that show a task and its creation time.
use vstd::prelude::*;

use crate::model::TaskView;
use crate::registry::{Task, TodoList};

verus! {

/// The character of a decimal digit.
pub open spec fn digit_char(d: nat) -> char {
    if d == 0 {
        '0'
    } else if d == 1 {
        '1'
    } else if d == 2 {
        '2'
    } else if d == 3 {
        '3'
    } else if d == 4 {
        '4'
    } else if d == 5 {
        '5'
    } else if d == 6 {
        '6'
    } else if d == 7 {
        '7'
    } else if d == 8 {
        '8'
    } else {
        '9'
    }
}

/// `n` written in decimal, without sign or leading zeros.
pub open spec fn decimal(n: nat) -> Seq<char>
    decreases n,
{
    if n < 10 {
        seq![digit_char(n)]
    } else {
        decimal(n / 10).push(digit_char(n % 10))
    }
}

/// Relies on `ToString` for `u64`, through its `Display`: the number in
/// decimal, without sign or leading zeros.
#[verifier::external_body]
fn decimal_string(n: u64) -> (r: String)
    ensures
        r@ == decimal(n as nat),
{
    n.to_string()
}

/// `true` or `false`, spelled out.
pub open spec fn bool_text(b: bool) -> Seq<char> {
    if b {
        "true"@
    } else {
        "false"@
    }
}

/// The line that shows a task: `Task: <description>, Completed: <true|false>`.
pub open spec fn task_line_text(t: TaskView) -> Seq<char> {
    "Task: "@ + t.description + ", Completed: "@ + bool_text(t.completed)
}

/// The line that shows when a task was made: `Task <id> was created at <seconds>`.
pub open spec fn creation_line_text(id: u32, created_at: u64) -> Seq<char> {
    "Task "@ + decimal(id as nat) + " was created at "@ + decimal(created_at as nat)
}

/// The line that shows `task`.
pub fn task_line(task: &Task) -> (r: String)
    ensures
        r@ == task_line_text(task@),
{
    let mut line = String::from_str("Task: ");
    line.append(task.description());
    line.append(", Completed: ");
    if task.completed() {
        line.append("true");
    } else {
        line.append("false");
    }
    line
}

impl TodoList {
    /// The line that shows when task `task_id` was made, or `None` when
    /// there is no such task.
    pub fn creation_time_line(&self, task_id: u32) -> (r: Option<String>)
        ensures
            match self@.creation_time(task_id) {
                Some(t) => r is Some && r->0@ == creation_line_text(task_id, t),
                None => r is None,
            },
    {
        match self.creation_time(task_id) {
            Some(created_at) => {
                let mut line = String::from_str("Task ");
                line.append(decimal_string(task_id as u64).as_str());
                line.append(" was created at ");
                line.append(decimal_string(created_at).as_str());
                Some(line)
            },
            None => None,
        }
    }
}

} // verus!
