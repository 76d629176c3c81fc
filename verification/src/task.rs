//! The task record and its field types: status, category, and the task
//! itself, keyed by its title.

use vstd::prelude::*;
use crate::datetime::{DateTime, dt_valid, now};
use crate::text::{lower_seq, lower_matches};
use vstd::string::StringExecFns;

verus! {

/// Whether a task is still open or finished.
#[derive(Clone, Copy, PartialEq, Eq, Structural, Debug)]
pub enum TaskStatus {
    Active,
    Done,
}

/// The status named by `s`, ignoring ASCII case: `on`, `active` or `a` for
/// active, `done` or `d` for done, nothing else.
pub open spec fn spec_parse_status(s: Seq<char>) -> Option<TaskStatus> {
    let l = lower_seq(s);
    if l == "on"@ || l == "active"@ || l == "a"@ {
        Some(TaskStatus::Active)
    } else if l == "done"@ || l == "d"@ {
        Some(TaskStatus::Done)
    } else {
        None
    }
}

impl TaskStatus {
    /// Parses a status word; errors exactly on the words that name no
    /// status.
    pub fn parse(s: &str) -> (r: Result<TaskStatus, String>)
        ensures
            r is Ok <==> spec_parse_status(s@) is Some,
            r is Ok ==> r->Ok_0 == spec_parse_status(s@)->0,
    {
        if lower_matches(s, "on") || lower_matches(s, "active") || lower_matches(s, "a") {
            Ok(TaskStatus::Active)
        } else if lower_matches(s, "done") || lower_matches(s, "d") {
            Ok(TaskStatus::Done)
        } else {
            Err(String::from_str("Invalid status"))
        }
    }

    /// The word this status prints as.
    pub fn to_text(&self) -> (r: String)
        ensures
            *self == TaskStatus::Active ==> r@ == "on"@,
            *self == TaskStatus::Done ==> r@ == "done"@,
    {
        match self {
            TaskStatus::Active => String::from_str("on"),
            TaskStatus::Done => String::from_str("done"),
        }
    }
}

impl core::str::FromStr for TaskStatus {
    type Err = String;

    fn from_str(s: &str) -> Result<TaskStatus, String> {
        TaskStatus::parse(s)
    }
}

/// A free-text label grouping tasks.
#[derive(Debug)]
pub struct Category(pub String);

impl Clone for Category {
    fn clone(&self) -> (r: Self)
        ensures
            r == *self,
    {
        Category(self.0.clone())
    }
}

impl View for Category {
    type V = Seq<char>;

    open spec fn view(&self) -> Seq<char> {
        self.0@
    }
}

impl Category {
    /// Every string names a category: parsing cannot fail.
    pub fn parse(s: &str) -> (r: Category)
        ensures
            r@ == s@,
    {
        Category(String::from_str(s))
    }

    /// The label's text.
    pub fn to_text(&self) -> (r: String)
        ensures
            r@ == self@,
    {
        self.0.clone()
    }
}

impl core::str::FromStr for Category {
    type Err = String;

    fn from_str(s: &str) -> Result<Category, String> {
        Ok(Category::parse(s))
    }
}

/// A titled record: the title is the store key and never changes after
/// creation.
#[derive(Debug)]
pub struct Task {
    pub title: String,
    pub description: String,
    pub creation_date: DateTime,
    pub category: Category,
    pub status: TaskStatus,
}

/// The mathematical image of a task: its strings as character sequences.
pub ghost struct TaskView {
    pub title: Seq<char>,
    pub description: Seq<char>,
    pub creation_date: DateTime,
    pub category: Seq<char>,
    pub status: TaskStatus,
}

impl View for Task {
    type V = TaskView;

    open spec fn view(&self) -> TaskView {
        TaskView {
            title: self.title@,
            description: self.description@,
            creation_date: self.creation_date,
            category: self.category@,
            status: self.status,
        }
    }
}

impl Clone for Task {
    fn clone(&self) -> (r: Self)
        ensures
            r == *self,
    {
        Task {
            title: self.title.clone(),
            description: self.description.clone(),
            creation_date: self.creation_date,
            category: self.category.clone(),
            status: self.status,
        }
    }
}

impl Task {
    /// A fresh task: active, created at the clock's current local time.
    pub fn new(title: String, description: String, category: Category) -> (r: Task)
        ensures
            r@.title == title@,
            r@.description == description@,
            r@.category == category@,
            r@.status == TaskStatus::Active,
            dt_valid(r@.creation_date),
    {
        Task {
            title,
            description,
            creation_date: now(),
            category,
            status: TaskStatus::Active,
        }
    }
}

} // verus!
