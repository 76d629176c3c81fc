//! The task store: tasks in insertion order, no two sharing a title.
//!
//! Every operation is keyed by title. Mutations that miss their title, and
//! additions that collide with one, leave the store exactly as it was and
//! report an error.

use vstd::prelude::*;
use vstd::string::StrSliceExecFns;
use vstd::string::StringExecFns;
use crate::task::{Task, TaskView, TaskStatus};
use crate::predicate::{Predicate, PredView, views_of, spec_matches, spec_matches_all, spec_parse_predicates, parse_predicates};
use crate::text::str_eq;

verus! {

/// The views of a list of tasks.
pub open spec fn task_views(ts: Seq<Task>) -> Seq<TaskView> {
    ts.map_values(|t: Task| t@)
}

/// Whether some task in `ts` bears the title `k`.
pub open spec fn contains_title(ts: Seq<TaskView>, k: Seq<char>) -> bool {
    exists|i: int| 0 <= i < ts.len() && #[trigger] ts[i].title == k
}

/// No two tasks in `ts` share a title.
pub open spec fn titles_unique(ts: Seq<TaskView>) -> bool {
    forall|i: int, j: int| 0 <= i < j < ts.len() ==> #[trigger] ts[i].title != #[trigger] ts[j].title
}

/// `t` with its status set to done and everything else kept.
pub open spec fn with_done(t: TaskView) -> TaskView {
    TaskView { status: TaskStatus::Done, ..t }
}

/// The in-memory task store.
pub struct TodoList {
    tasks: Vec<Task>,
}

impl View for TodoList {
    type V = Seq<TaskView>;

    closed spec fn view(&self) -> Seq<TaskView> {
        task_views(self.tasks@)
    }
}

impl TodoList {
    /// The store's invariant: titles are unique.
    pub open spec fn wf(&self) -> bool {
        titles_unique(self@)
    }

    /// An empty store.
    pub fn new() -> (r: TodoList)
        ensures
            r@ == Seq::<TaskView>::empty(),
            r.wf(),
    {
        let r = TodoList { tasks: Vec::new() };
        proof {
            assert(r@ =~= Seq::<TaskView>::empty());
        }
        r
    }

    /// The position of the task bearing `title`, if any.
    fn find_index(&self, title: &str) -> (r: Option<usize>)
        ensures
            match r {
                Some(i) => i < self@.len() && self@[i as int].title == title@,
                None => !contains_title(self@, title@),
            },
    {
        let n = self.tasks.len();
        let mut i: usize = 0;
        while i < n
            invariant
                n == self.tasks@.len(),
                0 <= i <= n,
                forall|j: int| 0 <= j < i ==> #[trigger] self@[j].title != title@,
            decreases n - i,
        {
            if str_eq(self.tasks[i].title.as_str(), title) {
                return Some(i);
            }
            i += 1;
        }
        None
    }

    /// Adds a task under its title. A title already present rejects the
    /// task and leaves the store untouched.
    pub fn add_task(&mut self, task: Task) -> (r: Result<(), String>)
        requires
            old(self).wf(),
        ensures
            final(self).wf(),
            r is Ok <==> !contains_title(old(self)@, task@.title),
            r is Ok ==> final(self)@ == old(self)@.push(task@),
            r is Err ==> final(self)@ == old(self)@,
    {
        match self.find_index(task.title.as_str()) {
            Some(_) => Err(
                String::from_str("Task with title '").concat(task.title.as_str()).concat(
                    "' already exists",
                ),
            ),
            None => {
                proof {
                    assert(task_views(self.tasks@.push(task)) =~= self@.push(task@));
                }
                self.tasks.push(task);
                Ok(())
            },
        }
    }

    /// Marks the task bearing `title` as done; a missing title is an error
    /// and leaves the store untouched.
    pub fn mark_as_done(&mut self, title: &str) -> (r: Result<(), String>)
        requires
            old(self).wf(),
        ensures
            final(self).wf(),
            r is Ok <==> contains_title(old(self)@, title@),
            r is Err ==> final(self)@ == old(self)@,
            r is Ok ==> final(self)@.len() == old(self)@.len(),
            r is Ok ==> forall|j: int|
                0 <= j < old(self)@.len() && old(self)@[j].title != title@ ==> final(self)@[j]
                    == old(self)@[j],
            r is Ok ==> forall|j: int|
                0 <= j < old(self)@.len() && old(self)@[j].title == title@ ==> final(self)@[j]
                    == with_done(old(self)@[j]),
    {
        match self.find_index(title) {
            Some(i) => {
                let mut t = self.tasks.remove(i);
                t.status = TaskStatus::Done;
                self.tasks.insert(i, t);
                proof {
                    assert(self@ =~= old(self)@.update(i as int, with_done(old(self)@[i as int])));
                }
                Ok(())
            },
            None => Err(
                String::from_str("Task with title '").concat(title).concat("' not found"),
            ),
        }
    }

    /// Replaces the task bearing `title` with `new_task`; the title is the
    /// key and never changes, so the replacement must bear it too. A
    /// missing title is an error and leaves the store untouched.
    pub fn update_task(&mut self, title: &str, new_task: Task) -> (r: Result<(), String>)
        requires
            old(self).wf(),
            new_task@.title == title@,
        ensures
            final(self).wf(),
            r is Ok <==> contains_title(old(self)@, title@),
            r is Err ==> final(self)@ == old(self)@,
            r is Ok ==> final(self)@.len() == old(self)@.len(),
            r is Ok ==> forall|j: int|
                0 <= j < old(self)@.len() && old(self)@[j].title != title@ ==> final(self)@[j]
                    == old(self)@[j],
            r is Ok ==> forall|j: int|
                0 <= j < old(self)@.len() && old(self)@[j].title == title@ ==> final(self)@[j]
                    == new_task@,
    {
        match self.find_index(title) {
            Some(i) => {
                let _ = self.tasks.remove(i);
                self.tasks.insert(i, new_task);
                proof {
                    assert(self@ =~= old(self)@.update(i as int, new_task@));
                }
                Ok(())
            },
            None => Err(
                String::from_str("Task with title '").concat(title).concat("' not found"),
            ),
        }
    }

    /// Deletes the task bearing `title`; a missing title is an error and
    /// leaves the store untouched.
    pub fn delete_task(&mut self, title: &str) -> (r: Result<(), String>)
        requires
            old(self).wf(),
        ensures
            final(self).wf(),
            r is Ok <==> contains_title(old(self)@, title@),
            r is Err ==> final(self)@ == old(self)@,
            r is Ok ==> exists|i: int|
                0 <= i < old(self)@.len() && #[trigger] old(self)@[i].title == title@
                    && final(self)@ == old(self)@.remove(i),
    {
        match self.find_index(title) {
            Some(i) => {
                let _ = self.tasks.remove(i);
                proof {
                    assert(self@ =~= old(self)@.remove(i as int));
                }
                Ok(())
            },
            None => Err(
                String::from_str("Task with title '").concat(title).concat("' not found"),
            ),
        }
    }

    /// Every task in the store, in store order.
    pub fn get_all_tasks(&self) -> (r: Vec<Task>)
        ensures
            task_views(r@) == self@,
    {
        let n = self.tasks.len();
        let mut out: Vec<Task> = Vec::new();
        while out.len() < n
            invariant
                n == self.tasks@.len(),
                out@.len() <= n,
                task_views(out@) =~= self@.take(out@.len() as int),
            decreases n - out@.len(),
    {
            let i = out.len();
            out.push(self.tasks[i].clone());
            proof {
                assert(task_views(out@) =~= self@.take(out@.len() as int));
            }
        }
        proof {
            assert(self@.take(self@.len() as int) =~= self@);
        }
        out
    }

    /// Every task that satisfies all clauses of the query, in store order;
    /// a query that parses to no clause list is an error, never an empty
    /// result.
    pub fn filter_tasks(&self, predicate: &str) -> (r: Result<Vec<Task>, String>)
        ensures
            r is Ok <==> spec_parse_predicates(predicate@) is Some,
            r is Ok ==> task_views(r->Ok_0@) == self@.filter(
                |t: TaskView| spec_matches_all(t, spec_parse_predicates(predicate@)->0),
            ),
    {
        let preds = match parse_predicates(predicate) {
            Ok(ps) => ps,
            Err(e) => {
                return Err(e);
            },
        };
        let ghost pvs = spec_parse_predicates(predicate@)->0;
        let ghost keep = |t: TaskView| spec_matches_all(t, pvs);
        let n = self.tasks.len();
        let mut out: Vec<Task> = Vec::new();
        let mut i: usize = 0;
        proof {
            reveal(Seq::filter);
            assert(self@.take(0) =~= Seq::<TaskView>::empty());
        }
        while i < n
            invariant
                n == self.tasks@.len(),
                0 <= i <= n,
                views_of(preds@) == pvs,
                keep == (|t: TaskView| spec_matches_all(t, pvs)),
                task_views(out@) == self@.take(i as int).filter(keep),
            decreases n - i,
        {
            let t_matches = matches_all_exec(&preds, &self.tasks[i]);
            proof {
                reveal(Seq::filter);
                assert(self@.take(i as int + 1).drop_last() =~= self@.take(i as int));
                assert(self@.take(i as int + 1).last() == self@[i as int]);
            }
            if t_matches {
                out.push(self.tasks[i].clone());
                proof {
                    assert(task_views(out@) =~= self@.take(i as int).filter(keep).push(
                        self@[i as int],
                    ));
                }
            }
            i += 1;
        }
        proof {
            assert(self@.take(n as int) =~= self@);
        }
        Ok(out)
    }
}

/// Whether every clause of `preds` holds of `task`.
fn matches_all_exec(preds: &Vec<Predicate>, task: &Task) -> (r: bool)
    ensures
        r == spec_matches_all(task@, views_of(preds@)),
{
    let n = preds.len();
    let mut j: usize = 0;
    while j < n
        invariant
            n == preds@.len(),
            0 <= j <= n,
            forall|m: int| 0 <= m < j ==> #[trigger] spec_matches(views_of(preds@)[m], task@),
        decreases n - j,
    {
        if !preds[j].matches(task) {
            proof {
                assert(views_of(preds@)[j as int] == preds@[j as int]@);
            }
            return false;
        }
        j += 1;
    }
    true
}

} // verus!