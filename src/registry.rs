//! The task list itself: tasks held in a hash map keyed by identifier.
use std::collections::HashMap;
use vstd::prelude::*;

use crate::model::{RegistryModel, TaskView};
use vstd::std_specs::hash::spec_keys_iter;
use vstd::std_specs::iter::IteratorSpec;

verus! {

broadcast use vstd::std_specs::hash::group_hash_axioms;

/// One to-do item. Its creation time is fixed when the task is made.
pub struct Task {
    description: String,
    completed: bool,
    created_at: u64,
}

impl View for Task {
    type V = TaskView;

    closed spec fn view(&self) -> TaskView {
        TaskView {
            description: self.description@,
            completed: self.completed,
            created_at: self.created_at,
        }
    }
}

impl Task {
    /// What the task is about.
    pub fn description(&self) -> (r: &str)
        ensures
            r@ == self@.description,
    {
        self.description.as_str()
    }

    /// Whether the task is done.
    pub fn completed(&self) -> (r: bool)
        ensures
            r == self@.completed,
    {
        self.completed
    }

    /// When the task was made, in seconds since the Unix epoch.
    pub fn created_at(&self) -> (r: u64)
        ensures
            r == self@.created_at,
    {
        self.created_at
    }
}

/// All tasks, and the identifier that the next added task receives.
pub struct TodoList {
    tasks: HashMap<u32, Task>,
    next_id: u32,
}

impl View for TodoList {
    type V = RegistryModel;

    closed spec fn view(&self) -> RegistryModel {
        RegistryModel {
            tasks: self.tasks@.map_values(|t: Task| t@),
            next_id: self.next_id as nat,
        }
    }
}

/// Relies on `SystemTime::now` and `SystemTime::duration_since`: the whole
/// seconds from the Unix epoch to now, or `None` when the clock reads earlier
/// than the epoch. Nothing is promised of the value, which is the time.
#[verifier::external_body]
fn seconds_since_epoch() -> (r: Option<u64>) {
    match std::time::SystemTime::now().duration_since(std::time::UNIX_EPOCH) {
        Ok(elapsed) => Some(elapsed.as_secs()),
        Err(_) => None,
    }
}

/// A listing of tasks as the model sees it.
pub open spec fn listing_view<'a>(r: Seq<(u32, &'a Task)>) -> Seq<(u32, TaskView)> {
    r.map_values(|p: (u32, &'a Task)| (p.0, p.1@))
}

impl TodoList {
    /// The list is well formed: every live identifier was handed out earlier.
    pub open spec fn wf(&self) -> bool {
        self@.wf()
    }

    /// The model's tasks are the map's, entry by entry.
    proof fn lemma_view_entries(&self)
        ensures
            self@.tasks.dom() == self.tasks@.dom(),
            forall|k: u32| #[trigger] self.tasks@.contains_key(k) ==> self@.tasks[k] == self.tasks@[k]@,
    {
        assert(self@.tasks.dom() =~= self.tasks@.dom());
    }

    /// An empty list whose first task will get identifier 1.
    pub fn new() -> (r: TodoList)
        ensures
            r.wf(),
            r@ == RegistryModel::empty(),
    {
        let r = TodoList { tasks: HashMap::new(), next_id: 1 };
        assert(r@.tasks =~= Map::empty());
        r
    }

    /// The identifier that the next added task will receive.
    pub fn next_id(&self) -> (r: u32)
        ensures
            r as nat == self@.next_id,
    {
        self.next_id
    }

    /// Adds a task, not completed, created at `created_at` (seconds since the
    /// Unix epoch), under the next identifier, and returns that identifier.
    pub fn add_task_at(&mut self, description: String, created_at: u64) -> (id: u32)
        requires
            old(self).wf(),
            old(self)@.next_id < u32::MAX,
        ensures
            final(self).wf(),
            id as nat == old(self)@.next_id,
            !old(self)@.tasks.contains_key(id),
            final(self)@ == old(self)@.add(description@, created_at),
    {
        let id = self.next_id;
        let task = Task { description, completed: false, created_at };
        self.tasks.insert(id, task);
        self.next_id = id + 1;
        assert(self@.tasks =~= old(self)@.add(description@, created_at).tasks);
        id
    }

    /// Adds a task created now and returns its identifier. Returns `None`,
    /// and adds nothing, when the clock reads earlier than the Unix epoch.
    pub fn add_task(&mut self, description: String) -> (r: Option<u32>)
        requires
            old(self).wf(),
            old(self)@.next_id < u32::MAX,
        ensures
            final(self).wf(),
            match r {
                Some(id) => {
                    &&& id as nat == old(self)@.next_id
                    &&& final(self)@.tasks.contains_key(id)
                    &&& final(self)@ == old(self)@.add(
                        description@,
                        final(self)@.tasks[id].created_at,
                    )
                },
                None => final(self)@ == old(self)@,
            },
    {
        match seconds_since_epoch() {
            Some(now) => Some(self.add_task_at(description, now)),
            None => None,
        }
    }

    /// Removes the task `task_id`; does nothing if there is none.
    pub fn remove_task(&mut self, task_id: u32)
        requires
            old(self).wf(),
        ensures
            final(self).wf(),
            final(self)@ == old(self)@.remove(task_id),
    {
        self.tasks.remove(&task_id);
        assert(self@.tasks =~= old(self)@.remove(task_id).tasks);
    }

    /// Replaces the description of task `task_id`; does nothing if there is none.
    pub fn update_task(&mut self, task_id: u32, description: String)
        requires
            old(self).wf(),
        ensures
            final(self).wf(),
            final(self)@ == old(self)@.update(task_id, description@),
    {
        match self.tasks.remove(&task_id) {
            Some(task) => {
                let updated = Task {
                    description,
                    completed: task.completed,
                    created_at: task.created_at,
                };
                self.tasks.insert(task_id, updated);
                assert(self@.tasks =~= old(self)@.update(task_id, description@).tasks);
            },
            None => {
                assert(self@.tasks =~= old(self)@.tasks);
            },
        }
    }

    /// Marks task `task_id` completed; does nothing if there is none.
    pub fn mark_task_as_completed(&mut self, task_id: u32)
        requires
            old(self).wf(),
        ensures
            final(self).wf(),
            final(self)@ == old(self)@.complete(task_id),
    {
        match self.tasks.remove(&task_id) {
            Some(task) => {
                let updated = Task {
                    description: task.description,
                    completed: true,
                    created_at: task.created_at,
                };
                self.tasks.insert(task_id, updated);
                assert(self@.tasks =~= old(self)@.complete(task_id).tasks);
            },
            None => {
                assert(self@.tasks =~= old(self)@.tasks);
            },
        }
    }

    /// The identifiers of all tasks, each once, in the map's order.
    fn task_ids(&self) -> (ids: Vec<u32>)
        ensures
            ids@.no_duplicates(),
            ids@.to_set() == self.tasks@.dom(),
    {
        let mut ids: Vec<u32> = Vec::new();
        let keys = self.tasks.keys();
        for key in it: keys
            invariant
                it.seq() == keys.remaining(),
                keys == spec_keys_iter(&self.tasks),
                ids.len() == it.index(),
                forall|i: int| 0 <= i < ids.len() ==> #[trigger] ids@[i] == *it.seq()[i],
        {
            ids.push(*key);
        }
        proof {
            let ks = spec_keys_iter(&self.tasks).remaining();
            assert(ks.no_duplicates());
            assert(ids@ =~= ks.unref());
        }
        ids
    }

    /// Every task with its identifier, incomplete tasks before completed ones.
    /// Among tasks with the same flag the order is the map's.
    pub fn sort_tasks_by_completion(&self) -> (r: Vec<(u32, &Task)>)
        requires
            self.wf(),
        ensures
            self@.is_completion_listing(listing_view(r@)),
    {
        let ghost m = self@.tasks;
        proof {
            self.lemma_view_entries();
        }
        let ids = self.task_ids();
        let mut pending: Vec<(u32, &Task)> = Vec::new();
        let mut done: Vec<(u32, &Task)> = Vec::new();
        let mut n: usize = 0;
        while n < ids.len()
            invariant
                n <= ids.len(),
                ids@.no_duplicates(),
                ids@.to_set() == m.dom(),
                m == self@.tasks,
                m.dom() == self.tasks@.dom(),
                forall|k: u32| #[trigger] self.tasks@.contains_key(k) ==> m[k] == self.tasks@[k]@,
                forall|i: int|
                    0 <= i < pending.len() ==> m.contains_key(#[trigger] pending@[i].0)
                        && m[pending@[i].0] == pending@[i].1@ && !pending@[i].1@.completed,
                forall|i: int|
                    0 <= i < done.len() ==> m.contains_key(#[trigger] done@[i].0)
                        && m[done@[i].0] == done@[i].1@ && done@[i].1@.completed,
                forall|i: int|
                    #![trigger pending@[i]]
                    0 <= i < pending.len() ==> exists|j: int|
                        0 <= j < n && #[trigger] ids@[j] == pending@[i].0,
                forall|i: int|
                    #![trigger done@[i]]
                    0 <= i < done.len() ==> exists|j: int|
                        0 <= j < n && #[trigger] ids@[j] == done@[i].0,
                forall|j: int|
                    #![trigger ids@[j]]
                    0 <= j < n ==> (exists|i: int|
                        0 <= i < pending.len() && #[trigger] pending@[i].0 == ids@[j]) || (exists|
                        i: int,
                    | 0 <= i < done.len() && #[trigger] done@[i].0 == ids@[j]),
                forall|i: int, k: int| 0 <= i < k < pending.len() ==> pending@[i].0 != pending@[k].0,
                forall|i: int, k: int| 0 <= i < k < done.len() ==> done@[i].0 != done@[k].0,
            decreases ids.len() - n,
        {
            let id = ids[n];
            proof {
                assert(ids@.contains(id));
                assert(ids@.to_set().contains(id));
            }
            let ghost old_pending = pending@;
            let ghost old_done = done@;
            match self.tasks.get(&id) {
                Some(task) => {
                    if task.completed {
                        done.push((id, task));
                    } else {
                        pending.push((id, task));
                    }
                },
                None => {},
            }
            proof {
                assert forall|i: int| #![trigger pending@[i]] 0 <= i < pending.len() implies exists|j: int|
                    0 <= j < n + 1 && #[trigger] ids@[j] == pending@[i].0 by {
                    if i < old_pending.len() {
                        let j = choose|j: int| 0 <= j < n && #[trigger] ids@[j] == old_pending[i].0;
                        assert(ids@[j] == pending@[i].0);
                    } else {
                        assert(ids@[n as int] == pending@[i].0);
                    }
                }
                assert forall|i: int| #![trigger done@[i]] 0 <= i < done.len() implies exists|j: int|
                    0 <= j < n + 1 && #[trigger] ids@[j] == done@[i].0 by {
                    if i < old_done.len() {
                        let j = choose|j: int| 0 <= j < n && #[trigger] ids@[j] == old_done[i].0;
                        assert(ids@[j] == done@[i].0);
                    } else {
                        assert(ids@[n as int] == done@[i].0);
                    }
                }
                assert forall|i: int, k: int| 0 <= i < k < pending.len() implies pending@[i].0
                    != pending@[k].0 by {
                    if k == old_pending.len() {
                        let j = choose|j: int| 0 <= j < n && #[trigger] ids@[j] == old_pending[i].0;
                        assert(ids@[j] != ids@[n as int]);
                    }
                }
                assert forall|i: int, k: int| 0 <= i < k < done.len() implies done@[i].0
                    != done@[k].0 by {
                    if k == old_done.len() {
                        let j = choose|j: int| 0 <= j < n && #[trigger] ids@[j] == old_done[i].0;
                        assert(ids@[j] != ids@[n as int]);
                    }
                }
                assert forall|j: int| #![trigger ids@[j]] 0 <= j < n + 1 implies (exists|i: int|
                    0 <= i < pending.len() && #[trigger] pending@[i].0 == ids@[j]) || (exists|
                    i: int,
                | 0 <= i < done.len() && #[trigger] done@[i].0 == ids@[j]) by {
                    if j == n {
                        if m[id].completed {
                            assert(done@[done.len() - 1].0 == ids@[j]);
                        } else {
                            assert(pending@[pending.len() - 1].0 == ids@[j]);
                        }
                    } else if exists|i: int|
                        0 <= i < old_pending.len() && #[trigger] old_pending[i].0 == ids@[j] {
                        let i = choose|i: int|
                            0 <= i < old_pending.len() && #[trigger] old_pending[i].0 == ids@[j];
                        assert(pending@[i].0 == ids@[j]);
                    } else {
                        let i = choose|i: int|
                            0 <= i < old_done.len() && #[trigger] old_done[i].0 == ids@[j];
                        assert(done@[i].0 == ids@[j]);
                    }
                }
            }
            n = n + 1;
        }
        let ghost p = pending@;
        let ghost d = done@;
        pending.append(&mut done);
        proof {
            let r = listing_view(pending@);
            assert(pending@ == p + d);
            assert(r =~= listing_view(p) + listing_view(d));
            assert(r.len() == p.len() + d.len());
            assert forall|id: u32| #[trigger] m.contains_key(id) implies exists|i: int|
                0 <= i < r.len() && #[trigger] r[i].0 == id by {
                assert(ids@.to_set().contains(id));
                let j = choose|j: int| 0 <= j < ids.len() && ids@[j] == id;
                assert(ids@[j] == id);
                if exists|i: int| 0 <= i < p.len() && #[trigger] p[i].0 == ids@[j] {
                    let i = choose|i: int| 0 <= i < p.len() && #[trigger] p[i].0 == ids@[j];
                    assert(r[i].0 == id);
                } else {
                    let i = choose|i: int| 0 <= i < d.len() && #[trigger] d[i].0 == ids@[j];
                    assert(r[p.len() + i].0 == id);
                }
            }
            assert forall|i: int, j: int| 0 <= i < j < r.len() implies r[i].0 != r[j].0 by {
                if i < p.len() && j >= p.len() {
                    assert(r[i] == (p[i].0, p[i].1@));
                    assert(r[j] == (d[j - p.len()].0, d[j - p.len()].1@));
                    assert(!p[i].1@.completed);
                    assert(d[j - p.len()].1@.completed);
                } else if i < p.len() {
                    assert(r[i].0 == p[i].0);
                    assert(r[j].0 == p[j].0);
                } else {
                    assert(r[i].0 == d[i - p.len()].0);
                    assert(r[j].0 == d[j - p.len()].0);
                }
            }
        }
        pending
    }

    /// The creation time of task `task_id`, or `None` if there is no such task.
    pub fn creation_time(&self, task_id: u32) -> (r: Option<u64>)
        ensures
            r == self@.creation_time(task_id),
    {
        match self.tasks.get(&task_id) {
            Some(task) => Some(task.created_at),
            None => None,
        }
    }
}

} // verus!
