//! The mathematical model of a task list, and the laws that its operations obey.
use vstd::prelude::*;

verus! {

/// What a task is, abstractly.
pub ghost struct TaskView {
    pub description: Seq<char>,
    pub completed: bool,
    pub created_at: u64,
}

/// What a task list is, abstractly: the live tasks by identifier, and the
/// identifier that the next added task receives.
pub ghost struct RegistryModel {
    pub tasks: Map<u32, TaskView>,
    pub next_id: nat,
}

/// One operation on a task list.
pub ghost enum Op {
    Add { description: Seq<char>, created_at: u64 },
    Remove { id: u32 },
    Update { id: u32, description: Seq<char> },
    Complete { id: u32 },
}

impl RegistryModel {
    /// A fresh list: no tasks, and identifiers start at 1.
    pub open spec fn empty() -> RegistryModel {
        RegistryModel { tasks: Map::empty(), next_id: 1 }
    }

    /// Every live identifier was handed out earlier: it is at least 1 and
    /// below the next one.
    pub open spec fn wf(self) -> bool {
        &&& self.next_id >= 1
        &&& self.tasks.dom().finite()
        &&& forall|id: u32| #[trigger] self.tasks.contains_key(id) ==> 1 <= id < self.next_id
    }

    /// Adding a task gives it the next identifier, not completed.
    pub open spec fn add(self, description: Seq<char>, created_at: u64) -> RegistryModel {
        RegistryModel {
            tasks: self.tasks.insert(
                self.next_id as u32,
                TaskView { description, completed: false, created_at },
            ),
            next_id: self.next_id + 1,
        }
    }

    /// Removing a task drops its entry, if there is one.
    pub open spec fn remove(self, id: u32) -> RegistryModel {
        RegistryModel { tasks: self.tasks.remove(id), next_id: self.next_id }
    }

    /// Updating a task replaces its description, if it is present.
    pub open spec fn update(self, id: u32, description: Seq<char>) -> RegistryModel {
        if self.tasks.contains_key(id) {
            RegistryModel {
                tasks: self.tasks.insert(id, TaskView { description, ..self.tasks[id] }),
                next_id: self.next_id,
            }
        } else {
            self
        }
    }

    /// Completing a task sets its flag, if it is present.
    pub open spec fn complete(self, id: u32) -> RegistryModel {
        if self.tasks.contains_key(id) {
            RegistryModel {
                tasks: self.tasks.insert(id, TaskView { completed: true, ..self.tasks[id] }),
                next_id: self.next_id,
            }
        } else {
            self
        }
    }

    /// The creation time of a task, if it is present.
    pub open spec fn creation_time(self, id: u32) -> Option<u64> {
        if self.tasks.contains_key(id) {
            Some(self.tasks[id].created_at)
        } else {
            None
        }
    }

    /// `listing` holds every live task exactly once, beside its identifier,
    /// and no incomplete task comes after a completed one.
    pub open spec fn is_completion_listing(self, listing: Seq<(u32, TaskView)>) -> bool {
        &&& forall|i: int|
            0 <= i < listing.len() ==> self.tasks.contains_key(#[trigger] listing[i].0)
                && self.tasks[listing[i].0] == listing[i].1
        &&& forall|id: u32|
            #[trigger] self.tasks.contains_key(id) ==> exists|i: int|
                0 <= i < listing.len() && #[trigger] listing[i].0 == id
        &&& forall|i: int, j: int| 0 <= i < j < listing.len() ==> listing[i].0 != listing[j].0
        &&& forall|i: int, j: int|
            0 <= i < j < listing.len() && #[trigger] listing[i].1.completed ==> #[trigger] listing[j].1.completed
    }

    /// Applies one operation.
    pub open spec fn apply(self, op: Op) -> RegistryModel {
        match op {
            Op::Add { description, created_at } => self.add(description, created_at),
            Op::Remove { id } => self.remove(id),
            Op::Update { id, description } => self.update(id, description),
            Op::Complete { id } => self.complete(id),
        }
    }

    /// The state after a sequence of operations.
    pub open spec fn run(self, ops: Seq<Op>) -> RegistryModel
        decreases ops.len(),
    {
        if ops.len() == 0 {
            self
        } else {
            self.apply(ops[0]).run(ops.drop_first())
        }
    }

    /// The identifiers that the additions among `ops` hand out, in order.
    pub open spec fn added_ids(self, ops: Seq<Op>) -> Seq<nat>
        decreases ops.len(),
    {
        if ops.len() == 0 {
            Seq::empty()
        } else {
            let rest = self.apply(ops[0]).added_ids(ops.drop_first());
            match ops[0] {
                Op::Add { .. } => seq![self.next_id].add(rest),
                _ => rest,
            }
        }
    }
}

/// Counts the additions among `ops`.
pub open spec fn count_adds(ops: Seq<Op>) -> nat
    decreases ops.len(),
{
    if ops.len() == 0 {
        0
    } else {
        (if ops[0] is Add { 1nat } else { 0nat }) + count_adds(ops.drop_first())
    }
}

/// Every operation keeps the list well formed, as long as identifiers fit in `u32`.
pub proof fn lemma_apply_wf(m: RegistryModel, op: Op)
    requires
        m.wf(),
        op is Add ==> m.next_id < u32::MAX,
    ensures
        m.apply(op).wf(),
        m.apply(op).next_id == m.next_id + (if op is Add { 1nat } else { 0nat }),
{
}

/// Additions hand out consecutive identifiers from the list's next one on,
/// strictly increasing, each above every identifier in the list before them,
/// whatever removals, updates and completions come in between.
pub proof fn lemma_added_ids_increase(m: RegistryModel, ops: Seq<Op>)
    requires
        m.wf(),
        m.next_id + count_adds(ops) <= u32::MAX,
    ensures
        m.added_ids(ops).len() == count_adds(ops),
        m.run(ops).next_id == m.next_id + count_adds(ops),
        m.run(ops).wf(),
        forall|i: int| 0 <= i < m.added_ids(ops).len() ==> #[trigger] m.added_ids(ops)[i] == m.next_id + i,
        forall|i: int, j: int|
            0 <= i < j < m.added_ids(ops).len() ==> m.added_ids(ops)[i] < m.added_ids(ops)[j],
        forall|i: int, id: u32|
            0 <= i < m.added_ids(ops).len() && #[trigger] m.tasks.contains_key(id) ==> id
                < #[trigger] m.added_ids(ops)[i],
    decreases ops.len(),
{
    if ops.len() > 0 {
        let n = m.apply(ops[0]);
        lemma_apply_wf(m, ops[0]);
        lemma_added_ids_increase(n, ops.drop_first());
    }
}

/// On a fresh list the additions hand out 1, 2, 3, ... in order.
pub proof fn lemma_fresh_ids_start_at_one(ops: Seq<Op>)
    requires
        1 + count_adds(ops) <= u32::MAX,
    ensures
        forall|i: int|
            0 <= i < RegistryModel::empty().added_ids(ops).len()
                ==> #[trigger] RegistryModel::empty().added_ids(ops)[i] == i + 1,
{
    lemma_added_ids_increase(RegistryModel::empty(), ops);
}

/// Once a task is removed, updating or completing it changes nothing, and it
/// has no creation time.
pub proof fn lemma_removed_is_inert(m: RegistryModel, id: u32, description: Seq<char>)
    ensures
        m.remove(id).update(id, description) == m.remove(id),
        m.remove(id).complete(id) == m.remove(id),
        m.remove(id).creation_time(id) is None,
{
}

/// A listing made after a task is removed does not show that task.
pub proof fn lemma_listing_omits_removed(m: RegistryModel, id: u32, listing: Seq<(u32, TaskView)>)
    requires
        m.remove(id).is_completion_listing(listing),
    ensures
        forall|i: int| 0 <= i < listing.len() ==> #[trigger] listing[i].0 != id,
{
}

/// Updating a task replaces its description and nothing else.
pub proof fn lemma_update_changes_only_description(
    m: RegistryModel,
    id: u32,
    description: Seq<char>,
)
    requires
        m.tasks.contains_key(id),
    ensures
        m.update(id, description).tasks[id].description == description,
        m.update(id, description).tasks[id].completed == m.tasks[id].completed,
        m.update(id, description).tasks[id].created_at == m.tasks[id].created_at,
        m.update(id, description).tasks.dom() == m.tasks.dom(),
        m.update(id, description).next_id == m.next_id,
        forall|k: u32|
            k != id && #[trigger] m.tasks.contains_key(k) ==> m.update(id, description).tasks[k]
                == m.tasks[k],
{
    assert(m.update(id, description).tasks.dom() =~= m.tasks.dom());
}

/// Completing a task twice is the same as completing it once, and it stays
/// completed.
pub proof fn lemma_complete_idempotent(m: RegistryModel, id: u32)
    ensures
        m.complete(id).complete(id) == m.complete(id),
        m.tasks.contains_key(id) ==> m.complete(id).tasks[id].completed,
{
    if m.tasks.contains_key(id) {
        assert(m.complete(id).complete(id).tasks =~= m.complete(id).tasks);
    }
}

/// A task that was removed, or never added, has no creation time to show.
pub proof fn lemma_no_creation_time_when_absent(m: RegistryModel, id: u32)
    requires
        m.wf(),
    ensures
        !m.tasks.contains_key(id) ==> m.creation_time(id) is None,
        m.remove(id).creation_time(id) is None,
        id as int >= m.next_id ==> m.creation_time(id) is None,
{
}

} // verus!
