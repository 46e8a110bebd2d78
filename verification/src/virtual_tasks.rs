//! Background tasks that are no processes, laid over a terminal.
use vstd::prelude::*;
#[allow(unused_imports)]
use vstd::string::*;

#[allow(unused_imports)]
use crate::table::{
    Key, Keyed, find, keys_differ, lemma_find, lemma_same_keys, lemma_with_entry, lookup, position,
    put_entry,
};
#[allow(unused_imports)]
use crate::text::{copy_option, option_view, same_text};

verus! {

/// What a task runs.
#[derive(Debug, Clone, Copy, PartialEq, Eq, Structural)]
pub enum TaskKind {
    Bash,
    Other,
}

/// What became of a kill.
#[derive(Debug, Clone, Copy, PartialEq, Eq, Structural)]
pub enum KillOutcome {
    Killed,
    AlreadyExited,
    NotFound,
}

/// The state of a task. Times are in milliseconds.
#[derive(Debug, Clone)]
pub struct TaskSnapshot {
    pub task_id: String,
    pub command: String,
    pub display_command: Option<String>,
    pub cwd: String,
    pub start_time: u128,
    pub end_time: Option<u128>,
    pub output: String,
    pub output_file: String,
    pub truncated: bool,
    pub exit_code: Option<i32>,
    pub signal: Option<String>,
    pub completed: bool,
    pub kind: TaskKind,
    pub block_waited: bool,
    pub explicitly_killed: bool,
    pub owner_session_id: Option<String>,
}

impl TaskSnapshot {
    /// A copy of the state.
    pub fn duplicate(&self) -> (r: TaskSnapshot)
        ensures
            r == *self,
    {
        TaskSnapshot {
            task_id: self.task_id.clone(),
            command: self.command.clone(),
            display_command: copy_option(&self.display_command),
            cwd: self.cwd.clone(),
            start_time: self.start_time,
            end_time: self.end_time,
            output: self.output.clone(),
            output_file: self.output_file.clone(),
            truncated: self.truncated,
            exit_code: self.exit_code,
            signal: copy_option(&self.signal),
            completed: self.completed,
            kind: self.kind,
            block_waited: self.block_waited,
            explicitly_killed: self.explicitly_killed,
            owner_session_id: copy_option(&self.owner_session_id),
        }
    }
}

/// A task and whether it was told to stop.
#[derive(Debug)]
pub struct VirtualTask {
    pub snapshot: TaskSnapshot,
    pub cancelled: bool,
}

impl Keyed for VirtualTask {
    open spec fn key(&self) -> Key {
        (self.snapshot.task_id@, ""@)
    }

    fn has_key(&self, a: &str, b: &str) -> (r: bool) {
        same_text(self.snapshot.task_id.as_str(), a) && same_text("", b)
    }
}

/// A task after a kill: one that has ended stays as it is.
pub open spec fn after_kill(t: VirtualTask) -> VirtualTask {
    if t.snapshot.completed {
        t
    } else {
        VirtualTask {
            snapshot: TaskSnapshot { explicitly_killed: true, ..t.snapshot },
            cancelled: true,
        }
    }
}

/// A task belongs to a session.
pub open spec fn owned_by(t: VirtualTask, owner: Seq<char>) -> bool {
    option_view(t.snapshot.owner_session_id) == Some(owner)
}

/// What a wait begins with.
#[derive(Debug)]
pub enum WaitStart {
    /// There is no such task here.
    Unknown,
    /// The task has ended.
    Ended(TaskSnapshot),
    /// The task runs.
    Running,
}

/// The tasks, laid over a terminal. What is not found here the terminal is
/// asked for.
#[derive(Debug)]
pub struct VirtualTaskTerminalBackend {
    pub tasks: Vec<VirtualTask>,
}

/// The end of a task counts as told; all else stays.
pub open spec fn counts_as_told(
    before: VirtualTaskTerminalBackend,
    after: VirtualTaskTerminalBackend,
    t: VirtualTask,
) -> bool {
    exists|i: int|
        0 <= i < before.tasks@.len() && (#[trigger] before.tasks@[i]) == t && after.tasks@
            == before.tasks@.update(
            i,
            VirtualTask {
                snapshot: TaskSnapshot { block_waited: true, ..t.snapshot },
                cancelled: t.cancelled,
            },
        )
}

impl VirtualTaskTerminalBackend {
    /// No two tasks have the same id.
    pub open spec fn wf(&self) -> bool {
        keys_differ(self.tasks@)
    }

    /// The task with an id, if there is one.
    pub open spec fn find(&self, task_id: Seq<char>) -> Option<VirtualTask> {
        lookup(self.tasks@, (task_id, ""@))
    }

    /// No tasks.
    pub fn new() -> (r: VirtualTaskTerminalBackend)
        ensures
            r.wf(),
            r.tasks@.len() == 0,
    {
        VirtualTaskTerminalBackend { tasks: Vec::new() }
    }

    /// Adds a task; one with the same id is replaced.
    pub fn register_virtual_task(&mut self, snapshot: TaskSnapshot)
        requires
            old(self).wf(),
        ensures
            final(self).wf(),
            final(self).find(snapshot.task_id@) == Some(VirtualTask { snapshot, cancelled: false }),
            forall|id: Seq<char>|
                id != snapshot.task_id@ ==> #[trigger] final(self).find(id) == old(self).find(id),
    {
        let ghost before = self.tasks@;
        let id: String = snapshot.task_id.clone();
        let task: VirtualTask = VirtualTask { snapshot, cancelled: false };
        let ghost t = task;
        let _ = put_entry(&mut self.tasks, task, id.as_str(), "");
        proof {
            lemma_with_entry(before, t, (id@, ""@));
            assert forall|other: Seq<char>| other != id@ implies #[trigger] self.find(other)
                == old(self).find(other) by {
                lemma_with_entry(before, t, (other, ""@));
            }
        }
    }

    /// The state of a task, if it is here.
    pub fn get_task(&self, task_id: &str) -> (r: Option<TaskSnapshot>)
        ensures
            match (r, self.find(task_id@)) {
                (Some(s), Some(t)) => s == t.snapshot,
                (None, None) => true,
                _ => false,
            },
    {
        match position(&self.tasks, task_id, "") {
            Some(i) => Some(self.tasks[i].snapshot.duplicate()),
            None => None,
        }
    }

    /// The tasks of the terminal and those that are here.
    pub fn list_tasks(&self, inner: Vec<TaskSnapshot>) -> (r: Vec<TaskSnapshot>)
        ensures
            r@ == inner@ + self.tasks@.map_values(|t: VirtualTask| t.snapshot),
    {
        let ghost mine = self.tasks@.map_values(|t: VirtualTask| t.snapshot);
        let ghost before = inner@;
        let mut out: Vec<TaskSnapshot> = inner;
        let mut i: usize = 0;
        proof {
            assert(before + mine.take(0) =~= before);
        }
        while i < self.tasks.len()
            invariant
                i <= self.tasks@.len(),
                mine == self.tasks@.map_values(|t: VirtualTask| t.snapshot),
                out@ == before + mine.take(i as int),
            decreases self.tasks.len() - i,
        {
            out.push(self.tasks[i].snapshot.duplicate());
            proof {
                assert(out@ =~= before + mine.take(i as int + 1));
            }
            i += 1;
        }
        proof {
            assert(mine.take(i as int) =~= mine);
        }
        out
    }

    fn kill_at(&mut self, i: usize)
        requires
            old(self).wf(),
            i < old(self).tasks@.len(),
        ensures
            final(self).wf(),
            final(self).tasks@ == old(self).tasks@.update(
                i as int,
                after_kill(old(self).tasks@[i as int]),
            ),
    {
        let ghost before = self.tasks@;
        if !self.tasks[i].snapshot.completed {
            self.tasks[i].snapshot.explicitly_killed = true;
            self.tasks[i].cancelled = true;
        }
        proof {
            assert(self.tasks@ =~= before.update(i as int, after_kill(before[i as int])));
            lemma_same_keys(before, self.tasks@);
        }
    }

    /// Kills a task, if it is here. A task that has ended stays as it is.
    pub fn kill_task(&mut self, task_id: &str) -> (r: Option<KillOutcome>)
        requires
            old(self).wf(),
        ensures
            final(self).wf(),
            match old(self).find(task_id@) {
                None => r is None && *final(self) == *old(self),
                Some(t) => {
                    &&& r == Some(
                        if t.snapshot.completed {
                            KillOutcome::AlreadyExited
                        } else {
                            KillOutcome::Killed
                        },
                    )
                    &&& exists|i: int|
                        0 <= i < old(self).tasks@.len() && (#[trigger] old(self).tasks@[i]) == t
                            && final(self).tasks@ == old(self).tasks@.update(i, after_kill(t))
                },
            },
    {
        match position(&self.tasks, task_id, "") {
            None => None,
            Some(i) => {
                let ended: bool = self.tasks[i].snapshot.completed;
                self.kill_at(i);
                if ended {
                    Some(KillOutcome::AlreadyExited)
                } else {
                    Some(KillOutcome::Killed)
                }
            },
        }
    }

    /// Kills all tasks.
    pub fn kill_all_background_tasks(&mut self)
        requires
            old(self).wf(),
        ensures
            final(self).wf(),
            final(self).tasks@ == old(self).tasks@.map_values(|t: VirtualTask| after_kill(t)),
    {
        let ghost before = self.tasks@;
        let mut i: usize = 0;
        while i < self.tasks.len()
            invariant
                self.wf(),
                i <= self.tasks@.len() == before.len(),
                before == old(self).tasks@,
                forall|j: int| 0 <= j < i ==> (#[trigger] self.tasks@[j]) == after_kill(before[j]),
                forall|j: int| i <= j < before.len() ==> (#[trigger] self.tasks@[j]) == before[j],
            decreases self.tasks.len() - i,
        {
            self.kill_at(i);
            i += 1;
        }
        proof {
            assert(self.tasks@ =~= before.map_values(|t: VirtualTask| after_kill(t)));
        }
    }

    /// Kills the tasks of a session.
    pub fn kill_all_background_tasks_by_owner(&mut self, owner_session_id: &str)
        requires
            old(self).wf(),
        ensures
            final(self).wf(),
            final(self).tasks@ == old(self).tasks@.map_values(
                |t: VirtualTask|
                    if owned_by(t, owner_session_id@) {
                        after_kill(t)
                    } else {
                        t
                    },
            ),
    {
        let ghost before = self.tasks@;
        let ghost owner = owner_session_id@;
        let mut i: usize = 0;
        while i < self.tasks.len()
            invariant
                self.wf(),
                i <= self.tasks@.len() == before.len(),
                before == old(self).tasks@,
                owner == owner_session_id@,
                forall|j: int|
                    0 <= j < i ==> (#[trigger] self.tasks@[j]) == (if owned_by(before[j], owner) {
                        after_kill(before[j])
                    } else {
                        before[j]
                    }),
                forall|j: int| i <= j < before.len() ==> (#[trigger] self.tasks@[j]) == before[j],
            decreases self.tasks.len() - i,
        {
            let mine: bool = match &self.tasks[i].snapshot.owner_session_id {
                Some(o) => same_text(o.as_str(), owner_session_id),
                None => false,
            };
            if mine {
                self.kill_at(i);
            }
            i += 1;
        }
        proof {
            assert(self.tasks@ =~= before.map_values(
                |t: VirtualTask|
                    if owned_by(t, owner) {
                        after_kill(t)
                    } else {
                        t
                    },
            ));
        }
    }

    /// Ends a task, if it is here, with its output and exit code.
    pub fn complete_virtual_task(
        &mut self,
        task_id: &str,
        output: String,
        exit_code: Option<i32>,
        now: u128,
    ) -> (r: Option<TaskSnapshot>)
        requires
            old(self).wf(),
        ensures
            final(self).wf(),
            match old(self).find(task_id@) {
                None => r is None && *final(self) == *old(self),
                Some(t) => {
                    let ended = TaskSnapshot {
                        completed: true,
                        end_time: Some(now),
                        exit_code,
                        output,
                        ..t.snapshot
                    };
                    &&& r == Some(ended)
                    &&& exists|i: int|
                        0 <= i < old(self).tasks@.len() && (#[trigger] old(self).tasks@[i]) == t
                            && final(self).tasks@ == old(self).tasks@.update(
                            i,
                            VirtualTask { snapshot: ended, cancelled: t.cancelled },
                        )
                },
            },
    {
        let ghost before = self.tasks@;
        match position(&self.tasks, task_id, "") {
            None => None,
            Some(i) => {
                let ghost t = before[i as int];
                self.tasks[i].snapshot.completed = true;
                self.tasks[i].snapshot.end_time = Some(now);
                self.tasks[i].snapshot.exit_code = exit_code;
                self.tasks[i].snapshot.output = output;
                proof {
                    let ended = TaskSnapshot {
                        completed: true,
                        end_time: Some(now),
                        exit_code,
                        output,
                        ..t.snapshot
                    };
                    assert(self.tasks@ =~= before.update(
                        i as int,
                        VirtualTask { snapshot: ended, cancelled: t.cancelled },
                    ));
                    lemma_same_keys(before, self.tasks@);
                }
                Some(self.tasks[i].snapshot.duplicate())
            },
        }
    }

    /// Begins a wait: one for a task that has ended is over at once, and its end
    /// counts as told.
    pub fn begin_wait(&mut self, task_id: &str) -> (r: WaitStart)
        requires
            old(self).wf(),
        ensures
            final(self).wf(),
            match old(self).find(task_id@) {
                None => r is Unknown && *final(self) == *old(self),
                Some(t) => if t.snapshot.completed {
                    &&& r == WaitStart::Ended(TaskSnapshot { block_waited: true, ..t.snapshot })
                    &&& counts_as_told(*old(self), *final(self), t)
                } else {
                    r is Running && *final(self) == *old(self)
                },
            },
    {
        match position(&self.tasks, task_id, "") {
            None => WaitStart::Unknown,
            Some(i) => {
                if self.tasks[i].snapshot.completed {
                    WaitStart::Ended(self.mark_at(i))
                } else {
                    WaitStart::Running
                }
            },
        }
    }

    fn mark_at(&mut self, i: usize) -> (r: TaskSnapshot)
        requires
            old(self).wf(),
            i < old(self).tasks@.len(),
        ensures
            final(self).wf(),
            r == (TaskSnapshot { block_waited: true, ..old(self).tasks@[i as int].snapshot }),
            final(self).tasks@ == old(self).tasks@.update(
                i as int,
                VirtualTask { snapshot: r, cancelled: old(self).tasks@[i as int].cancelled },
            ),
    {
        let ghost before = self.tasks@;
        self.tasks[i].snapshot.block_waited = true;
        proof {
            let s = TaskSnapshot { block_waited: true, ..before[i as int].snapshot };
            assert(self.tasks@ =~= before.update(
                i as int,
                VirtualTask { snapshot: s, cancelled: before[i as int].cancelled },
            ));
            lemma_same_keys(before, self.tasks@);
        }
        self.tasks[i].snapshot.duplicate()
    }

    /// Ends a wait: a task that has ended counts as told, unless the wait was
    /// over before.
    pub fn end_wait(&mut self, task_id: &str, timed_out: bool) -> (r: Option<TaskSnapshot>)
        requires
            old(self).wf(),
        ensures
            final(self).wf(),
            match old(self).find(task_id@) {
                None => r is None && *final(self) == *old(self),
                Some(t) => if t.snapshot.completed && !timed_out {
                    &&& r == Some(TaskSnapshot { block_waited: true, ..t.snapshot })
                    &&& counts_as_told(*old(self), *final(self), t)
                } else {
                    r == Some(t.snapshot) && *final(self) == *old(self)
                },
            },
    {
        match position(&self.tasks, task_id, "") {
            None => None,
            Some(i) => {
                if self.tasks[i].snapshot.completed && !timed_out {
                    Some(self.mark_at(i))
                } else {
                    Some(self.tasks[i].snapshot.duplicate())
                }
            },
        }
    }
}

// ---- laws ----

/// A task that has ended is never killed.
pub proof fn law_ended_tasks_are_not_killed(t: VirtualTask)
    requires
        t.snapshot.completed,
    ensures
        after_kill(t) == t,
{
}

/// A kill by the owner leaves the tasks of other sessions.
pub proof fn law_owner_kills_own_tasks_only(
    before: Seq<VirtualTask>,
    after: Seq<VirtualTask>,
    owner: Seq<char>,
    i: int,
)
    requires
        after == before.map_values(
            |t: VirtualTask|
                if owned_by(t, owner) {
                    after_kill(t)
                } else {
                    t
                },
        ),
        0 <= i < before.len(),
        !owned_by(before[i], owner),
    ensures
        after[i] == before[i],
{
}

/// A task that is killed while it runs is marked and told to stop; its output, its
/// command and its owner stay.
pub proof fn law_killed_tasks_are_marked(t: VirtualTask)
    ensures
        !t.snapshot.completed ==> after_kill(t).cancelled && after_kill(
            t,
        ).snapshot.explicitly_killed,
        after_kill(t).snapshot.task_id == t.snapshot.task_id,
        after_kill(t).snapshot.completed == t.snapshot.completed,
        after_kill(t).snapshot.output == t.snapshot.output,
        after_kill(t).snapshot.command == t.snapshot.command,
        after_kill(t).snapshot.owner_session_id == t.snapshot.owner_session_id,
        after_kill(t).snapshot.exit_code == t.snapshot.exit_code,
        after_kill(t).snapshot.end_time == t.snapshot.end_time,
{
}

/// A task belongs to the session that owns it, and one without an owner to none.
pub proof fn law_tasks_belong_to_their_owner(t: VirtualTask, owner: Seq<char>)
    ensures
        owned_by(t, owner) <==> t.snapshot.owner_session_id is Some
            && t.snapshot.owner_session_id->0@ == owner,
{
}

/// A task is found by its id.
pub proof fn law_tasks_are_found_by_id(b: VirtualTaskTerminalBackend, id: Seq<char>)
    ensures
        match b.find(id) {
            Some(t) => t.snapshot.task_id@ == id && b.tasks@.contains(t),
            None => forall|i: int|
                0 <= i < b.tasks@.len() ==> (#[trigger] b.tasks@[i]).snapshot.task_id@ != id,
        },
{
    let k: Key = (id, ""@);
    lemma_find(b.tasks@, k);
    if b.find(id) is None {
        assert forall|i: int| 0 <= i < b.tasks@.len() implies (
        #[trigger] b.tasks@[i]).snapshot.task_id@ != id by {
            assert(b.tasks@[i].key() != k);
        }
    }
}

/// What a wait tells of a task that ended counts as told, once, and changes nothing
/// else of it and nothing of the others.
pub proof fn law_told_tasks_keep_their_output(
    before: VirtualTaskTerminalBackend,
    after: VirtualTaskTerminalBackend,
    t: VirtualTask,
)
    requires
        counts_as_told(before, after, t),
    ensures
        after.tasks@.len() == before.tasks@.len(),
        exists|i: int|
            {
                &&& 0 <= i < before.tasks@.len()
                &&& before.tasks@[i] == t
                &&& (#[trigger] after.tasks@[i]).snapshot.block_waited
                &&& after.tasks@[i].snapshot.output == t.snapshot.output
                &&& after.tasks@[i].snapshot.exit_code == t.snapshot.exit_code
                &&& after.tasks@[i].snapshot.completed == t.snapshot.completed
                &&& forall|j: int|
                    0 <= j < before.tasks@.len() && j != i ==> after.tasks@[j]
                        == #[trigger] before.tasks@[j]
            },
{
    let i = choose|i: int|
        0 <= i < before.tasks@.len() && (#[trigger] before.tasks@[i]) == t && after.tasks@
            == before.tasks@.update(
            i,
            VirtualTask {
                snapshot: TaskSnapshot { block_waited: true, ..t.snapshot },
                cancelled: t.cancelled,
            },
        );
    assert(after.tasks@[i].snapshot.block_waited);
}

/// The list of tasks has those of the machine first, then the virtual ones as they are.
pub proof fn law_lists_have_all_tasks(
    b: &VirtualTaskTerminalBackend,
    inner: Vec<TaskSnapshot>,
    r: Vec<TaskSnapshot>,
)
    requires
        call_ensures(VirtualTaskTerminalBackend::list_tasks, (b, inner), r),
    ensures
        r@.len() == inner@.len() + b.tasks@.len(),
        forall|i: int| 0 <= i < inner@.len() ==> #[trigger] r@[i] == inner@[i],
        forall|i: int|
            0 <= i < b.tasks@.len() ==> r@[inner@.len() + i] == (#[trigger] b.tasks@[i]).snapshot,
{
}

} // verus!
