//! The task store: the tasks of one stored task list, held in memory.
//!
//! Reading and writing the file is the caller's part: a store is built from
//! the task list that was read, and `needs_save` tells when the list has
//! changed in a way that must be written back.

use vstd::prelude::*;

use crate::error::AppError;
use crate::model::filter::{apply_filter, filter_accepts, FilterView, TaskFilter};
use crate::model::stats::Stats;
use crate::model::task::{
    created_by_text, id_text, priority_text, status_text, tasks_view, Status, Task, TaskId,
    TaskView, uuid_text,
};
use crate::store::schema::TaskData;
use crate::store::seqs::{
    children_of, find_id, has_id, is_first_pos, keep, lemma_keep_all, lemma_keep_members,
    lemma_keep_step, lemma_pos_of, lemma_remove_id_unique, pos_of, remove_id, replace_id,
    unique_ids,
};
use crate::text::{is_prefix, lowercase, lowercase_text, owned, starts_with};

verus! {

/// The tasks of `s` that filter `f` selects, in order.
pub open spec fn selected(s: Seq<TaskView>, f: FilterView) -> Seq<TaskView> {
    keep(s, |t: TaskView| filter_accepts(f, t))
}

/// The task's identifier, in hyphenated form and lowercased, starts with the
/// lowercased prefix.
pub open spec fn id_matches_prefix(t: TaskView, prefix: Seq<char>) -> bool {
    is_prefix(lowercase_text(prefix), lowercase_text(uuid_text(t.id)))
}

/// The tasks of `s` whose identifier starts with `prefix` (case-insensitively).
pub open spec fn with_prefix(s: Seq<TaskView>, prefix: Seq<char>) -> Seq<TaskView> {
    keep(s, |t: TaskView| id_matches_prefix(t, prefix))
}

/// Attribute by which tasks are counted.
pub enum TallyKind {
    ByStatus,
    ByPriority,
    ByLabel,
    ByProject,
    ByCreator,
}

/// The key under which a task is counted, if it has one.
pub open spec fn tally_key(kind: TallyKind, t: TaskView) -> Option<Seq<char>> {
    match kind {
        TallyKind::ByStatus => Some(status_text(t.status)),
        TallyKind::ByPriority => Some(priority_text(t.priority)),
        TallyKind::ByLabel => t.label,
        TallyKind::ByProject => t.project,
        TallyKind::ByCreator => Some(created_by_text(t.created_by)),
    }
}

/// Number of tasks of `s` counted under `key`.
pub open spec fn count_key(s: Seq<TaskView>, kind: TallyKind, key: Seq<char>) -> nat {
    keep(s, |t: TaskView| tally_key(kind, t) == Some(key)).len()
}

/// Number of tasks of `s` with status `st`.
pub open spec fn count_status(s: Seq<TaskView>, st: Status) -> nat {
    keep(s, |t: TaskView| t.status == st).len()
}

/// `tally` has one entry per distinct key of `s`, each with its count.
pub open spec fn tally_correct(tally: Seq<(String, usize)>, s: Seq<TaskView>, kind: TallyKind) -> bool {
    &&& forall|i: int, j: int|
        0 <= i < j < tally.len() ==> (#[trigger] tally[i]).0@ != (#[trigger] tally[j]).0@
    &&& forall|i: int|
        0 <= i < tally.len() ==> (#[trigger] tally[i]).1 == count_key(s, kind, tally[i].0@)
            && tally[i].1 > 0
    &&& forall|k: int|
        0 <= k < s.len() && tally_key(kind, #[trigger] s[k]) is Some ==> exists|i: int|
            0 <= i < tally.len() && (#[trigger] tally[i]).0@ == tally_key(kind, s[k])->0
}

/// `st` counts the tasks of `s`.
pub open spec fn stats_correct(st: Stats, s: Seq<TaskView>) -> bool {
    &&& st.total == s.len()
    &&& st.todo == count_status(s, Status::Todo)
    &&& st.in_progress == count_status(s, Status::InProgress)
    &&& st.done == count_status(s, Status::Done)
    &&& st.cancelled == count_status(s, Status::Cancelled)
    &&& tally_correct(st.by_status@, s, TallyKind::ByStatus)
    &&& tally_correct(st.by_priority@, s, TallyKind::ByPriority)
    &&& tally_correct(st.by_label@, s, TallyKind::ByLabel)
    &&& tally_correct(st.by_project@, s, TallyKind::ByProject)
    &&& tally_correct(st.by_creator@, s, TallyKind::ByCreator)
}

proof fn lemma_count_step(s: Seq<TaskView>, p: spec_fn(TaskView) -> bool, t: TaskView)
    ensures
        keep(s.push(t), p).len() == keep(s, p).len() + (if p(t) {
            1int
        } else {
            0int
        }),
{
    assert(s.push(t).drop_last() =~= s);
}

proof fn lemma_count_zero(s: Seq<TaskView>, p: spec_fn(TaskView) -> bool)
    requires
        forall|k: int| 0 <= k < s.len() ==> !p(#[trigger] s[k]),
    ensures
        keep(s, p).len() == 0,
{
    lemma_keep_members(s, p);
    if keep(s, p).len() > 0 {
        assert(p(keep(s, p)[0]));
        let j = choose|j: int| 0 <= j < s.len() && s[j] == keep(s, p)[0];
        assert(!p(s[j]));
    }
}

fn key_of(kind: &TallyKind, t: &Task) -> (r: Option<String>)
    ensures
        opt_text_view(r) == tally_key(*kind, t@),
{
    match kind {
        TallyKind::ByStatus => Some(owned(t.status.as_text())),
        TallyKind::ByPriority => Some(owned(t.priority.as_text())),
        TallyKind::ByLabel => crate::model::task::copy_opt_text(&t.label),
        TallyKind::ByProject => crate::model::task::copy_opt_text(&t.project),
        TallyKind::ByCreator => Some(owned(t.created_by.as_text())),
    }
}

pub open spec fn opt_text_view(o: Option<String>) -> Option<Seq<char>> {
    crate::model::task::opt_view(o)
}

fn find_key(tally: &Vec<(String, usize)>, key: &String) -> (i: usize)
    ensures
        i <= tally@.len(),
        i < tally@.len() ==> tally@[i as int].0@ == key@,
        forall|j: int| 0 <= j < i ==> (#[trigger] tally@[j]).0@ != key@,
{
    let n = tally.len();
    let mut i: usize = 0;
    while i < n
        invariant
            n == tally@.len(),
            0 <= i <= n,
            forall|j: int| 0 <= j < i ==> (#[trigger] tally@[j]).0@ != key@,
        decreases n - i,
    {
        if tally[i].0 == *key {
            return i;
        }
        i += 1;
    }
    i
}

/// Counts task `t` into a tally of the tasks `s`, giving a tally of `s.push(t@)`.
fn tally_add(
    tally: &mut Vec<(String, usize)>,
    kind: &TallyKind,
    t: &Task,
    Ghost(s): Ghost<Seq<TaskView>>,
)
    requires
        tally_correct(old(tally)@, s, *kind),
        s.len() < usize::MAX,
    ensures
        tally_correct(final(tally)@, s.push(t@), *kind),
{
    let ghost s2 = s.push(t@);
    let ghost kd = *kind;
    let key = match key_of(kind, t) {
        Some(k) => k,
        None => {
            assert forall|i: int| 0 <= i < tally@.len() implies (#[trigger] tally@[i]).1
                == count_key(s2, kd, tally@[i].0@) && tally@[i].1 > 0 by {
                lemma_count_step(s, |x: TaskView| tally_key(kd, x) == Some(tally@[i].0@), t@);
            }
            assert forall|k: int|
                0 <= k < s2.len() && tally_key(kd, #[trigger] s2[k]) is Some implies exists|i: int|
                0 <= i < tally@.len() && (#[trigger] tally@[i]).0@ == tally_key(kd, s2[k])->0 by {
                assert(s2[k] == s[k]);
            }
            return ;
        },
    };
    let n = tally.len();
    let i = find_key(tally, &key);
    proof {
        lemma_keep_members(s, |x: TaskView| tally_key(kd, x) == Some(key@));
    }
    if i < n {
        let k = tally[i].0.clone();
        let c = tally[i].1;
        proof {
            lemma_keep_members(s, |x: TaskView| tally_key(kd, x) == Some(key@));
            lemma_count_step(s, |x: TaskView| tally_key(kd, x) == Some(key@), t@);
        }
        assert(tally@[i as int].0@ == key@);
        tally.set(i, (k, c + 1));
        assert forall|j: int| 0 <= j < tally@.len() implies (#[trigger] tally@[j]).1
            == count_key(s2, kd, tally@[j].0@) && tally@[j].1 > 0 by {
            lemma_count_step(s, |x: TaskView| tally_key(kd, x) == Some(tally@[j].0@), t@);
        }
        assert forall|a: int, b: int|
            0 <= a < b < tally@.len() implies (#[trigger] tally@[a]).0@ != (#[trigger] tally@[b]).0@ by {
            assert(old(tally)@[a].0@ != old(tally)@[b].0@);
        }
        assert forall|m: int|
            0 <= m < s2.len() && tally_key(kd, #[trigger] s2[m]) is Some implies exists|j: int|
            0 <= j < tally@.len() && (#[trigger] tally@[j]).0@ == tally_key(kd, s2[m])->0 by {
            if m < s.len() {
                assert(s2[m] == s[m]);
                let j = choose|j: int|
                    0 <= j < old(tally)@.len() && (#[trigger] old(tally)@[j]).0@ == tally_key(
                        kd,
                        s[m],
                    )->0;
                assert(tally@[j].0@ == old(tally)@[j].0@);
            } else {
                assert(tally@[i as int].0@ == key@);
            }
        }
    } else {
        proof {
            assert forall|k: int| 0 <= k < s.len() implies !((|x: TaskView| tally_key(kd, x) == Some(
                key@,
            ))(#[trigger] s[k])) by {
                if tally_key(kd, s[k]) == Some(key@) {
                    let j = choose|j: int|
                        0 <= j < old(tally)@.len() && (#[trigger] old(tally)@[j]).0@
                            == tally_key(kd, s[k])->0;
                    assert(tally@[j].0@ != key@);
                }
            }
            lemma_count_zero(s, |x: TaskView| tally_key(kd, x) == Some(key@));
            lemma_count_step(s, |x: TaskView| tally_key(kd, x) == Some(key@), t@);
        }
        let ghost key_v = key@;
        tally.push((key, 1));
        assert forall|j: int| 0 <= j < tally@.len() implies (#[trigger] tally@[j]).1
            == count_key(s2, kd, tally@[j].0@) && tally@[j].1 > 0 by {
            lemma_count_step(s, |x: TaskView| tally_key(kd, x) == Some(tally@[j].0@), t@);
            if j < n {
                assert(tally@[j] == old(tally)@[j]);
            }
        }
        assert forall|a: int, b: int|
            0 <= a < b < tally@.len() implies (#[trigger] tally@[a]).0@ != (#[trigger] tally@[b]).0@ by {
            if b < n {
                assert(old(tally)@[a].0@ != old(tally)@[b].0@);
            } else {
                assert(tally@[a] == old(tally)@[a]);
            }
        }
        assert forall|m: int|
            0 <= m < s2.len() && tally_key(kd, #[trigger] s2[m]) is Some implies exists|j: int|
            0 <= j < tally@.len() && (#[trigger] tally@[j]).0@ == tally_key(kd, s2[m])->0 by {
            if m < s.len() {
                assert(s2[m] == s[m]);
                let j = choose|j: int|
                    0 <= j < old(tally)@.len() && (#[trigger] old(tally)@[j]).0@ == tally_key(
                        kd,
                        s[m],
                    )->0;
                assert(tally@[j] == old(tally)@[j]);
            } else {
                assert(tally@[n as int].0@ == key_v);
            }
        }
    }
}


/// Attempts at taking the lock of a task file before a write gives up.
pub const LOCK_ATTEMPTS: u32 = 3;

/// What a writer does after an attempt at taking the lock.
#[derive(Debug, Clone, Copy, PartialEq, Eq, Structural)]
pub enum LockStep {
    Locked,
    WaitAndRetry,
    GiveUp,
}

/// The decision after attempt number `attempt` (counting from 0) at taking
/// the lock: done when it took the lock; otherwise wait and try again,
/// unless that was the last attempt.
pub fn after_lock_attempt(attempt: u32, locked: bool) -> (r: LockStep)
    ensures
        r == (if locked {
            LockStep::Locked
        } else if attempt + 1 < LOCK_ATTEMPTS {
            LockStep::WaitAndRetry
        } else {
            LockStep::GiveUp
        }),
{
    if locked {
        LockStep::Locked
    } else if attempt < LOCK_ATTEMPTS - 1 {
        LockStep::WaitAndRetry
    } else {
        LockStep::GiveUp
    }
}

/// The tasks of one stored task list.
pub struct JsonStore {
    path: String,
    data: TaskData,
    batch_mode: bool,
    needs_save: bool,
}

impl View for JsonStore {
    type V = Seq<TaskView>;

    closed spec fn view(&self) -> Seq<TaskView> {
        tasks_view(self.data.tasks@)
    }
}

impl JsonStore {
    /// Batch mode is on: a batch of changes is being made, to be written
    /// back once it ends.
    pub closed spec fn in_batch(&self) -> bool {
        self.batch_mode
    }

    /// The tasks changed since they were last written.
    pub closed spec fn pending(&self) -> bool {
        self.needs_save
    }

    pub closed spec fn path_spec(&self) -> Seq<char> {
        self.path@
    }

    /// The format version of the held task list.
    pub closed spec fn version(&self) -> u32 {
        self.data.version
    }

    /// Flags after one change: the tasks are marked for writing.
    pub open spec fn changed(old_store: JsonStore, new_store: JsonStore) -> bool {
        &&& new_store.in_batch() == old_store.in_batch()
        &&& new_store.pending()
        &&& new_store.path_spec() == old_store.path_spec()
        &&& new_store.version() == old_store.version()
    }

    /// A store of the task list `data` that was read from `path`.
    pub fn new(path: String, data: TaskData) -> (r: JsonStore)
        ensures
            r@ == tasks_view(data.tasks@),
            !r.in_batch(),
            !r.pending(),
            r.path_spec() == path@,
            r.version() == data.version,
    {
        JsonStore { path, data, batch_mode: false, needs_save: false }
    }

    /// The lock file that guards writes to the task list (the path with
    /// extension `json.lock`).
    pub fn lock_path(&self) -> (r: String)
        ensures
            r@ == crate::config::paths::with_extension(self.path_spec(), "json.lock"@),
    {
        crate::config::paths::path_with_extension(self.path.as_str(), "json.lock")
    }

    /// The temporary file a write goes to before it replaces the task list
    /// (the path with extension `json.tmp`).
    pub fn temp_path(&self) -> (r: String)
        ensures
            r@ == crate::config::paths::with_extension(self.path_spec(), "json.tmp"@),
    {
        crate::config::paths::path_with_extension(self.path.as_str(), "json.tmp")
    }

    /// Where the task list is stored.
    pub fn path(&self) -> (r: &String)
        ensures
            r@ == self.path_spec(),
    {
        &self.path
    }

    /// The task list, for writing it back.
    pub fn data(&self) -> (r: &TaskData)
        ensures
            tasks_view(r.tasks@) == self@,
            r.version == self.version(),
    {
        &self.data
    }

    /// Whether the task list must be written back.
    pub fn needs_save(&self) -> (r: bool)
        ensures
            r == self.pending(),
    {
        self.needs_save
    }

    /// Records that the task list was written back.
    pub fn mark_saved(&mut self)
        ensures
            final(self)@ == old(self)@,
            !final(self).pending(),
            final(self).in_batch() == old(self).in_batch(),
            final(self).path_spec() == old(self).path_spec(),
            final(self).version() == old(self).version(),
    {
        self.needs_save = false;
    }

    /// Enables or disables batch mode. Every change is marked for writing
    /// as it is made, and the caller writes the list back once, after the
    /// batch.
    pub fn set_batch_mode(&mut self, enabled: bool)
        ensures
            final(self)@ == old(self)@,
            final(self).in_batch() == enabled,
            final(self).pending() == old(self).pending(),
            final(self).path_spec() == old(self).path_spec(),
            final(self).version() == old(self).version(),
    {
        self.batch_mode = enabled;
    }

    /// Ends a batch of changes: what the batch changed is already marked for
    /// writing, and an untouched list stays unmarked, so nothing is left to
    /// do here.
    pub fn flush(&mut self) -> (r: Result<(), AppError>)
        ensures
            r is Ok,
            final(self)@ == old(self)@,
            final(self).pending() == old(self).pending(),
            final(self).in_batch() == old(self).in_batch(),
            final(self).path_spec() == old(self).path_spec(),
            final(self).version() == old(self).version(),
    {
        Ok(())
    }

    /// Replaces the held tasks by the task list read afresh from storage.
    pub fn invalidate_cache(&mut self, fresh: TaskData)
        ensures
            final(self)@ == tasks_view(fresh.tasks@),
            final(self).in_batch() == old(self).in_batch(),
            final(self).pending() == old(self).pending(),
            final(self).path_spec() == old(self).path_spec(),
            final(self).version() == fresh.version,
    {
        self.data = fresh;
    }

    fn mark_changed(&mut self)
        ensures
            final(self)@ == old(self)@,
            JsonStore::changed(*old(self), *final(self)),
    {
        self.needs_save = true;
    }

    /// The tasks that the filter selects, in stored order.
    pub fn list(&self, filter: &TaskFilter) -> (r: Vec<Task>)
        ensures
            tasks_view(r@) == selected(self@, filter@),
    {
        let v = &self.data.tasks;
        let ghost sv = tasks_view(v@);
        let ghost f = filter@;
        let mut out: Vec<Task> = Vec::new();
        let mut i: usize = 0;
        while i < v.len()
            invariant
                sv == tasks_view(v@),
                f == filter@,
                0 <= i <= v@.len(),
                tasks_view(out@) == selected(sv.take(i as int), f),
            decreases v@.len() - i,
        {
            proof {
                lemma_keep_step(sv, |t: TaskView| filter_accepts(f, t), i as int);
            }
            if apply_filter(&v[i], filter) {
                let t = v[i].duplicate();
                let ghost before = out@;
                out.push(t);
                assert(tasks_view(out@) =~= tasks_view(before).push(sv[i as int]));
            }
            i += 1;
        }
        proof {
            lemma_keep_all(sv, |t: TaskView| filter_accepts(f, t));
        }
        out
    }

    /// The first task with identifier `id`, if any.
    pub fn get(&self, id: TaskId) -> (r: Option<Task>)
        ensures
            match r {
                Some(t) => find_id(self@, id) == Some(t@),
                None => find_id(self@, id) is None,
            },
    {
        match find_pos(&self.data.tasks, id) {
            Some(i) => {
                proof {
                    lemma_pos_of(self@, id);
                }
                Some(self.data.tasks[i].duplicate())
            },
            None => None,
        }
    }

    /// The tasks whose identifier starts with `prefix`, ignoring case.
    pub fn get_by_prefix(&self, prefix: &str) -> (r: Vec<Task>)
        ensures
            tasks_view(r@) == with_prefix(self@, prefix@),
    {
        let prefix_lower = lowercase(prefix);
        let v = &self.data.tasks;
        let ghost sv = tasks_view(v@);
        let ghost p = prefix@;
        let mut out: Vec<Task> = Vec::new();
        let mut i: usize = 0;
        while i < v.len()
            invariant
                sv == tasks_view(v@),
                prefix_lower@ == lowercase_text(p),
                0 <= i <= v@.len(),
                tasks_view(out@) == with_prefix(sv.take(i as int), p),
            decreases v@.len() - i,
        {
            proof {
                lemma_keep_step(sv, |t: TaskView| id_matches_prefix(t, p), i as int);
            }
            let text = id_text(v[i].id);
            let lower = lowercase(text.as_str());
            if starts_with(lower.as_str(), prefix_lower.as_str()) {
                let t = v[i].duplicate();
                let ghost before = out@;
                out.push(t);
                assert(tasks_view(out@) =~= tasks_view(before).push(sv[i as int]));
            }
            i += 1;
        }
        proof {
            lemma_keep_all(sv, |t: TaskView| id_matches_prefix(t, p));
        }
        out
    }

    /// Appends a task.
    pub fn create(&mut self, task: Task) -> (r: Task)
        ensures
            final(self)@ == old(self)@.push(task@),
            r@ == task@,
            JsonStore::changed(*old(self), *final(self)),
    {
        let copy = task.duplicate();
        let ghost before = self.data.tasks@;
        self.data.tasks.push(copy);
        assert(tasks_view(self.data.tasks@) =~= tasks_view(before).push(task@));
        self.mark_changed();
        task
    }

    /// Replaces the first task with the same identifier as `task`.
    pub fn update(&mut self, task: Task) -> (r: Task)
        ensures
            final(self)@ == replace_id(old(self)@, task@),
            r@ == task@,
            JsonStore::changed(*old(self), *final(self)),
    {
        let copy = task.duplicate();
        proof {
            lemma_pos_of(self@, task.id);
        }
        match find_pos(&self.data.tasks, task.id) {
            Some(i) => {
                let ghost before = self.data.tasks@;
                self.data.tasks.set(i, copy);
                assert(tasks_view(self.data.tasks@) =~= tasks_view(before).update(
                    i as int,
                    task@,
                ));
            },
            None => {},
        }
        self.mark_changed();
        task
    }

    /// Removes the first task with identifier `id` and returns it.
    pub fn delete(&mut self, id: TaskId) -> (r: Option<Task>)
        ensures
            final(self)@ == remove_id(old(self)@, id),
            match r {
                Some(t) => find_id(old(self)@, id) == Some(t@),
                None => find_id(old(self)@, id) is None,
            },
            JsonStore::changed(*old(self), *final(self)),
    {
        proof {
            lemma_pos_of(self@, id);
        }
        let r = match find_pos(&self.data.tasks, id) {
            Some(i) => {
                let ghost before = self.data.tasks@;
                let t = self.data.tasks.remove(i);
                assert(tasks_view(self.data.tasks@) =~= tasks_view(before).remove(i as int));
                Some(t)
            },
            None => None,
        };
        self.mark_changed();
        r
    }

    /// The tasks whose parent is `parent_id`, in stored order.
    pub fn get_children(&self, parent_id: TaskId) -> (r: Vec<Task>)
        ensures
            tasks_view(r@) == children_of(self@, parent_id),
    {
        let v = &self.data.tasks;
        let ghost sv = tasks_view(v@);
        let mut out: Vec<Task> = Vec::new();
        let mut i: usize = 0;
        while i < v.len()
            invariant
                sv == tasks_view(v@),
                0 <= i <= v@.len(),
                tasks_view(out@) == children_of(sv.take(i as int), parent_id),
            decreases v@.len() - i,
        {
            proof {
                lemma_keep_step(sv, |t: TaskView| t.parent_id == Some(parent_id), i as int);
            }
            if v[i].parent_id == Some(parent_id) {
                let t = v[i].duplicate();
                let ghost before = out@;
                out.push(t);
                assert(tasks_view(out@) =~= tasks_view(before).push(sv[i as int]));
            }
            i += 1;
        }
        proof {
            lemma_keep_all(sv, |t: TaskView| t.parent_id == Some(parent_id));
        }
        out
    }

    /// Counts of the tasks that the filter selects.
    pub fn stats(&self, filter: &TaskFilter) -> (r: Stats)
        ensures
            stats_correct(r, selected(self@, filter@)),
            tally_total(r.by_status@) == r.total,
            tally_total(r.by_priority@) == r.total,
            tally_total(r.by_creator@) == r.total,
    {
        let v = &self.data.tasks;
        let ghost sv = tasks_view(v@);
        let ghost f = filter@;
        let mut by_status: Vec<(String, usize)> = Vec::new();
        let mut by_priority: Vec<(String, usize)> = Vec::new();
        let mut by_label: Vec<(String, usize)> = Vec::new();
        let mut by_project: Vec<(String, usize)> = Vec::new();
        let mut by_creator: Vec<(String, usize)> = Vec::new();
        let mut total: usize = 0;
        let mut todo: usize = 0;
        let mut in_progress: usize = 0;
        let mut done: usize = 0;
        let mut cancelled: usize = 0;
        let mut i: usize = 0;
        while i < v.len()
            invariant
                sv == tasks_view(v@),
                f == filter@,
                0 <= i <= v@.len(),
                total == selected(sv.take(i as int), f).len(),
                total <= i,
                todo == count_status(selected(sv.take(i as int), f), Status::Todo),
                in_progress == count_status(selected(sv.take(i as int), f), Status::InProgress),
                done == count_status(selected(sv.take(i as int), f), Status::Done),
                cancelled == count_status(selected(sv.take(i as int), f), Status::Cancelled),
                tally_correct(by_status@, selected(sv.take(i as int), f), TallyKind::ByStatus),
                tally_correct(by_priority@, selected(sv.take(i as int), f), TallyKind::ByPriority),
                tally_correct(by_label@, selected(sv.take(i as int), f), TallyKind::ByLabel),
                tally_correct(by_project@, selected(sv.take(i as int), f), TallyKind::ByProject),
                tally_correct(by_creator@, selected(sv.take(i as int), f), TallyKind::ByCreator),
            decreases v@.len() - i,
        {
            let ghost p = selected(sv.take(i as int), f);
            proof {
                lemma_keep_step(sv, |t: TaskView| filter_accepts(f, t), i as int);
                lemma_keep_members(p, |t: TaskView| t.status == Status::Todo);
                lemma_keep_members(p, |t: TaskView| t.status == Status::InProgress);
                lemma_keep_members(p, |t: TaskView| t.status == Status::Done);
                lemma_keep_members(p, |t: TaskView| t.status == Status::Cancelled);
            }
            let t = &v[i];
            if apply_filter(t, filter) {
                proof {
                    lemma_count_step(p, |x: TaskView| x.status == Status::Todo, t@);
                    lemma_count_step(p, |x: TaskView| x.status == Status::InProgress, t@);
                    lemma_count_step(p, |x: TaskView| x.status == Status::Done, t@);
                    lemma_count_step(p, |x: TaskView| x.status == Status::Cancelled, t@);
                }
                match t.status {
                    Status::Todo => todo += 1,
                    Status::InProgress => in_progress += 1,
                    Status::Done => done += 1,
                    Status::Cancelled => cancelled += 1,
                }
                tally_add(&mut by_status, &TallyKind::ByStatus, t, Ghost(p));
                tally_add(&mut by_priority, &TallyKind::ByPriority, t, Ghost(p));
                tally_add(&mut by_label, &TallyKind::ByLabel, t, Ghost(p));
                tally_add(&mut by_project, &TallyKind::ByProject, t, Ghost(p));
                tally_add(&mut by_creator, &TallyKind::ByCreator, t, Ghost(p));
                total += 1;
            }
            i += 1;
        }
        proof {
            lemma_keep_all(sv, |t: TaskView| filter_accepts(f, t));
        }
        let r = Stats {
            total,
            todo,
            in_progress,
            done,
            cancelled,
            by_status,
            by_priority,
            by_label,
            by_project,
            by_creator,
        };
        proof {
            law_tallies_add_up(r, selected(sv, f));
        }
        r
    }
}

/// Position of the first task with identifier `id`.
fn find_pos(v: &Vec<Task>, id: TaskId) -> (r: Option<usize>)
    ensures
        match r {
            Some(i) => is_first_pos(tasks_view(v@), id, i as int),
            None => !has_id(tasks_view(v@), id),
        },
{
    let ghost sv = tasks_view(v@);
    let mut i: usize = 0;
    while i < v.len()
        invariant
            sv == tasks_view(v@),
            0 <= i <= v@.len(),
            forall|k: int| 0 <= k < i ==> (#[trigger] sv[k]).id != id,
        decreases v@.len() - i,
    {
        if v[i].id == id {
            return Some(i);
        }
        i += 1;
    }
    None
}

proof fn lemma_status_counts(s: Seq<TaskView>)
    ensures
        count_status(s, Status::Todo) + count_status(s, Status::InProgress) + count_status(
            s,
            Status::Done,
        ) + count_status(s, Status::Cancelled) == s.len(),
    decreases s.len(),
{
    if s.len() > 0 {
        let s0 = s.drop_last();
        lemma_status_counts(s0);
        assert(s0.push(s.last()) =~= s);
        lemma_count_step(s0, |t: TaskView| t.status == Status::Todo, s.last());
        lemma_count_step(s0, |t: TaskView| t.status == Status::InProgress, s.last());
        lemma_count_step(s0, |t: TaskView| t.status == Status::Done, s.last());
        lemma_count_step(s0, |t: TaskView| t.status == Status::Cancelled, s.last());
    }
}

/// Every task has one of the four statuses, so the counts by status add up
/// to the total.
pub proof fn law_status_counts_add_up(st: Stats, s: Seq<TaskView>)
    requires
        stats_correct(st, s),
    ensures
        st.todo + st.in_progress + st.done + st.cancelled == st.total,
{
    lemma_status_counts(s);
}

/// What a read of the store gives back after a write: a created task (with
/// an identifier no task had) is found under its identifier, an updated
/// task is found as written, and a deleted identifier, among tasks with
/// distinct identifiers, is found no more. Other identifiers read as before
/// a create or an update.
pub proof fn law_store_reads_back_writes(s: Seq<TaskView>, t: TaskView, other: TaskId)
    ensures
        !has_id(s, t.id) ==> find_id(s.push(t), t.id) == Some(t),
        !has_id(s, t.id) && other != t.id ==> find_id(s.push(t), other) == find_id(s, other),
        has_id(s, t.id) ==> find_id(replace_id(s, t), t.id) == Some(t),
        other != t.id ==> find_id(replace_id(s, t), other) == find_id(s, other),
        unique_ids(s) ==> find_id(remove_id(s, t.id), t.id) is None,
{
    let q = s.push(t);
    lemma_pos_of(s, t.id);
    lemma_pos_of(q, t.id);
    lemma_pos_of(s, other);
    lemma_pos_of(q, other);
    if !has_id(s, t.id) {
        assert(q[s.len() as int] == t);
        assert(has_id(q, t.id));
        assert(is_first_pos(q, t.id, s.len() as int)) by {
            assert forall|k: int| 0 <= k < s.len() implies (#[trigger] q[k]).id != t.id by {
                assert(q[k] == s[k]);
            }
        }
        if other != t.id {
            if has_id(s, other) {
                let p = pos_of(s, other);
                assert(q[p] == s[p]);
                assert(is_first_pos(q, other, p)) by {
                    assert forall|k: int| 0 <= k < p implies (#[trigger] q[k]).id != other by {
                        assert(q[k] == s[k]);
                    }
                }
            } else {
                assert forall|k: int| 0 <= k < q.len() implies (#[trigger] q[k]).id != other by {
                    if k < s.len() {
                        assert(q[k] == s[k]);
                    }
                }
            }
        }
    }
    let r = replace_id(s, t);
    lemma_pos_of(r, t.id);
    lemma_pos_of(r, other);
    if has_id(s, t.id) {
        let p = pos_of(s, t.id);
        assert(r[p] == t);
        assert(is_first_pos(r, t.id, p)) by {
            assert forall|k: int| 0 <= k < p implies (#[trigger] r[k]).id != t.id by {
                assert(r[k] == s[k]);
            }
        }
        if other != t.id {
            assert forall|k: int| 0 <= k < r.len() implies (#[trigger] r[k]).id == other <==> s[k].id == other by {
                if k != p {
                    assert(r[k] == s[k]);
                }
            }
            if has_id(s, other) {
                let po = pos_of(s, other);
                assert(r[po] == s[po]);
                assert(is_first_pos(r, other, po));
            } else {
                assert(!has_id(r, other)) by {
                    if has_id(r, other) {
                        let k = choose|k: int| 0 <= k < r.len() && (#[trigger] r[k]).id == other;
                        assert(s[k].id == other);
                    }
                }
            }
        }
    }
    if unique_ids(s) {
        lemma_remove_id_unique(s, t.id);
        let d = remove_id(s, t.id);
        if has_id(d, t.id) {
            let k = choose|k: int| 0 <= k < d.len() && (#[trigger] d[k]).id == t.id;
            assert(d.contains(d[k]));
        }
    }
}

/// Sum of the counts of a tally.
pub open spec fn tally_total(t: Seq<(String, usize)>) -> int
    decreases t.len(),
{
    if t.len() == 0 {
        0
    } else {
        tally_total(t.drop_last()) + t.last().1
    }
}

/// The keys of a tally.
pub open spec fn tally_keys(t: Seq<(String, usize)>) -> Seq<Seq<char>> {
    t.map_values(|e: (String, usize)| e.0@)
}

/// Sum, over `keys`, of the tasks of `s` counted under each.
spec fn key_counts(s: Seq<TaskView>, kind: TallyKind, keys: Seq<Seq<char>>) -> int
    decreases keys.len(),
{
    if keys.len() == 0 {
        0
    } else {
        key_counts(s, kind, keys.drop_last()) + count_key(s, kind, keys.last())
    }
}

/// How often `x` occurs among `keys`.
spec fn hits(keys: Seq<Seq<char>>, x: Seq<char>) -> int
    decreases keys.len(),
{
    if keys.len() == 0 {
        0
    } else {
        hits(keys.drop_last(), x) + if keys.last() == x {
            1int
        } else {
            0int
        }
    }
}

proof fn lemma_key_counts_step(s: Seq<TaskView>, kind: TallyKind, keys: Seq<Seq<char>>, t: TaskView)
    requires
        tally_key(kind, t) is Some,
    ensures
        key_counts(s.push(t), kind, keys) == key_counts(s, kind, keys) + hits(
            keys,
            tally_key(kind, t)->0,
        ),
    decreases keys.len(),
{
    if keys.len() > 0 {
        lemma_key_counts_step(s, kind, keys.drop_last(), t);
        let k = keys.last();
        lemma_count_step(s, |x: TaskView| tally_key(kind, x) == Some(k), t);
    }
}

proof fn lemma_hits(keys: Seq<Seq<char>>, x: Seq<char>)
    requires
        keys.no_duplicates(),
    ensures
        hits(keys, x) == if keys.contains(x) {
            1int
        } else {
            0int
        },
    decreases keys.len(),
{
    if keys.len() > 0 {
        let k0 = keys.drop_last();
        assert(k0.no_duplicates()) by {
            assert forall|i: int, j: int| 0 <= i < k0.len() && 0 <= j < k0.len() && i != j implies k0[i]
                != k0[j] by {
                assert(k0[i] == keys[i] && k0[j] == keys[j]);
            }
        }
        lemma_hits(k0, x);
        if keys.contains(x) {
            let i = choose|i: int| 0 <= i < keys.len() && keys[i] == x;
            if i < keys.len() - 1 {
                assert(k0[i] == x);
            }
        }
        if k0.contains(x) {
            let i = choose|i: int| 0 <= i < k0.len() && k0[i] == x;
            assert(keys[i] == x);
            if keys.last() == x {
                assert(keys[keys.len() - 1] == keys[i]);
            }
        }
        if keys.last() == x {
            assert(keys[keys.len() - 1] == x);
        }
    }
}

proof fn lemma_key_counts_total(s: Seq<TaskView>, kind: TallyKind, keys: Seq<Seq<char>>)
    requires
        keys.no_duplicates(),
        forall|k: int| 0 <= k < s.len() ==> ((#[trigger] tally_key(kind, s[k])) matches Some(x)
            && keys.contains(x)),
    ensures
        key_counts(s, kind, keys) == s.len(),
    decreases s.len(),
{
    if s.len() == 0 {
        lemma_key_counts_empty(s, kind, keys);
    } else {
        let s0 = s.drop_last();
        assert forall|k: int| 0 <= k < s0.len() implies ((#[trigger] tally_key(kind, s0[k])) matches Some(x)
            && keys.contains(x)) by {
            assert(s0[k] == s[k]);
        }
        lemma_key_counts_total(s0, kind, keys);
        assert(tally_key(kind, s[s.len() - 1]) is Some);
        lemma_key_counts_step(s0, kind, keys, s.last());
        lemma_hits(keys, tally_key(kind, s.last())->0);
        assert(s0.push(s.last()) =~= s);
    }
}

proof fn lemma_key_counts_empty(s: Seq<TaskView>, kind: TallyKind, keys: Seq<Seq<char>>)
    requires
        s.len() == 0,
    ensures
        key_counts(s, kind, keys) == 0,
    decreases keys.len(),
{
    if keys.len() > 0 {
        lemma_key_counts_empty(s, kind, keys.drop_last());
        let k = keys.last();
        assert(keep(s, |x: TaskView| tally_key(kind, x) == Some(k)) =~= Seq::<TaskView>::empty());
    }
}

proof fn lemma_tally_total(t: Seq<(String, usize)>, s: Seq<TaskView>, kind: TallyKind)
    requires
        forall|i: int| 0 <= i < t.len() ==> (#[trigger] t[i]).1 == count_key(s, kind, t[i].0@),
    ensures
        tally_total(t) == key_counts(s, kind, tally_keys(t)),
    decreases t.len(),
{
    if t.len() > 0 {
        let t0 = t.drop_last();
        assert forall|i: int| 0 <= i < t0.len() implies (#[trigger] t0[i]).1 == count_key(s, kind, t0[i].0@) by {
            assert(t0[i] == t[i]);
        }
        lemma_tally_total(t0, s, kind);
        assert(tally_keys(t).drop_last() =~= tally_keys(t0));
        assert(tally_keys(t).last() == t.last().0@);
        assert(t[t.len() - 1] == t.last());
    }
}

/// A tally whose keys every task has (by status, priority or creator)
/// counts every task once: its counts add up to the number of tasks.
proof fn lemma_full_tally(t: Seq<(String, usize)>, s: Seq<TaskView>, kind: TallyKind)
    requires
        tally_correct(t, s, kind),
        forall|k: int| 0 <= k < s.len() ==> (#[trigger] tally_key(kind, s[k])) is Some,
    ensures
        tally_total(t) == s.len(),
{
    lemma_tally_total(t, s, kind);
    let keys = tally_keys(t);
    assert(keys.no_duplicates()) by {
        assert forall|i: int, j: int| 0 <= i < keys.len() && 0 <= j < keys.len() && i != j implies keys[i]
            != keys[j] by {
            if i < j {
                assert(t[i].0@ != t[j].0@);
            } else {
                assert(t[j].0@ != t[i].0@);
            }
        }
    }
    assert forall|k: int| 0 <= k < s.len() implies ((#[trigger] tally_key(kind, s[k])) matches Some(x)
        && keys.contains(x)) by {
        assert(tally_key(kind, s[k]) is Some);
        let i = choose|i: int| 0 <= i < t.len() && (#[trigger] t[i]).0@ == tally_key(kind, s[k])->0;
        assert(keys[i] == t[i].0@);
    }
    lemma_key_counts_total(s, kind, keys);
}

/// Every task has a status, a priority and a creator, so the tallies by
/// each add up to the total.
pub proof fn law_tallies_add_up(st: Stats, s: Seq<TaskView>)
    requires
        stats_correct(st, s),
    ensures
        tally_total(st.by_status@) == st.total,
        tally_total(st.by_priority@) == st.total,
        tally_total(st.by_creator@) == st.total,
{
    lemma_full_tally(st.by_status@, s, TallyKind::ByStatus);
    lemma_full_tally(st.by_priority@, s, TallyKind::ByPriority);
    lemma_full_tally(st.by_creator@, s, TallyKind::ByCreator);
}

} // verus!
