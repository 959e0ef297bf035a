//! Tasks and their enumerated attributes.

use vstd::prelude::*;

use crate::model::recurrence::{Recurrence, RecurrenceView};
use crate::text::{concat, digit_char, same_text, take_chars};

verus! {

/// A task's identifier: the 128-bit value of a UUID.
pub type TaskId = u128;

/// 16 to the power `n`.
pub open spec fn pow16(n: nat) -> nat
    decreases n,
{
    if n == 0 {
        1
    } else {
        16 * pow16((n - 1) as nat)
    }
}

/// Lowercase hexadecimal digit.
pub open spec fn hex_char(d: int) -> char {
    if d < 10 {
        digit_char(d as nat)
    } else if d == 10 {
        'a'
    } else if d == 11 {
        'b'
    } else if d == 12 {
        'c'
    } else if d == 13 {
        'd'
    } else if d == 14 {
        'e'
    } else {
        'f'
    }
}

/// Index among the 32 hex digits of the character at position `i` of the
/// hyphenated form (dashes stand at 8, 13, 18 and 23).
pub open spec fn uuid_digit_index(i: int) -> int {
    if i < 8 {
        i
    } else if i < 13 {
        i - 1
    } else if i < 18 {
        i - 2
    } else if i < 23 {
        i - 3
    } else {
        i - 4
    }
}

/// The hyphenated lowercase form of a UUID given by its 128-bit value
/// (big-endian digits), e.g. `67e55044-10b1-426f-9247-bb680e5fe0c8`.
pub open spec fn uuid_text(id: TaskId) -> Seq<char> {
    Seq::new(
        36,
        |i: int|
            if i == 8 || i == 13 || i == 18 || i == 23 {
                '-'
            } else {
                hex_char(
                    ((id as nat) / pow16((31 - uuid_digit_index(i)) as nat)) as int % 16,
                )
            },
    )
}

/// `Uuid::new_v4()` as a 128-bit value: a random identifier, about which
/// nothing is promised.
#[verifier::external_body]
pub(crate) fn new_task_id() -> TaskId {
    uuid::Uuid::new_v4().as_u128()
}

/// `Uuid::from_u128(id).to_string()`: the hyphenated lowercase form.
#[verifier::external_body]
pub(crate) fn id_text(id: TaskId) -> (s: String)
    ensures
        s@ == uuid_text(id),
{
    uuid::Uuid::from_u128(id).to_string()
}

/// The hyphenated form of an identifier, as it is stored and shown.
pub fn full_id_text(id: TaskId) -> (s: String)
    ensures
        s@ == uuid_text(id),
{
    id_text(id)
}

/// The first eight characters of an identifier's hyphenated form.
pub open spec fn short_id(id: TaskId) -> Seq<char> {
    uuid_text(id).take(8)
}

/// The first eight characters of an identifier's hyphenated form.
pub fn short_id_text(id: TaskId) -> (s: String)
    ensures
        s@ == short_id(id),
{
    let full = id_text(id);
    take_chars(full.as_str(), 8)
}

/// A point in time as chrono counts it: whole seconds since the Unix epoch
/// (UTC), and nanoseconds past that second (a billion or more only within a
/// leap second).
#[derive(Debug, Clone, Copy, PartialEq, Eq, Structural)]
pub struct Timestamp {
    pub secs: i64,
    pub nanos: u32,
}

/// What `Display` writes for the UTC date and time `secs` seconds and
/// `nanos` nanoseconds after the Unix epoch, or `None` where chrono cannot
/// represent that time.
pub uninterp spec fn utc_time_text(secs: i64, nanos: u32) -> Option<Seq<char>>;

/// `DateTime::<Utc>::from_timestamp(secs, nanos)` written with `Display`
/// (`None` outside chrono's range or for nanoseconds it refuses).
#[verifier::external_body]
pub(crate) fn time_text(t: Timestamp) -> (r: Option<String>)
    ensures
        opt_view(r) == utc_time_text(t.secs, t.nanos),
{
    match chrono::DateTime::from_timestamp(t.secs, t.nanos) {
        Some(d) => Some(d.to_string()),
        None => None,
    }
}

/// `chrono::Utc::now()`, its seconds since the Unix epoch and the
/// nanoseconds past them: depends on the clock, so nothing is promised of it.
#[verifier::external_body]
pub(crate) fn now_time() -> Timestamp {
    let now = chrono::Utc::now();
    Timestamp { secs: now.timestamp(), nanos: now.timestamp_subsec_nanos() }
}

/// Workflow status of a task.
#[derive(Debug, Clone, Copy, PartialEq, Eq, Structural)]
pub enum Status {
    Todo,
    InProgress,
    Done,
    Cancelled,
}

/// Priority of a task, from lowest to highest.
#[derive(Debug, Clone, Copy, PartialEq, Eq, Structural)]
pub enum Priority {
    Unset,
    Low,
    Medium,
    High,
    Critical,
}

/// Who created a task.
#[derive(Debug, Clone, Copy, PartialEq, Eq, Structural)]
pub enum CreatedBy {
    Human,
    Ai,
}

pub open spec fn status_text(s: Status) -> Seq<char> {
    match s {
        Status::Todo => "todo"@,
        Status::InProgress => "in_progress"@,
        Status::Done => "done"@,
        Status::Cancelled => "cancelled"@,
    }
}

pub open spec fn priority_text(p: Priority) -> Seq<char> {
    match p {
        Priority::Unset => "none"@,
        Priority::Low => "low"@,
        Priority::Medium => "medium"@,
        Priority::High => "high"@,
        Priority::Critical => "critical"@,
    }
}

pub open spec fn created_by_text(c: CreatedBy) -> Seq<char> {
    match c {
        CreatedBy::Human => "human"@,
        CreatedBy::Ai => "ai"@,
    }
}

/// The status a text names, if any.
pub open spec fn status_from_text(t: Seq<char>) -> Option<Status> {
    if t == "todo"@ {
        Some(Status::Todo)
    } else if t == "in_progress"@ {
        Some(Status::InProgress)
    } else if t == "done"@ {
        Some(Status::Done)
    } else if t == "cancelled"@ {
        Some(Status::Cancelled)
    } else {
        None
    }
}

/// The priority a text names, if any.
pub open spec fn priority_from_text(t: Seq<char>) -> Option<Priority> {
    if t == "none"@ {
        Some(Priority::Unset)
    } else if t == "low"@ {
        Some(Priority::Low)
    } else if t == "medium"@ {
        Some(Priority::Medium)
    } else if t == "high"@ {
        Some(Priority::High)
    } else if t == "critical"@ {
        Some(Priority::Critical)
    } else {
        None
    }
}

/// The creator a text names, if any.
pub open spec fn created_by_from_text(t: Seq<char>) -> Option<CreatedBy> {
    if t == "human"@ {
        Some(CreatedBy::Human)
    } else if t == "ai"@ {
        Some(CreatedBy::Ai)
    } else {
        None
    }
}

/// Message of a rejected attribute text: `Invalid <what>: '<text>'`.
pub open spec fn invalid_value_text(what: Seq<char>, t: Seq<char>) -> Seq<char> {
    "Invalid "@ + what + ": '"@ + t + "'"@
}

fn invalid_value(what: &str, t: &str) -> (r: String)
    ensures
        r@ == invalid_value_text(what@, t@),
{
    let a = concat("Invalid ", what);
    let b = concat(a.as_str(), ": '");
    let c = concat(b.as_str(), t);
    concat(c.as_str(), "'")
}

impl Status {
    /// The snake_case name of the status.
    pub fn as_text(&self) -> (r: &'static str)
        ensures
            r@ == status_text(*self),
    {
        match self {
            Status::Todo => "todo",
            Status::InProgress => "in_progress",
            Status::Done => "done",
            Status::Cancelled => "cancelled",
        }
    }

    /// Parses a snake_case status name.
    pub fn parse(s: &str) -> (r: Result<Status, String>)
        ensures
            match status_from_text(s@) {
                Some(st) => r == Ok::<Status, String>(st),
                None => r is Err && r->Err_0@ == invalid_value_text("status"@, s@),
            },
    {
        if same_text(s, "todo") {
            Ok(Status::Todo)
        } else if same_text(s, "in_progress") {
            Ok(Status::InProgress)
        } else if same_text(s, "done") {
            Ok(Status::Done)
        } else if same_text(s, "cancelled") {
            Ok(Status::Cancelled)
        } else {
            Err(invalid_value("status", s))
        }
    }

    /// Done and cancelled tasks are finished.
    pub fn is_finished(&self) -> (r: bool)
        ensures
            r == (*self == Status::Done || *self == Status::Cancelled),
    {
        match self {
            Status::Done | Status::Cancelled => true,
            _ => false,
        }
    }
}

impl Priority {
    /// The lowercase name of the priority.
    pub fn as_text(&self) -> (r: &'static str)
        ensures
            r@ == priority_text(*self),
    {
        match self {
            Priority::Unset => "none",
            Priority::Low => "low",
            Priority::Medium => "medium",
            Priority::High => "high",
            Priority::Critical => "critical",
        }
    }

    /// Parses a lowercase priority name.
    pub fn parse(s: &str) -> (r: Result<Priority, String>)
        ensures
            match priority_from_text(s@) {
                Some(p) => r == Ok::<Priority, String>(p),
                None => r is Err && r->Err_0@ == invalid_value_text("priority"@, s@),
            },
    {
        if same_text(s, "none") {
            Ok(Priority::Unset)
        } else if same_text(s, "low") {
            Ok(Priority::Low)
        } else if same_text(s, "medium") {
            Ok(Priority::Medium)
        } else if same_text(s, "high") {
            Ok(Priority::High)
        } else if same_text(s, "critical") {
            Ok(Priority::Critical)
        } else {
            Err(invalid_value("priority", s))
        }
    }
}

impl CreatedBy {
    /// The lowercase name of the creator kind.
    pub fn as_text(&self) -> (r: &'static str)
        ensures
            r@ == created_by_text(*self),
    {
        match self {
            CreatedBy::Human => "human",
            CreatedBy::Ai => "ai",
        }
    }

    /// Parses a lowercase creator name.
    pub fn parse(s: &str) -> (r: Result<CreatedBy, String>)
        ensures
            match created_by_from_text(s@) {
                Some(c) => r == Ok::<CreatedBy, String>(c),
                None => r is Err && r->Err_0@ == invalid_value_text("created_by"@, s@),
            },
    {
        if same_text(s, "human") {
            Ok(CreatedBy::Human)
        } else if same_text(s, "ai") {
            Ok(CreatedBy::Ai)
        } else {
            Err(invalid_value("created_by", s))
        }
    }
}

/// A task.
#[derive(Debug, Clone)]
pub struct Task {
    pub id: TaskId,
    pub title: String,
    pub content: Option<String>,
    pub status: Status,
    pub priority: Priority,
    pub created_by: CreatedBy,
    pub label: Option<String>,
    pub project: Option<String>,
    pub parent_id: Option<TaskId>,
    pub recurrence: Recurrence,
    pub created_at: Timestamp,
    pub updated_at: Timestamp,
    pub completed_at: Option<Timestamp>,
}

/// Mathematical model of a task: texts as character sequences.
pub struct TaskView {
    pub id: TaskId,
    pub title: Seq<char>,
    pub content: Option<Seq<char>>,
    pub status: Status,
    pub priority: Priority,
    pub created_by: CreatedBy,
    pub label: Option<Seq<char>>,
    pub project: Option<Seq<char>>,
    pub parent_id: Option<TaskId>,
    pub recurrence: RecurrenceView,
    pub created_at: Timestamp,
    pub updated_at: Timestamp,
    pub completed_at: Option<Timestamp>,
}

/// Model of an optional text.
pub open spec fn opt_view(o: Option<String>) -> Option<Seq<char>> {
    match o {
        Some(s) => Some(s@),
        None => None,
    }
}

impl View for Task {
    type V = TaskView;

    open spec fn view(&self) -> TaskView {
        TaskView {
            id: self.id,
            title: self.title@,
            content: opt_view(self.content),
            status: self.status,
            priority: self.priority,
            created_by: self.created_by,
            label: opt_view(self.label),
            project: opt_view(self.project),
            parent_id: self.parent_id,
            recurrence: self.recurrence@,
            created_at: self.created_at,
            updated_at: self.updated_at,
            completed_at: self.completed_at,
        }
    }
}

/// Models of a sequence of tasks.
pub open spec fn tasks_view(s: Seq<Task>) -> Seq<TaskView> {
    s.map_values(|t: Task| t@)
}

/// A copy of an optional text.
pub fn copy_opt_text(o: &Option<String>) -> (r: Option<String>)
    ensures
        r == *o,
        opt_view(r) == opt_view(*o),
{
    match o {
        Some(s) => Some(s.clone()),
        None => None,
    }
}

impl Task {
    /// A copy of the task, equal to it in every field.
    pub fn duplicate(&self) -> (r: Task)
        ensures
            r@ == self@,
    {
        Task {
            id: self.id,
            title: self.title.clone(),
            content: copy_opt_text(&self.content),
            status: self.status,
            priority: self.priority,
            created_by: self.created_by,
            label: copy_opt_text(&self.label),
            project: copy_opt_text(&self.project),
            parent_id: self.parent_id,
            recurrence: self.recurrence.duplicate(),
            created_at: self.created_at,
            updated_at: self.updated_at,
            completed_at: self.completed_at,
        }
    }
}

/// Copies of all tasks of a slice, in order.
pub fn copy_tasks(v: &[Task]) -> (r: Vec<Task>)
    ensures
        tasks_view(r@) == tasks_view(v@),
{
    let mut r: Vec<Task> = Vec::new();
    let mut i: usize = 0;
    while i < v.len()
        invariant
            0 <= i <= v@.len(),
            r@.len() == i,
            tasks_view(r@) =~= tasks_view(v@.subrange(0, i as int)),
        decreases v@.len() - i,
    {
        let t = v[i].duplicate();
        let ghost before = r@;
        r.push(t);
        assert forall|k: int| 0 <= k < r@.len() implies #[trigger] r@[k]@ == v@.subrange(
            0,
            i + 1,
        )[k]@ by {
            if k < i {
                assert(tasks_view(before)[k] == tasks_view(v@.subrange(0, i as int))[k]);
            }
        }
        assert(tasks_view(r@) =~= tasks_view(v@.subrange(0, i + 1)));
        i += 1;
    }
    assert(v@.subrange(0, v@.len() as int) =~= v@);
    r
}

/// The name of a status parses back to the status.
pub proof fn law_status_names_round_trip(s: Status)
    ensures
        status_from_text(status_text(s)) == Some(s),
{
    reveal_strlit("todo");
    reveal_strlit("in_progress");
    reveal_strlit("done");
    reveal_strlit("cancelled");
    assert("in_progress"@ != "todo"@ && "done"@ != "todo"@ && "done"@ != "in_progress"@
        && "cancelled"@ != "todo"@ && "cancelled"@ != "in_progress"@ && "cancelled"@ != "done"@) by {
        assert("in_progress"@.len() != "todo"@.len());
        assert("done"@[0] != "todo"@[0]);
        assert("done"@.len() != "in_progress"@.len());
        assert("cancelled"@.len() != "todo"@.len());
        assert("cancelled"@.len() != "in_progress"@.len());
        assert("cancelled"@.len() != "done"@.len());
    }
}

/// The name of a priority parses back to the priority.
pub proof fn law_priority_names_round_trip(p: Priority)
    ensures
        priority_from_text(priority_text(p)) == Some(p),
{
    reveal_strlit("none");
    reveal_strlit("low");
    reveal_strlit("medium");
    reveal_strlit("high");
    reveal_strlit("critical");
    assert("low"@ != "none"@ && "medium"@ != "none"@ && "medium"@ != "low"@ && "high"@ != "none"@
        && "high"@ != "low"@ && "high"@ != "medium"@ && "critical"@ != "none"@ && "critical"@
        != "low"@ && "critical"@ != "medium"@ && "critical"@ != "high"@) by {
        assert("low"@.len() != "none"@.len());
        assert("medium"@.len() != "none"@.len());
        assert("medium"@.len() != "low"@.len());
        assert("high"@[0] != "none"@[0]);
        assert("high"@.len() != "low"@.len());
        assert("high"@.len() != "medium"@.len());
        assert("critical"@.len() != "none"@.len());
        assert("critical"@.len() != "low"@.len());
        assert("critical"@.len() != "medium"@.len());
        assert("critical"@.len() != "high"@.len());
    }
}

} // verus!
