//! Orders of tasks and stable sorting by them.

use vstd::prelude::*;

use crate::model::task::{Priority, Task, TaskView, Timestamp, tasks_view};
use crate::text::{lemma_text_order_range, same_text, text_order, text_order_spec};

verus! {

/// Field by which tasks are sorted.
#[derive(Debug, Clone, Copy, PartialEq, Eq, Structural)]
pub enum SortKey {
    Priority,
    UpdatedAt,
    Title,
    CreatedAt,
}

/// The sort field a name selects: `priority`, `updated_at`, `title`, and
/// creation time for any other name.
pub open spec fn sort_key_of(field: Seq<char>) -> SortKey {
    if field == "priority"@ {
        SortKey::Priority
    } else if field == "updated_at"@ {
        SortKey::UpdatedAt
    } else if field == "title"@ {
        SortKey::Title
    } else {
        SortKey::CreatedAt
    }
}

impl SortKey {
    pub fn from_field(field: &str) -> (r: SortKey)
        ensures
            r == sort_key_of(field@),
    {
        if same_text(field, "priority") {
            SortKey::Priority
        } else if same_text(field, "updated_at") {
            SortKey::UpdatedAt
        } else if same_text(field, "title") {
            SortKey::Title
        } else {
            SortKey::CreatedAt
        }
    }
}

/// Rank of a priority, from 0 (none) to 4 (critical).
pub open spec fn priority_rank(p: Priority) -> int {
    match p {
        Priority::Unset => 0,
        Priority::Low => 1,
        Priority::Medium => 2,
        Priority::High => 3,
        Priority::Critical => 4,
    }
}

/// Rank of a priority, from 0 (none) to 4 (critical).
pub fn priority_sort_value(p: &Priority) -> (r: u8)
    ensures
        r as int == priority_rank(*p),
{
    match p {
        Priority::Unset => 0,
        Priority::Low => 1,
        Priority::Medium => 2,
        Priority::High => 3,
        Priority::Critical => 4,
    }
}

/// Three-way comparison of integers.
pub open spec fn int_order(a: int, b: int) -> int {
    if a < b {
        -1
    } else if a > b {
        1
    } else {
        0
    }
}

/// Three-way comparison of points in time: by seconds, then nanoseconds.
pub open spec fn time_order(a: Timestamp, b: Timestamp) -> int {
    if a.secs != b.secs {
        int_order(a.secs as int, b.secs as int)
    } else {
        int_order(a.nanos as int, b.nanos as int)
    }
}

/// Three-way comparison of tasks by a key: priority descending, the others ascending.
pub open spec fn key_order(a: TaskView, b: TaskView, key: SortKey) -> int {
    match key {
        SortKey::Priority => int_order(priority_rank(b.priority), priority_rank(a.priority)),
        SortKey::UpdatedAt => time_order(a.updated_at, b.updated_at),
        SortKey::Title => text_order_spec(a.title, b.title),
        SortKey::CreatedAt => time_order(a.created_at, b.created_at),
    }
}

/// Three-way comparison of tasks, reversed when `reverse`.
pub open spec fn task_order(a: TaskView, b: TaskView, key: SortKey, reverse: bool) -> int {
    if reverse {
        -key_order(a, b, key)
    } else {
        key_order(a, b, key)
    }
}

fn timestamp_order(a: Timestamp, b: Timestamp) -> (r: i8)
    ensures
        r as int == time_order(a, b),
{
    if a.secs < b.secs {
        -1
    } else if a.secs > b.secs {
        1
    } else if a.nanos < b.nanos {
        -1
    } else if a.nanos > b.nanos {
        1
    } else {
        0
    }
}

/// Compares two tasks by a key, reversed when `reverse`.
pub fn compare_tasks(a: &Task, b: &Task, key: SortKey, reverse: bool) -> (r: i8)
    ensures
        r as int == task_order(a@, b@, key, reverse),
{
    let c: i8 = match key {
        SortKey::Priority => {
            let x = priority_sort_value(&b.priority);
            let y = priority_sort_value(&a.priority);
            if x < y {
                -1
            } else if x > y {
                1
            } else {
                0
            }
        },
        SortKey::UpdatedAt => timestamp_order(a.updated_at, b.updated_at),
        SortKey::Title => text_order(a.title.as_str(), b.title.as_str()),
        SortKey::CreatedAt => timestamp_order(a.created_at, b.created_at),
    };
    proof {
        lemma_text_order_range(a.title@, b.title@);
    }
    assert(-1 <= c <= 1);
    if reverse {
        -c
    } else {
        c
    }
}

/// Where a stable insertion puts `x` into `s`: before the first element
/// that orders after it.
pub open spec fn insert_pos(s: Seq<TaskView>, x: TaskView, key: SortKey, reverse: bool) -> int
    decreases s.len(),
{
    if s.len() == 0 {
        0
    } else if task_order(s[0], x, key, reverse) > 0 {
        0
    } else {
        1 + insert_pos(s.drop_first(), x, key, reverse)
    }
}

/// `s` sorted stably by the order: elements that compare equal keep their
/// relative order.
pub open spec fn sorted_by(s: Seq<TaskView>, key: SortKey, reverse: bool) -> Seq<TaskView>
    decreases s.len(),
{
    if s.len() == 0 {
        s
    } else {
        let r = sorted_by(s.drop_last(), key, reverse);
        r.insert(insert_pos(r, s.last(), key, reverse), s.last())
    }
}

proof fn lemma_insert_pos(s: Seq<TaskView>, x: TaskView, key: SortKey, reverse: bool, k: int)
    requires
        0 <= k <= s.len(),
        forall|j: int| 0 <= j < k ==> task_order(#[trigger] s[j], x, key, reverse) <= 0,
        k < s.len() ==> task_order(s[k], x, key, reverse) > 0,
    ensures
        insert_pos(s, x, key, reverse) == k,
    decreases k,
{
    if k > 0 {
        assert forall|j: int| 0 <= j < k - 1 implies task_order(
            #[trigger] s.drop_first()[j],
            x,
            key,
            reverse,
        ) <= 0 by {
            assert(s.drop_first()[j] == s[j + 1]);
        }
        assert(task_order(s[0], x, key, reverse) <= 0);
        lemma_insert_pos(s.drop_first(), x, key, reverse, k - 1);
    }
}

/// Sorts tasks stably by the field that `sort_field` names, in reverse
/// order when `reverse`.
pub fn sort_tasks(tasks: &mut Vec<Task>, sort_field: &str, reverse: bool)
    ensures
        tasks_view(final(tasks)@) == sorted_by(tasks_view(old(tasks)@), sort_key_of(sort_field@), reverse),
{
    let key = SortKey::from_field(sort_field);
    sort_tasks_by(tasks, key, reverse);
}

/// Sorts tasks stably by `key`, in reverse order when `reverse`.
pub fn sort_tasks_by(tasks: &mut Vec<Task>, key: SortKey, reverse: bool)
    ensures
        tasks_view(final(tasks)@) == sorted_by(tasks_view(old(tasks)@), key, reverse),
{
    let ghost sv = tasks_view(tasks@);
    let mut out: Vec<Task> = Vec::new();
    let mut i: usize = 0;
    while i < tasks.len()
        invariant
            sv == tasks_view(tasks@),
            0 <= i <= tasks@.len(),
            tasks_view(out@) == sorted_by(sv.take(i as int), key, reverse),
        decreases tasks@.len() - i,
    {
        let x = tasks[i].duplicate();
        let ghost ov = tasks_view(out@);
        let mut k: usize = 0;
        while k < out.len() && compare_tasks(&out[k], &x, key, reverse) <= 0
            invariant
                ov == tasks_view(out@),
                0 <= k <= out@.len(),
                forall|j: int| 0 <= j < k ==> task_order(#[trigger] ov[j], x@, key, reverse) <= 0,
            decreases out@.len() - k,
        {
            k += 1;
        }
        proof {
            lemma_insert_pos(ov, x@, key, reverse, k as int);
            assert(sv.take(i + 1).drop_last() =~= sv.take(i as int));
            assert(sv.take(i + 1).last() == x@);
        }
        out.insert(k, x);
        assert(tasks_view(out@) =~= ov.insert(k as int, x@));
        i += 1;
    }
    assert(sv.take(sv.len() as int) =~= sv);
    *tasks = out;
}

/// The order of texts is antisymmetric: swapping the texts flips the sign.
pub proof fn lemma_text_order_antisym(a: Seq<char>, b: Seq<char>)
    ensures
        text_order_spec(a, b) == -text_order_spec(b, a),
    decreases a.len(),
{
    if a.len() > 0 && b.len() > 0 && a[0] == b[0] {
        lemma_text_order_antisym(a.drop_first(), b.drop_first());
    }
}

/// The order of texts is transitive.
pub proof fn lemma_text_order_trans(a: Seq<char>, b: Seq<char>, c: Seq<char>)
    requires
        text_order_spec(a, b) <= 0,
        text_order_spec(b, c) <= 0,
    ensures
        text_order_spec(a, c) <= 0,
    decreases a.len(),
{
    if a.len() > 0 && b.len() > 0 && c.len() > 0 && a[0] == b[0] && b[0] == c[0] {
        lemma_text_order_trans(a.drop_first(), b.drop_first(), c.drop_first());
    }
}

/// The order of tasks under a key is antisymmetric.
pub proof fn lemma_task_order_antisym(a: TaskView, b: TaskView, key: SortKey, reverse: bool)
    ensures
        task_order(a, b, key, reverse) == -task_order(b, a, key, reverse),
{
    lemma_text_order_antisym(a.title, b.title);
}

/// The order of tasks under a key is transitive.
pub proof fn lemma_task_order_trans(a: TaskView, b: TaskView, c: TaskView, key: SortKey, reverse: bool)
    requires
        task_order(a, b, key, reverse) <= 0,
        task_order(b, c, key, reverse) <= 0,
    ensures
        task_order(a, c, key, reverse) <= 0,
{
    if key == SortKey::Title {
        if reverse {
            lemma_text_order_antisym(a.title, b.title);
            lemma_text_order_antisym(b.title, c.title);
            lemma_text_order_antisym(a.title, c.title);
            lemma_text_order_trans(c.title, b.title, a.title);
        } else {
            lemma_text_order_trans(a.title, b.title, c.title);
        }
    }
}

/// Where a stable insertion puts `x`: every element before orders at or
/// before `x`, the element there (if any) after it.
pub proof fn lemma_insert_pos_props(s: Seq<TaskView>, x: TaskView, key: SortKey, reverse: bool)
    ensures
        0 <= insert_pos(s, x, key, reverse) <= s.len(),
        forall|j: int|
            0 <= j < insert_pos(s, x, key, reverse) ==> task_order(#[trigger] s[j], x, key, reverse)
                <= 0,
        insert_pos(s, x, key, reverse) < s.len() ==> task_order(
            s[insert_pos(s, x, key, reverse)],
            x,
            key,
            reverse,
        ) > 0,
    decreases s.len(),
{
    if s.len() > 0 && task_order(s[0], x, key, reverse) <= 0 {
        let t = s.drop_first();
        lemma_insert_pos_props(t, x, key, reverse);
        assert forall|j: int| 0 <= j < insert_pos(s, x, key, reverse) implies task_order(
            #[trigger] s[j],
            x,
            key,
            reverse,
        ) <= 0 by {
            if j > 0 {
                assert(s[j] == t[j - 1]);
            }
        }
    }
}

/// Sorting keeps the tasks: the sorted sequence holds the same tasks, each
/// as often.
pub proof fn law_sort_keeps_tasks(s: Seq<TaskView>, key: SortKey, reverse: bool)
    ensures
        sorted_by(s, key, reverse).to_multiset() == s.to_multiset(),
    decreases s.len(),
{
    broadcast use vstd::seq_lib::group_to_multiset_ensures;

    if s.len() > 0 {
        let r = sorted_by(s.drop_last(), key, reverse);
        law_sort_keeps_tasks(s.drop_last(), key, reverse);
        lemma_insert_pos_props(r, s.last(), key, reverse);
        vstd::seq_lib::to_multiset_insert(r, insert_pos(r, s.last(), key, reverse), s.last());
        assert(s.drop_last().push(s.last()) =~= s);
        vstd::seq_lib::to_multiset_build(s.drop_last(), s.last());
    }
}

/// Sorting orders the tasks: no task comes before one that orders before it.
pub proof fn law_sort_orders_tasks(s: Seq<TaskView>, key: SortKey, reverse: bool)
    ensures
        forall|i: int, j: int|
            0 <= i < j < sorted_by(s, key, reverse).len() ==> task_order(
                #[trigger] sorted_by(s, key, reverse)[i],
                #[trigger] sorted_by(s, key, reverse)[j],
                key,
                reverse,
            ) <= 0,
    decreases s.len(),
{
    if s.len() > 0 {
        let r = sorted_by(s.drop_last(), key, reverse);
        let x = s.last();
        law_sort_orders_tasks(s.drop_last(), key, reverse);
        lemma_insert_pos_props(r, x, key, reverse);
        let k = insert_pos(r, x, key, reverse);
        let out = r.insert(k, x);
        assert(out == sorted_by(s, key, reverse));
        assert forall|i: int, j: int| 0 <= i < j < out.len() implies task_order(
            #[trigger] out[i],
            #[trigger] out[j],
            key,
            reverse,
        ) <= 0 by {
            if j < k {
                assert(out[i] == r[i] && out[j] == r[j]);
            } else if j == k {
                assert(out[i] == r[i] && out[j] == x);
            } else if i > k {
                assert(out[i] == r[i - 1] && out[j] == r[j - 1]);
            } else if i == k {
                assert(out[i] == x && out[j] == r[j - 1]);
                lemma_task_order_antisym(r[k], x, key, reverse);
                if j - 1 > k {
                    assert(task_order(r[k], r[j - 1], key, reverse) <= 0);
                    lemma_task_order_trans(x, r[k], r[j - 1], key, reverse);
                }
            } else {
                assert(out[i] == r[i] && out[j] == r[j - 1]);
            }
        }
    }
}


/// `a` is no later than `b`.
pub open spec fn no_later(a: Timestamp, b: Timestamp) -> bool {
    a.secs < b.secs || (a.secs == b.secs && a.nanos <= b.nanos)
}

/// Two tasks stand in the order that sorting by the field `name` asks for:
/// by update time for `updated_at`, by title for `title`, from the highest
/// priority down for `priority`, and by creation time for `created_at` and
/// any other name; `reverse` turns the order around.
pub open spec fn in_field_order(name: Seq<char>, a: TaskView, b: TaskView, reverse: bool) -> bool {
    let (x, y) = if reverse { (b, a) } else { (a, b) };
    if name == "updated_at"@ {
        no_later(x.updated_at, y.updated_at)
    } else if name == "title"@ {
        text_order_spec(x.title, y.title) <= 0
    } else if name == "priority"@ {
        priority_rank(x.priority) >= priority_rank(y.priority)
    } else {
        no_later(x.created_at, y.created_at)
    }
}

/// Sorting by a field name orders the tasks by that field: for any tasks,
/// each sorted task stands before every later one in the field's order.
pub proof fn law_sort_by_named_field(s: Seq<TaskView>, name: Seq<char>, reverse: bool)
    ensures
        forall|i: int, j: int|
            0 <= i < j < sorted_by(s, sort_key_of(name), reverse).len() ==> in_field_order(
                name,
                #[trigger] sorted_by(s, sort_key_of(name), reverse)[i],
                #[trigger] sorted_by(s, sort_key_of(name), reverse)[j],
                reverse,
            ),
{
    reveal_strlit("priority");
    reveal_strlit("updated_at");
    reveal_strlit("title");
    assert("updated_at"@.len() == 10 && "priority"@.len() == 8 && "title"@.len() == 5);
    assert("updated_at"@ != "priority"@);
    assert("title"@ != "priority"@ && "title"@ != "updated_at"@);
    let key = sort_key_of(name);
    law_sort_orders_tasks(s, key, reverse);
    let r = sorted_by(s, key, reverse);
    assert forall|i: int, j: int| 0 <= i < j < r.len() implies in_field_order(
        name,
        #[trigger] r[i],
        #[trigger] r[j],
        reverse,
    ) by {
        assert(task_order(r[i], r[j], key, reverse) <= 0);
        lemma_task_order_antisym(r[i], r[j], key, reverse);
        lemma_text_order_antisym(r[i].title, r[j].title);
        if name == "updated_at"@ {
            assert(key == SortKey::UpdatedAt);
        } else if name == "title"@ {
            assert(key == SortKey::Title);
        } else if name == "priority"@ {
            assert(key == SortKey::Priority);
        } else {
            assert(key == SortKey::CreatedAt);
        }
    }
}

} // verus!
