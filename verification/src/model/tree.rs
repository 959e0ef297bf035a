//! Tree order of tasks: root tasks, each followed by its subtasks.

use vstd::prelude::*;

use crate::model::order::{
    insert_pos, law_sort_keeps_tasks, lemma_insert_pos_props, sort_tasks_by, sorted_by, SortKey,
};
use crate::model::task::{tasks_view, Task, TaskId, TaskView};
use crate::store::seqs::{
    children_of, has_id, keep, lemma_keep_all, lemma_keep_members, lemma_keep_step, unique_ids,
};

verus! {

/// Tasks without a parent.
pub open spec fn roots_of(s: Seq<TaskView>) -> Seq<TaskView> {
    keep(s, |t: TaskView| t.parent_id is None)
}

/// Each root followed by its children in `s`, the children ordered as
/// `sorted_by` orders them under the key and direction.
pub open spec fn roots_with_children(
    roots: Seq<TaskView>,
    s: Seq<TaskView>,
    key: SortKey,
    reverse: bool,
) -> Seq<TaskView>
    decreases roots.len(),
{
    if roots.len() == 0 {
        Seq::empty()
    } else {
        roots_with_children(roots.drop_last(), s, key, reverse) + seq![roots.last()] + sorted_by(
            children_of(s, roots.last().id),
            key,
            reverse,
        )
    }
}

/// Subtasks of `s` whose parent is not among `roots`.
pub open spec fn orphans(s: Seq<TaskView>, roots: Seq<TaskView>) -> Seq<TaskView> {
    keep(s, |t: TaskView| t.parent_id matches Some(pid) && !has_id(roots, pid))
}

/// Tree order of `s` under a sort key: the roots sorted, each followed by its
/// children sorted, then the subtasks whose parent is not there, in their
/// order in `s`.
pub open spec fn tree_sorted(s: Seq<TaskView>, key: SortKey, reverse: bool) -> Seq<TaskView> {
    let roots = sorted_by(roots_of(s), key, reverse);
    roots_with_children(roots, s, key, reverse) + orphans(s, roots)
}

/// As a multiset, the tasks kept by `a` are those kept by `a` and `b`
/// together with those kept by `a` and not `b`.
proof fn lemma_keep_split(
    s: Seq<TaskView>,
    a: spec_fn(TaskView) -> bool,
    b: spec_fn(TaskView) -> bool,
)
    ensures
        keep(s, a).to_multiset() =~= keep(s, |t: TaskView| a(t) && b(t)).to_multiset().add(
            keep(s, |t: TaskView| a(t) && !b(t)).to_multiset(),
        ),
    decreases s.len(),
{
    broadcast use vstd::seq_lib::group_to_multiset_ensures;
    broadcast use vstd::multiset::group_multiset_axioms;

    let ab = |t: TaskView| a(t) && b(t);
    let anb = |t: TaskView| a(t) && !b(t);
    if s.len() == 0 {
        assert(keep(s, a) =~= Seq::<TaskView>::empty());
        assert(keep(s, ab) =~= Seq::<TaskView>::empty());
        assert(keep(s, anb) =~= Seq::<TaskView>::empty());
    } else {
        lemma_keep_split(s.drop_last(), a, b);
    }
}

/// Keeping every task keeps the sequence.
proof fn lemma_keep_every(s: Seq<TaskView>)
    ensures
        keep(s, |t: TaskView| true) == s,
    decreases s.len(),
{
    if s.len() > 0 {
        lemma_keep_every(s.drop_last());
        assert(s.drop_last().push(s.last()) =~= s);
    }
}

/// Kept tasks of tasks with distinct identifiers have distinct identifiers.
proof fn lemma_keep_unique(s: Seq<TaskView>, p: spec_fn(TaskView) -> bool)
    requires
        unique_ids(s),
    ensures
        unique_ids(keep(s, p)),
    decreases s.len(),
{
    if s.len() > 0 {
        let s0 = s.drop_last();
        assert(unique_ids(s0)) by {
            assert forall|i: int, j: int| 0 <= i < j < s0.len() implies (#[trigger] s0[i]).id != (
            #[trigger] s0[j]).id by {
                assert(s0[i] == s[i] && s0[j] == s[j]);
            }
        }
        lemma_keep_unique(s0, p);
        lemma_keep_members(s0, p);
        let r = keep(s0, p);
        if p(s.last()) {
            let q = r.push(s.last());
            assert forall|i: int, j: int| 0 <= i < j < q.len() implies (#[trigger] q[i]).id != (
            #[trigger] q[j]).id by {
                if j == r.len() {
                    assert(q[i] == r[i]);
                    assert(p(r[i]) && s0.contains(r[i]));
                    let k = choose|k: int| 0 <= k < s0.len() && s0[k] == r[i];
                    assert(s[k] == r[i] && q[j] == s[s.len() - 1]);
                } else {
                    assert(q[i] == r[i] && q[j] == r[j]);
                }
            }
        }
    }
}

/// Sorting tasks with distinct identifiers keeps them distinct.
proof fn lemma_sorted_unique(s: Seq<TaskView>, key: SortKey, reverse: bool)
    requires
        unique_ids(s),
    ensures
        unique_ids(sorted_by(s, key, reverse)),
    decreases s.len(),
{
    broadcast use vstd::seq_lib::group_to_multiset_ensures;

    if s.len() > 0 {
        let s0 = s.drop_last();
        let x = s.last();
        assert(unique_ids(s0)) by {
            assert forall|i: int, j: int| 0 <= i < j < s0.len() implies (#[trigger] s0[i]).id != (
            #[trigger] s0[j]).id by {
                assert(s0[i] == s[i] && s0[j] == s[j]);
            }
        }
        lemma_sorted_unique(s0, key, reverse);
        law_sort_keeps_tasks(s0, key, reverse);
        let r = sorted_by(s0, key, reverse);
        lemma_insert_pos_props(r, x, key, reverse);
        let k = insert_pos(r, x, key, reverse);
        let q = r.insert(k, x);
        assert forall|i: int| 0 <= i < r.len() implies (#[trigger] r[i]).id != x.id by {
            assert(r.contains(r[i]));
            assert(r.to_multiset().count(r[i]) > 0);
            assert(s0.contains(r[i]));
            let m = choose|m: int| 0 <= m < s0.len() && s0[m] == r[i];
            assert(s[m] == r[i] && s[s.len() - 1] == x);
        }
        assert forall|i: int, j: int| 0 <= i < j < q.len() implies (#[trigger] q[i]).id != (
        #[trigger] q[j]).id by {
            if j < k {
                assert(q[i] == r[i] && q[j] == r[j]);
            } else if j == k {
                assert(q[i] == r[i] && q[j] == x);
            } else if i < k {
                assert(q[i] == r[i] && q[j] == r[j - 1]);
            } else if i == k {
                assert(q[i] == x && q[j] == r[j - 1]);
            } else {
                assert(q[i] == r[i - 1] && q[j] == r[j - 1]);
            }
        }
    }
}

/// An identifier of `s.push(r)` is one of `s` or that of `r`.
proof fn lemma_has_id_push(s: Seq<TaskView>, r: TaskView, id: TaskId)
    ensures
        has_id(s.push(r), id) <==> (has_id(s, id) || r.id == id),
{
    let q = s.push(r);
    if has_id(q, id) {
        let k = choose|k: int| 0 <= k < q.len() && (#[trigger] q[k]).id == id;
        if k < s.len() {
            assert(s[k] == q[k]);
        }
    }
    if has_id(s, id) {
        let k = choose|k: int| 0 <= k < s.len() && (#[trigger] s[k]).id == id;
        assert(q[k] == s[k]);
    }
    if r.id == id {
        assert(q[s.len() as int] == r);
    }
}

/// The roots with their children hold, as a multiset, the roots and every
/// task whose parent is one of them.
proof fn lemma_roots_with_children_tasks(
    roots: Seq<TaskView>,
    s: Seq<TaskView>,
    key: SortKey,
    reverse: bool,
)
    requires
        unique_ids(roots),
    ensures
        roots_with_children(roots, s, key, reverse).to_multiset() =~= roots.to_multiset().add(
            keep(s, |t: TaskView| t.parent_id matches Some(pid) && has_id(roots, pid)).to_multiset(),
        ),
    decreases roots.len(),
{
    broadcast use vstd::seq_lib::group_to_multiset_ensures;
    broadcast use vstd::multiset::group_multiset_axioms;

    let under = |t: TaskView| t.parent_id matches Some(pid) && has_id(roots, pid);
    if roots.len() == 0 {
        lemma_keep_members(s, under);
        if keep(s, under).len() > 0 {
            assert(under(keep(s, under)[0]));
        }
        assert(keep(s, under) =~= Seq::<TaskView>::empty());
        assert(roots =~= Seq::<TaskView>::empty());
    } else {
        let r0 = roots.drop_last();
        let r = roots.last();
        assert(unique_ids(r0)) by {
            assert forall|i: int, j: int| 0 <= i < j < r0.len() implies (#[trigger] r0[i]).id != (
            #[trigger] r0[j]).id by {
                assert(r0[i] == roots[i] && r0[j] == roots[j]);
            }
        }
        assert(!has_id(r0, r.id)) by {
            if has_id(r0, r.id) {
                let k = choose|k: int| 0 <= k < r0.len() && (#[trigger] r0[k]).id == r.id;
                assert(roots[k] == r0[k] && roots[roots.len() - 1] == r);
            }
        }
        assert(r0.push(r) =~= roots);
        lemma_roots_with_children_tasks(r0, s, key, reverse);
        let kids = children_of(s, r.id);
        law_sort_keeps_tasks(kids, key, reverse);
        let before = roots_with_children(r0, s, key, reverse);
        let sk = sorted_by(kids, key, reverse);
        vstd::seq_lib::lemma_multiset_commutative(before + seq![r], sk);
        vstd::seq_lib::lemma_multiset_commutative(before, seq![r]);
        assert(seq![r].to_multiset() =~= vstd::multiset::Multiset::empty().insert(r)) by {
            assert(Seq::<TaskView>::empty().push(r) =~= seq![r]);
        }
        let own = |t: TaskView| t.parent_id == Some(r.id);
        let under0 = |t: TaskView| t.parent_id matches Some(pid) && has_id(r0, pid);
        lemma_keep_split(s, under, own);
        assert forall|t: TaskView| #[trigger] under(t) && own(t) <==> own(t) by {
            lemma_has_id_push(r0, r, r.id);
        }
        assert((|t: TaskView| under(t) && own(t)) =~= own);
        assert forall|t: TaskView| #[trigger] under(t) && !own(t) <==> under0(t) by {
            if let Some(pid) = t.parent_id {
                lemma_has_id_push(r0, r, pid);
            }
        }
        assert((|t: TaskView| under(t) && !own(t)) =~= under0);
    }
}

/// Tree order keeps the tasks: for tasks with distinct identifiers, it lists
/// each task exactly as often as the sequence it orders, whatever the key and
/// direction.
pub proof fn law_tree_order_keeps_tasks(s: Seq<TaskView>, key: SortKey, reverse: bool)
    requires
        unique_ids(s),
    ensures
        tree_sorted(s, key, reverse).to_multiset() == s.to_multiset(),
{
    broadcast use vstd::multiset::group_multiset_axioms;

    let is_root = |t: TaskView| t.parent_id is None;
    let roots = roots_of(s);
    let sorted_roots = sorted_by(roots, key, reverse);
    law_sort_keeps_tasks(roots, key, reverse);
    lemma_keep_unique(s, is_root);
    lemma_sorted_unique(roots, key, reverse);
    lemma_roots_with_children_tasks(sorted_roots, s, key, reverse);
    let tree = roots_with_children(sorted_roots, s, key, reverse);
    let left = orphans(s, sorted_roots);
    vstd::seq_lib::lemma_multiset_commutative(tree, left);
    // Every task is a root or has a parent.
    let every = |t: TaskView| true;
    lemma_keep_every(s);
    lemma_keep_split(s, every, is_root);
    assert((|t: TaskView| every(t) && is_root(t)) =~= is_root);
    let child = |t: TaskView| every(t) && !is_root(t);
    // A task with a parent has it among the roots or not.
    let among = |t: TaskView| t.parent_id matches Some(pid) && has_id(sorted_roots, pid);
    lemma_keep_split(s, child, among);
    assert((|t: TaskView| child(t) && among(t)) =~= among);
    assert((|t: TaskView| child(t) && !among(t)) =~= (|t: TaskView| t.parent_id matches Some(pid)
        && !has_id(sorted_roots, pid)));
}

/// Tasks of `v` that `keep` would select with predicate "has no parent".
pub fn root_tasks(v: &Vec<Task>) -> (r: Vec<Task>)
    ensures
        tasks_view(r@) == roots_of(tasks_view(v@)),
{
    let ghost sv = tasks_view(v@);
    let mut out: Vec<Task> = Vec::new();
    let mut i: usize = 0;
    while i < v.len()
        invariant
            sv == tasks_view(v@),
            0 <= i <= v@.len(),
            tasks_view(out@) == roots_of(sv.take(i as int)),
        decreases v@.len() - i,
    {
        proof {
            lemma_keep_step(sv, |t: TaskView| t.parent_id is None, i as int);
        }
        if v[i].parent_id.is_none() {
            let t = v[i].duplicate();
            let ghost before = out@;
            out.push(t);
            assert(tasks_view(out@) =~= tasks_view(before).push(sv[i as int]));
        }
        i += 1;
    }
    proof {
        lemma_keep_all(sv, |t: TaskView| t.parent_id is None);
    }
    out
}

/// The children of `pid` among the tasks of `v`.
pub fn child_tasks(v: &Vec<Task>, pid: TaskId) -> (r: Vec<Task>)
    ensures
        tasks_view(r@) == children_of(tasks_view(v@), pid),
{
    let ghost sv = tasks_view(v@);
    let mut out: Vec<Task> = Vec::new();
    let mut i: usize = 0;
    while i < v.len()
        invariant
            sv == tasks_view(v@),
            0 <= i <= v@.len(),
            tasks_view(out@) == children_of(sv.take(i as int), pid),
        decreases v@.len() - i,
    {
        proof {
            lemma_keep_step(sv, |t: TaskView| t.parent_id == Some(pid), i as int);
        }
        if v[i].parent_id == Some(pid) {
            let t = v[i].duplicate();
            let ghost before = out@;
            out.push(t);
            assert(tasks_view(out@) =~= tasks_view(before).push(sv[i as int]));
        }
        i += 1;
    }
    proof {
        lemma_keep_all(sv, |t: TaskView| t.parent_id == Some(pid));
    }
    out
}

/// Some task of `v` has identifier `id`.
pub fn contains_id(v: &Vec<Task>, id: TaskId) -> (r: bool)
    ensures
        r == has_id(tasks_view(v@), id),
{
    let ghost sv = tasks_view(v@);
    let mut i: usize = 0;
    while i < v.len()
        invariant
            sv == tasks_view(v@),
            0 <= i <= v@.len(),
            forall|k: int| 0 <= k < i ==> (#[trigger] sv[k]).id != id,
        decreases v@.len() - i,
    {
        if v[i].id == id {
            assert(sv[i as int].id == id);
            return true;
        }
        i += 1;
    }
    false
}

/// Appends copies of the tasks of `v` to `out`.
pub fn append_tasks(out: &mut Vec<Task>, v: &Vec<Task>)
    ensures
        tasks_view(final(out)@) == tasks_view(old(out)@) + tasks_view(v@),
{
    let ghost start = tasks_view(out@);
    let mut i: usize = 0;
    while i < v.len()
        invariant
            0 <= i <= v@.len(),
            start == tasks_view(old(out)@),
            tasks_view(out@) =~= start + tasks_view(v@).take(i as int),
        decreases v@.len() - i,
    {
        let t = v[i].duplicate();
        let ghost before = out@;
        out.push(t);
        assert(tasks_view(out@) =~= tasks_view(before).push(v@[i as int]@));
        i += 1;
    }
    assert(tasks_view(v@).take(v@.len() as int) =~= tasks_view(v@));
}

/// The tasks of `tasks` in tree order under the sort key.
pub fn tree_sort(tasks: &Vec<Task>, key: SortKey, reverse: bool) -> (r: Vec<Task>)
    ensures
        tasks_view(r@) == tree_sorted(tasks_view(tasks@), key, reverse),
{
    let ghost sv = tasks_view(tasks@);
    let mut roots = root_tasks(tasks);
    sort_tasks_by(&mut roots, key, reverse);
    let ghost rv = tasks_view(roots@);
    let mut result: Vec<Task> = Vec::new();
    let mut i: usize = 0;
    while i < roots.len()
        invariant
            rv == tasks_view(roots@),
            sv == tasks_view(tasks@),
            0 <= i <= roots@.len(),
            tasks_view(result@) == roots_with_children(rv.take(i as int), sv, key, reverse),
        decreases roots@.len() - i,
    {
        let ghost before = tasks_view(result@);
        let root = roots[i].duplicate();
        let mut children = child_tasks(tasks, root.id);
        sort_tasks_by(&mut children, key, reverse);
        result.push(root);
        assert(tasks_view(result@) =~= before + seq![rv[i as int]]);
        append_tasks(&mut result, &children);
        assert(rv.take(i + 1).drop_last() =~= rv.take(i as int));
        assert(rv.take(i + 1).last() == rv[i as int]);
        i += 1;
    }
    assert(rv.take(rv.len() as int) =~= rv);
    let ghost base = tasks_view(result@);
    let mut j: usize = 0;
    while j < tasks.len()
        invariant
            rv == tasks_view(roots@),
            sv == tasks_view(tasks@),
            0 <= j <= tasks@.len(),
            tasks_view(result@) == base + orphans(sv.take(j as int), rv),
        decreases tasks@.len() - j,
    {
        proof {
            lemma_keep_step(
                sv,
                |t: TaskView| t.parent_id matches Some(pid) && !has_id(rv, pid),
                j as int,
            );
        }
        if let Some(pid) = tasks[j].parent_id {
            if !contains_id(&roots, pid) {
                let t = tasks[j].duplicate();
                let ghost before = result@;
                result.push(t);
                assert(tasks_view(result@) =~= tasks_view(before).push(sv[j as int]));
            }
        }
        j += 1;
    }
    proof {
        lemma_keep_all(sv, |t: TaskView| t.parent_id matches Some(pid) && !has_id(rv, pid));
    }
    result
}

} // verus!
