//! Sequence operations on task models that the store's contracts speak of.

use vstd::prelude::*;

use crate::model::task::{TaskId, TaskView};

verus! {

/// The tasks of `s` that satisfy `p`, in order.
pub open spec fn keep(s: Seq<TaskView>, p: spec_fn(TaskView) -> bool) -> Seq<TaskView>
    decreases s.len(),
{
    if s.len() == 0 {
        Seq::empty()
    } else {
        let r = keep(s.drop_last(), p);
        if p(s.last()) {
            r.push(s.last())
        } else {
            r
        }
    }
}

pub proof fn lemma_keep_step(s: Seq<TaskView>, p: spec_fn(TaskView) -> bool, i: int)
    requires
        0 <= i < s.len(),
    ensures
        keep(s.take(i + 1), p) == (if p(s[i]) {
            keep(s.take(i), p).push(s[i])
        } else {
            keep(s.take(i), p)
        }),
{
    assert(s.take(i + 1).drop_last() =~= s.take(i));
    assert(s.take(i + 1).last() == s[i]);
}

pub proof fn lemma_keep_all(s: Seq<TaskView>, p: spec_fn(TaskView) -> bool)
    ensures
        keep(s.take(s.len() as int), p) == keep(s, p),
{
    assert(s.take(s.len() as int) =~= s);
}

/// Every element of `keep(s, p)` satisfies `p` and occurs in `s`.
pub proof fn lemma_keep_members(s: Seq<TaskView>, p: spec_fn(TaskView) -> bool)
    ensures
        keep(s, p).len() <= s.len(),
        forall|k: int| 0 <= k < keep(s, p).len() ==> p(#[trigger] keep(s, p)[k]) && s.contains(
            keep(s, p)[k],
        ),
    decreases s.len(),
{
    if s.len() > 0 {
        lemma_keep_members(s.drop_last(), p);
        let r = keep(s.drop_last(), p);
        assert forall|k: int| 0 <= k < keep(s, p).len() implies p(#[trigger] keep(s, p)[k])
            && s.contains(keep(s, p)[k]) by {
            if k < r.len() {
                assert(r[k] == keep(s, p)[k]);
                let j = choose|j: int| 0 <= j < s.drop_last().len() && s.drop_last()[j] == r[k];
                assert(s[j] == r[k]);
            } else {
                assert(s[s.len() - 1] == keep(s, p)[k]);
            }
        }
    }
}

/// Keeping the tasks of a concatenation keeps those of each part, in order.
pub proof fn lemma_keep_concat(a: Seq<TaskView>, b: Seq<TaskView>, p: spec_fn(TaskView) -> bool)
    ensures
        keep(a + b, p) == keep(a, p) + keep(b, p),
    decreases b.len(),
{
    if b.len() == 0 {
        assert(a + b =~= a);
        assert(keep(a, p) + keep(b, p) =~= keep(a, p));
    } else {
        let b0 = b.drop_last();
        lemma_keep_concat(a, b0, p);
        assert((a + b).drop_last() =~= a + b0);
        assert((a + b).last() == b.last());
        if p(b.last()) {
            assert((keep(a, p) + keep(b0, p)).push(b.last()) =~= keep(a, p) + keep(b0, p).push(
                b.last(),
            ));
        }
    }
}

/// `s[i]` is the first task of `s` with identifier `id`.
pub open spec fn is_first_pos(s: Seq<TaskView>, id: TaskId, i: int) -> bool {
    0 <= i < s.len() && s[i].id == id && forall|k: int| 0 <= k < i ==> (#[trigger] s[k]).id != id
}

/// Some task of `s` has identifier `id`.
pub open spec fn has_id(s: Seq<TaskView>, id: TaskId) -> bool {
    exists|k: int| 0 <= k < s.len() && (#[trigger] s[k]).id == id
}

/// Position of the first task with identifier `id`, or -1.
pub open spec fn pos_of(s: Seq<TaskView>, id: TaskId) -> int {
    if has_id(s, id) {
        choose|i: int| is_first_pos(s, id, i)
    } else {
        -1
    }
}

proof fn lemma_first_exists(s: Seq<TaskView>, id: TaskId, k: int)
    requires
        0 <= k < s.len(),
        s[k].id == id,
    ensures
        exists|i: int| is_first_pos(s, id, i),
    decreases k,
{
    if forall|j: int| 0 <= j < k ==> (#[trigger] s[j]).id != id {
        assert(is_first_pos(s, id, k));
    } else {
        let j = choose|j: int| 0 <= j < k && (#[trigger] s[j]).id == id;
        lemma_first_exists(s, id, j);
    }
}

/// `pos_of` is the first position of the identifier, or -1 when it is absent.
pub proof fn lemma_pos_of(s: Seq<TaskView>, id: TaskId)
    ensures
        has_id(s, id) ==> is_first_pos(s, id, pos_of(s, id)),
        !has_id(s, id) ==> pos_of(s, id) == -1,
        forall|i: int| is_first_pos(s, id, i) ==> pos_of(s, id) == i,
{
    if has_id(s, id) {
        let k = choose|k: int| 0 <= k < s.len() && (#[trigger] s[k]).id == id;
        lemma_first_exists(s, id, k);
        let p = pos_of(s, id);
        assert forall|i: int| is_first_pos(s, id, i) implies p == i by {
            if p < i {
                assert(s[p].id == id);
            } else if i < p {
                assert(s[i].id == id);
            }
        }
    } else {
        assert forall|i: int| is_first_pos(s, id, i) implies pos_of(s, id) == i by {
            assert(s[i].id == id);
        }
    }
}

/// The first task with identifier `id`, if any.
pub open spec fn find_id(s: Seq<TaskView>, id: TaskId) -> Option<TaskView> {
    if has_id(s, id) {
        Some(s[pos_of(s, id)])
    } else {
        None
    }
}

/// `s` without its first task of identifier `id` (unchanged if there is none).
pub open spec fn remove_id(s: Seq<TaskView>, id: TaskId) -> Seq<TaskView> {
    if has_id(s, id) {
        s.remove(pos_of(s, id))
    } else {
        s
    }
}

/// `s` with its first task of identifier `t.id` replaced by `t` (unchanged if
/// there is none).
pub open spec fn replace_id(s: Seq<TaskView>, t: TaskView) -> Seq<TaskView> {
    if has_id(s, t.id) {
        s.update(pos_of(s, t.id), t)
    } else {
        s
    }
}

/// `s` after removing, one after the other, the first task of each identifier
/// in `ids`.
pub open spec fn remove_ids(s: Seq<TaskView>, ids: Seq<TaskId>) -> Seq<TaskView>
    decreases ids.len(),
{
    if ids.len() == 0 {
        s
    } else {
        remove_id(remove_ids(s, ids.drop_last()), ids.last())
    }
}

/// Identifiers of a sequence of tasks.
pub open spec fn ids_of(s: Seq<TaskView>) -> Seq<TaskId> {
    s.map_values(|t: TaskView| t.id)
}

/// The children of `pid` in `s`, in order.
pub open spec fn children_of(s: Seq<TaskView>, pid: TaskId) -> Seq<TaskView> {
    keep(s, |t: TaskView| t.parent_id == Some(pid))
}

/// No two tasks of `s` share an identifier.
pub open spec fn unique_ids(s: Seq<TaskView>) -> bool {
    forall|i: int, j: int| 0 <= i < j < s.len() ==> (#[trigger] s[i]).id != (#[trigger] s[j]).id
}

/// Every task of `s` that satisfies `p` is kept.
pub proof fn lemma_keep_complete(s: Seq<TaskView>, p: spec_fn(TaskView) -> bool, x: TaskView)
    requires
        s.contains(x),
        p(x),
    ensures
        keep(s, p).contains(x),
    decreases s.len(),
{
    let k = choose|k: int| 0 <= k < s.len() && s[k] == x;
    if k == s.len() - 1 {
        assert(keep(s, p).last() == x);
    } else {
        assert(s.drop_last()[k] == x);
        lemma_keep_complete(s.drop_last(), p, x);
        let r = keep(s.drop_last(), p);
        let j = choose|j: int| 0 <= j < r.len() && r[j] == x;
        if p(s.last()) {
            assert(keep(s, p)[j] == x);
        }
    }
}

/// Removing the task of an identifier from tasks with distinct identifiers
/// keeps exactly the tasks of other identifiers, still distinct.
pub proof fn lemma_remove_id_unique(s: Seq<TaskView>, id: TaskId)
    requires
        unique_ids(s),
    ensures
        unique_ids(remove_id(s, id)),
        forall|x: TaskView| #[trigger]
            remove_id(s, id).contains(x) <==> (s.contains(x) && x.id != id),
{
    lemma_pos_of(s, id);
    if has_id(s, id) {
        let p = pos_of(s, id);
        let r = s.remove(p);
        assert forall|i: int, j: int| 0 <= i < j < r.len() implies (#[trigger] r[i]).id != (
        #[trigger] r[j]).id by {
            let si = if i < p {
                i
            } else {
                i + 1
            };
            let sj = if j < p {
                j
            } else {
                j + 1
            };
            assert(r[i] == s[si] && r[j] == s[sj]);
        }
        assert forall|x: TaskView| #[trigger] r.contains(x) <==> (s.contains(x) && x.id != id) by {
            if r.contains(x) {
                let i = choose|i: int| 0 <= i < r.len() && r[i] == x;
                let si = if i < p {
                    i
                } else {
                    i + 1
                };
                assert(r[i] == s[si]);
                if si < p {
                    assert(s[si].id != s[p].id);
                } else {
                    assert(s[p].id != s[si].id);
                }
            }
            if s.contains(x) && x.id != id {
                let k = choose|k: int| 0 <= k < s.len() && s[k] == x;
                assert(k != p);
                if k < p {
                    assert(r[k] == x);
                } else {
                    assert(r[k - 1] == x);
                }
            }
        }
    } else {
        assert forall|x: TaskView| #[trigger] s.contains(x) implies x.id != id by {
            let k = choose|k: int| 0 <= k < s.len() && s[k] == x;
            assert(s[k].id != id);
        }
    }
}

/// Removing the tasks of several identifiers from tasks with distinct
/// identifiers keeps exactly the tasks of the other identifiers.
pub proof fn lemma_remove_ids_unique(s: Seq<TaskView>, ids: Seq<TaskId>)
    requires
        unique_ids(s),
    ensures
        unique_ids(remove_ids(s, ids)),
        forall|x: TaskView| #[trigger]
            remove_ids(s, ids).contains(x) <==> (s.contains(x) && !ids.contains(x.id)),
    decreases ids.len(),
{
    if ids.len() > 0 {
        let i0 = ids.drop_last();
        lemma_remove_ids_unique(s, i0);
        lemma_remove_id_unique(remove_ids(s, i0), ids.last());
        assert forall|x: TaskView| #[trigger]
            remove_ids(s, ids).contains(x) <==> (s.contains(x) && !ids.contains(x.id)) by {
            assert(remove_ids(s, ids) == remove_id(remove_ids(s, i0), ids.last()));
            if ids.contains(x.id) {
                let k = choose|k: int| 0 <= k < ids.len() && ids[k] == x.id;
                if k < ids.len() - 1 {
                    assert(i0[k] == x.id);
                }
            }
            if i0.contains(x.id) {
                let k = choose|k: int| 0 <= k < i0.len() && i0[k] == x.id;
                assert(ids[k] == x.id);
            }
        }
    }
}

/// Identifiers of the tasks: each task's identifier is among them.
pub proof fn lemma_ids_of_contains(s: Seq<TaskView>, x: TaskView)
    requires
        s.contains(x),
    ensures
        ids_of(s).contains(x.id),
{
    let k = choose|k: int| 0 <= k < s.len() && s[k] == x;
    assert(ids_of(s)[k] == x.id);
}

/// An identifier among those of some tasks is the identifier of one of them.
pub proof fn lemma_ids_of_member(s: Seq<TaskView>, id: TaskId)
    requires
        ids_of(s).contains(id),
    ensures
        exists|x: TaskView| s.contains(x) && x.id == id,
{
    let k = choose|k: int| 0 <= k < ids_of(s).len() && ids_of(s)[k] == id;
    assert(s[k].id == id && s.contains(s[k]));
}

} // verus!
