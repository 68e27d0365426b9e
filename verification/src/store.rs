//! Operations on the stored task history: listing newest first, lookup,
//! insertion or replacement, status updates, deletion, and the record a new
//! task starts with. Also the pause and stop requests of a running task.

use vstd::prelude::*;
use crate::model::{StartTaskRequest, TaskRecord, TaskStatus, TaskView};
use crate::text::{chars_of, trim, trim_str};
use crate::run::restatused;

verus! {

broadcast use vstd::string::group_string_axioms;

// ---------------------------------------------------------------------------
// Ordering texts
// ---------------------------------------------------------------------------

/// `a` comes strictly before `b` in the order of `str::cmp` (character by
/// character, by code point; a proper prefix first).
pub open spec fn text_lt(a: Seq<char>, b: Seq<char>) -> bool
    decreases a.len(),
{
    if b.len() == 0 {
        false
    } else if a.len() == 0 {
        true
    } else if a[0] != b[0] {
        (a[0] as u32) < (b[0] as u32)
    } else {
        text_lt(a.drop_first(), b.drop_first())
    }
}

proof fn lemma_char_eq(a: char, b: char)
    ensures
        (a as u32) == (b as u32) <==> a == b,
{
    vstd::utf8::char_u32_cast(a, a as u32);
    vstd::utf8::char_u32_cast(b, b as u32);
}

/// No text comes before itself.
pub proof fn lemma_text_lt_irreflexive(a: Seq<char>)
    ensures
        !text_lt(a, a),
    decreases a.len(),
{
    if a.len() > 0 {
        lemma_text_lt_irreflexive(a.drop_first());
    }
}

/// Of two texts, one comes before the other or they are equal.
pub proof fn lemma_text_lt_total(a: Seq<char>, b: Seq<char>)
    ensures
        text_lt(a, b) || text_lt(b, a) || a == b,
        !(text_lt(a, b) && text_lt(b, a)),
    decreases a.len(),
{
    if a.len() > 0 && b.len() > 0 {
        lemma_char_eq(a[0], b[0]);
        if a[0] == b[0] {
            lemma_text_lt_total(a.drop_first(), b.drop_first());
            if a.drop_first() == b.drop_first() {
                assert(a == seq![a[0]] + a.drop_first());
                assert(b == seq![b[0]] + b.drop_first());
            }
        }
    } else if a.len() == 0 && b.len() == 0 {
        assert(a == b);
    }
}

/// The order of texts is transitive.
pub proof fn lemma_text_lt_transitive(a: Seq<char>, b: Seq<char>, c: Seq<char>)
    requires
        text_lt(a, b),
        text_lt(b, c),
    ensures
        text_lt(a, c),
    decreases a.len(),
{
    if a.len() > 0 {
        lemma_char_eq(a[0], b[0]);
        lemma_char_eq(b[0], c[0]);
        lemma_char_eq(a[0], c[0]);
        if a[0] == b[0] && b[0] == c[0] {
            lemma_text_lt_transitive(a.drop_first(), b.drop_first(), c.drop_first());
        }
    }
}

/// The order of texts is decided at the first position where they differ:
/// when `a` and `b` agree on their first `k` characters and differ at
/// position `k`, `a` comes first exactly when its character there has the
/// smaller code point; when `a` is exactly those `k` characters (a prefix of
/// `b`), it comes first exactly when `b` is longer; and a text never comes
/// before a prefix of itself.
pub proof fn law_text_order_first_difference(a: Seq<char>, b: Seq<char>, k: int)
    requires
        0 <= k <= a.len(),
        k <= b.len(),
        a.take(k) == b.take(k),
    ensures
        k < a.len() && k < b.len() && a[k] != b[k] ==> (text_lt(a, b) <==> (a[k] as u32) < (b[k] as u32)),
        k == a.len() ==> (text_lt(a, b) <==> a.len() < b.len()),
        k == b.len() ==> !text_lt(a, b),
    decreases k,
{
    if k > 0 {
        assert(a[0] == a.take(k)[0]);
        assert(b[0] == b.take(k)[0]);
        assert(a.drop_first().take(k - 1) == a.take(k).drop_first());
        assert(b.drop_first().take(k - 1) == b.take(k).drop_first());
        law_text_order_first_difference(a.drop_first(), b.drop_first(), k - 1);
        if k < a.len() && k < b.len() {
            assert(a.drop_first()[k - 1] == a[k]);
            assert(b.drop_first()[k - 1] == b[k]);
        }
    }
}

/// Whether `a` comes strictly before `b`.
pub fn text_less(a: &str, b: &str) -> (r: bool)
    ensures
        r == text_lt(a@, b@),
{
    let x = chars_of(a);
    let y = chars_of(b);
    let mut i: usize = 0;
    assert(x@.skip(0) == x@ && y@.skip(0) == y@);
    while i < x.len() && i < y.len() && x[i] == y[i]
        invariant
            i <= x.len(),
            i <= y.len(),
            text_lt(a@, b@) == text_lt(x@.skip(i as int), y@.skip(i as int)),
        decreases x.len() - i,
    {
        proof {
            assert(x@.skip(i as int).drop_first() == x@.skip(i + 1));
            assert(y@.skip(i as int).drop_first() == y@.skip(i + 1));
        }
        i += 1;
    }
    if i == y.len() {
        false
    } else if i == x.len() {
        true
    } else {
        proof {
            lemma_char_eq(x[i as int], y[i as int]);
        }
        (x[i] as u32) < (y[i] as u32)
    }
}

// ---------------------------------------------------------------------------
// Listing newest first
// ---------------------------------------------------------------------------

/// `a` was updated strictly after `b`.
pub open spec fn newer(a: TaskRecord, b: TaskRecord) -> bool {
    text_lt(b.updated_at@, a.updated_at@)
}

/// `x` placed into `sorted` after every task updated no earlier than it.
pub open spec fn insert_by_recency(sorted: Seq<TaskRecord>, x: TaskRecord) -> Seq<TaskRecord>
    decreases sorted.len(),
{
    if sorted.len() == 0 {
        seq![x]
    } else if newer(x, sorted[0]) {
        seq![x] + sorted
    } else {
        seq![sorted[0]] + insert_by_recency(sorted.drop_first(), x)
    }
}

/// The tasks ordered by last update, newest first; tasks updated at the same
/// time keep their relative order.
pub open spec fn by_recency(tasks: Seq<TaskRecord>) -> Seq<TaskRecord>
    decreases tasks.len(),
{
    if tasks.len() == 0 {
        Seq::empty()
    } else {
        insert_by_recency(by_recency(tasks.drop_last()), tasks.last())
    }
}

/// No task is newer than one before it.
pub open spec fn newest_first(s: Seq<TaskRecord>) -> bool {
    forall|i: int, j: int| 0 <= i < j < s.len() ==> !newer(#[trigger] s[j], #[trigger] s[i])
}

proof fn lemma_insert_at(sorted: Seq<TaskRecord>, x: TaskRecord, q: int)
    requires
        0 <= q <= sorted.len(),
        forall|i: int| 0 <= i < q ==> !newer(x, #[trigger] sorted[i]),
        q < sorted.len() ==> newer(x, sorted[q]),
    ensures
        insert_by_recency(sorted, x) == sorted.take(q) + seq![x] + sorted.skip(q),
    decreases sorted.len(),
{
    if sorted.len() == 0 {
        assert(sorted.take(q) + seq![x] + sorted.skip(q) == seq![x]);
    } else if q == 0 {
        assert(sorted.take(0) + seq![x] + sorted.skip(0) == seq![x] + sorted);
    } else {
        let t = sorted.drop_first();
        assert forall|i: int| 0 <= i < q - 1 implies !newer(x, #[trigger] t[i]) by {
            assert(t[i] == sorted[i + 1]);
        }
        lemma_insert_at(t, x, q - 1);
        assert(seq![sorted[0]] + (t.take(q - 1) + seq![x] + t.skip(q - 1)) == sorted.take(q)
            + seq![x] + sorted.skip(q));
    }
}

/// Inserting keeps a newest-first sequence newest first.
proof fn lemma_insert_sorted(sorted: Seq<TaskRecord>, x: TaskRecord)
    requires
        newest_first(sorted),
    ensures
        newest_first(insert_by_recency(sorted, x)),
    decreases sorted.len(),
{
    if sorted.len() == 0 {
    } else if newer(x, sorted[0]) {
        let r = seq![x] + sorted;
        assert forall|i: int, j: int| 0 <= i < j < r.len() implies !newer(
            #[trigger] r[j],
            #[trigger] r[i],
        ) by {
            if i == 0 {
                // r[j] = sorted[j-1] is no newer than sorted[0], which is older than x
                let s0 = sorted[0].updated_at@;
                let sj = sorted[j - 1].updated_at@;
                let xk = x.updated_at@;
                lemma_text_lt_total(s0, sj);
                lemma_text_lt_total(xk, sj);
                if text_lt(xk, sj) {
                    if j - 1 > 0 {
                        assert(!newer(sorted[j - 1], sorted[0]));
                        if text_lt(sj, s0) {
                            lemma_text_lt_transitive(xk, sj, s0);
                        } else {
                            assert(sj == s0);
                        }
                    }
                    lemma_text_lt_total(xk, s0);
                }
            } else {
                assert(r[i] == sorted[i - 1]);
                assert(r[j] == sorted[j - 1]);
            }
        }
    } else {
        let t = sorted.drop_first();
        assert forall|i: int, j: int| 0 <= i < j < t.len() implies !newer(
            #[trigger] t[j],
            #[trigger] t[i],
        ) by {
            assert(t[i] == sorted[i + 1] && t[j] == sorted[j + 1]);
        }
        lemma_insert_sorted(t, x);
        let rest = insert_by_recency(t, x);
        let r = seq![sorted[0]] + rest;
        lemma_insert_members(t, x);
        assert forall|i: int, j: int| 0 <= i < j < r.len() implies !newer(
            #[trigger] r[j],
            #[trigger] r[i],
        ) by {
            if i == 0 {
                assert(r[j] == rest[j - 1]);
                let k = rest[j - 1];
                if k == x {
                } else {
                    let m = choose|m: int| 0 <= m < t.len() && t[m] == k;
                    assert(sorted[m + 1] == k);
                }
            } else {
                assert(r[i] == rest[i - 1]);
                assert(r[j] == rest[j - 1]);
            }
        }
    }
}

proof fn lemma_prepend_multiset(x: TaskRecord, s: Seq<TaskRecord>)
    ensures
        (seq![x] + s).to_multiset() == s.to_multiset().insert(x),
{
    broadcast use vstd::seq_lib::group_to_multiset_ensures, vstd::multiset::group_multiset_axioms;

    vstd::seq_lib::lemma_multiset_commutative(seq![x], s);
    let e = Seq::<TaskRecord>::empty();
    assert(seq![x] == e.push(x));
    assert(e.to_multiset().len() == 0);
    vstd::multiset::lemma_multiset_empty_len(e.to_multiset());
    assert((seq![x] + s).to_multiset() =~= s.to_multiset().insert(x));
}

/// Every task of an insertion is the inserted one or one of the sequence.
proof fn lemma_insert_members(sorted: Seq<TaskRecord>, x: TaskRecord)
    ensures
        insert_by_recency(sorted, x).len() == sorted.len() + 1,
        forall|i: int|
            0 <= i < insert_by_recency(sorted, x).len() ==> #[trigger] insert_by_recency(
                sorted,
                x,
            )[i] == x || exists|m: int|
                0 <= m < sorted.len() && sorted[m] == insert_by_recency(sorted, x)[i],
        insert_by_recency(sorted, x).to_multiset() == sorted.to_multiset().insert(x),
    decreases sorted.len(),
{
    broadcast use vstd::seq_lib::group_to_multiset_ensures;

    if sorted.len() == 0 {
        lemma_prepend_multiset(x, sorted);
        assert(seq![x] + sorted == seq![x]);
    } else if newer(x, sorted[0]) {
        let r = seq![x] + sorted;
        lemma_prepend_multiset(x, sorted);
        assert(r.drop_first() == sorted);
        assert forall|i: int| 0 <= i < r.len() implies #[trigger] r[i] == x || exists|m: int|
            0 <= m < sorted.len() && sorted[m] == r[i] by {
            if i > 0 {
                assert(sorted[i - 1] == r[i]);
            }
        }
    } else {
        let t = sorted.drop_first();
        lemma_insert_members(t, x);
        let rest = insert_by_recency(t, x);
        let r = seq![sorted[0]] + rest;
        lemma_prepend_multiset(sorted[0], rest);
        lemma_prepend_multiset(sorted[0], t);
        assert(r.drop_first() == rest);
        assert(sorted == seq![sorted[0]] + t);
        assert(sorted.drop_first() == t);
        assert forall|i: int| 0 <= i < r.len() implies #[trigger] r[i] == x || exists|m: int|
            0 <= m < sorted.len() && sorted[m] == r[i] by {
            if i == 0 {
                assert(sorted[0] == r[0]);
            } else {
                assert(r[i] == rest[i - 1]);
                if rest[i - 1] != x {
                    let m = choose|m: int| 0 <= m < t.len() && t[m] == rest[i - 1];
                    assert(sorted[m + 1] == r[i]);
                }
            }
        }
    }
}

/// The listing is newest first.
pub proof fn law_list_newest_first(tasks: Seq<TaskRecord>)
    ensures
        newest_first(by_recency(tasks)),
    decreases tasks.len(),
{
    if tasks.len() > 0 {
        law_list_newest_first(tasks.drop_last());
        lemma_insert_sorted(by_recency(tasks.drop_last()), tasks.last());
    }
}

/// The listing holds exactly the stored tasks: nothing is lost, added or
/// duplicated.
pub proof fn law_list_same_tasks(tasks: Seq<TaskRecord>)
    ensures
        by_recency(tasks).to_multiset() == tasks.to_multiset(),
    decreases tasks.len(),
{
    broadcast use vstd::seq_lib::group_to_multiset_ensures;

    if tasks.len() > 0 {
        law_list_same_tasks(tasks.drop_last());
        lemma_insert_members(by_recency(tasks.drop_last()), tasks.last());
        assert(tasks == tasks.drop_last().push(tasks.last()));
    }
}

/// The tasks of `s` updated at time `u`, in order.
pub open spec fn updated_at_time(s: Seq<TaskRecord>, u: Seq<char>) -> Seq<TaskRecord>
    decreases s.len(),
{
    if s.len() == 0 {
        Seq::empty()
    } else if s.last().updated_at@ == u {
        updated_at_time(s.drop_last(), u).push(s.last())
    } else {
        updated_at_time(s.drop_last(), u)
    }
}

proof fn lemma_time_concat(a: Seq<TaskRecord>, b: Seq<TaskRecord>, u: Seq<char>)
    ensures
        updated_at_time(a + b, u) == updated_at_time(a, u) + updated_at_time(b, u),
    decreases b.len(),
{
    if b.len() == 0 {
        assert(a + b == a);
    } else {
        lemma_time_concat(a, b.drop_last(), u);
        assert((a + b).drop_last() == a + b.drop_last());
        assert((a + b).last() == b.last());
    }
}

proof fn lemma_time_none(s: Seq<TaskRecord>, u: Seq<char>)
    requires
        forall|j: int| 0 <= j < s.len() ==> (#[trigger] s[j]).updated_at@ != u,
    ensures
        updated_at_time(s, u) == Seq::<TaskRecord>::empty(),
    decreases s.len(),
{
    if s.len() > 0 {
        let front = s.drop_last();
        assert forall|j: int| 0 <= j < front.len() implies (#[trigger] front[j]).updated_at@ != u by {
            assert(front[j] == s[j]);
        }
        lemma_time_none(front, u);
    }
}

proof fn lemma_time_single(x: TaskRecord, u: Seq<char>)
    ensures
        updated_at_time(seq![x], u) == if x.updated_at@ == u {
            seq![x]
        } else {
            Seq::<TaskRecord>::empty()
        },
{
    let e = seq![x].drop_last();
    assert(e == Seq::<TaskRecord>::empty());
    assert(updated_at_time(e, u) == Seq::<TaskRecord>::empty());
    assert(seq![x].last() == x);
    assert(Seq::<TaskRecord>::empty().push(x) == seq![x]);
}

/// Inserting a task adds it to the tasks of its own time, after them, and
/// leaves the tasks of every other time as they were.
proof fn lemma_time_insert(sorted: Seq<TaskRecord>, x: TaskRecord, u: Seq<char>)
    requires
        newest_first(sorted),
    ensures
        updated_at_time(insert_by_recency(sorted, x), u) == if x.updated_at@ == u {
            updated_at_time(sorted, u).push(x)
        } else {
            updated_at_time(sorted, u)
        },
    decreases sorted.len(),
{
    lemma_time_single(x, u);
    if sorted.len() == 0 {
    } else if newer(x, sorted[0]) {
        lemma_time_concat(seq![x], sorted, u);
        if x.updated_at@ == u {
            assert forall|j: int| 0 <= j < sorted.len() implies (#[trigger] sorted[j]).updated_at@ != u by {
                if sorted[j].updated_at@ == u {
                    if j > 0 {
                        assert(!newer(sorted[j], sorted[0]));
                    } else {
                        lemma_text_lt_irreflexive(u);
                    }
                }
            }
            lemma_time_none(sorted, u);
            assert(seq![x] + Seq::<TaskRecord>::empty() == Seq::<TaskRecord>::empty().push(x));
        } else {
            assert(Seq::<TaskRecord>::empty() + updated_at_time(sorted, u) == updated_at_time(sorted, u));
        }
    } else {
        let t = sorted.drop_first();
        assert forall|i: int, j: int| 0 <= i < j < t.len() implies !newer(
            #[trigger] t[j],
            #[trigger] t[i],
        ) by {
            assert(t[i] == sorted[i + 1] && t[j] == sorted[j + 1]);
        }
        lemma_time_insert(t, x, u);
        let rest = insert_by_recency(t, x);
        lemma_time_concat(seq![sorted[0]], rest, u);
        lemma_time_concat(seq![sorted[0]], t, u);
        assert(sorted == seq![sorted[0]] + t);
        lemma_time_single(sorted[0], u);
        let head = updated_at_time(seq![sorted[0]], u);
        if x.updated_at@ == u {
            assert(head + updated_at_time(t, u).push(x) == (head + updated_at_time(t, u)).push(x));
        }
    }
}

/// The listing keeps the stored order of tasks updated at the same time.
pub proof fn law_list_stable(tasks: Seq<TaskRecord>, u: Seq<char>)
    ensures
        updated_at_time(by_recency(tasks), u) == updated_at_time(tasks, u),
    decreases tasks.len(),
{
    if tasks.len() > 0 {
        law_list_stable(tasks.drop_last(), u);
        law_list_newest_first(tasks.drop_last());
        lemma_time_insert(by_recency(tasks.drop_last()), tasks.last(), u);
    }
}

/// Inserts `x` into `out` after every task updated no earlier than it.
fn insert_newest_first(out: &mut Vec<TaskRecord>, x: TaskRecord)
    ensures
        final(out)@ == insert_by_recency(old(out)@, x),
{
    let mut q: usize = 0;
    while q < out.len() && !text_less(out[q].updated_at.as_str(), x.updated_at.as_str())
        invariant
            q <= out.len(),
            forall|i: int| 0 <= i < q ==> !newer(x, #[trigger] out@[i]),
        decreases out.len() - q,
    {
        q += 1;
    }
    proof {
        lemma_insert_at(out@, x, q as int);
        out@.insert_ensures(q as int, x);
        assert(out@.insert(q as int, x) == out@.take(q as int) + seq![x] + out@.skip(q as int));
    }
    out.insert(q, x);
}

/// The stored tasks, newest update first; tasks updated at the same time
/// keep their stored order.
pub fn list_tasks(tasks: Vec<TaskRecord>) -> (sorted: Vec<TaskRecord>)
    ensures
        sorted@ == by_recency(tasks@),
{
    let ghost orig = tasks@;
    let mut rest = tasks;
    let mut out: Vec<TaskRecord> = Vec::new();
    let ghost mut k: int = 0;
    while rest.len() > 0
        invariant
            0 <= k <= orig.len(),
            rest@ == orig.skip(k),
            out@ == by_recency(orig.take(k)),
        decreases rest.len(),
    {
        let x = rest.remove(0);
        proof {
            assert(orig.skip(k).drop_first() == orig.skip(k + 1));
            assert(orig.take(k + 1).drop_last() == orig.take(k));
            assert(orig.take(k + 1).last() == x);
            k = k + 1;
        }
        insert_newest_first(&mut out, x);
    }
    assert(orig.take(orig.len() as int) == orig);
    out
}

// ---------------------------------------------------------------------------
// Lookup, replacement, deletion
// ---------------------------------------------------------------------------

/// The first position of a task with id `id`.
pub open spec fn task_index(tasks: Seq<TaskRecord>, id: Seq<char>) -> Option<int>
    decreases tasks.len(),
{
    if tasks.len() == 0 {
        None
    } else {
        match task_index(tasks.drop_last(), id) {
            Some(i) => Some(i),
            None => if tasks.last().id@ == id {
                Some(tasks.len() - 1)
            } else {
                None
            },
        }
    }
}

proof fn lemma_task_index_prefix(tasks: Seq<TaskRecord>, id: Seq<char>, i: int, n: int)
    requires
        0 <= i < n <= tasks.len(),
        task_index(tasks.take(i + 1), id) == Some(i),
    ensures
        task_index(tasks.take(n), id) == Some(i),
    decreases n - i,
{
    if n > i + 1 {
        lemma_task_index_prefix(tasks, id, i, n - 1);
        assert(tasks.take(n).drop_last() == tasks.take(n - 1));
    }
}

/// Position of the first task with id `id`.
pub fn task_position(tasks: &[TaskRecord], id: &str) -> (r: Option<usize>)
    ensures
        r matches Some(i) ==> task_index(tasks@, id@) == Some(i as int) && i < tasks@.len(),
        r is None ==> task_index(tasks@, id@) is None,
{
    let key = String::from_str(id);
    let mut i: usize = 0;
    while i < tasks.len()
        invariant
            i <= tasks.len(),
            key@ == id@,
            task_index(tasks@.take(i as int), id@) is None,
        decreases tasks.len() - i,
    {
        proof {
            assert(tasks@.take(i + 1).drop_last() == tasks@.take(i as int));
        }
        if tasks[i].id == key {
            proof {
                assert forall|n: int| i + 1 <= n <= tasks@.len() implies task_index(
                    tasks@.take(n),
                    id@,
                ) == Some(i as int) by {
                    lemma_task_index_prefix(tasks@, id@, i as int, n);
                }
                assert(tasks@.take(tasks@.len() as int) == tasks@);
            }
            return Some(i);
        }
        i += 1;
    }
    assert(tasks@.take(tasks@.len() as int) == tasks@);
    None
}

/// The stored task with id `task_id`, if any (the first, if several).
pub fn get_task<'a>(tasks: &'a [TaskRecord], task_id: &str) -> (r: Option<&'a TaskRecord>)
    ensures
        match task_index(tasks@, task_id@) {
            Some(i) => r matches Some(t) && *t == tasks@[i],
            None => r is None,
        },
{
    match task_position(tasks, task_id) {
        Some(i) => Some(&tasks[i]),
        None => None,
    }
}

/// The stored tasks after `task` is stored: it replaces the first task with
/// the same id, or comes last when there is none.
pub open spec fn upserted(tasks: Seq<TaskRecord>, task: TaskRecord) -> Seq<TaskRecord> {
    match task_index(tasks, task.id@) {
        Some(i) => tasks.update(i, task),
        None => tasks.push(task),
    }
}

/// What `task_index` finds: the first task with the id, or none when no
/// task has it.
proof fn lemma_task_index_first(tasks: Seq<TaskRecord>, id: Seq<char>)
    ensures
        match task_index(tasks, id) {
            Some(i) => 0 <= i < tasks.len() && tasks[i].id@ == id && forall|j: int|
                0 <= j < i ==> (#[trigger] tasks[j]).id@ != id,
            None => forall|j: int| 0 <= j < tasks.len() ==> (#[trigger] tasks[j]).id@ != id,
        },
    decreases tasks.len(),
{
    if tasks.len() > 0 {
        let front = tasks.drop_last();
        lemma_task_index_first(front, id);
        match task_index(front, id) {
            Some(i) => {
                assert forall|j: int| 0 <= j < i implies (#[trigger] tasks[j]).id@ != id by {
                    assert(tasks[j] == front[j]);
                }
                assert(tasks[i] == front[i]);
            },
            None => {
                assert forall|j: int| 0 <= j < front.len() implies (#[trigger] tasks[j]).id@ != id by {
                    assert(tasks[j] == front[j]);
                }
            },
        }
    }
}

/// Storing a task and then looking up its id gives back that task.
pub proof fn law_get_after_upsert(tasks: Seq<TaskRecord>, task: TaskRecord)
    ensures
        task_index(upserted(tasks, task), task.id@) matches Some(j) && upserted(tasks, task)[j] == task,
{
    let after = upserted(tasks, task);
    lemma_task_index_first(tasks, task.id@);
    lemma_task_index_first(after, task.id@);
    match task_index(tasks, task.id@) {
        Some(i) => {
            assert(after[i].id@ == task.id@);
            if let Some(k) = task_index(after, task.id@) {
                if k < i {
                    assert(after[k] == tasks[k]);
                }
            }
        },
        None => {
            let n = tasks.len() as int;
            assert(after[n] == task);
            if let Some(k) = task_index(after, task.id@) {
                if k < n {
                    assert(after[k] == tasks[k]);
                }
            }
        },
    }
}

/// Every task kept by a deletion has another id.
proof fn lemma_without_id_others(tasks: Seq<TaskRecord>, id: Seq<char>)
    ensures
        forall|j: int|
            0 <= j < without_id(tasks, id).len() ==> (#[trigger] without_id(tasks, id)[j]).id@ != id,
    decreases tasks.len(),
{
    if tasks.len() > 0 {
        lemma_without_id_others(tasks.drop_last(), id);
    }
}

/// After a task is deleted, looking up its id finds nothing.
pub proof fn law_deleted_is_gone(tasks: Seq<TaskRecord>, id: Seq<char>)
    ensures
        task_index(without_id(tasks, id), id) is None,
{
    lemma_without_id_others(tasks, id);
    lemma_task_index_first(without_id(tasks, id), id);
}

/// Stores `task`: it replaces the first stored task with the same id, or is
/// added at the end when there is none.
pub fn upsert_task(tasks: &mut Vec<TaskRecord>, task: TaskRecord)
    ensures
        final(tasks)@ == upserted(old(tasks)@, task),
{
    match task_position(tasks.as_slice(), task.id.as_str()) {
        Some(i) => {
            tasks.set(i, task);
        },
        None => {
            tasks.push(task);
        },
    }
}

/// Records `status` for the first stored task with id `task_id`, updated at
/// `now`; returns its position, or none (and changes nothing) when there is
/// no such task.
pub fn update_task_status(tasks: &mut Vec<TaskRecord>, task_id: &str, status: TaskStatus, now: &str) -> (r:
    Option<usize>)
    ensures
        r == (match task_index(old(tasks)@, task_id@) {
            Some(i) => Some(i as usize),
            None => None::<usize>,
        }),
        r is None ==> final(tasks)@ == old(tasks)@,
        r matches Some(i) ==> {
            &&& final(tasks)@.len() == old(tasks)@.len()
            &&& final(tasks)@[i as int]@ == restatused(old(tasks)@[i as int]@, status, now@)
            &&& forall|j: int|
                0 <= j < old(tasks)@.len() && j != i ==> final(tasks)@[j] == old(tasks)@[j]
        },
{
    match task_position(tasks.as_slice(), task_id) {
        Some(i) => {
            let mut t = tasks.remove(i);
            crate::run::set_status(&mut t, status, now);
            tasks.insert(i, t);
            Some(i)
        },
        None => None,
    }
}

/// The tasks without any whose id is `id`, in order.
pub open spec fn without_id(tasks: Seq<TaskRecord>, id: Seq<char>) -> Seq<TaskRecord>
    decreases tasks.len(),
{
    if tasks.len() == 0 {
        Seq::empty()
    } else if tasks.last().id@ == id {
        without_id(tasks.drop_last(), id)
    } else {
        without_id(tasks.drop_last(), id).push(tasks.last())
    }
}

/// Removes every stored task whose id is `task_id`, keeping the others in
/// order.
pub fn delete_task(tasks: &mut Vec<TaskRecord>, task_id: &str)
    ensures
        final(tasks)@ == without_id(old(tasks)@, task_id@),
{
    let key = String::from_str(task_id);
    let ghost orig = tasks@;
    let mut kept: Vec<TaskRecord> = Vec::new();
    let ghost mut k: int = 0;
    while tasks.len() > 0
        invariant
            key@ == task_id@,
            0 <= k <= orig.len(),
            tasks@ == orig.skip(k),
            kept@ == without_id(orig.take(k), task_id@),
        decreases tasks.len(),
    {
        let t = tasks.remove(0);
        proof {
            assert(orig.skip(k).drop_first() == orig.skip(k + 1));
            assert(orig.take(k + 1).drop_last() == orig.take(k));
            assert(orig.take(k + 1).last() == t);
            k = k + 1;
        }
        if t.id != key {
            kept.push(t);
        }
    }
    assert(orig.take(orig.len() as int) == orig);
    *tasks = kept;
}

// ---------------------------------------------------------------------------
// New tasks
// ---------------------------------------------------------------------------

/// The record a task starts with: running, no rounds yet, its goal trimmed,
/// its modes taken from the settings, created and updated at `now`.
pub fn new_task(request: &StartTaskRequest, id: String, now: &str) -> (t: TaskRecord)
    ensures
        t@ == (TaskView {
            id: id@,
            user_goal: trim(request.user_goal@),
            max_rounds: request.max_rounds,
            status: TaskStatus::Running,
            success_mode: request.settings.success_mode,
            display_mode: request.settings.display_mode,
            rounds: Seq::empty(),
            final_result: Seq::empty(),
            error: None,
            created_at: now@,
            updated_at: now@,
        }),
{
    let t = TaskRecord {
        id,
        user_goal: trim_str(request.user_goal.as_str()),
        max_rounds: request.max_rounds,
        status: TaskStatus::Running,
        success_mode: request.settings.success_mode,
        display_mode: request.settings.display_mode,
        rounds: Vec::new(),
        final_result: String::new(),
        error: None,
        created_at: String::from_str(now),
        updated_at: String::from_str(now),
    };
    assert(crate::model::round_views(t.rounds@) == Seq::<crate::model::RoundView>::empty());
    t
}

// ---------------------------------------------------------------------------
// Pause and stop requests
// ---------------------------------------------------------------------------

/// The user's requests to a running task.
#[derive(Clone, Copy, Debug, Default, PartialEq, Eq, Structural)]
pub struct TaskControl {
    pub paused: bool,
    pub stopped: bool,
}

impl TaskControl {
    /// Asks the task to pause; returns the status to record.
    pub fn pause(&mut self) -> (s: TaskStatus)
        ensures
            final(self).paused,
            final(self).stopped == old(self).stopped,
            s == TaskStatus::Paused,
    {
        self.paused = true;
        TaskStatus::Paused
    }

    /// Asks the task to go on; returns the status to record.
    pub fn resume(&mut self) -> (s: TaskStatus)
        ensures
            !final(self).paused,
            final(self).stopped == old(self).stopped,
            s == TaskStatus::Running,
    {
        self.paused = false;
        TaskStatus::Running
    }

    /// Asks the task to stop, which also lifts a pause so that the task can
    /// see the request; returns the status to record.
    pub fn stop(&mut self) -> (s: TaskStatus)
        ensures
            final(self).stopped,
            !final(self).paused,
            s == TaskStatus::Stopped,
    {
        self.stopped = true;
        self.paused = false;
        TaskStatus::Stopped
    }
}

} // verus!
