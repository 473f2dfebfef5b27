//! What holds of the reduction tree that a finished plan describes.

use vstd::prelude::*;
use crate::planner::{
    first_numbers, full_plan, lemma_reduction_len, level_joins, next_level, reduction,
    reduction_root, segment_tasks, Command, Task,
};

verus! {

/// The segment tasks below task `t`, from left to right.
pub open spec fn leaves(tasks: Seq<Task>, t: int) -> Seq<int>
    decreases t,
{
    if 0 <= t < tasks.len() {
        match tasks[t].command {
            Command::Segment => seq![t],
            Command::Join { left, right } => if left < t && right < t {
                leaves(tasks, left as int) + leaves(tasks, right as int)
            } else {
                Seq::empty()
            },
            Command::Finalize { root } => if root < t {
                leaves(tasks, root as int)
            } else {
                Seq::empty()
            },
        }
    } else {
        Seq::empty()
    }
}

/// The segment tasks below the first `k` nodes of a level, from left to right.
pub open spec fn level_leaves(tasks: Seq<Task>, level: Seq<u64>, k: nat) -> Seq<int>
    decreases k,
{
    if k == 0 {
        Seq::empty()
    } else {
        level_leaves(tasks, level, (k - 1) as nat) + leaves(tasks, level[k - 1] as int)
    }
}

/// Whether every node of `level` is numbered below `bound`.
pub open spec fn level_below(level: Seq<u64>, bound: nat) -> bool {
    forall|i: int| 0 <= i < level.len() ==> (#[trigger] level[i]) < bound
}

/// In a reduction every task is a join, numbered by its position, of two
/// tasks with smaller numbers.
pub proof fn lemma_reduction_shape(first: nat, level: Seq<u64>, k: int)
    requires
        level_below(level, first),
        first + level.len() <= u64::MAX,
        0 <= k < level.len() - 1,
    ensures
        reduction(first, level).len() == level.len() - 1,
        reduction(first, level)[k].task_number == first + k,
        reduction(first, level)[k].command matches Command::Join { left, right } && left < first
            + k && right < first + k,
    decreases level.len(),
{
    lemma_reduction_len(first, level);
    let pairs = level.len() / 2;
    let next = next_level(first, level);
    if k < pairs {
        assert(reduction(first, level)[k] == level_joins(first, level)[k]);
    } else {
        assert(level_below(next, first + pairs)) by {
            assert forall|i: int| 0 <= i < next.len() implies (#[trigger] next[i]) < first
                + pairs by {
                if i < pairs {
                    assert(next[i] == (first + i) as u64);
                } else {
                    assert(next[i] == level.last());
                }
            }
        }
        lemma_reduction_shape(first + pairs, next, k - pairs);
        assert(reduction(first, level)[k] == reduction(first + pairs, next)[k - pairs]);
    }
}

/// A level of one node reduces to that node; a longer one to its last join.
pub proof fn lemma_reduction_root(first: nat, level: Seq<u64>)
    requires
        level.len() >= 1,
        first + level.len() <= u64::MAX,
    ensures
        reduction_root(first, level) == if level.len() == 1 {
            level[0] as int
        } else {
            first + level.len() - 2
        },
    decreases level.len(),
{
    if level.len() >= 2 {
        let pairs = level.len() / 2;
        let next = next_level(first, level);
        lemma_reduction_root(first + pairs, next);
        if next.len() == 1 {
            assert(next[0] == first as u64);
        }
    }
}

/// The shape of a finished plan: task `k` has number `k`; the first `n` tasks
/// are the segments; then come `n - 1` joins, each of two earlier tasks; the
/// last task is the finalize task over the task before it.
pub proof fn lemma_plan_shape(n: nat, k: int)
    requires
        n >= 1,
        2 * n <= u64::MAX,
        0 <= k < 2 * n,
    ensures
        full_plan(n).len() == 2 * n,
        full_plan(n)[k].task_number == k,
        k < n ==> full_plan(n)[k].command is Segment,
        n <= k < 2 * n - 1 ==> (full_plan(n)[k].command matches Command::Join { left, right }
            && left < k && right < k),
        k == 2 * n - 1 ==> full_plan(n)[k].command == (Command::Finalize {
            root: (2 * n - 2) as u64,
        }),
{
    let level = first_numbers(n);
    lemma_reduction_len(n, level);
    lemma_reduction_root(n, level);
    assert(level_below(level, n));
    if n <= k < 2 * n - 1 {
        lemma_reduction_shape(n, level, k - n);
        assert(full_plan(n)[k] == reduction(n, level)[k - n]);
    } else if k < n {
        assert(full_plan(n)[k] == segment_tasks(n)[k]);
    }
}

/// Tasks added to a plan do not change what lies below an earlier task.
pub proof fn lemma_leaves_prefix(a: Seq<Task>, b: Seq<Task>, t: int)
    requires
        t < a.len(),
    ensures
        leaves(a + b, t) == leaves(a, t),
    decreases t,
{
    if 0 <= t {
        assert((a + b)[t] == a[t]);
        match a[t].command {
            Command::Segment => {},
            Command::Join { left, right } => {
                if left < t && right < t {
                    lemma_leaves_prefix(a, b, left as int);
                    lemma_leaves_prefix(a, b, right as int);
                }
            },
            Command::Finalize { root } => {
                if root < t {
                    lemma_leaves_prefix(a, b, root as int);
                }
            },
        }
    }
}

/// Pairing up a level keeps the segments below it: the first `j` joins cover
/// what the first `2j` nodes covered.
proof fn lemma_pairing_keeps_leaves(tasks: Seq<Task>, level: Seq<u64>, j: nat)
    requires
        j <= level.len() / 2,
        level_below(level, tasks.len()),
        tasks.len() + level.len() <= u64::MAX,
    ensures
        level_leaves(
            tasks + level_joins(tasks.len(), level),
            next_level(tasks.len(), level),
            j,
        ) == level_leaves(tasks, level, 2 * j),
    decreases j,
{
    if j > 0 {
        let first = tasks.len();
        let joins = level_joins(first, level);
        let grown = tasks + joins;
        let next = next_level(first, level);
        let i = j - 1;
        lemma_pairing_keeps_leaves(tasks, level, i as nat);
        let l = level[2 * i];
        let r = level[2 * i + 1];
        assert(next[i] == (first + i) as u64);
        assert(grown[first + i] == joins[i]);
        assert(joins[i].command == Command::Join { left: l, right: r });
        assert(l < first && r < first);
        assert(leaves(grown, first + i) == leaves(grown, l as int) + leaves(grown, r as int));
        lemma_leaves_prefix(tasks, joins, l as int);
        lemma_leaves_prefix(tasks, joins, r as int);
        assert(level_leaves(tasks, level, 2 * j) == level_leaves(tasks, level, (2 * i + 1) as nat)
            + leaves(tasks, r as int));
        assert(level_leaves(tasks, level, (2 * i + 1) as nat) == level_leaves(
            tasks,
            level,
            (2 * i) as nat,
        ) + leaves(tasks, l as int));
        assert(level_leaves(grown, next, j) =~= level_leaves(tasks, level, 2 * j));
    }
}

/// Pairing up a whole level keeps the segments below it.
proof fn lemma_next_level_keeps_leaves(tasks: Seq<Task>, level: Seq<u64>)
    requires
        level.len() >= 2,
        level_below(level, tasks.len()),
        tasks.len() + level.len() <= u64::MAX,
    ensures
        level_leaves(
            tasks + level_joins(tasks.len(), level),
            next_level(tasks.len(), level),
            next_level(tasks.len(), level).len(),
        ) == level_leaves(tasks, level, level.len()),
{
    let first = tasks.len();
    let joins = level_joins(first, level);
    let grown = tasks + joins;
    let next = next_level(first, level);
    let pairs = level.len() / 2;
    lemma_pairing_keeps_leaves(tasks, level, pairs);
    if level.len() % 2 == 1 {
        assert(next.len() == pairs + 1);
        assert(next[pairs as int] == level.last());
        lemma_leaves_prefix(tasks, joins, level.last() as int);
        assert(level_leaves(grown, next, pairs + 1) == level_leaves(grown, next, pairs) + leaves(
            grown,
            next[pairs as int] as int,
        ));
        assert(level_leaves(tasks, level, level.len()) == level_leaves(tasks, level, 2 * pairs)
            + leaves(tasks, level.last() as int));
    }
}

/// The root of a reduction covers exactly the segments below the level it
/// was reduced from.
pub proof fn lemma_reduction_keeps_leaves(tasks: Seq<Task>, level: Seq<u64>)
    requires
        level.len() >= 1,
        level_below(level, tasks.len()),
        tasks.len() + level.len() <= u64::MAX,
    ensures
        reduction_root(tasks.len(), level) < tasks.len() + level.len() - 1,
        leaves(
            tasks + reduction(tasks.len(), level),
            reduction_root(tasks.len(), level) as int,
        ) == level_leaves(tasks, level, level.len()),
    decreases level.len(),
{
    let first = tasks.len();
    if level.len() < 2 {
        assert(tasks + reduction(first, level) =~= tasks);
        assert(level_leaves(tasks, level, 1) == level_leaves(tasks, level, 0) + leaves(
            tasks,
            level[0] as int,
        ));
        assert(level_leaves(tasks, level, 1) =~= leaves(tasks, level[0] as int));
    } else {
        let joins = level_joins(first, level);
        let grown = tasks + joins;
        let next = next_level(first, level);
        assert(level_below(next, grown.len())) by {
            assert forall|i: int| 0 <= i < next.len() implies (#[trigger] next[i]) < grown.len() by {
                if i < level.len() / 2 {
                    assert(next[i] == (first + i) as u64);
                } else {
                    assert(next[i] == level.last());
                }
            }
        }
        lemma_next_level_keeps_leaves(tasks, level);
        lemma_reduction_keeps_leaves(grown, next);
        assert(grown + reduction(grown.len(), next) =~= tasks + reduction(first, level));
    }
}

/// The segments alone: the first `k` of them cover themselves.
proof fn lemma_segment_level_leaves(n: nat, k: nat)
    requires
        k <= n,
        n <= u64::MAX,
    ensures
        level_leaves(segment_tasks(n), first_numbers(n), k) == Seq::new(k, |i: int| i),
    decreases k,
{
    if k > 0 {
        lemma_segment_level_leaves(n, (k - 1) as nat);
        let i = (k - 1) as int;
        assert(first_numbers(n)[i] == i as u64);
        assert(segment_tasks(n)[i].command == Command::Segment);
        assert(leaves(segment_tasks(n), i) == seq![i]);
        assert(level_leaves(segment_tasks(n), first_numbers(n), k) =~= Seq::new(k, |i: int| i));
    }
}

/// In a finished plan the finalize task reaches every segment exactly once,
/// through its root and the joins below it, and in the order of arrival.
pub proof fn lemma_finalize_reaches_every_segment(n: nat)
    requires
        n >= 1,
        2 * n <= u64::MAX,
    ensures
        full_plan(n).len() == 2 * n,
        full_plan(n)[2 * n - 1].command is Finalize,
        leaves(full_plan(n), 2 * n - 1) == Seq::new(n, |i: int| i),
{
    let segs = segment_tasks(n);
    let level = first_numbers(n);
    let joins = reduction(n, level);
    let root = reduction_root(n, level);
    let plan = full_plan(n);
    lemma_reduction_len(n, level);
    assert(level_below(level, segs.len()));
    lemma_reduction_keeps_leaves(segs, level);
    lemma_segment_level_leaves(n, n);
    let last = Task { task_number: (n + joins.len()) as u64, command: Command::Finalize { root } };
    assert(plan == (segs + joins).push(last));
    assert(plan =~= (segs + joins) + seq![last]);
    assert(plan[2 * n - 1] == last);
    lemma_leaves_prefix(segs + joins, seq![last], root as int);
    assert(leaves(plan, 2 * n - 1) == leaves(plan, root as int));
}

} // verus!
