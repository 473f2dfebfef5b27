//! What holds of the tasks of one job, taken together: what each task
//! waits for exists, the tree covers every segment, and the closing tasks
//! are there exactly when they are called for.

use vstd::prelude::*;
use crate::feeder::{job_task_views, join_view};
use crate::ids::JobId;
use crate::planner::full_plan;
use crate::tasks::{
    finalize_task_spec, finalize_task_specs, keccak_name, keccak_names, resolve_task_spec,
    segment_task_spec, snark_task_spec, task_name, Args, CompressType, Streams, TaskSpecView,
    TaskType,
};
use crate::text::{decimal_text, is_digit_char, lemma_decimal_text_digits};
use crate::tree::{leaves, lemma_finalize_reaches_every_segment, lemma_plan_shape};

verus! {

/// A job as the feeder sees it.
pub struct Job {
    pub args: Args,
    pub streams: Streams,
    pub job_id: JobId,
    /// The indices of the segments, in the order of their arrival.
    pub indices: Seq<u32>,
    /// How many receipts the program assumes.
    pub assumption_count: nat,
    pub compress_type: CompressType,
    /// How many keccak tasks the sidecar has created when the plan is closed.
    pub keccak_count: nat,
}

impl Job {
    /// How many segments the job has.
    pub open spec fn segments(&self) -> nat {
        self.indices.len()
    }

    /// Whether the job can be planned: it has a segment, and its task
    /// numbers fit in 64 bits.
    pub open spec fn plannable(&self) -> bool {
        self.segments() >= 1 && 2 * self.segments() <= u64::MAX
    }

    /// The number of the root of the reduction tree.
    pub open spec fn root(&self) -> u64 {
        (2 * self.segments() - 2) as u64
    }

    /// Whether the job has anything to resolve.
    pub open spec fn resolves(&self) -> bool {
        self.assumption_count + self.keccak_count > 0
    }

    /// The tasks that the feeder creates for the job, in the order of creation.
    pub open spec fn tasks(&self) -> Seq<TaskSpecView> {
        job_task_views(
            self.args,
            self.streams,
            self.job_id,
            self.indices,
            self.assumption_count,
            self.compress_type,
            self.keccak_count,
        )
    }

    /// The tasks of the finalize node.
    pub open spec fn closing(&self) -> Seq<TaskSpecView> {
        finalize_task_specs(
            self.args,
            self.streams,
            self.job_id,
            self.root(),
            self.assumption_count,
            self.keccak_count,
            self.compress_type,
        )
    }

    /// The left child of the join with number `k`.
    pub open spec fn left_of(&self, k: int) -> u64 {
        full_plan(self.segments())[k].command->left
    }

    /// The right child of the join with number `k`.
    pub open spec fn right_of(&self, k: int) -> u64 {
        full_plan(self.segments())[k].command->right
    }

    /// The place of the finalize task among the job's tasks.
    pub open spec fn finalize_at(&self) -> int {
        if self.resolves() {
            2 * self.segments() as int
        } else {
            2 * self.segments() - 1
        }
    }
}

/// Whether a task named `name` is among `tasks`.
pub open spec fn has_task(tasks: Seq<TaskSpecView>, name: Seq<char>) -> bool {
    exists|i: int| 0 <= i < tasks.len() && (#[trigger] tasks[i]).name == name
}

/// The names of the closing tasks differ from each other and from every
/// task number.
pub proof fn lemma_closing_names()
    ensures
        "resolve"@ != "finalize"@,
        "snark"@ != "finalize"@,
        "resolve"@ != "snark"@,
        forall|k: nat|
            (#[trigger] decimal_text(k)) != "finalize"@ && decimal_text(k) != "resolve"@
                && decimal_text(k) != "snark"@,
{
    reveal_strlit("resolve");
    reveal_strlit("finalize");
    reveal_strlit("snark");
    assert("resolve"@[0] == 'r');
    assert("finalize"@[0] == 'f');
    assert("snark"@[0] == 's');
    assert(!is_digit_char('r'));
    assert(!is_digit_char('f'));
    assert(!is_digit_char('s'));
    assert forall|k: nat|
        (#[trigger] decimal_text(k)) != "finalize"@ && decimal_text(k) != "resolve"@
            && decimal_text(k) != "snark"@ by {
        lemma_decimal_text_digits(k);
        assert(is_digit_char(decimal_text(k)[0]));
    }
}

/// The layout of the tasks before the closing ones: the task at place `k`
/// is named by the number `k`; a segment task waits for nothing and carries
/// the index of its segment; a join waits for two tasks with smaller numbers.
pub proof fn lemma_numbered_tasks(job: Job, k: int)
    requires
        job.plannable(),
        0 <= k < 2 * job.segments() - 1,
    ensures
        job.tasks().len() == 2 * job.segments() - 1 + job.closing().len(),
        job.tasks()[k].name == decimal_text(k as nat),
        k < job.segments() ==> job.tasks()[k].prereqs.len() == 0 && job.tasks()[k].payload == (
        TaskType::Prove { index: job.indices[k] }),
        k >= job.segments() ==> job.left_of(k) < k && job.right_of(k) < k && job.tasks()[k].prereqs
            == seq![task_name(job.left_of(k)), task_name(job.right_of(k))] && job.tasks()[k].payload
            == (TaskType::Join { idx: k as u64, left: job.left_of(k), right: job.right_of(k) }),
{
    let n = job.segments();
    lemma_plan_shape(n, k);
    if k >= n {
        let task = full_plan(n)[k];
        assert(job.tasks()[k] == join_view(job.args, job.streams, job.job_id, task));
    } else {
        assert(job.tasks()[k] == segment_task_spec(
            job.args,
            job.streams,
            job.job_id,
            k as u64,
            job.indices[k],
        ));
    }
}

/// The closing tasks stand at the end of the job's tasks.
pub proof fn lemma_closing_tasks(job: Job, q: int)
    requires
        job.plannable(),
        0 <= q < job.closing().len(),
    ensures
        job.tasks().len() == 2 * job.segments() - 1 + job.closing().len(),
        job.tasks()[2 * job.segments() - 1 + q] == job.closing()[q],
{
}

/// The finalize task stands where `finalize_at` says, behind the resolve
/// task where there is one, and waits for it, or else for the root.
pub proof fn lemma_finalize_task(job: Job)
    requires
        job.plannable(),
    ensures
        0 <= job.finalize_at() < job.tasks().len(),
        job.tasks()[job.finalize_at()] == finalize_task_spec(
            job.args,
            job.streams,
            job.job_id,
            job.root(),
            job.resolves(),
        ),
        job.resolves() ==> job.tasks()[job.finalize_at() - 1] == resolve_task_spec(
            job.args,
            job.streams,
            job.job_id,
            job.root(),
            job.assumption_count,
            job.keccak_count,
        ),
        job.compress_type != CompressType::Uncompressed ==> job.tasks().len() == job.finalize_at()
            + 2 && job.tasks()[job.finalize_at() + 1] == snark_task_spec(
            job.args,
            job.streams,
            job.job_id,
            job.compress_type,
        ),
        job.compress_type == CompressType::Uncompressed ==> job.tasks().len() == job.finalize_at()
            + 1,
{
    let q = if job.resolves() {
        1int
    } else {
        0int
    };
    lemma_closing_tasks(job, q);
    if job.resolves() {
        lemma_closing_tasks(job, 0);
    }
    if job.compress_type != CompressType::Uncompressed {
        lemma_closing_tasks(job, q + 1);
    }
}

/// Every prerequisite of a task names a task that was created before it:
/// an earlier task of the feeder, or one of the job's keccak tasks, which
/// the sidecar has created before the plan is closed. So no task waits for
/// itself, directly or through others.
pub proof fn lemma_prerequisites_exist_earlier(job: Job, i: int, p: int)
    requires
        job.plannable(),
        0 <= i < job.tasks().len(),
        0 <= p < job.tasks()[i].prereqs.len(),
    ensures
        (exists|j: int| 0 <= j < i && (#[trigger] job.tasks()[j]).name == job.tasks()[i].prereqs[p])
            || (exists|m: nat|
            m < job.keccak_count && job.tasks()[i].prereqs[p] == #[trigger] keccak_name(m)),
{
    let n = job.segments();
    let tasks = job.tasks();
    let wanted = tasks[i].prereqs[p];
    lemma_finalize_task(job);
    if i < 2 * n - 1 {
        lemma_numbered_tasks(job, i);
        let j = if p == 0 {
            job.left_of(i) as int
        } else {
            job.right_of(i) as int
        };
        lemma_numbered_tasks(job, j);
        assert(tasks[j].name == wanted);
    } else {
        let root = job.root() as int;
        lemma_numbered_tasks(job, root);
        assert(tasks[root].name == task_name(job.root()));
        let f = job.finalize_at();
        if i == f {
            if job.resolves() {
                assert(tasks[f - 1].name == wanted);
            } else {
                assert(tasks[root].name == wanted);
            }
        } else if i == f + 1 {
            assert(tasks[f].name == wanted);
        } else {
            assert(i == f - 1 && job.resolves());
            if p == 0 {
                assert(tasks[root].name == wanted);
            } else {
                let m = (p - 1) as nat;
                assert(wanted == keccak_names(job.keccak_count)[p - 1]);
                assert(m < job.keccak_count && wanted == keccak_name(m));
            }
        }
    }
}

/// The tree covers every segment: the segment tasks below the finalize node
/// are the tasks `0` to `n - 1`, each once, and where the executor has
/// numbered its segments from zero in the order of their arrival, the
/// `i`-th of them proves segment `i`.
pub proof fn lemma_finalize_covers_segments(job: Job)
    requires
        job.plannable(),
        forall|k: int| 0 <= k < job.segments() ==> job.indices[k] == k,
    ensures
        full_plan(job.segments())[2 * job.segments() - 1].command is Finalize,
        leaves(full_plan(job.segments()), 2 * job.segments() - 1).len() == job.segments(),
        forall|i: int|
            0 <= i < job.segments() ==> job.tasks()[#[trigger] leaves(
                full_plan(job.segments()),
                2 * job.segments() - 1,
            )[i]].payload == (TaskType::Prove { index: i as u32 }),
{
    let n = job.segments();
    lemma_finalize_reaches_every_segment(n);
    let reached = leaves(full_plan(n), 2 * n - 1);
    assert forall|i: int| 0 <= i < n implies job.tasks()[#[trigger] reached[i]].payload == (
    TaskType::Prove { index: i as u32 }) by {
        assert(reached[i] == i);
        lemma_numbered_tasks(job, i);
    }
}

/// A job has exactly one task named `finalize`.
pub proof fn lemma_one_finalize_task(job: Job)
    requires
        job.plannable(),
    ensures
        has_task(job.tasks(), "finalize"@),
        forall|i: int, j: int|
            0 <= i < job.tasks().len() && 0 <= j < job.tasks().len() && (
            #[trigger] job.tasks()[i]).name == "finalize"@ && (#[trigger] job.tasks()[j]).name
                == "finalize"@ ==> i == j,
{
    let tasks = job.tasks();
    let f = job.finalize_at();
    lemma_finalize_task(job);
    lemma_closing_names();
    assert(tasks[f].name == "finalize"@);
    assert forall|i: int| 0 <= i < tasks.len() && (#[trigger] tasks[i]).name
        == "finalize"@ implies i == f by {
        if i < 2 * job.segments() - 1 {
            lemma_numbered_tasks(job, i);
        }
    }
}

/// A job has a task named `snark` exactly if its receipt is compressed, and
/// that task waits for the finalize task alone.
pub proof fn lemma_snark_task(job: Job)
    requires
        job.plannable(),
    ensures
        has_task(job.tasks(), "snark"@) <==> job.compress_type != CompressType::Uncompressed,
        forall|i: int|
            0 <= i < job.tasks().len() && (#[trigger] job.tasks()[i]).name == "snark"@
                ==> job.tasks()[i].prereqs == seq!["finalize"@],
{
    let tasks = job.tasks();
    let f = job.finalize_at();
    lemma_finalize_task(job);
    lemma_closing_names();
    assert forall|i: int| 0 <= i < tasks.len() && (#[trigger] tasks[i]).name
        == "snark"@ implies i == f + 1 && job.compress_type != CompressType::Uncompressed by {
        if i < 2 * job.segments() - 1 {
            lemma_numbered_tasks(job, i);
        }
    }
    if job.compress_type != CompressType::Uncompressed {
        assert(tasks[f + 1].name == "snark"@);
    }
}

/// A job has a task named `resolve` exactly if it assumes a receipt or has
/// a keccak task. That task waits for the root of the tree and for every
/// keccak task, and the finalize task waits for it alone.
pub proof fn lemma_resolve_task(job: Job)
    requires
        job.plannable(),
    ensures
        has_task(job.tasks(), "resolve"@) <==> job.resolves(),
        forall|i: int|
            0 <= i < job.tasks().len() && (#[trigger] job.tasks()[i]).name == "resolve"@
                ==> job.tasks()[i].prereqs == seq![task_name(job.root())] + keccak_names(
                job.keccak_count,
            ) && job.tasks()[i].timeout == job.args.resolve_timeout * (job.assumption_count
                + job.keccak_count),
        job.resolves() ==> job.tasks()[job.finalize_at()].prereqs == seq!["resolve"@],
        !job.resolves() ==> job.tasks()[job.finalize_at()].prereqs == seq![task_name(job.root())],
{
    let tasks = job.tasks();
    let f = job.finalize_at();
    lemma_finalize_task(job);
    lemma_closing_names();
    assert forall|i: int| 0 <= i < tasks.len() && (#[trigger] tasks[i]).name
        == "resolve"@ implies i == f - 1 && job.resolves() by {
        if i < 2 * job.segments() - 1 {
            lemma_numbered_tasks(job, i);
        }
    }
    if job.resolves() {
        assert(tasks[f - 1].name == "resolve"@);
    }
}

/// Different keccak tasks have different names.
pub proof fn lemma_keccak_names_differ(a: nat, b: nat)
    requires
        a != b,
    ensures
        keccak_name(a) != keccak_name(b),
{
    let prefix = "keccak_"@;
    if keccak_name(a) == keccak_name(b) {
        let ka = keccak_name(a);
        let kb = keccak_name(b);
        assert(ka.subrange(prefix.len() as int, ka.len() as int) =~= decimal_text(a));
        assert(kb.subrange(prefix.len() as int, kb.len() as int) =~= decimal_text(b));
        crate::text::lemma_decimal_text_injective(a, b);
    }
}

/// No two tasks of the feeder have the same name.
pub proof fn lemma_task_names_unique(job: Job, i: int, j: int)
    requires
        job.plannable(),
        0 <= i < j < job.tasks().len(),
    ensures
        job.tasks()[i].name != job.tasks()[j].name,
{
    let n = job.segments();
    lemma_finalize_task(job);
    lemma_closing_names();
    if i < 2 * n - 1 {
        lemma_numbered_tasks(job, i);
    }
    if j < 2 * n - 1 {
        lemma_numbered_tasks(job, j);
        if job.tasks()[i].name == job.tasks()[j].name {
            crate::text::lemma_decimal_text_injective(i as nat, j as nat);
        }
    }
}

/// No task of the feeder has the name of a keccak task.
pub proof fn lemma_keccak_names_apart(job: Job, i: int, m: nat)
    requires
        job.plannable(),
        0 <= i < job.tasks().len(),
    ensures
        job.tasks()[i].name != keccak_name(m),
{
    reveal_strlit("keccak_");
    reveal_strlit("resolve");
    reveal_strlit("finalize");
    reveal_strlit("snark");
    let name = keccak_name(m);
    assert(name[0] == 'k');
    assert(!is_digit_char('k'));
    lemma_finalize_task(job);
    if i < 2 * job.segments() - 1 {
        lemma_numbered_tasks(job, i);
        lemma_decimal_text_digits(i as nat);
        assert(is_digit_char(decimal_text(i as nat)[0]));
    } else {
        assert("resolve"@[0] == 'r');
        assert("finalize"@[0] == 'f');
        assert("snark"@[0] == 's');
    }
}

} // verus!
