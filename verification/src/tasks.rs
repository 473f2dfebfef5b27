//! The tasks that a job hands to the task database, and how each planned
//! node of the reduction tree turns into them.

use vstd::prelude::*;
use vstd::string::*;
use crate::ids::{Digest, JobId, StreamId};
use crate::planner::{Command, Task};
use crate::text::{decimal_string, decimal_text};

verus! {

/// How far the final receipt is compressed.
#[derive(Clone, Copy, Debug, PartialEq, Eq, Structural)]
pub enum CompressType {
    /// The receipt stays as the finalize task leaves it.
    Uncompressed,
    Compact,
    Succinct,
}

/// What a worker is asked to do.
#[derive(Clone, Copy, Debug, PartialEq, Eq)]
pub enum TaskType {
    /// Prove the segment with this executor-assigned index.
    Prove { index: u32 },
    /// Join the receipts of tasks `left` and `right` into receipt `idx`.
    Join { idx: u64, left: u64, right: u64 },
    /// Resolve the assumptions of the root receipt.
    Resolve { max_idx: u64 },
    /// Turn the root receipt into the job's receipt.
    Finalize { max_idx: u64 },
    /// Compress the receipt of a job.
    Snark { receipt: JobId, compress_type: CompressType },
    /// Prove one keccak request. The input stays in the hot cache.
    Keccak { claim_digest: Digest, control_root: Digest, po2: u32 },
}

/// Retry counts, timeouts in seconds and limits that a deployment configures.
#[derive(Clone, Copy, Debug, PartialEq, Eq)]
pub struct Args {
    pub redis_ttl: u64,
    pub exec_cycle_limit: u64,
    pub segment_po2: u32,
    pub prove_retries: i32,
    pub prove_timeout: i32,
    pub join_retries: i32,
    pub join_timeout: i32,
    pub resolve_retries: i32,
    pub resolve_timeout: i32,
    pub finalize_retries: i32,
    pub finalize_timeout: i32,
    pub snark_retries: i32,
    pub snark_timeout: i32,
}

/// The streams that the tasks of one job are published to.
#[derive(Clone, Copy, Debug, PartialEq, Eq)]
pub struct Streams {
    pub aux: StreamId,
    pub prove: StreamId,
    pub join: StreamId,
    pub coproc: StreamId,
    pub snark: StreamId,
}

/// One task as it is handed to the task database.
#[derive(Clone, Debug, PartialEq, Eq)]
pub struct TaskSpec {
    pub job_id: JobId,
    pub name: String,
    pub stream: StreamId,
    pub payload: TaskType,
    pub prereqs: Vec<String>,
    pub retries: i32,
    pub timeout: i32,
}

/// The abstract value of a [`TaskSpec`].
pub struct TaskSpecView {
    pub job_id: JobId,
    pub name: Seq<char>,
    pub stream: StreamId,
    pub payload: TaskType,
    pub prereqs: Seq<Seq<char>>,
    pub retries: int,
    pub timeout: int,
}

impl View for TaskSpec {
    type V = TaskSpecView;

    open spec fn view(&self) -> TaskSpecView {
        TaskSpecView {
            job_id: self.job_id,
            name: self.name@,
            stream: self.stream,
            payload: self.payload,
            prereqs: self.prereqs.deep_view(),
            retries: self.retries as int,
            timeout: self.timeout as int,
        }
    }
}

impl DeepView for TaskSpec {
    type V = TaskSpecView;

    open spec fn deep_view(&self) -> TaskSpecView {
        self@
    }
}

/// Why a planned node could not be turned into tasks.
#[derive(Clone, Copy, Debug, PartialEq, Eq, Structural)]
pub enum TaskError {
    /// A segment node was processed without the index of its segment.
    MissingSegmentIndex,
}

/// The name of the task of a planned node: its number in decimal.
pub open spec fn task_name(number: u64) -> Seq<char> {
    decimal_text(number as nat)
}

/// The name of the `i`-th keccak task.
pub open spec fn keccak_name(i: nat) -> Seq<char> {
    "keccak_"@ + decimal_text(i)
}

/// The names of the first `count` keccak tasks.
pub open spec fn keccak_names(count: nat) -> Seq<Seq<char>> {
    Seq::new(count, |i: int| keccak_name(i as nat))
}

/// The task of a segment node. It waits for nothing: its segment is in the
/// hot cache before the node is planned.
pub open spec fn segment_task_spec(
    args: Args,
    streams: Streams,
    job_id: JobId,
    number: u64,
    index: u32,
) -> TaskSpecView {
    TaskSpecView {
        job_id,
        name: task_name(number),
        stream: streams.prove,
        payload: TaskType::Prove { index },
        prereqs: Seq::empty(),
        retries: args.prove_retries as int,
        timeout: args.prove_timeout as int,
    }
}

/// The task of a join node. It waits for its two children.
pub open spec fn join_task_spec(
    args: Args,
    streams: Streams,
    job_id: JobId,
    number: u64,
    left: u64,
    right: u64,
) -> TaskSpecView {
    TaskSpecView {
        job_id,
        name: task_name(number),
        stream: streams.join,
        payload: TaskType::Join { idx: number, left, right },
        prereqs: seq![task_name(left), task_name(right)],
        retries: args.join_retries as int,
        timeout: args.join_timeout as int,
    }
}

/// The resolve task. It waits for the root and for every keccak task, and
/// its timeout grows with the number of assumptions, keccak proofs included.
pub open spec fn resolve_task_spec(
    args: Args,
    streams: Streams,
    job_id: JobId,
    root: u64,
    assumption_count: nat,
    keccak_count: nat,
) -> TaskSpecView {
    TaskSpecView {
        job_id,
        name: "resolve"@,
        stream: streams.join,
        payload: TaskType::Resolve { max_idx: root },
        prereqs: seq![task_name(root)] + keccak_names(keccak_count),
        retries: args.resolve_retries as int,
        timeout: args.resolve_timeout * (assumption_count + keccak_count),
    }
}

/// The finalize task. It waits for the resolve task where there is one, and
/// for the root otherwise.
pub open spec fn finalize_task_spec(
    args: Args,
    streams: Streams,
    job_id: JobId,
    root: u64,
    resolved: bool,
) -> TaskSpecView {
    TaskSpecView {
        job_id,
        name: "finalize"@,
        stream: streams.aux,
        payload: TaskType::Finalize { max_idx: root },
        prereqs: seq![
            if resolved {
                "resolve"@
            } else {
                task_name(root)
            },
        ],
        retries: args.finalize_retries as int,
        timeout: args.finalize_timeout as int,
    }
}

/// The snark task. It waits for the finalize task.
pub open spec fn snark_task_spec(
    args: Args,
    streams: Streams,
    job_id: JobId,
    compress_type: CompressType,
) -> TaskSpecView {
    TaskSpecView {
        job_id,
        name: "snark"@,
        stream: streams.snark,
        payload: TaskType::Snark { receipt: job_id, compress_type },
        prereqs: seq!["finalize"@],
        retries: args.snark_retries as int,
        timeout: args.snark_timeout as int,
    }
}

/// The tasks of the finalize node, in the order of their creation: the
/// resolve task if anything is assumed, the finalize task, and the snark
/// task if the receipt is compressed.
pub open spec fn finalize_task_specs(
    args: Args,
    streams: Streams,
    job_id: JobId,
    root: u64,
    assumption_count: nat,
    keccak_count: nat,
    compress_type: CompressType,
) -> Seq<TaskSpecView> {
    let resolved = assumption_count + keccak_count > 0;
    let resolve = if resolved {
        seq![resolve_task_spec(args, streams, job_id, root, assumption_count, keccak_count)]
    } else {
        Seq::empty()
    };
    let snark = if compress_type != CompressType::Uncompressed {
        seq![snark_task_spec(args, streams, job_id, compress_type)]
    } else {
        Seq::empty()
    };
    resolve + seq![finalize_task_spec(args, streams, job_id, root, resolved)] + snark
}

/// The tasks of one planned node.
pub open spec fn task_specs(
    args: Args,
    streams: Streams,
    job_id: JobId,
    task: Task,
    segment_index: Option<u32>,
    assumption_count: nat,
    compress_type: CompressType,
    keccak_count: nat,
) -> Result<Seq<TaskSpecView>, TaskError> {
    match task.command {
        Command::Segment => match segment_index {
            Some(index) => Ok(
                seq![segment_task_spec(args, streams, job_id, task.task_number, index)],
            ),
            None => Err(TaskError::MissingSegmentIndex),
        },
        Command::Join { left, right } => Ok(
            seq![join_task_spec(args, streams, job_id, task.task_number, left, right)],
        ),
        Command::Finalize { root } => Ok(
            finalize_task_specs(
                args,
                streams,
                job_id,
                root,
                assumption_count,
                keccak_count,
                compress_type,
            ),
        ),
    }
}

/// Whether the timeout of a resolve task over `count` assumptions can be
/// written in 32 bits.
pub open spec fn resolve_timeout_fits(resolve_timeout: i32, count: int) -> bool {
    &&& count <= i32::MAX
    &&& i32::MIN <= resolve_timeout * count <= i32::MAX
}

/// The names that a resolve task waits for.
fn resolve_prereqs(root: u64, keccak_count: u64) -> (prereqs: Vec<String>)
    ensures
        prereqs.deep_view() == seq![task_name(root)] + keccak_names(keccak_count as nat),
{
    let mut prereqs: Vec<String> = Vec::new();
    prereqs.push(decimal_string(root));
    assert(prereqs.deep_view() =~= seq![task_name(root)] + keccak_names(0));
    let mut i: u64 = 0;
    while i < keccak_count
        invariant
            i <= keccak_count,
            prereqs.deep_view() == seq![task_name(root)] + keccak_names(i as nat),
        decreases keccak_count - i,
    {
        let mut name = String::from_str("keccak_");
        let number = decimal_string(i);
        name.append(number.as_str());
        let ghost before = prereqs.deep_view();
        prereqs.push(name);
        i += 1;
        assert(prereqs.deep_view() =~= before.push(keccak_name((i - 1) as nat)));
        assert(prereqs.deep_view() =~= seq![task_name(root)] + keccak_names(i as nat));
    }
    prereqs
}

/// Turns one planned node into the tasks that are created for it, in the
/// order of their creation.
///
/// A segment node needs the index that the executor gave its segment. The
/// finalize node reads `keccak_count`, the number of keccak tasks created
/// for the job, and the number of assumption receipts.
pub fn process_task(
    args: &Args,
    streams: &Streams,
    job_id: &JobId,
    tree_task: &Task,
    segment_index: Option<u32>,
    assumptions: &Vec<String>,
    compress_type: CompressType,
    keccak_count: u64,
) -> (r: Result<Vec<TaskSpec>, TaskError>)
    requires
        tree_task.command is Finalize ==> resolve_timeout_fits(
            args.resolve_timeout,
            assumptions@.len() + keccak_count,
        ),
    ensures
        match task_specs(
            *args,
            *streams,
            *job_id,
            *tree_task,
            segment_index,
            assumptions@.len(),
            compress_type,
            keccak_count as nat,
        ) {
            Ok(specs) => r is Ok && r->Ok_0.deep_view() == specs,
            Err(e) => r == Err::<Vec<TaskSpec>, TaskError>(e),
        },
{
    let mut specs: Vec<TaskSpec> = Vec::new();
    match tree_task.command {
        Command::Segment => {
            let index = match segment_index {
                Some(index) => index,
                None => {
                    return Err(TaskError::MissingSegmentIndex);
                },
            };
            let spec = TaskSpec {
                job_id: *job_id,
                name: decimal_string(tree_task.task_number),
                stream: streams.prove,
                payload: TaskType::Prove { index },
                prereqs: Vec::new(),
                retries: args.prove_retries,
                timeout: args.prove_timeout,
            };
            assert(spec.prereqs.deep_view() =~= Seq::<Seq<char>>::empty());
            specs.push(spec);
            assert(specs.deep_view() =~= seq![
                segment_task_spec(*args, *streams, *job_id, tree_task.task_number, index),
            ]);
        },
        Command::Join { left, right } => {
            let mut prereqs: Vec<String> = Vec::new();
            prereqs.push(decimal_string(left));
            prereqs.push(decimal_string(right));
            assert(prereqs.deep_view() =~= seq![task_name(left), task_name(right)]);
            let spec = TaskSpec {
                job_id: *job_id,
                name: decimal_string(tree_task.task_number),
                stream: streams.join,
                payload: TaskType::Join { idx: tree_task.task_number, left, right },
                prereqs,
                retries: args.join_retries,
                timeout: args.join_timeout,
            };
            specs.push(spec);
            assert(specs.deep_view() =~= seq![
                join_task_spec(*args, *streams, *job_id, tree_task.task_number, left, right),
            ]);
        },
        Command::Finalize { root } => {
            let ghost expected = finalize_task_specs(
                *args,
                *streams,
                *job_id,
                root,
                assumptions@.len(),
                keccak_count as nat,
                compress_type,
            );
            let count: u64 = assumptions.len() as u64 + keccak_count;
            let resolved = count > 0;
            let mut finalize_prereqs: Vec<String> = Vec::new();
            if resolved {
                let spec = TaskSpec {
                    job_id: *job_id,
                    name: String::from_str("resolve"),
                    stream: streams.join,
                    payload: TaskType::Resolve { max_idx: root },
                    prereqs: resolve_prereqs(root, keccak_count),
                    retries: args.resolve_retries,
                    timeout: args.resolve_timeout * (count as i32),
                };
                specs.push(spec);
                finalize_prereqs.push(String::from_str("resolve"));
            } else {
                finalize_prereqs.push(decimal_string(root));
            }
            assert(finalize_prereqs.deep_view() =~= seq![
                if resolved {
                    "resolve"@
                } else {
                    task_name(root)
                },
            ]);
            let spec = TaskSpec {
                job_id: *job_id,
                name: String::from_str("finalize"),
                stream: streams.aux,
                payload: TaskType::Finalize { max_idx: root },
                prereqs: finalize_prereqs,
                retries: args.finalize_retries,
                timeout: args.finalize_timeout,
            };
            specs.push(spec);
            match compress_type {
                CompressType::Uncompressed => {},
                _ => {
                    let mut prereqs: Vec<String> = Vec::new();
                    prereqs.push(String::from_str("finalize"));
                    assert(prereqs.deep_view() =~= seq!["finalize"@]);
                    let spec = TaskSpec {
                        job_id: *job_id,
                        name: String::from_str("snark"),
                        stream: streams.snark,
                        payload: TaskType::Snark { receipt: *job_id, compress_type },
                        prereqs,
                        retries: args.snark_retries,
                        timeout: args.snark_timeout,
                    };
                    specs.push(spec);
                },
            }
            assert(specs.deep_view() =~= expected);
        },
    }
    Ok(specs)
}

} // verus!
