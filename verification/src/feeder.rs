//! The planner feeder: it takes the indices of the segments as they are
//! staged, and says which tasks to create for the job.

use vstd::pervasive::unreached;
use vstd::prelude::*;
use crate::ids::JobId;
use crate::planner::{full_plan, Planner, PlannerError, PlannerView, Task};
use crate::tasks::{
    finalize_task_specs, join_task_spec, process_task, resolve_timeout_fits, segment_task_spec,
    Args, CompressType, Streams, TaskSpec, TaskSpecView,
};
use crate::tree::lemma_plan_shape;

verus! {

/// The task of a join node of the plan.
pub open spec fn join_view(args: Args, streams: Streams, job_id: JobId, task: Task) -> TaskSpecView {
    join_task_spec(
        args,
        streams,
        job_id,
        task.task_number,
        task.command->left,
        task.command->right,
    )
}

/// The tasks of the first `count` joins of a plan with `n` segments.
pub open spec fn join_task_views(
    args: Args,
    streams: Streams,
    job_id: JobId,
    n: nat,
    count: nat,
) -> Seq<TaskSpecView> {
    Seq::new(count, |j: int| join_view(args, streams, job_id, full_plan(n)[n + j]))
}

/// What is created when the last of `n` segments has arrived: the joins of
/// the plan, then the tasks of its finalize node.
pub open spec fn closing_task_views(
    args: Args,
    streams: Streams,
    job_id: JobId,
    n: nat,
    assumption_count: nat,
    compress_type: CompressType,
    keccak_count: nat,
) -> Seq<TaskSpecView> {
    join_task_views(args, streams, job_id, n, (n - 1) as nat) + finalize_task_specs(
        args,
        streams,
        job_id,
        (2 * n - 2) as u64,
        assumption_count,
        keccak_count,
        compress_type,
    )
}

/// The segment tasks of a job whose segments arrived with these indices.
pub open spec fn segment_task_views(
    args: Args,
    streams: Streams,
    job_id: JobId,
    indices: Seq<u32>,
) -> Seq<TaskSpecView> {
    Seq::new(
        indices.len(),
        |k: int| segment_task_spec(args, streams, job_id, k as u64, indices[k]),
    )
}

/// Every task that the feeder creates for a job, in the order of creation.
pub open spec fn job_task_views(
    args: Args,
    streams: Streams,
    job_id: JobId,
    indices: Seq<u32>,
    assumption_count: nat,
    compress_type: CompressType,
    keccak_count: nat,
) -> Seq<TaskSpecView> {
    segment_task_views(args, streams, job_id, indices) + closing_task_views(
        args,
        streams,
        job_id,
        indices.len(),
        assumption_count,
        compress_type,
        keccak_count,
    )
}

/// The abstract state of a feeder.
pub struct FeederView {
    pub args: Args,
    pub streams: Streams,
    pub job_id: JobId,
    pub assumption_count: nat,
    pub compress_type: CompressType,
    /// Whether the job only executes: then no task is ever created.
    pub exec_only: bool,
    /// How many segments have been planned.
    pub segments: nat,
    /// Whether the plan is closed.
    pub finished: bool,
}

/// Feeds the planner of one job and turns what it plans into tasks.
pub struct PlannerFeeder {
    planner: Planner,
    args: Args,
    streams: Streams,
    job_id: JobId,
    assumptions: Vec<String>,
    compress_type: CompressType,
    exec_only: bool,
}

impl View for PlannerFeeder {
    type V = FeederView;

    closed spec fn view(&self) -> FeederView {
        FeederView {
            args: self.args,
            streams: self.streams,
            job_id: self.job_id,
            assumption_count: self.assumptions@.len(),
            compress_type: self.compress_type,
            exec_only: self.exec_only,
            segments: self.planner@.segments,
            finished: self.planner@.finished,
        }
    }
}

/// Appends `more` to `specs`.
fn append_specs(specs: &mut Vec<TaskSpec>, more: Vec<TaskSpec>)
    ensures
        final(specs).deep_view() == old(specs).deep_view() + more.deep_view(),
{
    let mut more = more;
    let ghost added = more.deep_view();
    let ghost before = specs.deep_view();
    specs.append(&mut more);
    assert(specs.deep_view() =~= before + added);
}

impl PlannerFeeder {
    /// The feeder's invariant: every task that was planned has been handed on.
    pub closed spec fn wf(&self) -> bool {
        &&& self.planner.wf()
        &&& self.planner@.cursor == self.planner@.tasks.len()
        &&& self.exec_only ==> self.planner@.segments == 0 && !self.planner@.finished
    }

    /// A feeder for a job of which no segment has arrived.
    pub fn new(
        args: Args,
        streams: Streams,
        job_id: JobId,
        assumptions: Vec<String>,
        compress_type: CompressType,
        exec_only: bool,
    ) -> (feeder: PlannerFeeder)
        ensures
            feeder.wf(),
            feeder@ == (FeederView {
                args,
                streams,
                job_id,
                assumption_count: assumptions@.len(),
                compress_type,
                exec_only,
                segments: 0,
                finished: false,
            }),
    {
        PlannerFeeder {
            planner: Planner::new(),
            args,
            streams,
            job_id,
            assumptions,
            compress_type,
            exec_only,
        }
    }

    /// Takes the index of a segment that has been staged and returns the
    /// tasks to create for it: its segment task, or nothing in a job that
    /// only executes.
    pub fn on_segment(&mut self, segment_index: u32) -> (r: Result<Vec<TaskSpec>, PlannerError>)
        requires
            old(self).wf(),
        ensures
            final(self).wf(),
            if old(self)@.exec_only {
                r is Ok && r->Ok_0@.len() == 0 && final(self)@ == old(self)@
            } else if old(self)@.finished {
                &&& r == Err::<Vec<TaskSpec>, PlannerError>(PlannerError::PlanFinalized)
                &&& final(self)@ == old(self)@
            } else {
                &&& r is Ok
                &&& r->Ok_0.deep_view() == seq![
                    segment_task_spec(
                        old(self)@.args,
                        old(self)@.streams,
                        old(self)@.job_id,
                        old(self)@.segments as u64,
                        segment_index,
                    ),
                ]
                &&& final(self)@ == (FeederView {
                    segments: old(self)@.segments + 1,
                    ..old(self)@
                })
            },
    {
        let mut specs: Vec<TaskSpec> = Vec::new();
        if self.exec_only {
            return Ok(specs);
        }
        match self.planner.enqueue_segment() {
            Ok(_) => {},
            Err(e) => {
                return Err(e);
            },
        }
        let ghost planned = self.planner@.tasks;
        let ghost start = old(self).planner@.tasks.len() as int;
        loop
            invariant
                self.planner.wf(),
                self.planner@.tasks == planned,
                planned.len() == start + 1,
                planned[start].task_number == start,
                planned[start].command is Segment,
                start <= self.planner@.cursor <= start + 1,
                self.planner@.segments == old(self).planner@.segments + 1,
                !self.planner@.finished,
                self.args == old(self).args,
                self.streams == old(self).streams,
                self.job_id == old(self).job_id,
                self.assumptions == old(self).assumptions,
                self.compress_type == old(self).compress_type,
                self.exec_only == old(self).exec_only,
                !self.exec_only,
                specs.deep_view() == if self.planner@.cursor == start {
                    Seq::<TaskSpecView>::empty()
                } else {
                    seq![
                        segment_task_spec(
                            self.args,
                            self.streams,
                            self.job_id,
                            start as u64,
                            segment_index,
                        ),
                    ]
                },
            ensures
                self.planner@.cursor == start + 1,
            decreases planned.len() - self.planner@.cursor,
        {
            let tree_task = match self.planner.next_task() {
                Some(tree_task) => tree_task,
                None => {
                    break;
                },
            };
            match process_task(
                &self.args,
                &self.streams,
                &self.job_id,
                &tree_task,
                Some(segment_index),
                &self.assumptions,
                self.compress_type,
                0,
            ) {
                Ok(more) => {
                    append_specs(&mut specs, more);
                },
                Err(_) => {
                    // every node that is drained here has what its tasks need
                    unreached::<()>();
                },
            }
        }
        Ok(specs)
    }

    /// Takes the end of the segment stream and returns the tasks that close
    /// the job: the joins of the reduction tree, then the tasks of the
    /// finalize node. `keccak_count` is the number of keccak tasks that were
    /// created for the job. A job that only executes gets no task, and
    /// neither does a plan that is closed already.
    pub fn on_close(&mut self, keccak_count: u64) -> (r: Result<Vec<TaskSpec>, PlannerError>)
        requires
            old(self).wf(),
            !old(self)@.exec_only && !old(self)@.finished && old(self)@.segments >= 1
                ==> resolve_timeout_fits(
                old(self)@.args.resolve_timeout,
                old(self)@.assumption_count + keccak_count,
            ),
        ensures
            final(self).wf(),
            if old(self)@.exec_only || old(self)@.finished {
                r is Ok && r->Ok_0@.len() == 0 && final(self)@ == old(self)@
            } else if old(self)@.segments == 0 {
                &&& r == Err::<Vec<TaskSpec>, PlannerError>(PlannerError::PlanNotStarted)
                &&& final(self)@ == old(self)@
            } else {
                &&& r is Ok
                &&& r->Ok_0.deep_view() == closing_task_views(
                    old(self)@.args,
                    old(self)@.streams,
                    old(self)@.job_id,
                    old(self)@.segments,
                    old(self)@.assumption_count,
                    old(self)@.compress_type,
                    keccak_count as nat,
                )
                &&& final(self)@ == (FeederView { finished: true, ..old(self)@ })
            },
    {
        let mut specs: Vec<TaskSpec> = Vec::new();
        if self.exec_only {
            return Ok(specs);
        }
        let ghost was_finished = self.planner@.finished;
        match self.planner.finish() {
            Ok(_) => {},
            Err(e) => {
                return Err(e);
            },
        }
        let ghost n = self.planner@.segments;
        let ghost plan = full_plan(n);
        proof {
            crate::planner::lemma_full_plan_len(n);
        }
        loop
            invariant
                self.planner.wf(),
                self.planner@.tasks == plan,
                plan == full_plan(n),
                plan.len() == 2 * n,
                n >= 1,
                n == old(self).planner@.segments,
                self.planner@.segments == n,
                self.planner@.finished,
                self.planner@.cursor <= 2 * n,
                was_finished ==> self.planner@.cursor == 2 * n,
                !was_finished ==> n <= self.planner@.cursor,
                !was_finished ==> resolve_timeout_fits(
                    self.args.resolve_timeout,
                    self.assumptions@.len() + keccak_count,
                ),
                self.args == old(self).args,
                self.streams == old(self).streams,
                self.job_id == old(self).job_id,
                self.assumptions == old(self).assumptions,
                self.compress_type == old(self).compress_type,
                self.exec_only == old(self).exec_only,
                !self.exec_only,
                was_finished ==> specs@.len() == 0,
                !was_finished && self.planner@.cursor < 2 * n ==> specs.deep_view()
                    == join_task_views(
                    self.args,
                    self.streams,
                    self.job_id,
                    n,
                    (self.planner@.cursor - n) as nat,
                ),
                !was_finished && self.planner@.cursor == 2 * n ==> specs.deep_view()
                    == closing_task_views(
                    self.args,
                    self.streams,
                    self.job_id,
                    n,
                    self.assumptions@.len(),
                    self.compress_type,
                    keccak_count as nat,
                ),
            ensures
                self.planner@.cursor == 2 * n,
            decreases 2 * n - self.planner@.cursor,
        {
            let ghost k = self.planner@.cursor as int;
            let ghost before = specs.deep_view();
            let tree_task = match self.planner.next_task() {
                Some(tree_task) => tree_task,
                None => {
                    break;
                },
            };
            proof {
                lemma_plan_shape(n, k);
            }
            match process_task(
                &self.args,
                &self.streams,
                &self.job_id,
                &tree_task,
                None,
                &self.assumptions,
                self.compress_type,
                keccak_count,
            ) {
                Ok(more) => {
                    append_specs(&mut specs, more);
                    proof {
                        if k < 2 * n - 1 {
                            assert(specs.deep_view() =~= join_task_views(
                                self.args,
                                self.streams,
                                self.job_id,
                                n,
                                (k + 1 - n) as nat,
                            ));
                        }
                    }
                },
                Err(_) => {
                    // every node that is drained here has what its tasks need
                    unreached::<()>();
                },
            }
        }
        Ok(specs)
    }
}

/// Every task that the feeder creates for a job whose segments arrive with
/// the given indices, in the order of creation: the segment tasks, then the
/// joins, then the tasks of the finalize node. A job that only executes
/// gets no task; a job without a segment cannot be planned.
pub fn plan_job_tasks(
    args: Args,
    streams: Streams,
    job_id: JobId,
    indices: &Vec<u32>,
    assumptions: Vec<String>,
    compress_type: CompressType,
    exec_only: bool,
    keccak_count: u64,
) -> (r: Result<Vec<TaskSpec>, PlannerError>)
    requires
        !exec_only && indices@.len() >= 1 ==> resolve_timeout_fits(
            args.resolve_timeout,
            assumptions@.len() + keccak_count,
        ),
    ensures
        if exec_only {
            r is Ok && r->Ok_0@.len() == 0
        } else if indices@.len() == 0 {
            r == Err::<Vec<TaskSpec>, PlannerError>(PlannerError::PlanNotStarted)
        } else {
            r is Ok && r->Ok_0.deep_view() == job_task_views(
                args,
                streams,
                job_id,
                indices@,
                assumptions@.len(),
                compress_type,
                keccak_count as nat,
            )
        },
{
    let ghost assumption_count = assumptions@.len();
    let mut feeder = PlannerFeeder::new(
        args,
        streams,
        job_id,
        assumptions,
        compress_type,
        exec_only,
    );
    let mut specs: Vec<TaskSpec> = Vec::new();
    let mut i: usize = 0;
    while i < indices.len()
        invariant
            i <= indices@.len(),
            feeder.wf(),
            feeder@ == (FeederView {
                args,
                streams,
                job_id,
                assumption_count,
                compress_type,
                exec_only,
                segments: if exec_only {
                    0
                } else {
                    i as nat
                },
                finished: false,
            }),
            exec_only ==> specs@.len() == 0,
            !exec_only ==> specs.deep_view() == segment_task_views(
                args,
                streams,
                job_id,
                indices@.subrange(0, i as int),
            ),
        decreases indices@.len() - i,
    {
        match feeder.on_segment(indices[i]) {
            Ok(more) => {
                append_specs(&mut specs, more);
            },
            Err(e) => {
                return Err(e);
            },
        }
        i += 1;
        proof {
            if !exec_only {
                assert(specs.deep_view() =~= segment_task_views(
                    args,
                    streams,
                    job_id,
                    indices@.subrange(0, i as int),
                ));
            }
        }
    }
    assert(indices@.subrange(0, i as int) =~= indices@);
    match feeder.on_close(keccak_count) {
        Ok(more) => {
            append_specs(&mut specs, more);
        },
        Err(e) => {
            return Err(e);
        },
    }
    Ok(specs)
}

} // verus!
