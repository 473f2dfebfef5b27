//! The reduction-tree planner.
//!
//! Segments are numbered as they arrive. Once the last one has arrived the
//! planner pairs neighbouring nodes level by level until a single root is
//! left, and closes the plan with one finalize task above that root. Every
//! task is numbered by its position in the plan, so a task only ever depends
//! on tasks with smaller numbers.

use vstd::prelude::*;

verus! {

/// What a planned task does.
#[derive(Clone, Copy, Debug, PartialEq, Eq, Structural)]
pub enum Command {
    /// Prove one segment.
    Segment,
    /// Combine the proofs of two earlier tasks.
    Join { left: u64, right: u64 },
    /// Close the job over the root of the tree.
    Finalize { root: u64 },
}

/// One node of the plan.
#[derive(Clone, Copy, Debug, PartialEq, Eq, Structural)]
pub struct Task {
    pub task_number: u64,
    pub command: Command,
}

/// Why the planner refused an operation.
#[derive(Clone, Copy, Debug, PartialEq, Eq, Structural)]
pub enum PlannerError {
    /// A segment arrived after the plan was finished.
    PlanFinalized,
    /// The plan was finished before any segment arrived.
    PlanNotStarted,
}

/// The numbers `0, 1, .., n - 1`.
pub open spec fn first_numbers(n: nat) -> Seq<u64> {
    Seq::new(n, |i: int| i as u64)
}

/// The segment tasks of a plan with `n` segments.
pub open spec fn segment_tasks(n: nat) -> Seq<Task> {
    Seq::new(n, |i: int| Task { task_number: i as u64, command: Command::Segment })
}

/// The joins that pair up the nodes of one level, numbered from `first`.
pub open spec fn level_joins(first: nat, level: Seq<u64>) -> Seq<Task> {
    Seq::new(
        level.len() / 2,
        |j: int|
            Task {
                task_number: (first + j) as u64,
                command: Command::Join { left: level[2 * j], right: level[2 * j + 1] },
            },
    )
}

/// The level above `level`: its joins, then the node left without a partner.
pub open spec fn next_level(first: nat, level: Seq<u64>) -> Seq<u64> {
    let joined = Seq::new(level.len() / 2, |j: int| (first + j) as u64);
    if level.len() % 2 == 1 {
        joined.push(level.last())
    } else {
        joined
    }
}

/// All joins that reduce `level` to one node, numbered from `first`.
pub open spec fn reduction(first: nat, level: Seq<u64>) -> Seq<Task>
    decreases level.len(),
{
    if level.len() < 2 {
        Seq::empty()
    } else {
        level_joins(first, level) + reduction(first + level.len() / 2, next_level(first, level))
    }
}

/// The node that `level` reduces to.
pub open spec fn reduction_root(first: nat, level: Seq<u64>) -> u64
    decreases level.len(),
{
    if level.len() < 2 {
        level[0]
    } else {
        reduction_root(first + level.len() / 2, next_level(first, level))
    }
}

/// The finished plan of a job with `n` segments: the segments, the joins,
/// and the finalize task.
pub open spec fn full_plan(n: nat) -> Seq<Task> {
    let joins = reduction(n, first_numbers(n));
    (segment_tasks(n) + joins).push(
        Task {
            task_number: (n + joins.len()) as u64,
            command: Command::Finalize { root: reduction_root(n, first_numbers(n)) },
        },
    )
}

/// Reducing a level of `k >= 1` nodes takes `k - 1` joins.
pub proof fn lemma_reduction_len(first: nat, level: Seq<u64>)
    requires
        level.len() >= 1,
    ensures
        reduction(first, level).len() == level.len() - 1,
    decreases level.len(),
{
    if level.len() >= 2 {
        lemma_reduction_len(first + level.len() / 2, next_level(first, level));
    }
}

/// A finished plan of `n >= 1` segments holds `2n` tasks.
pub proof fn lemma_full_plan_len(n: nat)
    requires
        n >= 1,
    ensures
        full_plan(n).len() == 2 * n,
{
    lemma_reduction_len(n, first_numbers(n));
}

/// The abstract state of a planner.
pub struct PlannerView {
    /// Every task planned so far, by number.
    pub tasks: Seq<Task>,
    /// How many tasks have been handed out.
    pub cursor: nat,
    /// How many segments have arrived.
    pub segments: nat,
    /// Whether the plan is closed.
    pub finished: bool,
}

/// Builds the plan of one job.
pub struct Planner {
    tasks: Vec<Task>,
    cursor: usize,
    segments: usize,
    finished: bool,
}

impl View for Planner {
    type V = PlannerView;

    closed spec fn view(&self) -> PlannerView {
        PlannerView {
            tasks: self.tasks@,
            cursor: self.cursor as nat,
            segments: self.segments as nat,
            finished: self.finished,
        }
    }
}

impl Default for Planner {
    /// An empty, open plan.
    fn default() -> (planner: Planner)
        ensures
            planner.wf(),
            planner@ == (PlannerView { tasks: Seq::empty(), cursor: 0, segments: 0, finished: false }),
    {
        Planner::new()
    }
}

impl Planner {
    /// The planner's invariant: an open plan holds its segments only, a
    /// finished one the full plan of its segments, and no task number
    /// exceeds 64 bits.
    pub open spec fn wf(&self) -> bool {
        &&& self@.cursor <= self@.tasks.len()
        &&& self@.tasks.len() <= u64::MAX
        &&& if self@.finished {
            self@.segments >= 1 && self@.tasks == full_plan(self@.segments)
        } else {
            self@.tasks == segment_tasks(self@.segments)
        }
    }

    /// An empty, open plan.
    pub fn new() -> (planner: Planner)
        ensures
            planner.wf(),
            planner@ == (PlannerView { tasks: Seq::empty(), cursor: 0, segments: 0, finished: false }),
    {
        let planner = Planner { tasks: Vec::new(), cursor: 0, segments: 0, finished: false };
        assert(planner.tasks@ =~= segment_tasks(0));
        planner
    }

    /// Adds the next segment to an open plan and returns its task number.
    pub fn enqueue_segment(&mut self) -> (r: Result<u64, PlannerError>)
        requires
            old(self).wf(),
        ensures
            final(self).wf(),
            match r {
                Ok(number) => {
                    &&& !old(self)@.finished
                    &&& number == old(self)@.segments
                    &&& final(self)@ == (PlannerView {
                        tasks: old(self)@.tasks.push(
                            Task { task_number: number, command: Command::Segment },
                        ),
                        segments: old(self)@.segments + 1,
                        ..old(self)@
                    })
                },
                Err(e) => {
                    &&& old(self)@.finished
                    &&& e == PlannerError::PlanFinalized
                    &&& final(self)@ == old(self)@
                },
            },
    {
        if self.finished {
            return Err(PlannerError::PlanFinalized);
        }
        let number = self.tasks.len() as u64;
        self.tasks.push(Task { task_number: number, command: Command::Segment });
        self.segments = self.tasks.len();
        assert(self.tasks@ =~= segment_tasks(self.segments as nat));
        Ok(number)
    }

    /// Closes the plan: joins the segments into one tree and adds the
    /// finalize task, whose number is returned. Closing a finished plan again
    /// changes nothing.
    pub fn finish(&mut self) -> (r: Result<u64, PlannerError>)
        requires
            old(self).wf(),
        ensures
            final(self).wf(),
            match r {
                Ok(last) => {
                    &&& old(self)@.segments >= 1
                    &&& last == 2 * old(self)@.segments - 1
                    &&& final(self)@ == (PlannerView {
                        tasks: full_plan(old(self)@.segments),
                        finished: true,
                        ..old(self)@
                    })
                },
                Err(e) => {
                    &&& old(self)@.segments == 0
                    &&& e == PlannerError::PlanNotStarted
                    &&& final(self)@ == old(self)@
                },
            },
    {
        let ghost n = self.segments as nat;
        if self.finished {
            proof {
                lemma_full_plan_len(n);
            }
            return Ok((self.tasks.len() - 1) as u64);
        }
        if self.segments == 0 {
            return Err(PlannerError::PlanNotStarted);
        }
        let mut level: Vec<u64> = Vec::new();
        let mut i: usize = 0;
        while i < self.segments
            invariant
                i <= self.segments,
                level@ == first_numbers(i as nat),
            decreases self.segments - i,
        {
            level.push(i as u64);
            i += 1;
            assert(level@ =~= first_numbers(i as nat));
        }
        let ghost plan_joins = reduction(n, first_numbers(n));
        let ghost plan_root = reduction_root(n, first_numbers(n));
        assert(self.tasks@ + reduction(n, level@) =~= segment_tasks(n) + plan_joins);
        while level.len() >= 2
            invariant
                level.len() >= 1,
                n == self.segments,
                n >= 1,
                !self.finished,
                self.cursor == old(self).cursor,
                self.cursor <= self.tasks.len(),
                plan_joins == reduction(n, first_numbers(n)),
                plan_root == reduction_root(n, first_numbers(n)),
                self.tasks@ + reduction(self.tasks@.len(), level@) == segment_tasks(n) + plan_joins,
                reduction_root(self.tasks@.len(), level@) == plan_root,
            decreases level.len(),
        {
            let ghost before = self.tasks@;
            let ghost first = self.tasks@.len();
            let pairs = level.len() / 2;
            let mut next: Vec<u64> = Vec::new();
            let mut j: usize = 0;
            while j < pairs
                invariant
                    j <= pairs,
                    pairs == level.len() / 2,
                    before.len() == first,
                    self.segments == n,
                    !self.finished,
                    self.cursor == old(self).cursor,
                    self.cursor <= self.tasks.len(),
                    self.tasks@ == before + level_joins(first, level@).subrange(0, j as int),
                    next@ == Seq::new(j as nat, |k: int| (first + k) as u64),
                decreases pairs - j,
            {
                let number = self.tasks.len() as u64;
                let join = Task {
                    task_number: number,
                    command: Command::Join { left: level[2 * j], right: level[2 * j + 1] },
                };
                self.tasks.push(join);
                next.push(number);
                j += 1;
                assert(self.tasks@ =~= before + level_joins(first, level@).subrange(0, j as int));
                assert(next@ =~= Seq::new(j as nat, |k: int| (first + k) as u64));
            }
            if level.len() % 2 == 1 {
                next.push(level[level.len() - 1]);
            }
            proof {
                assert(level_joins(first, level@).subrange(0, pairs as int) =~= level_joins(
                    first,
                    level@,
                ));
                assert(next@ =~= next_level(first, level@));
                assert(self.tasks@.len() == first + level@.len() / 2);
                assert(self.tasks@ + reduction(self.tasks@.len(), next@) =~= before + reduction(
                    first,
                    level@,
                ));
            }
            level = next;
        }
        let root = level[0];
        let number = self.tasks.len() as u64;
        proof {
            assert(reduction(self.tasks@.len(), level@) =~= Seq::<Task>::empty());
            assert(self.tasks@ =~= segment_tasks(n) + plan_joins);
            lemma_reduction_len(n, first_numbers(n));
        }
        self.tasks.push(Task { task_number: number, command: Command::Finalize { root } });
        self.finished = true;
        let total = self.tasks.len();
        Ok((total - 1) as u64)
    }

    /// Hands out the next planned task, in the order of the task numbers.
    pub fn next_task(&mut self) -> (r: Option<Task>)
        requires
            old(self).wf(),
        ensures
            final(self).wf(),
            match r {
                Some(task) => {
                    &&& old(self)@.cursor < old(self)@.tasks.len()
                    &&& task == old(self)@.tasks[old(self)@.cursor as int]
                    &&& final(self)@ == (PlannerView {
                        cursor: old(self)@.cursor + 1,
                        ..old(self)@
                    })
                },
                None => {
                    &&& old(self)@.cursor == old(self)@.tasks.len()
                    &&& final(self)@ == old(self)@
                },
            },
    {
        if self.cursor < self.tasks.len() {
            let task = self.tasks[self.cursor];
            self.cursor = self.cursor + 1;
            Some(task)
        } else {
            None
        }
    }
}

} // verus!
