//! The decisions of the job orchestrator: what it checks before a program
//! runs, which limits and streams it uses, what the coprocessor sidecar
//! stages and schedules, where the journal goes, and what it reports.

use vstd::prelude::*;
use vstd::string::*;
use crate::elf::{check_elf_magic, has_elf_magic};
use crate::ids::{parse_digest, Digest, JobId, StreamId};
use crate::keys::{
    coproc_key, coproc_key_text, elf_blob_key, elf_blob_key_text, image_id_key,
    image_id_key_text, input_blob_key, input_blob_key_text, journal_key, journal_key_text,
    preflight_journal_blob_key,
    preflight_journal_blob_key_text, receipt_blob_key, receipt_blob_key_text, receipt_key,
    receipt_key_text, segment_key, segment_key_text,
};
use crate::tasks::{keccak_name, Args, CompressType, Streams, TaskSpec, TaskSpecView, TaskType};
use crate::text::decimal_string;

verus! {

/// How many task indices may wait between the segment writer and the feeder,
/// and how many keccak requests between the executor and the sidecar.
pub const TASK_QUEUE_SIZE: usize = 100;

/// How many segments may wait between the executor and the segment writer.
pub const CONCURRENT_SEGMENTS: usize = 50;

/// The number of cycles in one unit of an execution limit.
pub const CYCLES_PER_LIMIT_UNIT: u64 = 1048576;

/// What a caller asks the orchestrator to run.
#[derive(Clone, Debug, PartialEq, Eq)]
pub struct ExecutorReq {
    /// The image id of the program, which is also its key in the blob store.
    pub image: String,
    /// The key of the guest input in the blob store.
    pub input: String,
    /// The user on whose streams the tasks are published.
    pub user_id: String,
    /// The ids of the receipts that the program assumes.
    pub assumptions: Vec<String>,
    /// Whether the job only executes, without proving.
    pub execute_only: bool,
    /// How far the final receipt is compressed.
    pub compress: CompressType,
    /// The job's own execution limit, in units of 2^20 cycles.
    pub exec_limit: Option<u64>,
}

/// What the executor reports when a program has run.
#[derive(Clone, Debug, PartialEq, Eq)]
pub struct SessionData {
    pub segment_count: usize,
    pub user_cycles: u64,
    pub total_cycles: u64,
    pub journal: Option<Vec<u8>>,
}

/// What the orchestrator reports for a job.
#[derive(Clone, Copy, Debug, PartialEq, Eq)]
pub struct ExecutorResp {
    pub segments: u64,
    pub user_cycles: u64,
    pub total_cycles: u64,
    pub assumption_count: u64,
}

/// The kinds of work that a user has streams for.
#[derive(Clone, Copy, Debug, PartialEq, Eq, Structural)]
pub enum WorkType {
    Aux,
    Prove,
    Join,
    Coproc,
    Snark,
}

/// Why a job is refused before or while it is set up.
#[derive(Clone, Copy, Debug, PartialEq, Eq, Structural)]
pub enum ExecutorError {
    /// The claimed image id is not a digest in hexadecimal.
    InvalidImageId,
    /// The program does not start with the ELF magic number.
    ElfMagicMismatch,
    /// No image id could be computed for the program.
    ImageIdUncomputable,
    /// The image id computed for the program is not the claimed one.
    ImageIdMismatch,
    /// An assumption receipt is not a succinct receipt.
    AssumptionNotSuccinct,
    /// The user has no stream for this kind of work.
    MissingStream(WorkType),
}

/// What the checks of a program say: the claimed image id where the program
/// carries the ELF magic number and an image id was computed for it that
/// equals the claimed one, and else the first check that failed.
pub open spec fn validate_program_spec(
    elf: Seq<u8>,
    image: Seq<char>,
    computed_id: Option<Digest>,
) -> Result<Seq<u8>, ExecutorError> {
    match parse_digest(image) {
        None => Err(ExecutorError::InvalidImageId),
        Some(claimed) => if !has_elf_magic(elf) {
            Err(ExecutorError::ElfMagicMismatch)
        } else {
            match computed_id {
                None => Err(ExecutorError::ImageIdUncomputable),
                Some(computed) => if computed.bytes@ == claimed {
                    Ok(claimed)
                } else {
                    Err(ExecutorError::ImageIdMismatch)
                },
            }
        },
    }
}

/// Checks a program before it runs. `image` is the claimed image id, as
/// hexadecimal text; `computed_id` is the image id computed over `elf`, if
/// one could be computed. Returns the claimed image id.
pub fn validate_program(elf: &[u8], image: &str, computed_id: Option<Digest>) -> (r: Result<
    Digest,
    ExecutorError,
>)
    ensures
        match validate_program_spec(elf@, image@, computed_id) {
            Ok(claimed) => r is Ok && r->Ok_0.bytes@ == claimed,
            Err(e) => r == Err::<Digest, ExecutorError>(e),
        },
{
    let claimed = match Digest::from_text(image) {
        Some(claimed) => claimed,
        None => {
            return Err(ExecutorError::InvalidImageId);
        },
    };
    if !check_elf_magic(elf) {
        return Err(ExecutorError::ElfMagicMismatch);
    }
    let computed = match computed_id {
        Some(computed) => computed,
        None => {
            return Err(ExecutorError::ImageIdUncomputable);
        },
    };
    if computed.same_as(&claimed) {
        Ok(claimed)
    } else {
        Err(ExecutorError::ImageIdMismatch)
    }
}

/// The blobs that the orchestrator reads for a request.
#[derive(Clone, Debug, PartialEq, Eq)]
pub struct BlobReads {
    /// The key of the program.
    pub elf_key: String,
    /// The key of the guest input.
    pub input_key: String,
    /// The keys of the assumption receipts, in the order of the request.
    pub receipt_keys: Vec<String>,
}

/// Says which blobs the orchestrator reads for a request.
pub fn blob_reads(request: &ExecutorReq) -> (reads: BlobReads)
    ensures
        reads.elf_key@ == elf_blob_key_text(request.image@),
        reads.input_key@ == input_blob_key_text(request.input@),
        reads.receipt_keys.deep_view() == Seq::new(
            request.assumptions@.len(),
            |i: int| receipt_blob_key_text(request.assumptions@[i]@),
        ),
{
    let mut receipt_keys: Vec<String> = Vec::new();
    let mut i: usize = 0;
    while i < request.assumptions.len()
        invariant
            i <= request.assumptions@.len(),
            receipt_keys.deep_view() == Seq::new(
                i as nat,
                |k: int| receipt_blob_key_text(request.assumptions@[k]@),
            ),
        decreases request.assumptions@.len() - i,
    {
        let key = receipt_blob_key(request.assumptions[i].as_str());
        let ghost before = receipt_keys.deep_view();
        let ghost text = key@;
        receipt_keys.push(key);
        i += 1;
        assert(receipt_keys.deep_view() =~= before.push(text));
        assert(receipt_keys.deep_view() =~= Seq::new(
            i as nat,
            |k: int| receipt_blob_key_text(request.assumptions@[k]@),
        ));
    }
    BlobReads {
        elf_key: elf_blob_key(request.image.as_str()),
        input_key: input_blob_key(request.input.as_str()),
        receipt_keys,
    }
}

/// The smaller of the deployment's limit and the job's own, if it has one.
/// Both are in units of 2^20 cycles.
pub open spec fn effective_limit_units(global_limit: u64, job_limit: Option<u64>) -> u64 {
    match job_limit {
        Some(limit) => if limit < global_limit {
            limit
        } else {
            global_limit
        },
        None => global_limit,
    }
}

/// The execution limit of a job, in cycles.
pub fn effective_exec_limit(global_limit: u64, job_limit: Option<u64>) -> (cycles: u64)
    requires
        global_limit * CYCLES_PER_LIMIT_UNIT <= u64::MAX,
    ensures
        cycles == effective_limit_units(global_limit, job_limit) * CYCLES_PER_LIMIT_UNIT,
{
    let units = match job_limit {
        Some(limit) => if limit < global_limit {
            limit
        } else {
            global_limit
        },
        None => global_limit,
    };
    units * CYCLES_PER_LIMIT_UNIT
}

/// The kinds of work whose streams are looked up for a job, in the order of
/// the lookups. Join and coprocessor work have streams of their own only
/// where the deployment selects them.
pub open spec fn stream_lookups_spec(explicit_join: bool, explicit_coproc: bool) -> Seq<WorkType> {
    seq![WorkType::Aux, WorkType::Prove] + (if explicit_join {
        seq![WorkType::Join]
    } else {
        Seq::empty()
    }) + (if explicit_coproc {
        seq![WorkType::Coproc]
    } else {
        Seq::empty()
    }) + seq![WorkType::Snark]
}

/// The kinds of work whose streams are looked up for a job.
pub fn stream_lookups(explicit_join: bool, explicit_coproc: bool) -> (work_types: Vec<WorkType>)
    ensures
        work_types@ == stream_lookups_spec(explicit_join, explicit_coproc),
{
    let mut work_types: Vec<WorkType> = Vec::new();
    work_types.push(WorkType::Aux);
    work_types.push(WorkType::Prove);
    if explicit_join {
        work_types.push(WorkType::Join);
    }
    if explicit_coproc {
        work_types.push(WorkType::Coproc);
    }
    work_types.push(WorkType::Snark);
    assert(work_types@ =~= stream_lookups_spec(explicit_join, explicit_coproc));
    work_types
}

/// The stream that a lookup found, or the error of a user without one.
pub fn require_stream(found: Option<StreamId>, work_type: WorkType) -> (r: Result<
    StreamId,
    ExecutorError,
>)
    ensures
        r == match found {
            Some(stream) => Ok::<StreamId, ExecutorError>(stream),
            None => Err::<StreamId, ExecutorError>(ExecutorError::MissingStream(work_type)),
        },
{
    match found {
        Some(stream) => Ok(stream),
        None => Err(ExecutorError::MissingStream(work_type)),
    }
}

/// The streams of a job. Join and coprocessor work go to the prove stream
/// unless a stream of their own was looked up.
pub fn resolve_streams(
    aux: StreamId,
    prove: StreamId,
    join: Option<StreamId>,
    coproc: Option<StreamId>,
    snark: StreamId,
) -> (streams: Streams)
    ensures
        streams == (Streams {
            aux,
            prove,
            join: match join {
                Some(stream) => stream,
                None => prove,
            },
            coproc: match coproc {
                Some(stream) => stream,
                None => prove,
            },
            snark,
        }),
{
    Streams {
        aux,
        prove,
        join: match join {
            Some(stream) => stream,
            None => prove,
        },
        coproc: match coproc {
            Some(stream) => stream,
            None => prove,
        },
        snark,
    }
}

/// Where something is staged in the hot cache, and for how many seconds.
#[derive(Clone, Debug, PartialEq, Eq)]
pub struct CacheWrite {
    pub key: String,
    pub ttl: u64,
}

/// Where the image id of a job is staged.
pub fn stage_image_id(args: &Args, job_id: &JobId) -> (write: CacheWrite)
    ensures
        write.key@ == image_id_key_text(*job_id),
        write.ttl == args.redis_ttl,
{
    CacheWrite { key: image_id_key(job_id), ttl: args.redis_ttl }
}

/// What the segment writer does for one segment: it stages the serialized
/// segment in the hot cache, then hands the index on to the feeder.
#[derive(Clone, Debug, PartialEq, Eq)]
pub struct SegmentWrite {
    pub cache_key: String,
    pub ttl: u64,
    pub index: u32,
}

/// Says where the segment with the given index is staged and for how long.
pub fn segment_write(args: &Args, job_id: &JobId, index: u32) -> (write: SegmentWrite)
    ensures
        write.cache_key@ == segment_key_text(*job_id, index),
        write.ttl == args.redis_ttl,
        write.index == index,
{
    SegmentWrite { cache_key: segment_key(job_id, index), ttl: args.redis_ttl, index }
}

/// The variants of a receipt.
#[derive(Clone, Copy, Debug, PartialEq, Eq, Structural)]
pub enum ReceiptKind {
    Composite,
    Succinct,
    Groth16,
    Fake,
}

/// What the orchestrator reads of an assumption receipt.
#[derive(Clone, Copy, Debug, PartialEq, Eq)]
pub struct AssumptionReceipt {
    pub kind: ReceiptKind,
    pub claim_digest: Digest,
}

/// Where an assumption receipt is staged in the hot cache. Only a succinct
/// receipt can be assumed.
pub fn stage_assumption(args: &Args, job_id: &JobId, receipt: &AssumptionReceipt) -> (r: Result<
    CacheWrite,
    ExecutorError,
>)
    ensures
        match receipt.kind {
            ReceiptKind::Succinct => r is Ok && r->Ok_0.key@ == receipt_key_text(
                *job_id,
                receipt.claim_digest,
            ) && r->Ok_0.ttl == args.redis_ttl,
            _ => r == Err::<CacheWrite, ExecutorError>(ExecutorError::AssumptionNotSuccinct),
        },
{
    match receipt.kind {
        ReceiptKind::Succinct => Ok(
            CacheWrite { key: receipt_key(job_id, &receipt.claim_digest), ttl: args.redis_ttl },
        ),
        _ => Err(ExecutorError::AssumptionNotSuccinct),
    }
}

/// A keccak request of the guest.
#[derive(Clone, Debug, PartialEq, Eq)]
pub struct KeccakRequest {
    pub claim_digest: Digest,
    pub control_root: Digest,
    pub po2: u32,
    pub input: Vec<u8>,
}

/// What the sidecar does for one keccak request: it stages the input in the
/// hot cache, then creates the task, which names the input by its claim only.
#[derive(Clone, Debug, PartialEq, Eq)]
pub struct KeccakPlan {
    pub cache_key: String,
    pub ttl: u64,
    pub input: Vec<u8>,
    pub task: TaskSpec,
}

/// The task of the keccak request that was counted as number `number`.
pub open spec fn keccak_task_spec(
    args: Args,
    streams: Streams,
    job_id: JobId,
    number: u64,
    claim_digest: Digest,
    control_root: Digest,
    po2: u32,
) -> TaskSpecView {
    TaskSpecView {
        job_id,
        name: keccak_name(number as nat),
        stream: streams.coproc,
        payload: TaskType::Keccak { claim_digest, control_root, po2 },
        prereqs: Seq::empty(),
        retries: args.prove_retries as int,
        timeout: args.prove_timeout as int,
    }
}

/// Counts the keccak requests of one job and names their tasks.
pub struct KeccakSidecar {
    count: u64,
}

impl KeccakSidecar {
    /// How many requests have been taken.
    pub closed spec fn spec_count(&self) -> u64 {
        self.count
    }

    /// A sidecar that has taken no request.
    pub fn new() -> (sidecar: KeccakSidecar)
        ensures
            sidecar.spec_count() == 0,
    {
        KeccakSidecar { count: 0 }
    }

    /// How many requests have been taken, which is also how many keccak
    /// tasks the job has.
    #[verifier::when_used_as_spec(spec_count)]
    pub fn count(&self) -> (count: u64)
        ensures
            count == self.spec_count(),
    {
        self.count
    }

    /// Takes the next request: says where its input is staged and which task
    /// is created for it, and counts it.
    pub fn on_request(
        &mut self,
        args: &Args,
        streams: &Streams,
        job_id: &JobId,
        request: KeccakRequest,
    ) -> (plan: KeccakPlan)
        requires
            old(self).spec_count() < u64::MAX,
        ensures
            final(self).spec_count() == old(self).spec_count() + 1,
            plan.cache_key@ == coproc_key_text(*job_id, request.claim_digest),
            plan.ttl == args.redis_ttl,
            plan.input@ == request.input@,
            plan.task@ == keccak_task_spec(
                *args,
                *streams,
                *job_id,
                old(self).spec_count(),
                request.claim_digest,
                request.control_root,
                request.po2,
            ),
    {
        let number = decimal_string(self.count);
        let task = TaskSpec {
            job_id: *job_id,
            name: String::from_str("keccak_").concat(number.as_str()),
            stream: streams.coproc,
            payload: TaskType::Keccak {
                claim_digest: request.claim_digest,
                control_root: request.control_root,
                po2: request.po2,
            },
            prereqs: Vec::new(),
            retries: args.prove_retries,
            timeout: args.prove_timeout,
        };
        assert(task.prereqs.deep_view() =~= Seq::<Seq<char>>::empty());
        let cache_key = coproc_key(job_id, &request.claim_digest);
        self.count = self.count + 1;
        KeccakPlan { cache_key, ttl: args.redis_ttl, input: request.input, task }
    }
}

/// Where the journal of a finished run goes.
#[derive(Clone, Debug, PartialEq, Eq)]
pub enum JournalAction {
    /// The run left no journal: nothing is stored.
    Skip,
    /// A preflight run: the journal's bytes go to the blob store under this key.
    UploadPreflight { key: String },
    /// A proving run: the serialized journal is staged in the hot cache under
    /// this key, for this many seconds.
    StageInCache { key: String, ttl: u64 },
}

/// Says where the journal of a finished run goes.
pub fn journal_action(args: &Args, job_id: &JobId, exec_only: bool, has_journal: bool) -> (action:
    JournalAction)
    ensures
        !has_journal ==> action is Skip,
        has_journal && exec_only ==> action is UploadPreflight && action->UploadPreflight_key@
            == preflight_journal_blob_key_text(*job_id),
        has_journal && !exec_only ==> action is StageInCache && action->StageInCache_key@
            == journal_key_text(*job_id) && action->StageInCache_ttl == args.redis_ttl,
{
    if !has_journal {
        JournalAction::Skip
    } else if exec_only {
        JournalAction::UploadPreflight { key: preflight_journal_blob_key(job_id) }
    } else {
        JournalAction::StageInCache { key: journal_key(job_id), ttl: args.redis_ttl }
    }
}

/// The report of a job whose program has run.
pub fn executor_response(session: &SessionData, assumption_count: usize) -> (resp: ExecutorResp)
    ensures
        resp.segments == session.segment_count,
        resp.user_cycles == session.user_cycles,
        resp.total_cycles == session.total_cycles,
        resp.assumption_count == assumption_count,
{
    ExecutorResp {
        segments: session.segment_count as u64,
        user_cycles: session.user_cycles,
        total_cycles: session.total_cycles,
        assumption_count: assumption_count as u64,
    }
}

} // verus!
