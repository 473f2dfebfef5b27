use prover_core::executor::{
    blob_reads, effective_exec_limit, executor_response, journal_action, require_stream,
    resolve_streams, segment_write, stage_assumption, stage_image_id, stream_lookups,
    validate_program, AssumptionReceipt, CacheWrite, SegmentWrite,
    ExecutorError, ExecutorReq, ExecutorResp, JournalAction, KeccakRequest, KeccakSidecar,
    ReceiptKind, SessionData, WorkType, CONCURRENT_SEGMENTS, CYCLES_PER_LIMIT_UNIT,
    TASK_QUEUE_SIZE,
};
use prover_core::feeder::plan_job_tasks;
use prover_core::ids::{Digest, JobId, StreamId};
use prover_core::tasks::{Args, CompressType, Streams, TaskSpec, TaskType};

fn stream(tag: u8) -> StreamId {
    StreamId { bytes: [tag; 16] }
}

fn job() -> JobId {
    JobId { bytes: [0x11; 16] }
}

const JOB_TEXT: &str = "11111111-1111-1111-1111-111111111111";

fn args() -> Args {
    Args {
        redis_ttl: 3600,
        exec_cycle_limit: 100,
        segment_po2: 20,
        prove_retries: 1,
        prove_timeout: 110,
        join_retries: 2,
        join_timeout: 120,
        resolve_retries: 3,
        resolve_timeout: 130,
        finalize_retries: 4,
        finalize_timeout: 140,
        snark_retries: 5,
        snark_timeout: 150,
    }
}

fn elf() -> Vec<u8> {
    vec![0x7f, 0x45, 0x4c, 0x46, 1, 1, 1, 0]
}

#[test]
fn queue_sizes() {
    assert_eq!(CONCURRENT_SEGMENTS, 50);
    assert_eq!(TASK_QUEUE_SIZE, 100);
}

#[test]
fn valid_program_is_accepted() {
    let id = Digest { bytes: [0xab; 32] };
    let image = "ab".repeat(32);
    assert_eq!(validate_program(&elf(), &image, Some(id)), Ok(id));
    assert_eq!(validate_program(&elf(), &image.to_uppercase(), Some(id)), Ok(id));
}

#[test]
fn program_checks_fail_in_order() {
    let id = Digest { bytes: [0xab; 32] };
    let other = Digest { bytes: [0xac; 32] };
    let image = "ab".repeat(32);
    let not_elf = vec![0x7f, 0x45, 0x4c];
    assert_eq!(
        validate_program(&not_elf, "not hex", None),
        Err(ExecutorError::InvalidImageId)
    );
    assert_eq!(validate_program(&elf(), "abab", Some(id)), Err(ExecutorError::InvalidImageId));
    assert_eq!(
        validate_program(&not_elf, &image, Some(id)),
        Err(ExecutorError::ElfMagicMismatch)
    );
    assert_eq!(
        validate_program(&[0u8, 0x45, 0x4c, 0x46], &image, None),
        Err(ExecutorError::ElfMagicMismatch)
    );
    assert_eq!(validate_program(&elf(), &image, None), Err(ExecutorError::ImageIdUncomputable));
    assert_eq!(
        validate_program(&elf(), &image, Some(other)),
        Err(ExecutorError::ImageIdMismatch)
    );
}

#[test]
fn execution_limit_is_the_smaller_one_in_cycles() {
    assert_eq!(CYCLES_PER_LIMIT_UNIT, 1024 * 1024);
    assert_eq!(effective_exec_limit(100, None), 100 * 1024 * 1024);
    assert_eq!(effective_exec_limit(100, Some(10)), 10 * 1024 * 1024);
    assert_eq!(effective_exec_limit(100, Some(100)), 100 * 1024 * 1024);
    assert_eq!(effective_exec_limit(100, Some(1000)), 100 * 1024 * 1024);
    assert_eq!(effective_exec_limit(100, Some(0)), 0);
    assert_eq!(effective_exec_limit(0, Some(5)), 0);
    // a job limit too large to be written in cycles does not matter
    assert_eq!(effective_exec_limit(3, Some(u64::MAX)), 3 * 1024 * 1024);
}

#[test]
fn streams_default_to_prove() {
    assert_eq!(
        stream_lookups(false, false),
        vec![WorkType::Aux, WorkType::Prove, WorkType::Snark]
    );
    assert_eq!(
        stream_lookups(true, false),
        vec![WorkType::Aux, WorkType::Prove, WorkType::Join, WorkType::Snark]
    );
    assert_eq!(
        stream_lookups(false, true),
        vec![WorkType::Aux, WorkType::Prove, WorkType::Coproc, WorkType::Snark]
    );
    assert_eq!(
        stream_lookups(true, true),
        vec![WorkType::Aux, WorkType::Prove, WorkType::Join, WorkType::Coproc, WorkType::Snark]
    );
    assert_eq!(
        resolve_streams(stream(1), stream(2), None, None, stream(5)),
        Streams {
            aux: stream(1),
            prove: stream(2),
            join: stream(2),
            coproc: stream(2),
            snark: stream(5)
        }
    );
    assert_eq!(
        resolve_streams(stream(1), stream(2), Some(stream(3)), None, stream(5)),
        Streams {
            aux: stream(1),
            prove: stream(2),
            join: stream(3),
            coproc: stream(2),
            snark: stream(5)
        }
    );
    assert_eq!(
        resolve_streams(stream(1), stream(2), None, Some(stream(4)), stream(5)),
        Streams {
            aux: stream(1),
            prove: stream(2),
            join: stream(2),
            coproc: stream(4),
            snark: stream(5)
        }
    );
}

#[test]
fn missing_stream_is_an_error() {
    assert_eq!(require_stream(Some(stream(7)), WorkType::Aux), Ok(stream(7)));
    for work_type in
        [WorkType::Aux, WorkType::Prove, WorkType::Join, WorkType::Coproc, WorkType::Snark]
    {
        assert_eq!(require_stream(None, work_type), Err(ExecutorError::MissingStream(work_type)));
    }
}

#[test]
fn only_succinct_receipts_are_assumed() {
    let claim = Digest { bytes: [0x5a; 32] };
    assert_eq!(
        stage_assumption(
            &args(),
            &job(),
            &AssumptionReceipt { kind: ReceiptKind::Succinct, claim_digest: claim }
        ),
        Ok(CacheWrite {
            key: format!("job:{}:receipts:{}", JOB_TEXT, "5a".repeat(32)),
            ttl: 3600
        })
    );
    for kind in [ReceiptKind::Composite, ReceiptKind::Groth16, ReceiptKind::Fake] {
        assert_eq!(
            stage_assumption(&args(), &job(), &AssumptionReceipt { kind, claim_digest: claim }),
            Err(ExecutorError::AssumptionNotSuccinct)
        );
    }
}

#[test]
fn sidecar_names_keccak_tasks_in_order_and_keeps_the_input_out_of_the_task() {
    let streams = resolve_streams(stream(1), stream(2), None, Some(stream(4)), stream(5));
    let mut sidecar = KeccakSidecar::new();
    assert_eq!(sidecar.count(), 0);
    for n in 0..12u64 {
        let claim = Digest { bytes: [n as u8; 32] };
        let root = Digest { bytes: [0xee; 32] };
        let request = KeccakRequest {
            claim_digest: claim,
            control_root: root,
            po2: 17,
            input: vec![n as u8, 2, 3],
        };
        let plan = sidecar.on_request(&args(), &streams, &job(), request);
        assert_eq!(plan.cache_key, format!("job:{}:coproc:{}", JOB_TEXT, claim.to_text()));
        assert_eq!(plan.ttl, 3600);
        assert_eq!(plan.input, vec![n as u8, 2, 3]);
        assert_eq!(
            plan.task,
            TaskSpec {
                job_id: job(),
                name: format!("keccak_{}", n),
                stream: stream(4),
                payload: TaskType::Keccak { claim_digest: claim, control_root: root, po2: 17 },
                prereqs: vec![],
                retries: 1,
                timeout: 110,
            }
        );
        assert_eq!(sidecar.count(), n + 1);
    }
}

#[test]
fn journal_goes_to_the_blob_store_in_preflight_and_to_the_cache_otherwise() {
    assert_eq!(
        journal_action(&args(), &job(), true, true),
        JournalAction::UploadPreflight { key: format!("preflight_journals/{}.bin", JOB_TEXT) }
    );
    assert_eq!(
        journal_action(&args(), &job(), false, true),
        JournalAction::StageInCache { key: format!("job:{}:journal", JOB_TEXT), ttl: 3600 }
    );
    assert_eq!(journal_action(&args(), &job(), true, false), JournalAction::Skip);
    assert_eq!(journal_action(&args(), &job(), false, false), JournalAction::Skip);
}

#[test]
fn response_reports_the_session() {
    let session = SessionData {
        segment_count: 4,
        user_cycles: 1000,
        total_cycles: 4096,
        journal: Some(vec![1, 2, 3]),
    };
    assert_eq!(
        executor_response(&session, 2),
        ExecutorResp { segments: 4, user_cycles: 1000, total_cycles: 4096, assumption_count: 2 }
    );
    let no_journal = SessionData { journal: None, ..session };
    assert_eq!(
        executor_response(&no_journal, 0),
        ExecutorResp { segments: 4, user_cycles: 1000, total_cycles: 4096, assumption_count: 0 }
    );
}

#[test]
fn blobs_read_for_a_request() {
    let request = ExecutorReq {
        image: "ab".repeat(32),
        input: "input-7".to_string(),
        user_id: "user".to_string(),
        assumptions: vec!["r1".to_string(), "r2".to_string()],
        execute_only: false,
        compress: CompressType::Uncompressed,
        exec_limit: None,
    };
    let reads = blob_reads(&request);
    assert_eq!(reads.elf_key, format!("elf/{}", "ab".repeat(32)));
    assert_eq!(reads.input_key, "input/input-7");
    assert_eq!(
        reads.receipt_keys,
        vec!["receipts/stark/r1.bincode".to_string(), "receipts/stark/r2.bincode".to_string()]
    );
}

#[test]
fn segments_are_staged_under_their_index() {
    for index in [0u32, 1, 10, 4096] {
        assert_eq!(
            segment_write(&args(), &job(), index),
            SegmentWrite {
                cache_key: format!("job:{}:segments:{}", JOB_TEXT, index),
                ttl: 3600,
                index,
            }
        );
    }
}

#[test]
fn image_id_is_staged_for_the_job() {
    assert_eq!(
        stage_image_id(&args(), &job()),
        CacheWrite { key: format!("job:{}:image_id", JOB_TEXT), ttl: 3600 }
    );
}

#[test]
fn preflight_mode() {
    let streams = resolve_streams(stream(1), stream(2), None, None, stream(5));
    let tasks = plan_job_tasks(
        args(),
        streams,
        job(),
        &vec![0],
        vec![],
        CompressType::Uncompressed,
        true,
        0,
    );
    assert_eq!(tasks, Ok(vec![]));
    let session =
        SessionData { segment_count: 1, user_cycles: 7, total_cycles: 8, journal: Some(vec![42]) };
    assert_eq!(
        journal_action(&args(), &job(), true, session.journal.is_some()),
        JournalAction::UploadPreflight { key: format!("preflight_journals/{}.bin", JOB_TEXT) }
    );
    assert_eq!(
        executor_response(&session, 0),
        ExecutorResp { segments: 1, user_cycles: 7, total_cycles: 8, assumption_count: 0 }
    );
}
