//! The keys under which a job stages data in the hot cache and reads and
//! writes blobs in the object store.

use vstd::prelude::*;
use vstd::string::*;
use crate::ids::{Digest, JobId};
use crate::text::{decimal_string, decimal_text};

verus! {

/// `job:{id}`: what every hot-cache key of a job starts with.
pub open spec fn job_prefix_text(job_id: JobId) -> Seq<char> {
    "job:"@ + job_id.text()
}

/// `job:{id}:image_id`
pub open spec fn image_id_key_text(job_id: JobId) -> Seq<char> {
    job_prefix_text(job_id) + ":image_id"@
}

/// `job:{id}:receipts:{claim_digest}`
pub open spec fn receipt_key_text(job_id: JobId, claim_digest: Digest) -> Seq<char> {
    job_prefix_text(job_id) + ":receipts:"@ + claim_digest.text()
}

/// `job:{id}:segments:{index}`
pub open spec fn segment_key_text(job_id: JobId, index: u32) -> Seq<char> {
    job_prefix_text(job_id) + ":segments:"@ + decimal_text(index as nat)
}

/// `job:{id}:coproc:{claim_digest}`
pub open spec fn coproc_key_text(job_id: JobId, claim_digest: Digest) -> Seq<char> {
    job_prefix_text(job_id) + ":coproc:"@ + claim_digest.text()
}

/// `job:{id}:journal`
pub open spec fn journal_key_text(job_id: JobId) -> Seq<char> {
    job_prefix_text(job_id) + ":journal"@
}

/// `elf/{image}`
pub open spec fn elf_blob_key_text(image: Seq<char>) -> Seq<char> {
    "elf/"@ + image
}

/// `input/{input}`
pub open spec fn input_blob_key_text(input: Seq<char>) -> Seq<char> {
    "input/"@ + input
}

/// `receipts/stark/{id}.bincode`
pub open spec fn receipt_blob_key_text(receipt_id: Seq<char>) -> Seq<char> {
    "receipts/stark/"@ + receipt_id + ".bincode"@
}

/// `exec_logs/{job_id}.log`
pub open spec fn exec_log_blob_key_text(job_id: JobId) -> Seq<char> {
    "exec_logs/"@ + job_id.text() + ".log"@
}

/// `preflight_journals/{job_id}.bin`
pub open spec fn preflight_journal_blob_key_text(job_id: JobId) -> Seq<char> {
    "preflight_journals/"@ + job_id.text() + ".bin"@
}

/// The prefix of every hot-cache key of the job.
pub fn job_prefix(job_id: &JobId) -> (key: String)
    ensures
        key@ == job_prefix_text(*job_id),
{
    let id = job_id.to_text();
    String::from_str("job:").concat(id.as_str())
}

/// The hot-cache key of the job's image id.
pub fn image_id_key(job_id: &JobId) -> (key: String)
    ensures
        key@ == image_id_key_text(*job_id),
{
    job_prefix(job_id).concat(":image_id")
}

/// The hot-cache key of the assumption receipt with the given claim.
pub fn receipt_key(job_id: &JobId, claim_digest: &Digest) -> (key: String)
    ensures
        key@ == receipt_key_text(*job_id, *claim_digest),
{
    let claim = claim_digest.to_text();
    job_prefix(job_id).concat(":receipts:").concat(claim.as_str())
}

/// The hot-cache key of the segment with the given index.
pub fn segment_key(job_id: &JobId, index: u32) -> (key: String)
    ensures
        key@ == segment_key_text(*job_id, index),
{
    let number = decimal_string(index as u64);
    job_prefix(job_id).concat(":segments:").concat(number.as_str())
}

/// The hot-cache key of the input of the keccak request with the given claim.
pub fn coproc_key(job_id: &JobId, claim_digest: &Digest) -> (key: String)
    ensures
        key@ == coproc_key_text(*job_id, *claim_digest),
{
    let claim = claim_digest.to_text();
    job_prefix(job_id).concat(":coproc:").concat(claim.as_str())
}

/// The hot-cache key of the job's journal.
pub fn journal_key(job_id: &JobId) -> (key: String)
    ensures
        key@ == journal_key_text(*job_id),
{
    job_prefix(job_id).concat(":journal")
}

/// The blob key of a program image.
pub fn elf_blob_key(image: &str) -> (key: String)
    ensures
        key@ == elf_blob_key_text(image@),
{
    String::from_str("elf/").concat(image)
}

/// The blob key of a guest input.
pub fn input_blob_key(input: &str) -> (key: String)
    ensures
        key@ == input_blob_key_text(input@),
{
    String::from_str("input/").concat(input)
}

/// The blob key of an assumption receipt.
pub fn receipt_blob_key(receipt_id: &str) -> (key: String)
    ensures
        key@ == receipt_blob_key_text(receipt_id@),
{
    String::from_str("receipts/stark/").concat(receipt_id).concat(".bincode")
}

/// The blob key of the guest's output log.
pub fn exec_log_blob_key(job_id: &JobId) -> (key: String)
    ensures
        key@ == exec_log_blob_key_text(*job_id),
{
    let id = job_id.to_text();
    String::from_str("exec_logs/").concat(id.as_str()).concat(".log")
}

/// The blob key of the journal of a preflight run.
pub fn preflight_journal_blob_key(job_id: &JobId) -> (key: String)
    ensures
        key@ == preflight_journal_blob_key_text(*job_id),
{
    let id = job_id.to_text();
    String::from_str("preflight_journals/").concat(id.as_str()).concat(".bin")
}

/// Segments with different indices are staged under different keys.
pub proof fn lemma_segment_keys_differ(job_id: JobId, a: u32, b: u32)
    requires
        a != b,
    ensures
        segment_key_text(job_id, a) != segment_key_text(job_id, b),
{
    let prefix = job_prefix_text(job_id) + ":segments:"@;
    let ka = segment_key_text(job_id, a);
    let kb = segment_key_text(job_id, b);
    if ka == kb {
        assert(ka.subrange(prefix.len() as int, ka.len() as int) =~= decimal_text(a as nat));
        assert(kb.subrange(prefix.len() as int, kb.len() as int) =~= decimal_text(b as nat));
        crate::text::lemma_decimal_text_injective(a as nat, b as nat);
    }
}

} // verus!
