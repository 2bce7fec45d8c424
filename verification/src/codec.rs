use vstd::prelude::*;

use crate::errors::BackupError;

verus! {

/// The delta that the binary codec computes between two byte strings; a
/// function of those bytes alone.
pub uninterp spec fn diff_of(old_bytes: Seq<u8>, new_bytes: Seq<u8>) -> Seq<u8>;

/// The outcome of applying a delta to a base with the binary codec:
/// `Some(reconstructed bytes)` when the delta fits the base, `None` when the
/// codec rejects the pair; a function of the two byte strings alone.
pub uninterp spec fn patch_of(base_bytes: Seq<u8>, delta_bytes: Seq<u8>) -> Option<Seq<u8>>;

/// The bytes a delta is produced against: the old file's contents, or the
/// empty string when there is no old file (first backup has no prior state).
pub open spec fn baseline_view(old_data: Option<&Vec<u8>>) -> Seq<u8> {
    match old_data {
        Some(v) => v@,
        None => Seq::empty(),
    }
}

/// Relies on bsdiff::diff: the delta is computed from the two byte strings
/// alone, and bsdiff::patch applied to the old bytes and this delta yields the
/// new bytes (the crate documents this round trip). The call's only failure
/// paths are writer errors, and writing into an in-memory buffer cannot fail,
/// so the call always succeeds.
#[verifier::external_body]
fn bsdiff_diff(old_data: &Vec<u8>, new_data: &Vec<u8>) -> (r: Result<Vec<u8>, String>)
    ensures
        r is Ok,
        r matches Ok(d) ==> d@ == diff_of(old_data@, new_data@),
        r matches Ok(d) ==> patch_of(old_data@, d@) == Some(new_data@),
{
    let mut delta = Vec::new();
    match bsdiff::diff(old_data, new_data, &mut delta) {
        Ok(()) => Ok(delta),
        Err(e) => Err(format!("{}", e)),
    }
}

/// Relies on bsdiff::patch: reading the delta from an in-memory slice, the
/// outcome (success and output bytes alike) is a function of the base and
/// delta bytes alone.
#[verifier::external_body]
fn bsdiff_patch(base_data: &Vec<u8>, delta_data: &Vec<u8>) -> (r: Result<Vec<u8>, String>)
    ensures
        r matches Ok(out) ==> patch_of(base_data@, delta_data@) == Some(out@),
        r is Err ==> patch_of(base_data@, delta_data@) is None,
{
    let mut out = Vec::new();
    match bsdiff::patch(base_data, &mut delta_data.as_slice(), &mut out) {
        Ok(()) => Ok(out),
        Err(e) => Err(format!("{}", e)),
    }
}

/// Produces a binary delta from the old bytes (`None` stands for a missing
/// old file and is treated as an empty baseline, not an error) to the new
/// bytes. Always succeeds: the delta is the codec's delta for exactly this
/// pair, and applying it back to the baseline reconstructs the new bytes.
pub fn create_bsdiff(old_data: Option<&Vec<u8>>, new_data: &Vec<u8>) -> (r: Result<
    Vec<u8>,
    BackupError,
>)
    ensures
        r is Ok,
        r matches Ok(d) ==> d@ == diff_of(baseline_view(old_data), new_data@),
        r matches Ok(d) ==> patch_of(baseline_view(old_data), d@) == Some(new_data@),
{
    let empty: Vec<u8> = Vec::new();
    let old_ref: &Vec<u8> = match old_data {
        Some(v) => v,
        None => &empty,
    };
    proof {
        assert(old_ref@ =~= baseline_view(old_data));
    }
    match bsdiff_diff(old_ref, new_data) {
        Ok(d) => Ok(d),
        Err(m) => Err(BackupError::CodecError(m)),
    }
}

/// Applies a binary delta to the supplied base bytes. Succeeds exactly when
/// the codec accepts the pair; a structural mismatch (wrong base, truncated
/// or corrupt delta) is reported as `CodecError`, never as a silently wrong
/// reconstruction.
pub fn apply_bsdiff(base_data: &Vec<u8>, delta_data: &Vec<u8>) -> (r: Result<Vec<u8>, BackupError>)
    ensures
        r matches Ok(out) ==> patch_of(base_data@, delta_data@) == Some(out@),
        r is Ok <==> patch_of(base_data@, delta_data@) is Some,
        r matches Err(e) ==> e matches BackupError::CodecError(_),
{
    match bsdiff_patch(base_data, delta_data) {
        Ok(out) => Ok(out),
        Err(m) => Err(BackupError::CodecError(m)),
    }
}

/// The outcome of replaying a delta chain: the reconstructions of the steps
/// that succeeded (a prefix of the chain, in order), and the first failing
/// step's error, if any step failed. The last entry of `outputs` is the
/// best-effort result a caller may inspect on failure; nothing is rolled
/// back.
pub struct ReplayResult {
    pub outputs: Vec<Vec<u8>>,
    pub error: Option<BackupError>,
}

/// Replays an ordered delta chain: applies each delta to its resolved base in
/// the given order, keeping every intermediate reconstruction. Stops at the
/// first failing step and reports that step's error (always a codec mismatch)
/// alongside the reconstructions already made — each one is a complete,
/// independently valid result up to its step — rather than discarding them.
/// All steps succeeded exactly when no error is reported.
pub fn apply_multi_bsdiff(base_list: &Vec<Vec<u8>>, delta_list: &Vec<Vec<u8>>) -> (r: ReplayResult)
    requires
        base_list@.len() == delta_list@.len(),
    ensures
        r.outputs@.len() <= delta_list@.len(),
        forall|i: int|
            0 <= i < r.outputs@.len() ==> patch_of(base_list@[i]@, delta_list@[i]@) == Some(
                r.outputs@[i]@,
            ),
        r.error is None <==> r.outputs@.len() == delta_list@.len(),
        r.error is Some ==> patch_of(
            base_list@[r.outputs@.len() as int]@,
            delta_list@[r.outputs@.len() as int]@,
        ) is None,
        r.error matches Some(e) ==> e matches BackupError::CodecError(_),
{
    let mut outputs: Vec<Vec<u8>> = Vec::new();
    let mut k: usize = 0;
    while k < delta_list.len()
        invariant
            base_list@.len() == delta_list@.len(),
            k <= delta_list@.len(),
            outputs@.len() == k,
            forall|i: int|
                0 <= i < k ==> patch_of(base_list@[i]@, delta_list@[i]@) == Some(outputs@[i]@),
        decreases delta_list@.len() - k,
    {
        match apply_bsdiff(&base_list[k], &delta_list[k]) {
            Ok(out_k) => {
                outputs.push(out_k);
            },
            Err(e) => {
                return ReplayResult { outputs, error: Some(e) };
            },
        }
        k += 1;
    }
    ReplayResult { outputs, error: None }
}

/// A missing old file and an empty old file give the same baseline, so the
/// deltas produced from them agree byte for byte.
pub proof fn lemma_missing_old_is_empty_baseline(old_empty: Vec<u8>, new_bytes: Seq<u8>)
    requires
        old_empty@.len() == 0,
    ensures
        baseline_view(None) == baseline_view(Some(&old_empty)),
        diff_of(baseline_view(None), new_bytes) == diff_of(baseline_view(Some(&old_empty)), new_bytes),
{
    assert(baseline_view(Some(&old_empty)) =~= Seq::<u8>::empty());
}

/// Replaying one and the same delta chain twice yields byte-identical outputs
/// at every step: each step's reconstruction is a function of its base and
/// delta bytes alone.
pub proof fn lemma_replay_deterministic(
    base_seqs: Seq<Seq<u8>>,
    delta_seqs: Seq<Seq<u8>>,
    outs1: Seq<Seq<u8>>,
    outs2: Seq<Seq<u8>>,
)
    requires
        outs1.len() == delta_seqs.len(),
        outs2.len() == delta_seqs.len(),
        forall|i: int|
            0 <= i < delta_seqs.len() ==> patch_of(base_seqs[i], delta_seqs[i]) == Some(outs1[i]),
        forall|i: int|
            0 <= i < delta_seqs.len() ==> patch_of(base_seqs[i], delta_seqs[i]) == Some(outs2[i]),
    ensures
        outs1 == outs2,
{
    assert forall|i: int| 0 <= i < outs1.len() implies outs1[i] == outs2[i] by {
        assert(patch_of(base_seqs[i], delta_seqs[i]) == Some(outs1[i]));
        assert(patch_of(base_seqs[i], delta_seqs[i]) == Some(outs2[i]));
    }
    assert(outs1 =~= outs2);
}

} // verus!
