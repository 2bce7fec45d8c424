use deltagen::codec::apply_bsdiff;
use deltagen::codec::apply_multi_bsdiff;
use deltagen::codec::create_bsdiff;
use deltagen::errors::BackupError;

#[test]
fn round_trip_reconstructs_new_bytes() {
    let old = b"The quick brown fox jumps over the lazy dog".to_vec();
    let new = b"The quick brown fox jumped over two lazy dogs!".to_vec();
    let delta = create_bsdiff(Some(&old), &new).expect("producing a delta should succeed");
    let out = apply_bsdiff(&old, &delta).expect("applying the delta back should succeed");
    assert_eq!(out, new);
}

#[test]
fn round_trip_on_empty_and_binary_data() {
    let old: Vec<u8> = vec![];
    let new: Vec<u8> = (0u16..600).map(|i| (i % 251) as u8).collect();
    let delta = create_bsdiff(Some(&old), &new).expect("producing a delta should succeed");
    let out = apply_bsdiff(&old, &delta).expect("applying the delta back should succeed");
    assert_eq!(out, new);
}

#[test]
fn missing_old_equals_empty_baseline() {
    let new = b"fresh content with no prior state".to_vec();
    let empty: Vec<u8> = vec![];
    let from_missing = create_bsdiff(None, &new).expect("a missing old file is not an error");
    let from_empty = create_bsdiff(Some(&empty), &new).expect("an empty old file works too");
    assert_eq!(from_missing, from_empty);
    let out = apply_bsdiff(&empty, &from_missing).expect("the delta applies to an empty base");
    assert_eq!(out, new);
}

#[test]
fn wrong_base_fails_with_codec_error() {
    let old = vec![42u8; 1024];
    let new = {
        let mut v = old.clone();
        v[100] = 7;
        v.push(9);
        v
    };
    let delta = create_bsdiff(Some(&old), &new).expect("producing a delta should succeed");
    let wrong_base: Vec<u8> = vec![1, 2, 3];
    let r = apply_bsdiff(&wrong_base, &delta);
    assert!(matches!(r, Err(BackupError::CodecError(_))));
}

#[test]
fn truncated_delta_fails_with_codec_error() {
    let old = b"some stable baseline contents".to_vec();
    let new = b"some changed baseline contents".to_vec();
    let delta = create_bsdiff(Some(&old), &new).expect("producing a delta should succeed");
    let truncated: Vec<u8> = delta[..delta.len() / 2].to_vec();
    let r = apply_bsdiff(&old, &truncated);
    assert!(matches!(r, Err(BackupError::CodecError(_))));
}

#[test]
fn chain_replay_is_idempotent() {
    let base = b"version zero of the document".to_vec();
    let v1 = b"version one of the document!".to_vec();
    let v2 = b"version two of the document!!".to_vec();
    let d1 = create_bsdiff(Some(&base), &v1).expect("first delta");
    let d2 = create_bsdiff(Some(&base), &v2).expect("second delta");
    let bases = vec![base.clone(), base.clone()];
    let deltas = vec![d1, d2];
    let first = apply_multi_bsdiff(&bases, &deltas);
    let again = apply_multi_bsdiff(&bases, &deltas);
    assert!(first.error.is_none());
    assert!(again.error.is_none());
    assert_eq!(first.outputs, again.outputs);
    assert_eq!(first.outputs.len(), 2);
    assert_eq!(first.outputs[0], v1);
    assert_eq!(first.outputs[1], v2);
}

#[test]
fn chain_replay_keeps_the_successful_prefix_on_failure() {
    let base = b"a shared baseline for the whole chain".to_vec();
    let v1 = b"a changed baseline for the whole chain".to_vec();
    let d1 = create_bsdiff(Some(&base), &v1).expect("first delta");
    let corrupt: Vec<u8> = vec![0xFF; 8];
    let bases = vec![base.clone(), base.clone()];
    let deltas = vec![d1, corrupt];
    let r = apply_multi_bsdiff(&bases, &deltas);
    // the first step's reconstruction survives as the best-effort result
    assert_eq!(r.outputs.len(), 1);
    assert_eq!(r.outputs[0], v1);
    assert!(matches!(r.error, Some(BackupError::CodecError(_))));
}

#[test]
fn chain_replay_fails_immediately_on_a_bad_first_step() {
    let base = b"a shared baseline".to_vec();
    let corrupt: Vec<u8> = vec![0xFF; 8];
    let bases = vec![base.clone()];
    let deltas = vec![corrupt];
    let r = apply_multi_bsdiff(&bases, &deltas);
    assert!(r.outputs.is_empty());
    assert!(matches!(r.error, Some(BackupError::CodecError(_))));
}

#[test]
fn empty_chain_replays_to_nothing() {
    let bases: Vec<Vec<u8>> = vec![];
    let deltas: Vec<Vec<u8>> = vec![];
    let r = apply_multi_bsdiff(&bases, &deltas);
    assert!(r.outputs.is_empty());
    assert!(r.error.is_none());
}
