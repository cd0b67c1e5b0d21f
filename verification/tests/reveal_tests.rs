use orbs_backend::chunks::{finish_seed_chunk, prepare_seed_chunk, SeedChunk, CHUNK_SIZE};
use orbs_backend::revelation::{
    begin_reveal, chunk_exists, chunk_needs_regen, clear_revealed_seed, commit_reveal,
    get_chunk_offset, get_last_settled_round, get_raw_seed_for_round, get_revealed_seed,
    get_stored_chunk_id, get_stored_chunk_id_next, increment_offset, install_current_chunk,
    install_next_chunk, next_chunk_exists, next_chunk_needed, promote_next_to_current,
    reset_last_settled_round, set_chunk_offset, set_last_settled_round, validate_reveal_round,
    RevealFollowUp, RevealStart, RevealValidation,
};
use orbs_backend::state::OrbsState;

fn reset_state() -> OrbsState {
    OrbsState::new()
}

// ==================== validate_reveal_round tests ====================

#[test]
fn test_validate_first_round_zero() {
    let tier_id = 100;
    let state = reset_state();
    let result = validate_reveal_round(&state, tier_id, 0);
    assert_eq!(result, RevealValidation::Valid);
}

#[test]
fn test_validate_first_round_one() {
    let tier_id = 101;
    let state = reset_state();
    let result = validate_reveal_round(&state, tier_id, 1);
    assert_eq!(result, RevealValidation::Valid);
}

#[test]
fn test_validate_sequential_access() {
    let tier_id = 102;
    let mut state = reset_state();
    set_last_settled_round(&mut state, tier_id, 5);
    let result = validate_reveal_round(&state, tier_id, 6);
    assert_eq!(result, RevealValidation::Valid);
}

#[test]
fn test_validate_reject_skip_ahead() {
    let tier_id = 103;
    let mut state = reset_state();
    set_last_settled_round(&mut state, tier_id, 5);
    let result = validate_reveal_round(&state, tier_id, 7);
    assert_eq!(
        result,
        RevealValidation::InvalidRound { expected: 6, last_settled: 5, requested: 7 }
    );
}

#[test]
fn test_validate_reject_replay() {
    let tier_id = 104;
    let mut state = reset_state();
    set_last_settled_round(&mut state, tier_id, 5);
    let result = validate_reveal_round(&state, tier_id, 5);
    assert_eq!(
        result,
        RevealValidation::InvalidRound { expected: 6, last_settled: 5, requested: 5 }
    );
}

#[test]
fn test_validate_different_tiers_independent() {
    let tier_id_0 = 105;
    let tier_id_1 = 106;
    let mut state = reset_state();
    set_last_settled_round(&mut state, tier_id_0, 5);
    set_last_settled_round(&mut state, tier_id_1, 10);
    let result_0 = validate_reveal_round(&state, tier_id_0, 6);
    assert_eq!(result_0, RevealValidation::Valid);
    let result_1 = validate_reveal_round(&state, tier_id_1, 11);
    assert_eq!(result_1, RevealValidation::Valid);
}

// ==================== Offset tracking tests ====================

#[test]
fn test_chunk_offset_starts_at_zero() {
    let tier_id = 200;
    let state = reset_state();
    let offset = get_chunk_offset(&state, tier_id);
    assert_eq!(offset, 0);
}

#[test]
fn test_increment_offset() {
    let tier_id = 201;
    let mut state = reset_state();
    assert_eq!(get_chunk_offset(&state, tier_id), 0);
    let new_offset = increment_offset(&mut state, tier_id);
    assert_eq!(new_offset, 1);
    assert_eq!(get_chunk_offset(&state, tier_id), 1);
    let new_offset = increment_offset(&mut state, tier_id);
    assert_eq!(new_offset, 2);
}

#[test]
fn test_chunk_needs_regen_at_boundary() {
    let tier_id = 202;
    let mut state = reset_state();
    set_chunk_offset(&mut state, tier_id, CHUNK_SIZE - 1);
    assert!(!chunk_needs_regen(&state, tier_id));
    increment_offset(&mut state, tier_id);
    assert!(chunk_needs_regen(&state, tier_id));
}

// ==================== get_last_settled_round tests ====================

#[test]
fn test_get_last_settled_round_default() {
    let tier_id = 203;
    let state = reset_state();
    let last = get_last_settled_round(&state, tier_id);
    assert_eq!(last, 0);
}

#[test]
fn test_get_last_settled_round_after_set() {
    let tier_id = 204;
    let mut state = reset_state();
    set_last_settled_round(&mut state, tier_id, 42);
    let last = get_last_settled_round(&state, tier_id);
    assert_eq!(last, 42);
}

// ==================== chunk_exists tests ====================

#[test]
fn test_chunk_exists_false_initially() {
    let tier_id = 205;
    let state = reset_state();
    assert!(!chunk_exists(&state, tier_id));
}

// ==================== get_stored_chunk_id tests ====================

#[test]
fn test_get_stored_chunk_id_none_when_empty() {
    let tier_id = 206;
    let state = reset_state();
    assert_eq!(get_stored_chunk_id(&state, tier_id), None);
}

#[test]
fn test_expected_chunk_id_calculation() {
    // Round 1-50 -> chunk 0
    assert_eq!((1 - 1) / CHUNK_SIZE, 0);
    assert_eq!((50 - 1) / CHUNK_SIZE, 0);
    // Round 51-100 -> chunk 1
    assert_eq!((51 - 1) / CHUNK_SIZE, 1);
    assert_eq!((100 - 1) / CHUNK_SIZE, 1);
    // Round 201-250 -> chunk 4
    assert_eq!((201 - 1) / CHUNK_SIZE, 4);
}

// ==================== Two-slot (CURRENT + NEXT) tests ====================

fn build_test_chunk(tier_id: u8, chunk_id: u64, seed_byte: u8) -> SeedChunk {
    let mut seeds = Vec::with_capacity(CHUNK_SIZE as usize);
    for i in 0..CHUNK_SIZE {
        let mut seed = [0u8; 32];
        seed[0] = seed_byte;
        seed[1] = chunk_id as u8;
        seed[2] = i as u8;
        seeds.push(seed);
    }
    SeedChunk { tier_id, chunk_id, seeds, merkle_layers: Vec::new(), root_signature: Vec::new() }
}

fn put_current(state: &mut OrbsState, tier_id: u8, chunk: SeedChunk) {
    install_current_chunk(state, tier_id, chunk);
}

fn put_next(state: &mut OrbsState, tier_id: u8, chunk: SeedChunk) {
    assert!(install_next_chunk(state, tier_id, chunk));
}

#[test]
fn test_get_stored_chunk_id_next_none_when_empty() {
    let tier_id = 220;
    let state = reset_state();
    assert_eq!(get_stored_chunk_id_next(&state, tier_id), None);
    assert!(!next_chunk_exists(&state, tier_id));
}

#[test]
fn test_get_stored_chunk_id_next_returns_value() {
    let tier_id = 221;
    let mut state = reset_state();
    put_next(&mut state, tier_id, build_test_chunk(tier_id, 7, 0xaa));
    assert_eq!(get_stored_chunk_id_next(&state, tier_id), Some(7));
    assert!(next_chunk_exists(&state, tier_id));
}

#[test]
fn test_promote_next_to_current_moves_chunk() {
    let tier_id = 222;
    let mut state = reset_state();
    put_current(&mut state, tier_id, build_test_chunk(tier_id, 0, 0x11));
    put_next(&mut state, tier_id, build_test_chunk(tier_id, 1, 0x22));

    promote_next_to_current(&mut state, tier_id).expect("promote should succeed");

    assert_eq!(get_stored_chunk_id(&state, tier_id), Some(1));
    assert_eq!(get_stored_chunk_id_next(&state, tier_id), None);
    assert!(!next_chunk_exists(&state, tier_id));

    let seed = get_raw_seed_for_round(&state, tier_id, 51).expect("lookup");
    assert_eq!(seed[0], 0x22);
    assert_eq!(seed[1], 1);
}

#[test]
fn test_promote_errors_when_next_empty() {
    let tier_id = 223;
    let mut state = reset_state();
    put_current(&mut state, tier_id, build_test_chunk(tier_id, 0, 0x11));

    let err = promote_next_to_current(&mut state, tier_id)
        .expect_err("should error when NEXT is empty");
    assert!(err.contains("NEXT slot empty"), "unexpected error: {}", err);

    assert_eq!(get_stored_chunk_id(&state, tier_id), Some(0));
}

#[test]
fn test_get_raw_seed_for_round_finds_in_current() {
    let tier_id = 224;
    let mut state = reset_state();
    put_current(&mut state, tier_id, build_test_chunk(tier_id, 0, 0x33));
    put_next(&mut state, tier_id, build_test_chunk(tier_id, 1, 0x44));

    let seed = get_raw_seed_for_round(&state, tier_id, 25).expect("lookup");
    assert_eq!(seed[0], 0x33);
    assert_eq!(seed[1], 0);
    assert_eq!(seed[2], 24);
}

#[test]
fn test_get_raw_seed_for_round_finds_in_next_slot() {
    let tier_id = 225;
    let mut state = reset_state();
    put_current(&mut state, tier_id, build_test_chunk(tier_id, 0, 0x55));
    put_next(&mut state, tier_id, build_test_chunk(tier_id, 1, 0x66));

    let seed = get_raw_seed_for_round(&state, tier_id, 75).expect("lookup");
    assert_eq!(seed[0], 0x66);
    assert_eq!(seed[1], 1);
    assert_eq!(seed[2], 24);
}

#[test]
fn test_get_raw_seed_for_round_mismatch_when_neither_matches() {
    let tier_id = 226;
    let mut state = reset_state();
    put_current(&mut state, tier_id, build_test_chunk(tier_id, 0, 0x77));
    put_next(&mut state, tier_id, build_test_chunk(tier_id, 1, 0x88));

    let err = get_raw_seed_for_round(&state, tier_id, 200)
        .expect_err("should error when no slot matches");
    assert!(err.contains("seed chunk mismatch"), "unexpected error: {}", err);
    assert!(err.contains("current=Some(0)"), "should report current chunk_id: {}", err);
    assert!(err.contains("next=Some(1)"), "should report next chunk_id: {}", err);
}

#[test]
fn test_get_raw_seed_for_round_no_chunk_when_both_empty() {
    let tier_id = 227;
    let state = reset_state();
    let err = get_raw_seed_for_round(&state, tier_id, 1)
        .expect_err("should error when both slots empty");
    assert!(err.contains("no seed chunk"), "unexpected error: {}", err);
}

#[test]
fn test_get_raw_seed_for_round_zero_rejected() {
    let tier_id = 228;
    let state = reset_state();
    let err = get_raw_seed_for_round(&state, tier_id, 0)
        .expect_err("round_id 0 should be rejected");
    assert!(err.contains("must be >= 1"), "unexpected error: {}", err);
}

// ==================== own tests ====================

fn signed_chunk(tier_id: u8, chunk_id: u64, fill: u8) -> SeedChunk {
    let raw = [fill; 32];
    let prepared = prepare_seed_chunk(tier_id, chunk_id, &raw).unwrap();
    finish_seed_chunk(prepared, &[9u8; 64]).unwrap()
}

#[test]
fn reveal_flow_is_sequential_and_idempotent() {
    let tier = 3u8;
    let mut state = reset_state();
    // Nothing stored yet: the round's chunk must be installed first.
    match begin_reveal(&state, tier, 1) {
        RevealStart::NeedCurrentChunk(c) => assert_eq!(c, 0),
        other => panic!("unexpected {:?}", other),
    }
    let chunk = signed_chunk(tier, 0, 1);
    let first_seed = chunk.seeds[0];
    install_current_chunk(&mut state, tier, chunk);
    assert!(matches!(begin_reveal(&state, tier, 1), RevealStart::Ready));

    let (proof, plan) = commit_reveal(&mut state, tier, 1).unwrap();
    assert_eq!(proof.seed, first_seed);
    assert_eq!(plan, RevealFollowUp::MidChunk { current_chunk_id: 0, next_chunk_id: 1 });
    assert_eq!(get_last_settled_round(&state, tier), 1);
    assert_eq!(get_chunk_offset(&state, tier), 1);

    // Revealing the same round again hands back the stored proof.
    match begin_reveal(&state, tier, 1) {
        RevealStart::AlreadyRevealed(p) => assert_eq!(p.seed, first_seed),
        other => panic!("unexpected {:?}", other),
    }
    assert_eq!(get_revealed_seed(&state, tier, 1).unwrap().seed, first_seed);

    // Skipping ahead is refused with the exact message.
    match begin_reveal(&state, tier, 3) {
        RevealStart::Rejected(e) => {
            assert_eq!(e, "Invalid round_id: expected 2 (last settled: 1), got 3")
        }
        other => panic!("unexpected {:?}", other),
    }

    clear_revealed_seed(&mut state, tier, 1);
    assert!(get_revealed_seed(&state, tier, 1).is_none());
}

#[test]
fn reveal_at_chunk_boundary_asks_for_promotion() {
    let tier = 4u8;
    let mut state = reset_state();
    install_current_chunk(&mut state, tier, signed_chunk(tier, 0, 2));
    set_last_settled_round(&mut state, tier, 49);
    set_chunk_offset(&mut state, tier, 49);
    let (_, plan) = commit_reveal(&mut state, tier, 50).unwrap();
    assert_eq!(plan, RevealFollowUp::Boundary { current_chunk_id: 0, next_chunk_id: 1, following_chunk_id: 2 });
    assert!(chunk_needs_regen(&state, tier));
    // Round 51 belongs to chunk 1, which CURRENT does not hold.
    match begin_reveal(&state, tier, 51) {
        RevealStart::NeedCurrentChunk(c) => assert_eq!(c, 1),
        other => panic!("unexpected {:?}", other),
    }
}

#[test]
fn commit_reveal_without_chunk_changes_nothing() {
    let tier = 5u8;
    let mut state = reset_state();
    assert!(commit_reveal(&mut state, tier, 1).is_err());
    assert_eq!(get_last_settled_round(&state, tier), 0);
    assert_eq!(get_chunk_offset(&state, tier), 0);
    assert!(get_revealed_seed(&state, tier, 1).is_none());
}

#[test]
fn next_slot_keeps_chunk_it_already_holds() {
    let tier = 6u8;
    let mut state = reset_state();
    assert!(next_chunk_needed(&state, tier, 2));
    assert!(install_next_chunk(&mut state, tier, build_test_chunk(tier, 2, 0x01)));
    assert!(!next_chunk_needed(&state, tier, 2));
    // A second chunk with the same id is dropped; the first one stays.
    assert!(!install_next_chunk(&mut state, tier, build_test_chunk(tier, 2, 0x02)));
    install_current_chunk(&mut state, tier, build_test_chunk(tier, 1, 0x03));
    let seed = get_raw_seed_for_round(&state, tier, 101).unwrap();
    assert_eq!(seed[0], 0x01);
}

#[test]
fn reset_last_settled_round_goes_back_to_zero() {
    let tier = 7u8;
    let mut state = reset_state();
    set_last_settled_round(&mut state, tier, 9);
    reset_last_settled_round(&mut state, tier);
    assert_eq!(get_last_settled_round(&state, tier), 0);
    assert_eq!(validate_reveal_round(&state, tier, 1), RevealValidation::Valid);
}

#[test]
fn missing_chunk_error_text() {
    let state = reset_state();
    assert_eq!(
        get_raw_seed_for_round(&state, 9, 1).unwrap_err(),
        "no seed chunk for tier 9. Call reveal_seed_for_round to bootstrap."
    );
}

#[test]
fn round_zero_is_rejected_before_any_chunk_work() {
    let mut state = reset_state();
    match begin_reveal(&state, 2, 0) {
        RevealStart::Rejected(e) => assert_eq!(e, "round_id must be >= 1"),
        other => panic!("unexpected {:?}", other),
    }
    // Once a round has settled, round 0 fails the sequence check like any other round.
    set_last_settled_round(&mut state, 2, 7);
    match begin_reveal(&state, 2, 0) {
        RevealStart::Rejected(e) => {
            assert_eq!(e, "Invalid round_id: expected 8 (last settled: 7), got 0")
        }
        other => panic!("unexpected {:?}", other),
    }
}

#[test]
fn revealed_round_is_answered_whatever_was_settled_last() {
    let tier = 8u8;
    let mut state = reset_state();
    install_current_chunk(&mut state, tier, signed_chunk(tier, 0, 4));
    let (proof, _) = commit_reveal(&mut state, tier, 1).unwrap();
    set_last_settled_round(&mut state, tier, u64::MAX);
    match begin_reveal(&state, tier, 1) {
        RevealStart::AlreadyRevealed(p) => {
            assert_eq!(p.seed, proof.seed);
            assert_eq!(p.proof_siblings, proof.proof_siblings);
            assert_eq!(p.proof_siblings.len(), 6);
        }
        other => panic!("unexpected {:?}", other),
    }
}
