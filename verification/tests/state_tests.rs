use orbs_backend::admin::{
    add_admin, admin_key, clear_all_data, filter_anonymous, get_pubkey_hex, init_admins, is_admin,
    is_anonymous, list_admins, pubkey_initialized, store_public_key,
};
use orbs_backend::api::{
    clamp_limit, handle_add_engine_config, handle_add_players, handle_get_player_config,
    handle_get_round_snapshots_by_tier, handle_list_engine_config_versions,
    handle_get_player_join_data, handle_set_current_config_version, handle_set_player_config,
    handle_store_player_join_data, handle_store_round_snapshot,
    init_canister, post_upgrade_migration,
};
use orbs_backend::engine_config::{
    add_engine_config, get_engine_config, get_latest_engine_config,
    get_latest_engine_config_version, list_engine_config_versions, update_engine_config,
};
use orbs_backend::join_data::{
    get_player_join_data, get_player_round_seed, get_round_join_data, store_player_join_data,
    PlayerJoinDataInput,
};
use orbs_backend::player_config::{
    get_player_config, list_player_configs, list_player_configs_if_revealed, set_player_config,
    PlayerConfigInput,
};
use orbs_backend::players::{add_players, get_players, player_exists};
use orbs_backend::revelation::{
    commit_reveal, get_raw_seed_for_round, install_current_chunk, install_next_chunk,
    next_chunk_exists,
};
use orbs_backend::chunks::{finish_seed_chunk, prepare_seed_chunk, SeedChunk, CHUNK_SIZE};
use orbs_backend::rounds::{
    get_player_round_history, get_round_snapshot, get_round_snapshots_by_tier,
    store_round_snapshot, update_round_config_version,
};
use orbs_backend::shared::{vec_to_pk32, RoundPlayerSnapshotInput};
use orbs_backend::state::{get_current_config_version, set_current_config_version, OrbsState};
use k256::elliptic_curve::sec1::ToSec1Point;
use sha2::Digest;

fn b58(bytes: [u8; 32]) -> String {
    bs58::encode(bytes).into_string()
}

fn input(player: [u8; 32], join_ts: u64, placement: u8) -> RoundPlayerSnapshotInput {
    RoundPlayerSnapshotInput {
        player: b58(player),
        join_ts,
        tp_preset: 1,
        payout_lamports: 1000 + join_ts,
        placement,
        kills: 2,
        orb_earned_atoms: 7,
        player_config_hash: None,
    }
}

// ==================== players ====================

#[test]
fn players_are_registered_in_key_order_and_paged() {
    let mut state = OrbsState::new();
    add_players(&mut state, vec![vec![3u8; 32], vec![1u8; 32], vec![3u8; 32]]).unwrap();
    assert!(player_exists(&state, [1u8; 32]));
    assert!(!player_exists(&state, [2u8; 32]));
    let page = get_players(&state, 0, 10);
    assert_eq!(page.total, 2);
    assert_eq!(page.players, vec![vec![1u8; 32], vec![3u8; 32]]);
    let page = get_players(&state, 1, 10);
    assert_eq!(page.players, vec![vec![3u8; 32]]);
    let page = get_players(&state, 0, 0);
    assert!(page.players.is_empty());
}

#[test]
fn bad_player_key_registers_nothing() {
    let mut state = OrbsState::new();
    let err = add_players(&mut state, vec![vec![1u8; 32], vec![2u8; 31]]).unwrap_err();
    assert_eq!(err, "invalid pubkey length, expected 32 bytes");
    assert_eq!(get_players(&state, 0, 10).total, 0);
}

#[test]
fn batch_size_is_bounded() {
    let mut state = OrbsState::new();
    let big: Vec<Vec<u8>> = (0..201u32).map(|i| vec![(i % 256) as u8; 32]).collect();
    let err = handle_add_players(&mut state, big).unwrap_err();
    assert_eq!(err, "batch too large: 201 (max 200)");
    let err = handle_add_players(&mut state, vec![vec![0u8; 5]]).unwrap_err();
    assert_eq!(err, "invalid pubkey size: 5 (expected 32)");
}

// ==================== rounds ====================

#[test]
fn snapshot_batches_append_new_players_only() {
    let mut state = OrbsState::new();
    let a = [1u8; 32];
    let b = [2u8; 32];
    store_round_snapshot(&mut state, 0, 5, 1, vec![input(a, 10, 1)], false, None).unwrap();
    store_round_snapshot(
        &mut state,
        0,
        5,
        9,
        vec![input(a, 99, 3), input(b, 20, 2)],
        true,
        Some("sig".to_string()),
    )
    .unwrap();
    let snap = get_round_snapshot(&state, 0, 5).unwrap();
    assert_eq!(snap.players.len(), 2);
    assert_eq!(snap.players[0].player, a);
    assert_eq!(snap.players[0].join_ts, 10);
    assert_eq!(snap.players[1].player, b);
    assert_eq!(snap.season_id, 1);
    assert!(snap.did_emit);
    assert_eq!(snap.emit_tx_sig, Some("sig".to_string()));
    assert_eq!(snap.config_version, "1.2.2");
    assert_eq!(snap.payout_model, "v1_inherit");
}

#[test]
fn snapshot_rejects_bad_player_key() {
    let mut state = OrbsState::new();
    let mut bad = input([1u8; 32], 1, 1);
    bad.player = "0OIl".to_string();
    assert!(store_round_snapshot(&mut state, 0, 1, 0, vec![bad], false, None).is_err());
    assert!(get_round_snapshot(&state, 0, 1).is_none());
    let mut short = input([1u8; 32], 1, 1);
    short.player = bs58::encode([1u8; 31]).into_string();
    assert_eq!(
        store_round_snapshot(&mut state, 0, 1, 0, vec![short], false, None).unwrap_err(),
        "player pubkey must be 32 bytes"
    );
    let mut bad_hash = input([1u8; 32], 1, 1);
    bad_hash.player_config_hash = Some("zz".to_string());
    assert!(store_round_snapshot(&mut state, 0, 1, 0, vec![bad_hash], false, None).is_err());
}

#[test]
fn snapshot_keeps_config_hash() {
    let mut state = OrbsState::new();
    let mut p = input([4u8; 32], 1, 1);
    p.player_config_hash = Some(hex::encode([0xabu8; 32]));
    store_round_snapshot(&mut state, 1, 2, 0, vec![p], false, None).unwrap();
    let snap = get_round_snapshot(&state, 1, 2).unwrap();
    assert_eq!(snap.players[0].player_config_hash, Some([0xabu8; 32]));
}

#[test]
fn too_many_players_in_one_batch() {
    let mut state = OrbsState::new();
    let many: Vec<RoundPlayerSnapshotInput> =
        (0..51u8).map(|i| input([i; 32], i as u64, 1)).collect();
    assert_eq!(
        store_round_snapshot(&mut state, 0, 1, 0, many, false, None).unwrap_err(),
        "too many players in batch: 51 (max 50). Call multiple times to append."
    );
}

#[test]
fn snapshots_by_tier_are_paged_in_round_order() {
    let mut state = OrbsState::new();
    for r in [3u64, 1, 2] {
        store_round_snapshot(&mut state, 2, r, 0, vec![input([9u8; 32], r, 1)], false, None)
            .unwrap();
    }
    store_round_snapshot(&mut state, 1, 7, 0, vec![], false, None).unwrap();
    let page = get_round_snapshots_by_tier(&state, 2, 1, 5);
    assert_eq!(page.total, 3);
    let ids: Vec<u64> = page.snapshots.iter().map(|s| s.round_id).collect();
    assert_eq!(ids, vec![2, 3]);
    assert!(get_round_snapshots_by_tier(&state, 2, 0, 0).snapshots.is_empty());
    assert_eq!(handle_get_round_snapshots_by_tier(&state, 1, 0, 1000).total, 1);
}

#[test]
fn player_history_is_newest_join_first() {
    let mut state = OrbsState::new();
    let p = [5u8; 32];
    store_round_snapshot(&mut state, 0, 1, 0, vec![input(p, 100, 1)], false, None).unwrap();
    store_round_snapshot(&mut state, 0, 2, 0, vec![input(p, 300, 2)], false, None).unwrap();
    store_round_snapshot(&mut state, 1, 9, 0, vec![input(p, 200, 3)], false, None).unwrap();
    let page = get_player_round_history(&state, p.to_vec(), 0, 10).unwrap();
    assert_eq!(page.total, 3);
    let order: Vec<(u8, u64, u64)> =
        page.rounds.iter().map(|e| (e.tier_id, e.round_id, e.join_ts)).collect();
    assert_eq!(order, vec![(0, 2, 300), (1, 9, 200), (0, 1, 100)]);
    assert_eq!(page.rounds[0].sol_earned_lamports, 1300);
    let page = get_player_round_history(&state, p.to_vec(), 2, 10).unwrap();
    assert_eq!(page.rounds.len(), 1);
    assert_eq!(
        get_player_round_history(&state, vec![1u8; 3], 0, 10).unwrap_err(),
        "invalid pubkey length, expected 32 bytes"
    );
}

#[test]
fn config_version_of_a_round_can_be_corrected() {
    let mut state = OrbsState::new();
    assert_eq!(
        update_round_config_version(&mut state, 0, 4, "x".to_string()).unwrap_err(),
        "Round snapshot not found for tier 0 round 4"
    );
    store_round_snapshot(&mut state, 0, 283, 0, vec![], false, None).unwrap();
    update_round_config_version(&mut state, 0, 283, "1.5.0".to_string()).unwrap();
    assert_eq!(get_round_snapshot(&state, 0, 283).unwrap().config_version, "1.5.0");
    post_upgrade_migration(&mut state);
    assert_eq!(get_round_snapshot(&state, 0, 283).unwrap().config_version, "2.0.0");
}

#[test]
fn endpoint_snapshot_limits() {
    let mut state = OrbsState::new();
    let many: Vec<RoundPlayerSnapshotInput> =
        (0..51u8).map(|i| input([i; 32], i as u64, 1)).collect();
    assert!(handle_store_round_snapshot(&mut state, 0, 1, 0, many, false, None).is_err());
    assert!(get_round_snapshot(&state, 0, 1).is_none());
}

// ==================== engine configs ====================

#[test]
fn engine_config_lifecycle() {
    let mut state = OrbsState::new();
    assert!(get_latest_engine_config(&state).is_none());
    add_engine_config(&mut state, "1.0.0".to_string(), "{}".to_string(), 5_000_000_000).unwrap();
    add_engine_config(&mut state, "2.0.0".to_string(), "{\"a\":1}".to_string(), 7_900_000_000)
        .unwrap();
    assert_eq!(
        add_engine_config(&mut state, "1.0.0".to_string(), "{}".to_string(), 0).unwrap_err(),
        "Engine config version 1.0.0 already exists"
    );
    assert_eq!(
        add_engine_config(&mut state, String::new(), "{}".to_string(), 0).unwrap_err(),
        "Version string cannot be empty"
    );
    assert_eq!(
        add_engine_config(&mut state, "x".repeat(17), "{}".to_string(), 0).unwrap_err(),
        "Version string too long: 17 (max 16 chars)"
    );
    let c = get_engine_config(&state, "2.0.0".to_string()).unwrap();
    assert_eq!(c.created_at, 7);
    assert_eq!(c.config_json, "{\"a\":1}");
    assert_eq!(get_latest_engine_config_version(&state), Some("2.0.0".to_string()));
    assert_eq!(get_latest_engine_config(&state).unwrap().version, "2.0.0");
    update_engine_config(&mut state, "1.0.0".to_string(), "[1]".to_string(), 9_000_000_000)
        .unwrap();
    assert_eq!(get_engine_config(&state, "1.0.0".to_string()).unwrap().config_json, "[1]");
    assert_eq!(
        update_engine_config(&mut state, "3.0.0".to_string(), "{}".to_string(), 0).unwrap_err(),
        "Engine config version 3.0.0 does not exist"
    );
    let versions: Vec<String> =
        list_engine_config_versions(&state).into_iter().map(|c| c.version).collect();
    assert_eq!(versions, vec!["1.0.0".to_string(), "2.0.0".to_string()]);
    assert_eq!(handle_list_engine_config_versions(&state).len(), 2);
}

#[test]
fn current_config_version_must_exist() {
    let mut state = OrbsState::new();
    assert_eq!(get_current_config_version(&state), "1.2.2");
    assert_eq!(
        handle_set_current_config_version(&mut state, "2.0.0".to_string()).unwrap_err(),
        "Engine config version 2.0.0 does not exist. Add it first with add_engine_config."
    );
    handle_add_engine_config(&mut state, "2.0.0".to_string(), "{}".to_string(), 0).unwrap();
    handle_set_current_config_version(&mut state, "2.0.0".to_string()).unwrap();
    assert_eq!(get_current_config_version(&state), "2.0.0");
    store_round_snapshot(&mut state, 0, 1, 0, vec![], false, None).unwrap();
    assert_eq!(get_round_snapshot(&state, 0, 1).unwrap().config_version, "2.0.0");
    set_current_config_version(&mut state, "1.0.0".to_string());
    assert_eq!(get_current_config_version(&state), "1.0.0");
    assert_eq!(
        handle_add_engine_config(&mut state, "y".repeat(20), "{}".to_string(), 0).unwrap_err(),
        "version too long: 20 (max 16)"
    );
    assert_eq!(
        handle_add_engine_config(&mut state, "v".to_string(), "x".repeat(65_537), 0).unwrap_err(),
        "config_json too large: 65537 bytes (max 65536)"
    );
}

// ==================== player configs ====================

fn config_input(hash: u8, round_id: u64, tier_id: u8) -> PlayerConfigInput {
    PlayerConfigInput {
        player_config_hash: vec![hash; 32],
        round_id,
        tier_id,
        player_pubkey: vec![8u8; 32],
        tp_preset: 2,
        spawn_x_q: -5,
        spawn_y_q: 6,
        spawn_rot_q: 7,
        alloc_split: 1,
        alloc_tether: 2,
        alloc_power: 3,
    }
}

#[test]
fn player_config_is_immutable() {
    let mut state = OrbsState::new();
    set_player_config(&mut state, config_input(1, 10, 0), 3_000_000_000).unwrap();
    assert_eq!(
        set_player_config(&mut state, config_input(1, 10, 0), 0).unwrap_err(),
        "player config already exists for this hash (immutable)"
    );
    let out = get_player_config(&state, 10, 0, vec![1u8; 32]).unwrap().unwrap();
    assert_eq!(out.created_at, 3);
    assert_eq!(out.spawn_x_q, -5);
    assert_eq!(out.player_pubkey, vec![8u8; 32]);
    assert!(get_player_config(&state, 10, 1, vec![1u8; 32]).unwrap().is_none());
    assert_eq!(
        get_player_config(&state, 10, 0, vec![1u8; 3]).unwrap_err(),
        "player_config_hash must be 32 bytes, got 3"
    );
}

#[test]
fn player_config_checks() {
    let mut state = OrbsState::new();
    let mut bad = config_input(1, 1, 0);
    bad.tp_preset = 5;
    assert_eq!(set_player_config(&mut state, bad, 0).unwrap_err(), "tp_preset must be 0-4, got 5");
    let mut bad = config_input(1, 1, 0);
    bad.player_config_hash = vec![1u8; 31];
    assert_eq!(
        set_player_config(&mut state, bad.clone(), 0).unwrap_err(),
        "player_config_hash must be 32 bytes, got 31"
    );
    assert_eq!(
        handle_set_player_config(&mut state, bad, 0).unwrap_err(),
        "invalid player_config_hash size: 31 (expected 32)"
    );
    let mut bad = config_input(1, 1, 0);
    bad.player_pubkey = vec![1u8; 2];
    assert_eq!(
        handle_set_player_config(&mut state, bad, 0).unwrap_err(),
        "invalid player_pubkey size: 2 (expected 32)"
    );
    assert_eq!(
        handle_get_player_config(&state, 1, 0, vec![0u8; 4]).unwrap_err(),
        "invalid player_config_hash size: 4 (expected 32)"
    );
}

fn signed_chunk(tier_id: u8, chunk_id: u64) -> SeedChunk {
    let prepared = prepare_seed_chunk(tier_id, chunk_id, &[6u8; 32]).unwrap();
    finish_seed_chunk(prepared, &[1u8; 64]).unwrap()
}

#[test]
fn player_configs_are_private_until_the_seed_is_revealed() {
    let mut state = OrbsState::new();
    set_player_config(&mut state, config_input(2, 1, 0), 0).unwrap();
    set_player_config(&mut state, config_input(1, 1, 0), 0).unwrap();
    set_player_config(&mut state, config_input(1, 2, 0), 0).unwrap();
    let all = list_player_configs(&state, 1, 0);
    assert_eq!(all.len(), 2);
    assert_eq!(all[0].player_config_hash, vec![1u8; 32]);
    assert_eq!(
        list_player_configs_if_revealed(&state, 1, 0).unwrap_err(),
        "Round 1 tier 0 seed not yet revealed - configs are private"
    );
    install_current_chunk(&mut state, 0, signed_chunk(0, 0));
    commit_reveal(&mut state, 0, 1).unwrap();
    assert_eq!(list_player_configs_if_revealed(&state, 1, 0).unwrap().len(), 2);
}

// ==================== join data ====================

#[test]
fn player_round_seed_is_hash_of_round_seed_tier_player_round() {
    let mut state = OrbsState::new();
    let chunk = signed_chunk(1, 0);
    let round_seed = chunk.seeds[4];
    install_current_chunk(&mut state, 1, chunk);
    let player = [7u8; 32];
    let got = get_player_round_seed(&state, 1, 5, player.to_vec()).unwrap();
    let mut h = sha2::Sha256::new();
    h.update(round_seed);
    h.update([1u8]);
    h.update(player);
    h.update(5u64.to_le_bytes());
    let expected: [u8; 32] = h.finalize().into();
    assert_eq!(got, expected.to_vec());
    assert_eq!(
        get_player_round_seed(&state, 1, 5, vec![1u8; 3]).unwrap_err(),
        "invalid pubkey length, expected 32 bytes"
    );
    assert_eq!(
        get_player_round_seed(&state, 1, CHUNK_SIZE + 1, player.to_vec()).unwrap_err(),
        get_raw_seed_for_round(&state, 1, CHUNK_SIZE + 1).unwrap_err()
    );
    assert_eq!(
        get_player_round_seed(&state, 1, 0, player.to_vec()).unwrap_err(),
        "round_id must be >= 1"
    );
}

// ==================== admin ====================

#[test]
fn admins_and_anonymous_principal() {
    let mut state = OrbsState::new();
    assert!(is_anonymous(&[4u8]));
    assert!(!is_anonymous(&[4u8, 0]));
    let kept = filter_anonymous(vec![vec![4u8], vec![1u8, 2], vec![3u8]]);
    assert_eq!(kept, vec![vec![1u8, 2], vec![3u8]]);
    init_canister(&mut state, vec![vec![4u8], vec![1u8, 2]], vec![9u8; 29]);
    assert!(is_admin(&state, &[1u8, 2]));
    assert!(is_admin(&state, &[9u8; 29]));
    assert!(!is_admin(&state, &[4u8]));
    assert!(!is_admin(&state, &[1u8, 2, 0]));
    add_admin(&mut state, vec![5u8]);
    assert!(is_admin(&state, &[5u8]));
    let admins = list_admins(&state);
    assert_eq!(admins.len(), 3);
    assert!(!admins.contains(&vec![4u8]));
    assert!(admins.contains(&vec![5u8]));
    let mut other = OrbsState::new();
    init_admins(&mut other, vec![], vec![2u8]);
    assert_eq!(list_admins(&other), vec![vec![2u8]]);
    assert_ne!(admin_key(&[1u8]), admin_key(&[1u8, 0]));
}

#[test]
fn public_key_is_cached_once() {
    let mut state = OrbsState::new();
    assert!(!pubkey_initialized(&state));
    assert_eq!(get_pubkey_hex(&state).unwrap_err(), "pubkey not initialized");
    let secret = k256::SecretKey::from_slice(&[1u8; 32]).unwrap();
    let public = secret.public_key();
    let compressed = public.to_sec1_point(true);
    let uncompressed = public.to_sec1_point(false);
    assert!(store_public_key(&mut state, &[1u8, 2, 3]).is_err());
    assert!(!pubkey_initialized(&state));
    store_public_key(&mut state, compressed.as_bytes()).unwrap();
    assert!(pubkey_initialized(&state));
    assert_eq!(get_pubkey_hex(&state).unwrap(), hex::encode(compressed.as_bytes()));
    assert_eq!(
        store_public_key(&mut state, uncompressed.as_bytes()).unwrap_err(),
        "pubkey already initialized"
    );
}

#[test]
fn clear_all_data_keeps_configuration() {
    let mut state = OrbsState::new();
    add_admin(&mut state, vec![1u8]);
    add_players(&mut state, vec![vec![1u8; 32]]).unwrap();
    store_round_snapshot(&mut state, 0, 1, 0, vec![input([1u8; 32], 1, 1)], false, None).unwrap();
    add_engine_config(&mut state, "a".to_string(), "{}".to_string(), 0).unwrap();
    install_next_chunk(&mut state, 0, signed_chunk(0, 1));
    clear_all_data(&mut state).unwrap();
    assert!(!next_chunk_exists(&state, 0));
    assert!(get_raw_seed_for_round(&state, 0, 51).is_err());
    assert_eq!(get_players(&state, 0, 10).total, 0);
    assert!(get_round_snapshot(&state, 0, 1).is_none());
    assert!(is_admin(&state, &[1u8]));
    assert!(get_engine_config(&state, "a".to_string()).is_some());
}

// ==================== misc ====================

#[test]
fn page_limit_is_clamped() {
    assert_eq!(clamp_limit(5), 5);
    assert_eq!(clamp_limit(100), 100);
    assert_eq!(clamp_limit(u64::MAX), 100);
}

#[test]
fn public_key_vectors_must_be_32_bytes() {
    assert_eq!(vec_to_pk32(vec![3u8; 32]).unwrap(), [3u8; 32]);
    assert_eq!(vec_to_pk32(vec![3u8; 33]).unwrap_err(), "invalid pubkey length, expected 32 bytes");
}

// ==================== player join data ====================

fn join_input(player: u8, tier_id: u8, round_id: u64) -> PlayerJoinDataInput {
    PlayerJoinDataInput {
        player: vec![player; 32],
        tier_id,
        round_id,
        spawn_x_norm_bits: 0.5f32.to_bits(),
        spawn_y_norm_bits: (-0.25f32).to_bits(),
        spawn_rot_rad_bits: 1.5f32.to_bits(),
        earned_sp: 5,
        alloc_split_aggro: 1,
        alloc_tether_res: 2,
        alloc_orb_power: 2,
    }
}

#[test]
fn join_data_is_stored_and_listed_by_round() {
    let mut state = OrbsState::new();
    store_player_join_data(&mut state, join_input(2, 1, 9), true, true, 4_000_000_000).unwrap();
    store_player_join_data(&mut state, join_input(1, 1, 9), true, true, 0).unwrap();
    store_player_join_data(&mut state, join_input(1, 1, 10), true, true, 0).unwrap();
    let d = get_player_join_data(&state, vec![2u8; 32], 1, 9).unwrap().unwrap();
    assert_eq!(f32::from_bits(d.spawn_x_norm_bits), 0.5);
    assert_eq!(d.stored_at, 4);
    assert!(get_player_join_data(&state, vec![2u8; 32], 1, 10).unwrap().is_none());
    let rows = get_round_join_data(&state, 1, 9);
    assert_eq!(rows.len(), 2);
    assert_eq!(rows[0].player, vec![1u8; 32]);
    assert_eq!(rows[1].player, vec![2u8; 32]);
    assert_eq!(f32::from_bits(rows[1].spawn_y_norm_bits), -0.25);
}

#[test]
fn join_data_checks_in_order() {
    let mut state = OrbsState::new();
    let mut bad = join_input(1, 0, 1);
    bad.player = vec![1u8; 3];
    assert_eq!(
        store_player_join_data(&mut state, bad.clone(), false, false, 0).unwrap_err(),
        "invalid pubkey length, expected 32 bytes"
    );
    assert_eq!(
        handle_store_player_join_data(&mut state, bad, true, true, 0).unwrap_err(),
        "invalid pubkey size: 3 (expected 32)"
    );
    assert_eq!(
        store_player_join_data(&mut state, join_input(1, 0, 1), false, false, 0).unwrap_err(),
        "spawn position outside unit circle"
    );
    assert_eq!(
        store_player_join_data(&mut state, join_input(1, 0, 1), true, false, 0).unwrap_err(),
        "spawn rotation must be finite"
    );
    let mut greedy = join_input(1, 0, 1);
    greedy.alloc_orb_power = 250;
    assert_eq!(
        store_player_join_data(&mut state, greedy, true, true, 0).unwrap_err(),
        "allocation sum 253 exceeds earned_sp 5"
    );
    assert!(get_round_join_data(&state, 0, 1).is_empty());
    assert_eq!(
        handle_get_player_join_data(&state, vec![0u8; 2], 0, 1).unwrap_err(),
        "invalid pubkey size: 2 (expected 32)"
    );
}

#[test]
fn later_batch_keeps_first_submission_of_a_player() {
    let mut state = OrbsState::new();
    let p = [6u8; 32];
    store_round_snapshot(&mut state, 0, 3, 0, vec![input(p, 10, 1), input(p, 50, 4)], false, None)
        .unwrap();
    store_round_snapshot(&mut state, 0, 3, 0, vec![input(p, 99, 2)], false, None).unwrap();
    let page = get_player_round_history(&state, p.to_vec(), 0, 10).unwrap();
    assert_eq!(page.total, 1);
    assert_eq!(page.rounds[0].join_ts, 10);
    assert_eq!(page.rounds[0].placement, 1);
    // A first batch keeps repeated records as given; later batches add no one twice.
    let snap = get_round_snapshot(&state, 0, 3).unwrap();
    assert_eq!(snap.players.len(), 2);
    assert!(snap.players.iter().all(|r| r.player == p));
}
