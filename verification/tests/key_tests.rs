use orbs_backend::keys::{
    chunk_offset_key, parse_player_config_key, parse_player_join_key, player_config_key,
    player_config_prefix, player_join_key, revealed_seed_key, round_snapshot_key, seed_chunk_key,
    version_to_key,
};

#[test]
fn test_player_join_key_roundtrip() {
    let player = [42u8; 32];
    let tier_id = 2u8;
    let round_id = 12345u64;

    let key = player_join_key(&player, tier_id, round_id);
    let (p, t, r) = parse_player_join_key(&key);

    assert_eq!(p, player);
    assert_eq!(t, tier_id);
    assert_eq!(r, round_id);
}

#[test]
fn test_player_config_key_roundtrip() {
    let round_id = 12345u64;
    let tier_id = 2u8;
    let player_config_hash = [42u8; 32];

    let key = player_config_key(round_id, tier_id, &player_config_hash);
    let (r, t, h) = parse_player_config_key(&key);

    assert_eq!(r, round_id);
    assert_eq!(t, tier_id);
    assert_eq!(h, player_config_hash);
}

#[test]
fn test_player_config_prefix() {
    let round_id = 12345u64;
    let tier_id = 2u8;

    let prefix = player_config_prefix(round_id, tier_id);
    let key = player_config_key(round_id, tier_id, &[0u8; 32]);

    assert_eq!(&key[0..9], &prefix);
}

#[test]
fn test_key_derivation_different_hashes() {
    let round_id = 100u64;
    let tier_id = 0u8;

    let hash1 = [1u8; 32];
    let hash2 = [2u8; 32];

    let key1 = player_config_key(round_id, tier_id, &hash1);
    let key2 = player_config_key(round_id, tier_id, &hash2);

    assert_ne!(key1, key2);
    assert_eq!(&key1[0..9], &key2[0..9]);
}

#[test]
fn test_key_derivation_different_rounds() {
    let hash = [42u8; 32];

    let key1 = player_config_key(100, 0, &hash);
    let key2 = player_config_key(101, 0, &hash);

    assert_ne!(key1, key2);
    assert_ne!(&key1[0..9], &key2[0..9]);
}

#[test]
fn test_key_derivation_different_tiers() {
    let hash = [42u8; 32];

    let key1 = player_config_key(100, 0, &hash);
    let key2 = player_config_key(100, 1, &hash);

    assert_ne!(key1, key2);
    assert_ne!(&key1[0..9], &key2[0..9]);
}

#[test]
fn join_key_layout_is_player_tier_round_big_endian() {
    let mut player = [0u8; 32];
    player[0] = 7;
    player[31] = 9;
    let key = player_join_key(&player, 3, 0x0102030405060708);
    assert_eq!(&key[0..32], &player[..]);
    assert_eq!(key[32], 3);
    assert_eq!(&key[33..41], &[1, 2, 3, 4, 5, 6, 7, 8]);
}

#[test]
fn config_key_layout_is_round_big_endian_tier_hash() {
    let hash = [5u8; 32];
    let key = player_config_key(0x0a0b, 4, &hash);
    assert_eq!(&key[0..8], &[0, 0, 0, 0, 0, 0, 0x0a, 0x0b]);
    assert_eq!(key[8], 4);
    assert_eq!(&key[9..41], &hash[..]);
    let prefix = player_config_prefix(0x0a0b, 4);
    assert_eq!(prefix, [0, 0, 0, 0, 0, 0, 0x0a, 0x0b, 4]);
}

#[test]
fn version_key_pads_and_truncates() {
    let k = version_to_key("1.2.2");
    let mut expected = [0u8; 16];
    expected[..5].copy_from_slice(b"1.2.2");
    assert_eq!(k, expected);
    let long = version_to_key("0123456789abcdefXYZ");
    assert_eq!(&long, b"0123456789abcdef");
    assert_eq!(version_to_key(""), [0u8; 16]);
}

#[test]
fn round_keys_put_tier_above_round() {
    assert_eq!(round_snapshot_key(0, 5), 5);
    assert_eq!(round_snapshot_key(1, 5), (1u128 << 64) | 5);
    assert_eq!(round_snapshot_key(255, u64::MAX), (255u128 << 64) | (u64::MAX as u128));
    assert_eq!(revealed_seed_key(3, 9), round_snapshot_key(3, 9));
    assert_eq!(seed_chunk_key(7), 7u32);
    assert_eq!(chunk_offset_key(200), 200u32);
}
