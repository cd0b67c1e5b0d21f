use orbs_backend::chunks::{
    compute_leaf_hash, compute_round_id, finish_seed_chunk, format_chunk_root_message,
    get_seed_proof, get_seed_proof_by_offset, prepare_seed_chunk, validate_compact_signature,
    SeedChunk, CHUNK_SIZE,
};
use orbs_backend::merkle::{build_merkle_tree, generate_merkle_proof, get_merkle_root};
use sha2::Digest;

fn fold(leaf: [u8; 32], siblings: &[[u8; 32]], positions: &[bool]) -> [u8; 32] {
    let mut current = leaf;
    for (sibling, &is_right) in siblings.iter().zip(positions.iter()) {
        let mut hasher = sha2::Sha256::new();
        if is_right {
            hasher.update(sibling);
            hasher.update(current);
        } else {
            hasher.update(current);
            hasher.update(sibling);
        }
        let result = hasher.finalize();
        current.copy_from_slice(&result);
    }
    current
}

#[test]
fn test_build_merkle_tree_single_leaf() {
    let leaf = [1u8; 32];
    let layers = build_merkle_tree(&[leaf]);

    assert!(!layers.is_empty());
    let root = get_merkle_root(&layers);
    assert_ne!(root, [0u8; 32]);
}

#[test]
fn test_build_merkle_tree_multiple_leaves() {
    let leaves: Vec<[u8; 32]> = (0..4)
        .map(|i| {
            let mut l = [0u8; 32];
            l[0] = i;
            l
        })
        .collect();

    let layers = build_merkle_tree(&leaves);

    assert_eq!(layers.len(), 3);
    assert_eq!(layers[0].len(), 4);
    assert_eq!(layers[1].len(), 2);
    assert_eq!(layers[2].len(), 1);
}

#[test]
fn test_merkle_proof_verification() {
    let tier_id: u8 = 0;
    let chunk_id: u64 = 0;

    let seeds: Vec<[u8; 32]> = (0..4)
        .map(|i| {
            let mut s = [0u8; 32];
            s[0] = i;
            s
        })
        .collect();

    let leaves: Vec<[u8; 32]> = seeds
        .iter()
        .enumerate()
        .map(|(i, seed)| {
            let round_id = compute_round_id(chunk_id, i as u64);
            compute_leaf_hash(tier_id, round_id, seed)
        })
        .collect();

    let layers = build_merkle_tree(&leaves);
    let root = get_merkle_root(&layers);

    for (i, leaf) in leaves.iter().enumerate() {
        let (siblings, positions) = generate_merkle_proof(&layers, i);
        let current = fold(*leaf, &siblings, &positions);
        assert_eq!(current, root, "Proof verification failed for leaf {}", i);
    }
}

#[test]
fn test_compute_leaf_hash_deterministic() {
    let seed = [42u8; 32];
    let round_id = 5;
    let hash1 = compute_leaf_hash(0, round_id, &seed);
    let hash2 = compute_leaf_hash(0, round_id, &seed);
    assert_eq!(hash1, hash2);
}

#[test]
fn test_compute_round_id() {
    assert_eq!(compute_round_id(0, 0), 1);
    assert_eq!(compute_round_id(0, 49), 50);
    assert_eq!(compute_round_id(1, 0), 51);
    assert_eq!(compute_round_id(2, 5), 106);
}

#[test]
fn test_leaf_hash_different_for_different_rounds() {
    let seed = [42u8; 32];
    let hash_round_0 = compute_leaf_hash(0, 0, &seed);
    let hash_round_1 = compute_leaf_hash(0, 1, &seed);
    assert_ne!(
        hash_round_0, hash_round_1,
        "Same seed should produce different hashes for different rounds"
    );
}

#[test]
fn test_format_chunk_root_message() {
    let root = [0xab; 32];
    let msg = format_chunk_root_message(2, 3, &root);
    assert!(msg.starts_with("OrbsChunkRoot\n"));
    assert!(msg.contains("Tier:2"));
    assert!(msg.contains("Chunk:3"));
    assert!(msg.contains("Root:abab"));
}

#[test]
fn chunk_root_message_is_exact() {
    let mut root = [0u8; 32];
    root[0] = 0x0f;
    root[31] = 0xa0;
    let msg = format_chunk_root_message(255, 18446744073709551615, &root);
    let hex: String = root.iter().map(|b| format!("{:02x}", b)).collect();
    assert_eq!(
        msg,
        format!("OrbsChunkRoot\nTier:255\nChunk:18446744073709551615\nRoot:{}", hex)
    );
    assert_eq!(format_chunk_root_message(0, 0, &[0u8; 32]), format!("OrbsChunkRoot\nTier:0\nChunk:0\nRoot:{}", "0".repeat(64)));
}

#[test]
fn leaf_hash_is_sha256_of_tagged_preimage() {
    let seed = [7u8; 32];
    let mut hasher = sha2::Sha256::new();
    hasher.update(b"orbs-leaf");
    hasher.update(3u8.to_le_bytes());
    hasher.update(77u64.to_le_bytes());
    hasher.update(seed);
    let expected: [u8; 32] = hasher.finalize().into();
    assert_eq!(compute_leaf_hash(3, 77, &seed), expected);
}

#[test]
fn empty_tree_is_single_zero_root() {
    let layers = build_merkle_tree(&[]);
    assert_eq!(layers, vec![vec![[0u8; 32]]]);
    assert_eq!(get_merkle_root(&layers), [0u8; 32]);
    assert_eq!(get_merkle_root(&[]), [0u8; 32]);
}

#[test]
fn tree_pads_to_power_of_two_with_zero_leaves() {
    let leaves: Vec<[u8; 32]> = (0..5u8).map(|i| [i + 1; 32]).collect();
    let layers = build_merkle_tree(&leaves);
    assert_eq!(layers.len(), 4);
    assert_eq!(layers[0].len(), 8);
    assert_eq!(layers[0][5], [0u8; 32]);
    assert_eq!(layers[0][7], [0u8; 32]);
    let mut hasher = sha2::Sha256::new();
    hasher.update(layers[0][0]);
    hasher.update(layers[0][1]);
    let parent: [u8; 32] = hasher.finalize().into();
    assert_eq!(layers[1][0], parent);
    for i in 0..5 {
        let (s, p) = generate_merkle_proof(&layers, i);
        assert_eq!(s.len(), 3);
        assert_eq!(p[0], i % 2 == 1);
        assert_eq!(fold(leaves[i], &s, &p), get_merkle_root(&layers));
    }
}

#[test]
fn proof_skips_missing_siblings() {
    // An odd layer: the last node has no sibling, so that level is skipped.
    let layers = vec![vec![[1u8; 32], [2u8; 32], [3u8; 32]], vec![[4u8; 32], [5u8; 32]], vec![[6u8; 32]]];
    let (s, p) = generate_merkle_proof(&layers, 2);
    assert_eq!(s, vec![[4u8; 32]]);
    assert_eq!(p, vec![true]);
    let (s0, p0) = generate_merkle_proof(&layers, 0);
    assert_eq!(s0, vec![[2u8; 32], [5u8; 32]]);
    assert_eq!(p0, vec![false, false]);
}

#[test]
fn compact_signature_must_be_64_bytes() {
    let sig = vec![9u8; 64];
    assert_eq!(validate_compact_signature(&sig).unwrap().to_vec(), sig);
    assert_eq!(
        validate_compact_signature(&[1u8; 70]).unwrap_err(),
        "Invalid signature length: expected 64 bytes, got 70"
    );
    assert_eq!(
        validate_compact_signature(&[]).unwrap_err(),
        "Invalid signature length: expected 64 bytes, got 0"
    );
}

fn make_chunk(tier_id: u8, chunk_id: u64) -> SeedChunk {
    let raw = [11u8; 40];
    let prepared = prepare_seed_chunk(tier_id, chunk_id, &raw).unwrap();
    finish_seed_chunk(prepared, &[3u8; 64]).unwrap()
}

#[test]
fn prepared_chunk_seeds_and_signed_message() {
    let raw = [11u8; 40];
    let prepared = prepare_seed_chunk(1, 2, &raw).unwrap();
    assert_eq!(prepared.seeds.len(), CHUNK_SIZE as usize);
    let mut hasher = sha2::Sha256::new();
    hasher.update(&raw[..32]);
    hasher.update(0u64.to_le_bytes());
    let first: [u8; 32] = hasher.finalize().into();
    assert_eq!(prepared.seeds[0], first);
    assert_eq!(prepared.merkle_layers[0].len(), 64);
    let root = get_merkle_root(&prepared.merkle_layers);
    let msg = format_chunk_root_message(1, 2, &root);
    let expected: [u8; 32] = sha2::Sha256::digest(msg.as_bytes()).into();
    assert_eq!(prepared.message_hash, expected);
    assert_eq!(
        prepare_seed_chunk(1, 2, &[0u8; 31]).unwrap_err(),
        "raw_rand returned < 32 bytes"
    );
    assert_eq!(
        finish_seed_chunk(prepared, &[0u8; 63]).unwrap_err(),
        "Invalid signature length: expected 64 bytes, got 63"
    );
}

#[test]
fn seed_proofs_verify_against_chunk_root() {
    let chunk = make_chunk(4, 3);
    for offset in [0usize, 1, 25, 49] {
        let round_id = compute_round_id(3, offset as u64);
        let proof = get_seed_proof(&chunk, round_id).unwrap();
        assert_eq!(proof.seed, chunk.seeds[offset]);
        assert_eq!(proof.chunk_id, 3);
        assert_eq!(proof.root_signature, vec![3u8; 64]);
        let leaf = compute_leaf_hash(4, round_id, &proof.seed);
        assert_eq!(fold(leaf, &proof.proof_siblings, &proof.proof_positions), proof.merkle_root);
        let by_offset = get_seed_proof_by_offset(&chunk, offset as u64).unwrap();
        assert_eq!(by_offset.proof_siblings, proof.proof_siblings);
    }
}

#[test]
fn seed_proof_errors() {
    let chunk = make_chunk(0, 1);
    assert_eq!(
        get_seed_proof(&chunk, 10).unwrap_err(),
        "Chunk ID mismatch: expected 0 for round 10, got 1"
    );
    assert_eq!(
        get_seed_proof_by_offset(&chunk, 50).unwrap_err(),
        "Offset 50 out of bounds for chunk (max 50)"
    );
    let mut short = make_chunk(0, 0);
    short.seeds.truncate(10);
    assert_eq!(get_seed_proof(&short, 20).unwrap_err(), "Offset 19 out of bounds for chunk");
    // round 0 maps to chunk 0, offset 0
    assert!(get_seed_proof(&short, 0).is_ok());
}
