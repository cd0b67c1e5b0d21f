//! Merkle-tree-based seed chunks.
//!
//! Seeds are generated in chunks of `CHUNK_SIZE`. Each chunk has a Merkle tree built over
//! its leaf hashes, and the root is signed. When a round needs a seed, it is served with
//! its Merkle proof and the chunk signature.
use vstd::prelude::*;
use vstd::string::StringSliceAdditionalSpecFns;
use vstd::utf8::encode_utf8;
use vstd::string::StringExecFns;
use crate::hashing::{sha256, sha256_of};
use crate::merkle::{
    build_merkle_tree, fold_proof, generate_merkle_proof, get_merkle_root, layers_view,
    lemma_merkle_proof_verifies, merkle_layers, proof_of, root_of,
};
use crate::text::{copy_vec, decimal, hex_lower, push_bytes, push_decimal, push_hex, text};

verus! {

/// Number of seeds per chunk.
pub const CHUNK_SIZE: u64 = 50;

/// A generated seed chunk with its Merkle tree.
#[derive(Debug, Clone)]
pub struct SeedChunk {
    /// Tier this chunk belongs to.
    pub tier_id: u8,
    /// Chunk id (sequential within the tier).
    pub chunk_id: u64,
    /// The seeds of this chunk.
    pub seeds: Vec<[u8; 32]>,
    /// Merkle tree layers (layer 0 = leaves, last layer = root).
    pub merkle_layers: Vec<Vec<[u8; 32]>>,
    /// ECDSA signature over the chunk root message.
    pub root_signature: Vec<u8>,
}

/// Proof data for a single seed within a chunk.
#[derive(Debug, Clone)]
pub struct SeedProof {
    /// The seed value.
    pub seed: [u8; 32],
    /// Chunk id.
    pub chunk_id: u64,
    /// Merkle root of the chunk.
    pub merkle_root: [u8; 32],
    /// ECDSA signature over the chunk root message.
    pub root_signature: Vec<u8>,
    /// Sibling hashes of the Merkle proof, from leaf to root.
    pub proof_siblings: Vec<[u8; 32]>,
    /// Position flags: false = current node is the left child, true = the right child.
    pub proof_positions: Vec<bool>,
}

/// A seed proof as plain values.
pub struct SeedProofView {
    pub seed: [u8; 32],
    pub chunk_id: u64,
    pub merkle_root: [u8; 32],
    pub root_signature: Seq<u8>,
    pub proof_siblings: Seq<[u8; 32]>,
    pub proof_positions: Seq<bool>,
}

impl View for SeedProof {
    type V = SeedProofView;

    open spec fn view(&self) -> SeedProofView {
        SeedProofView {
            seed: self.seed,
            chunk_id: self.chunk_id,
            merkle_root: self.merkle_root,
            root_signature: self.root_signature@,
            proof_siblings: self.proof_siblings@,
            proof_positions: self.proof_positions@,
        }
    }
}

impl SeedProof {
    /// A copy of this proof.
    pub fn copy(&self) -> (r: SeedProof)
        ensures
            r@ == self@,
    {
        SeedProof {
            seed: self.seed,
            chunk_id: self.chunk_id,
            merkle_root: self.merkle_root,
            root_signature: copy_vec(&self.root_signature),
            proof_siblings: copy_vec(&self.proof_siblings),
            proof_positions: copy_vec(&self.proof_positions),
        }
    }
}

/// Error text of a signature of the wrong length.
pub open spec fn signature_length_error(len: nat) -> Seq<char> {
    "Invalid signature length: expected 64 bytes, got "@ + decimal(len)
}

/// Check that a signature is 64 bytes (compact r||s) and return it as an array.
pub fn validate_compact_signature(sig: &[u8]) -> (r: Result<[u8; 64], String>)
    ensures
        r matches Ok(c) ==> sig@.len() == 64 && c@ == sig@,
        r matches Err(e) ==> sig@.len() != 64 && e@ == signature_length_error(sig@.len()),
{
    if sig.len() != 64 {
        let mut e = text("Invalid signature length: expected 64 bytes, got ");
        push_decimal(&mut e, sig.len() as u64);
        return Err(e);
    }
    let mut compact = [0u8; 64];
    let mut i: usize = 0;
    while i < 64
        invariant
            0 <= i <= 64,
            sig@.len() == 64,
            compact@.len() == 64,
            forall|j: int| 0 <= j < i ==> compact@[j] == sig@[j],
        decreases 64 - i,
    {
        compact[i] = sig[i];
        i = i + 1;
    }
    assert(compact@ =~= sig@);
    Ok(compact)
}

/// Little-endian bytes of a `u64`.
pub open spec fn u64_le_bytes(x: u64) -> Seq<u8> {
    seq![
        (x & 0xff) as u8,
        ((x >> 8u64) & 0xff) as u8,
        ((x >> 16u64) & 0xff) as u8,
        ((x >> 24u64) & 0xff) as u8,
        ((x >> 32u64) & 0xff) as u8,
        ((x >> 40u64) & 0xff) as u8,
        ((x >> 48u64) & 0xff) as u8,
        ((x >> 56u64) & 0xff) as u8,
    ]
}

/// Little-endian bytes of `x`.
pub fn u64_to_le(x: u64) -> (r: [u8; 8])
    ensures
        r@ == u64_le_bytes(x),
{
    let r = [
        (x & 0xff) as u8,
        ((x >> 8u64) & 0xff) as u8,
        ((x >> 16u64) & 0xff) as u8,
        ((x >> 24u64) & 0xff) as u8,
        ((x >> 32u64) & 0xff) as u8,
        ((x >> 40u64) & 0xff) as u8,
        ((x >> 48u64) & 0xff) as u8,
        ((x >> 56u64) & 0xff) as u8,
    ];
    assert(r@ =~= u64_le_bytes(x));
    r
}

/// The ASCII bytes of the leaf domain tag "orbs-leaf".
pub open spec fn leaf_tag() -> Seq<u8> {
    seq![0x6fu8, 0x72u8, 0x62u8, 0x73u8, 0x2du8, 0x6cu8, 0x65u8, 0x61u8, 0x66u8]
}

/// What is hashed into a leaf: "orbs-leaf" || tier || round (little-endian) || seed.
pub open spec fn leaf_preimage(tier_id: u8, round_id: u64, seed: Seq<u8>) -> Seq<u8> {
    leaf_tag() + seq![tier_id] + u64_le_bytes(round_id) + seed
}

/// The leaf hash of a seed for a round.
pub open spec fn leaf_hash(tier_id: u8, round_id: u64, seed: Seq<u8>) -> [u8; 32] {
    sha256_of(leaf_preimage(tier_id, round_id, seed))
}

/// Compute the leaf hash for a seed:
/// sha256("orbs-leaf" || tier_id || round_id (little-endian) || seed).
pub fn compute_leaf_hash(tier_id: u8, round_id: u64, seed: &[u8; 32]) -> (h: [u8; 32])
    ensures
        h == leaf_hash(tier_id, round_id, seed@),
{
    let tag: [u8; 9] = [0x6fu8, 0x72u8, 0x62u8, 0x73u8, 0x2du8, 0x6cu8, 0x65u8, 0x61u8, 0x66u8];
    assert(tag@ =~= leaf_tag());
    let mut buf: Vec<u8> = Vec::new();
    push_bytes(&mut buf, tag.as_slice());
    buf.push(tier_id);
    let rb = u64_to_le(round_id);
    push_bytes(&mut buf, rb.as_slice());
    push_bytes(&mut buf, seed.as_slice());
    assert(buf@ =~= leaf_preimage(tier_id, round_id, seed@));
    sha256(buf.as_slice())
}

/// Round id of the seed at `offset` of chunk `chunk_id`: rounds are 1-indexed.
pub open spec fn spec_round_id(chunk_id: u64, offset: u64) -> int {
    chunk_id * CHUNK_SIZE + offset + 1
}

/// Compute a round id from a chunk id and an offset within the chunk:
/// chunk_id * CHUNK_SIZE + offset + 1.
pub fn compute_round_id(chunk_id: u64, offset: u64) -> (r: u64)
    requires
        spec_round_id(chunk_id, offset) <= u64::MAX,
    ensures
        r == spec_round_id(chunk_id, offset),
{
    chunk_id * CHUNK_SIZE + offset + 1
}

/// The chunk holding the seed of a round: (round_id - 1) / CHUNK_SIZE, 0 for round 0.
pub open spec fn chunk_id_of_round(round_id: u64) -> u64 {
    if round_id > 0 {
        ((round_id - 1) / (CHUNK_SIZE as int)) as u64
    } else {
        0
    }
}

/// The position within its chunk of a round's seed: (round_id - 1) % CHUNK_SIZE, 0 for round 0.
pub open spec fn offset_of_round(round_id: u64) -> u64 {
    if round_id > 0 {
        ((round_id - 1) % (CHUNK_SIZE as int)) as u64
    } else {
        0
    }
}

/// The message whose hash is signed for a chunk root.
pub open spec fn chunk_root_message(tier_id: u8, chunk_id: u64, root: [u8; 32]) -> Seq<char> {
    "OrbsChunkRoot\nTier:"@ + decimal(tier_id as nat) + "\nChunk:"@ + decimal(chunk_id as nat)
        + "\nRoot:"@ + hex_lower(root@)
}

/// Format the chunk root message for signing:
/// "OrbsChunkRoot\nTier:<tier_id>\nChunk:<chunk_id>\nRoot:<root_hex>".
pub fn format_chunk_root_message(tier_id: u8, chunk_id: u64, merkle_root: &[u8; 32]) -> (m:
    String)
    ensures
        m@ == chunk_root_message(tier_id, chunk_id, *merkle_root),
{
    let mut m = text("OrbsChunkRoot\nTier:");
    push_decimal(&mut m, tier_id as u64);
    m.append("\nChunk:");
    push_decimal(&mut m, chunk_id);
    m.append("\nRoot:");
    push_hex(&mut m, merkle_root.as_slice());
    m
}

/// The proof of the seed at `offset` of a chunk.
pub open spec fn proof_at(chunk: SeedChunk, offset: int) -> SeedProofView {
    let layers = layers_view(chunk.merkle_layers@);
    let p = proof_of(layers, offset as nat);
    SeedProofView {
        seed: chunk.seeds@[offset],
        chunk_id: chunk.chunk_id,
        merkle_root: root_of(layers),
        root_signature: chunk.root_signature@,
        proof_siblings: p.0,
        proof_positions: p.1,
    }
}

fn proof_at_offset(chunk: &SeedChunk, offset: usize) -> (p: SeedProof)
    requires
        offset < chunk.seeds@.len(),
    ensures
        p@ == proof_at(*chunk, offset as int),
{
    let seed = chunk.seeds[offset];
    let merkle_root = get_merkle_root(chunk.merkle_layers.as_slice());
    let (proof_siblings, proof_positions) = generate_merkle_proof(
        chunk.merkle_layers.as_slice(),
        offset,
    );
    SeedProof {
        seed,
        chunk_id: chunk.chunk_id,
        merkle_root,
        root_signature: copy_vec(&chunk.root_signature),
        proof_siblings,
        proof_positions,
    }
}

pub open spec fn chunk_mismatch_error(expected: u64, round_id: u64, got: u64) -> Seq<char> {
    "Chunk ID mismatch: expected "@ + decimal(expected as nat) + " for round "@ + decimal(
        round_id as nat,
    ) + ", got "@ + decimal(got as nat)
}

pub open spec fn offset_error(offset: u64) -> Seq<char> {
    "Offset "@ + decimal(offset as nat) + " out of bounds for chunk"@
}

/// Get the seed proof for a round from a chunk; the chunk must be the one of the round.
pub fn get_seed_proof(chunk: &SeedChunk, round_id: u64) -> (r: Result<SeedProof, String>)
    ensures
        r is Ok <==> chunk.chunk_id == chunk_id_of_round(round_id) && offset_of_round(round_id)
            < chunk.seeds@.len(),
        r matches Ok(p) ==> p@ == proof_at(*chunk, offset_of_round(round_id) as int),
        r matches Err(e) ==> if chunk.chunk_id != chunk_id_of_round(round_id) {
            e@ == chunk_mismatch_error(chunk_id_of_round(round_id), round_id, chunk.chunk_id)
        } else {
            e@ == offset_error(offset_of_round(round_id))
        },
{
    let expected_chunk_id = if round_id > 0 {
        (round_id - 1) / CHUNK_SIZE
    } else {
        0
    };
    if chunk.chunk_id != expected_chunk_id {
        let mut e = text("Chunk ID mismatch: expected ");
        push_decimal(&mut e, expected_chunk_id);
        e.append(" for round ");
        push_decimal(&mut e, round_id);
        e.append(", got ");
        push_decimal(&mut e, chunk.chunk_id);
        return Err(e);
    }
    let offset = if round_id > 0 {
        (round_id - 1) % CHUNK_SIZE
    } else {
        0
    };
    if offset as usize >= chunk.seeds.len() {
        let mut e = text("Offset ");
        push_decimal(&mut e, offset);
        e.append(" out of bounds for chunk");
        return Err(e);
    }
    Ok(proof_at_offset(chunk, offset as usize))
}

pub open spec fn offset_max_error(offset: u64, max: nat) -> Seq<char> {
    "Offset "@ + decimal(offset as nat) + " out of bounds for chunk (max "@ + decimal(max) + ")"@
}

/// Get the seed proof of the seed at `offset_in_chunk`.
pub fn get_seed_proof_by_offset(chunk: &SeedChunk, offset_in_chunk: u64) -> (r: Result<
    SeedProof,
    String,
>)
    ensures
        r is Ok <==> offset_in_chunk < chunk.seeds@.len(),
        r matches Ok(p) ==> p@ == proof_at(*chunk, offset_in_chunk as int),
        r matches Err(e) ==> e@ == offset_max_error(offset_in_chunk, chunk.seeds@.len()),
{
    if offset_in_chunk >= chunk.seeds.len() as u64 {
        let mut e = text("Offset ");
        push_decimal(&mut e, offset_in_chunk);
        e.append(" out of bounds for chunk (max ");
        push_decimal(&mut e, chunk.seeds.len() as u64);
        e.append(")");
        return Err(e);
    }
    Ok(proof_at_offset(chunk, offset_in_chunk as usize))
}

/// A chunk whose seeds and tree are computed and whose root message hash awaits signing.
#[derive(Debug, Clone)]
pub struct PreparedChunk {
    pub tier_id: u8,
    pub chunk_id: u64,
    pub seeds: Vec<[u8; 32]>,
    pub merkle_layers: Vec<Vec<[u8; 32]>>,
    /// SHA-256 of the chunk root message; this is what gets signed.
    pub message_hash: [u8; 32],
}

/// Seed `i` of a chunk derived from a master seed: sha256(master || i (little-endian)).
pub open spec fn derived_seed(master: Seq<u8>, i: u64) -> [u8; 32] {
    sha256_of(master + u64_le_bytes(i))
}

/// The seeds of a chunk derived from a master seed.
pub open spec fn derived_seeds(master: Seq<u8>) -> Seq<[u8; 32]> {
    Seq::new(CHUNK_SIZE as nat, |i: int| derived_seed(master, i as u64))
}

/// Leaf hashes of a chunk's seeds, each bound to its round.
pub open spec fn chunk_leaves(tier_id: u8, chunk_id: u64, seeds: Seq<[u8; 32]>) -> Seq<[u8; 32]> {
    Seq::new(
        seeds.len(),
        |i: int| leaf_hash(tier_id, spec_round_id(chunk_id, i as u64) as u64, seeds[i]@),
    )
}

/// Everything that is determined by a master seed: seeds, tree, and the hash to sign.
pub open spec fn prepared_from(prepared: PreparedChunk, tier_id: u8, chunk_id: u64, master: Seq<u8>) -> bool {
    let seeds = derived_seeds(master);
    let layers = merkle_layers(chunk_leaves(tier_id, chunk_id, seeds));
    &&& prepared.tier_id == tier_id
    &&& prepared.chunk_id == chunk_id
    &&& prepared.seeds@ == seeds
    &&& layers_view(prepared.merkle_layers@) == layers
    &&& prepared.message_hash == sha256_of(
        encode_utf8(chunk_root_message(tier_id, chunk_id, root_of(layers))),
    )
}

/// Derive the seeds of a chunk from a master seed.
fn derive_seeds(master: &[u8]) -> (seeds: Vec<[u8; 32]>)
    ensures
        seeds@ == derived_seeds(master@),
{
    let mut seeds: Vec<[u8; 32]> = Vec::new();
    let mut i: u64 = 0;
    while i < CHUNK_SIZE
        invariant
            0 <= i <= CHUNK_SIZE,
            seeds@.len() == i,
            forall|j: int| 0 <= j < i ==> seeds@[j] == derived_seed(master@, j as u64),
        decreases CHUNK_SIZE - i,
    {
        let mut buf: Vec<u8> = Vec::new();
        push_bytes(&mut buf, master);
        let ib = u64_to_le(i);
        push_bytes(&mut buf, ib.as_slice());
        seeds.push(sha256(buf.as_slice()));
        i = i + 1;
    }
    assert(seeds@ =~= derived_seeds(master@));
    seeds
}

/// Leaf hashes of the seeds of a chunk.
fn leaves_of(tier_id: u8, chunk_id: u64, seeds: &Vec<[u8; 32]>) -> (leaves: Vec<[u8; 32]>)
    requires
        spec_round_id(chunk_id, seeds@.len() as u64) <= u64::MAX,
        seeds@.len() <= CHUNK_SIZE,
    ensures
        leaves@ == chunk_leaves(tier_id, chunk_id, seeds@),
{
    let mut leaves: Vec<[u8; 32]> = Vec::new();
    let mut i: usize = 0;
    while i < seeds.len()
        invariant
            0 <= i <= seeds@.len(),
            seeds@.len() <= CHUNK_SIZE,
            spec_round_id(chunk_id, seeds@.len() as u64) <= u64::MAX,
            leaves@.len() == i,
            forall|j: int| 0 <= j < i ==> leaves@[j] == chunk_leaves(tier_id, chunk_id, seeds@)[j],
        decreases seeds@.len() - i,
    {
        let round_id = compute_round_id(chunk_id, i as u64);
        leaves.push(compute_leaf_hash(tier_id, round_id, &seeds[i]));
        i = i + 1;
    }
    assert(leaves@ =~= chunk_leaves(tier_id, chunk_id, seeds@));
    leaves
}

/// Compute a chunk from fresh randomness `raw`: the first 32 bytes are the master seed,
/// from which the seeds, their Merkle tree and the hash of the root message follow.
/// The master seed itself is not kept.
pub fn prepare_seed_chunk(tier_id: u8, chunk_id: u64, raw: &[u8]) -> (r: Result<
    PreparedChunk,
    String,
>)
    requires
        spec_round_id(chunk_id, CHUNK_SIZE) <= u64::MAX,
    ensures
        r is Ok <==> raw@.len() >= 32,
        r matches Ok(p) ==> prepared_from(p, tier_id, chunk_id, raw@.subrange(0, 32)),
        r matches Err(e) ==> e@ == "raw_rand returned < 32 bytes"@,
{
    if raw.len() < 32 {
        return Err(text("raw_rand returned < 32 bytes"));
    }
    let mut master: Vec<u8> = Vec::new();
    let mut i: usize = 0;
    while i < 32
        invariant
            0 <= i <= 32,
            raw@.len() >= 32,
            master@ == raw@.subrange(0, i as int),
        decreases 32 - i,
    {
        master.push(raw[i]);
        assert(raw@.subrange(0, i + 1) =~= raw@.subrange(0, i as int).push(raw@[i as int]));
        i = i + 1;
    }
    let seeds = derive_seeds(master.as_slice());
    let leaves = leaves_of(tier_id, chunk_id, &seeds);
    let merkle_layers = build_merkle_tree(leaves.as_slice());
    let merkle_root = get_merkle_root(merkle_layers.as_slice());
    let message = format_chunk_root_message(tier_id, chunk_id, &merkle_root);
    let message_hash = sha256(message.as_str().as_bytes());
    Ok(PreparedChunk { tier_id, chunk_id, seeds, merkle_layers, message_hash })
}

/// The signed chunk made from a prepared chunk and the signature over its message hash.
pub fn finish_seed_chunk(prepared: PreparedChunk, signature: &[u8]) -> (r: Result<
    SeedChunk,
    String,
>)
    ensures
        r is Ok <==> signature@.len() == 64,
        r matches Ok(c) ==> c.tier_id == prepared.tier_id && c.chunk_id == prepared.chunk_id
            && c.seeds@ == prepared.seeds@ && c.merkle_layers@ == prepared.merkle_layers@
            && c.root_signature@ == signature@,
        r matches Err(e) ==> e@ == signature_length_error(signature@.len()),
{
    let compact = validate_compact_signature(signature)?;
    let mut root_signature: Vec<u8> = Vec::new();
    push_bytes(&mut root_signature, compact.as_slice());
    assert(root_signature@ =~= signature@);
    Ok(
        SeedChunk {
            tier_id: prepared.tier_id,
            chunk_id: prepared.chunk_id,
            seeds: prepared.seeds,
            merkle_layers: prepared.merkle_layers,
            root_signature,
        },
    )
}

/// Rounds and (chunk, offset) pairs correspond one to one: round r >= 1 is seed
/// (r - 1) % CHUNK_SIZE of chunk (r - 1) / CHUNK_SIZE, and that seed's round is r again.
pub proof fn lemma_round_chunk_correspondence(round_id: u64, chunk_id: u64, offset: u64)
    ensures
        round_id >= 1 ==> offset_of_round(round_id) < CHUNK_SIZE && spec_round_id(
            chunk_id_of_round(round_id),
            offset_of_round(round_id),
        ) == round_id,
        offset < CHUNK_SIZE && spec_round_id(chunk_id, offset) <= u64::MAX ==> chunk_id_of_round(
            spec_round_id(chunk_id, offset) as u64,
        ) == chunk_id && offset_of_round(spec_round_id(chunk_id, offset) as u64) == offset,
{
    if round_id >= 1 {
        vstd::arithmetic::div_mod::lemma_fundamental_div_mod((round_id - 1) as int, 50);
    }
    if offset < CHUNK_SIZE && spec_round_id(chunk_id, offset) <= u64::MAX {
        vstd::arithmetic::div_mod::lemma_fundamental_div_mod_converse(
            chunk_id * 50 + offset,
            50,
            chunk_id as int,
            offset as int,
        );
    }
}

/// The proof served for a seed of a chunk built from its seeds folds, from the seed's leaf
/// hash for its own round, to the chunk's Merkle root.
pub proof fn lemma_seed_proof_verifies(chunk: SeedChunk, offset: u64)
    requires
        layers_view(chunk.merkle_layers@) == merkle_layers(
            chunk_leaves(chunk.tier_id, chunk.chunk_id, chunk.seeds@),
        ),
        offset < chunk.seeds@.len(),
    ensures
        ({
            let p = proof_at(chunk, offset as int);
            fold_proof(
                leaf_hash(chunk.tier_id, spec_round_id(chunk.chunk_id, offset) as u64, p.seed@),
                p.proof_siblings,
                p.proof_positions,
            ) == p.merkle_root
        }),
{
    let leaves = chunk_leaves(chunk.tier_id, chunk.chunk_id, chunk.seeds@);
    lemma_merkle_proof_verifies(leaves, offset as nat);
}

} // verus!
