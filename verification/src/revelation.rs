//! Two-slot seed chunk management and sequential seed revelation.
//!
//! Each tier has two chunk slots: CURRENT holds the chunk of the round most recently
//! revealed, NEXT the prefetched chunk that becomes CURRENT at the next chunk boundary.
//! Reads consult both slots. Revealed proofs move to the public revealed table; a round
//! may only be revealed right after the last settled one.
//!
//! Chunk generation needs randomness and a threshold signature from outside the canister,
//! so revelation is split into steps: `begin_reveal` decides whether a CURRENT chunk must
//! be generated first, `commit_reveal` reveals and says which NEXT-slot maintenance follows,
//! and `next_chunk_needed` / `install_next_chunk` / `promote_next_to_current` carry it out.
use vstd::prelude::*;
use vstd::string::StringExecFns;
use crate::chunks::{
    chunk_id_of_round, get_seed_proof_by_offset, offset_of_round, proof_at, SeedChunk, SeedProof,
    SeedProofView, CHUNK_SIZE,
};
use crate::chunks::{chunk_leaves, lemma_round_chunk_correspondence, lemma_seed_proof_verifies, leaf_hash, prepared_from, PreparedChunk};
use crate::merkle::{fold_proof, lemma_fifty_leaf_tree_height, lemma_merkle_proof_shape, layers_view, merkle_layers};
use vstd::arithmetic::power2::pow2;
use crate::keys::{chunk_offset_key, revealed_seed_key, seed_chunk_key, spec_round_key};
use crate::state::{registry_eq, round_tables_eq, OrbsState};
use crate::text::{decimal, option_text, push_decimal, push_option, text};

verus! {

/// The value kept for a tier in a per-tier counter table, 0 if absent.
pub open spec fn tier_value(m: Map<u32, u64>, tier_id: u8) -> u64 {
    if m.contains_key(tier_id as u32) {
        m[tier_id as u32]
    } else {
        0
    }
}

/// The chunk id held in a slot of a tier, if any.
pub open spec fn slot_chunk_id(m: Map<u32, SeedChunk>, tier_id: u8) -> Option<u64> {
    if m.contains_key(tier_id as u32) {
        Some(m[tier_id as u32].chunk_id)
    } else {
        None
    }
}

/// The seed at `offset` of chunk `chunk_id` if that slot holds that chunk.
pub open spec fn slot_seed(m: Map<u32, SeedChunk>, tier_id: u8, chunk_id: u64, offset: int) -> Option<
    [u8; 32],
> {
    if m.contains_key(tier_id as u32) && m[tier_id as u32].chunk_id == chunk_id && 0 <= offset
        < m[tier_id as u32].seeds@.len() {
        Some(m[tier_id as u32].seeds@[offset])
    } else {
        None
    }
}

/// Only the tier's entry of one seed table differs, and no other table changes.
pub open spec fn only_seed_tables_changed(a: OrbsState, b: OrbsState) -> bool {
    &&& round_tables_eq(a, b)
    &&& registry_eq(a, b)
}

/// Store a freshly generated chunk in the CURRENT slot of its tier.
pub fn install_current_chunk(state: &mut OrbsState, tier_id: u8, chunk: SeedChunk)
    requires
        old(state).wf(),
    ensures
        final(state).wf(),
        final(state).seed_chunks@ == old(state).seed_chunks@.insert(tier_id as u32, chunk),
        final(state).seed_chunks_next == old(state).seed_chunks_next,
        final(state).chunk_offsets == old(state).chunk_offsets,
        final(state).last_settled_rounds == old(state).last_settled_rounds,
        final(state).revealed_seeds == old(state).revealed_seeds,
        only_seed_tables_changed(*final(state), *old(state)),
{
    let key = seed_chunk_key(tier_id);
    state.seed_chunks.insert(key, chunk);
}

/// Get a seed proof for the seed at `offset_in_chunk` of the CURRENT chunk of a tier.
pub fn get_seed_proof(state: &OrbsState, tier_id: u8, offset_in_chunk: u64) -> (r: Result<
    SeedProof,
    String,
>)
    requires
        state.wf(),
    ensures
        r is Ok <==> state.seed_chunks@.contains_key(tier_id as u32) && offset_in_chunk
            < state.seed_chunks@[tier_id as u32].seeds@.len(),
        r matches Ok(p) ==> p@ == proof_at(state.seed_chunks@[tier_id as u32], offset_in_chunk as int),
        r matches Err(e) ==> !state.seed_chunks@.contains_key(tier_id as u32) ==> e@
            == "Chunk not found for tier="@ + decimal(tier_id as nat),
{
    let key = seed_chunk_key(tier_id);
    match state.seed_chunks.get(&key) {
        None => {
            let mut e = text("Chunk not found for tier=");
            push_decimal(&mut e, tier_id as u64);
            Err(e)
        },
        Some(chunk) => get_seed_proof_by_offset(chunk, offset_in_chunk),
    }
}

/// Whether a CURRENT chunk exists for the tier.
pub fn chunk_exists(state: &OrbsState, tier_id: u8) -> (b: bool)
    requires
        state.wf(),
    ensures
        b == state.seed_chunks@.contains_key(tier_id as u32),
{
    state.seed_chunks.contains_key(&seed_chunk_key(tier_id))
}

/// The chunk id of the CURRENT chunk of a tier, if any.
pub fn get_stored_chunk_id(state: &OrbsState, tier_id: u8) -> (r: Option<u64>)
    requires
        state.wf(),
    ensures
        r == slot_chunk_id(state.seed_chunks@, tier_id),
{
    match state.seed_chunks.get(&seed_chunk_key(tier_id)) {
        Some(c) => Some(c.chunk_id),
        None => None,
    }
}

/// The chunk id of the NEXT chunk of a tier, if any.
pub fn get_stored_chunk_id_next(state: &OrbsState, tier_id: u8) -> (r: Option<u64>)
    requires
        state.wf(),
    ensures
        r == slot_chunk_id(state.seed_chunks_next@, tier_id),
{
    match state.seed_chunks_next.get(&seed_chunk_key(tier_id)) {
        Some(c) => Some(c.chunk_id),
        None => None,
    }
}

/// Whether the NEXT slot of the tier is populated.
pub fn next_chunk_exists(state: &OrbsState, tier_id: u8) -> (b: bool)
    requires
        state.wf(),
    ensures
        b == state.seed_chunks_next@.contains_key(tier_id as u32),
{
    state.seed_chunks_next.contains_key(&seed_chunk_key(tier_id))
}

/// The raw seed of a round, if CURRENT or NEXT (in that order) holds the round's chunk.
pub open spec fn round_seed(state: OrbsState, tier_id: u8, round_id: u64) -> Option<[u8; 32]> {
    if round_id == 0 {
        None
    } else {
        let c = chunk_id_of_round(round_id);
        let o = offset_of_round(round_id) as int;
        let cur = slot_seed(state.seed_chunks@, tier_id, c, o);
        if cur is Some {
            cur
        } else {
            slot_seed(state.seed_chunks_next@, tier_id, c, o)
        }
    }
}

pub open spec fn seed_round_error(
    tier_id: u8,
    round_id: u64,
    current: Option<u64>,
    next: Option<u64>,
) -> Seq<char> {
    if current is None && next is None {
        "no seed chunk for tier "@ + decimal(tier_id as nat)
            + ". Call reveal_seed_for_round to bootstrap."@
    } else {
        "seed chunk mismatch: have current="@ + option_text(current) + " next="@ + option_text(
            next,
        ) + " but need chunk "@ + decimal(chunk_id_of_round(round_id) as nat) + " for round "@
            + decimal(round_id as nat)
    }
}

/// The error of looking up the raw seed of a round that neither slot can serve.
pub open spec fn raw_seed_error(state: OrbsState, tier_id: u8, round_id: u64) -> Seq<char> {
    if round_id == 0 {
        "round_id must be >= 1"@
    } else {
        seed_round_error(
            tier_id,
            round_id,
            slot_chunk_id(state.seed_chunks@, tier_id),
            slot_chunk_id(state.seed_chunks_next@, tier_id),
        )
    }
}

/// The raw seed of a round from the CURRENT or NEXT chunk (not revealed yet).
/// CURRENT is consulted first; whichever slot holds chunk (round_id - 1) / CHUNK_SIZE
/// serves the seed at offset (round_id - 1) % CHUNK_SIZE.
pub fn get_raw_seed_for_round(state: &OrbsState, tier_id: u8, round_id: u64) -> (r: Result<
    [u8; 32],
    String,
>)
    requires
        state.wf(),
    ensures
        r is Ok <==> round_seed(*state, tier_id, round_id) is Some,
        r matches Ok(s) ==> round_seed(*state, tier_id, round_id) == Some(s),
        r matches Err(e) ==> e@ == raw_seed_error(*state, tier_id, round_id),
        round_id == 0 ==> r == Err::<[u8; 32], String>(r->Err_0) && r->Err_0@
            == "round_id must be >= 1"@,
        round_id > 0 ==> {
            let c = chunk_id_of_round(round_id);
            let o = offset_of_round(round_id) as int;
            let cur = slot_seed(state.seed_chunks@, tier_id, c, o);
            let nxt = slot_seed(state.seed_chunks_next@, tier_id, c, o);
            if cur is Some {
                r == Ok::<[u8; 32], String>(cur->Some_0)
            } else if nxt is Some {
                r == Ok::<[u8; 32], String>(nxt->Some_0)
            } else {
                &&& r is Err
                &&& r->Err_0@ == seed_round_error(
                    tier_id,
                    round_id,
                    slot_chunk_id(state.seed_chunks@, tier_id),
                    slot_chunk_id(state.seed_chunks_next@, tier_id),
                )
            }
        },
{
    if round_id == 0 {
        return Err(text("round_id must be >= 1"));
    }
    let expected_chunk_id = (round_id - 1) / CHUNK_SIZE;
    let offset = ((round_id - 1) % CHUNK_SIZE) as usize;
    let key = seed_chunk_key(tier_id);
    if let Some(c) = state.seed_chunks.get(&key) {
        if c.chunk_id == expected_chunk_id && offset < c.seeds.len() {
            return Ok(c.seeds[offset]);
        }
    }
    if let Some(c) = state.seed_chunks_next.get(&key) {
        if c.chunk_id == expected_chunk_id && offset < c.seeds.len() {
            return Ok(c.seeds[offset]);
        }
    }
    let current_id = get_stored_chunk_id(state, tier_id);
    let next_id = get_stored_chunk_id_next(state, tier_id);
    if current_id.is_none() && next_id.is_none() {
        let mut e = text("no seed chunk for tier ");
        push_decimal(&mut e, tier_id as u64);
        e.append(". Call reveal_seed_for_round to bootstrap.");
        Err(e)
    } else {
        let mut e = text("seed chunk mismatch: have current=");
        push_option(&mut e, current_id);
        e.append(" next=");
        push_option(&mut e, next_id);
        e.append(" but need chunk ");
        push_decimal(&mut e, expected_chunk_id);
        e.append(" for round ");
        push_decimal(&mut e, round_id);
        Err(e)
    }
}

/// Whether the NEXT slot must be (re)generated to hold chunk `expected_next_chunk_id`:
/// it is empty or holds another chunk.
pub fn next_chunk_needed(state: &OrbsState, tier_id: u8, expected_next_chunk_id: u64) -> (b: bool)
    requires
        state.wf(),
    ensures
        b == (slot_chunk_id(state.seed_chunks_next@, tier_id) != Some(expected_next_chunk_id)),
{
    match get_stored_chunk_id_next(state, tier_id) {
        Some(id) => id != expected_next_chunk_id,
        None => true,
    }
}

/// Store a freshly generated chunk in the NEXT slot, unless the slot meanwhile came to hold
/// the chunk id it was generated for (then the fresh chunk is dropped, so that no chunk
/// another reveal already relies on is replaced). Returns whether it was stored.
pub fn install_next_chunk(state: &mut OrbsState, tier_id: u8, chunk: SeedChunk) -> (stored: bool)
    requires
        old(state).wf(),
    ensures
        final(state).wf(),
        stored == (slot_chunk_id(old(state).seed_chunks_next@, tier_id) != Some(chunk.chunk_id)),
        stored ==> final(state).seed_chunks_next@ == old(state).seed_chunks_next@.insert(
            tier_id as u32,
            chunk,
        ),
        !stored ==> final(state).seed_chunks_next == old(state).seed_chunks_next,
        final(state).seed_chunks == old(state).seed_chunks,
        final(state).chunk_offsets == old(state).chunk_offsets,
        final(state).last_settled_rounds == old(state).last_settled_rounds,
        final(state).revealed_seeds == old(state).revealed_seeds,
        only_seed_tables_changed(*final(state), *old(state)),
{
    if !next_chunk_needed(state, tier_id, chunk.chunk_id) {
        return false;
    }
    let key = seed_chunk_key(tier_id);
    state.seed_chunks_next.insert(key, chunk);
    true
}

/// Move the NEXT chunk of a tier into its CURRENT slot. Errors if NEXT is empty.
pub fn promote_next_to_current(state: &mut OrbsState, tier_id: u8) -> (r: Result<(), String>)
    requires
        old(state).wf(),
    ensures
        final(state).wf(),
        r is Ok <==> old(state).seed_chunks_next@.contains_key(tier_id as u32),
        r is Ok ==> final(state).seed_chunks@ == old(state).seed_chunks@.insert(
            tier_id as u32,
            old(state).seed_chunks_next@[tier_id as u32],
        ) && final(state).seed_chunks_next@ == old(state).seed_chunks_next@.remove(tier_id as u32),
        r matches Err(e) ==> e@ == "promote_next_to_current: NEXT slot empty for tier "@ + decimal(
            tier_id as nat,
        ) && final(state).seed_chunks == old(state).seed_chunks && final(state).seed_chunks_next@
            == old(state).seed_chunks_next@,
        final(state).chunk_offsets == old(state).chunk_offsets,
        final(state).last_settled_rounds == old(state).last_settled_rounds,
        final(state).revealed_seeds == old(state).revealed_seeds,
        only_seed_tables_changed(*final(state), *old(state)),
{
    let key = seed_chunk_key(tier_id);
    match state.seed_chunks_next.remove(&key) {
        Some(chunk) => {
            state.seed_chunks.insert(key, chunk);
            Ok(())
        },
        None => {
            let mut e = text("promote_next_to_current: NEXT slot empty for tier ");
            push_decimal(&mut e, tier_id as u64);
            Err(e)
        },
    }
}

/// The number of seeds revealed from the tier's chunks (0 if never set).
pub fn get_chunk_offset(state: &OrbsState, tier_id: u8) -> (o: u64)
    requires
        state.wf(),
    ensures
        o == tier_value(state.chunk_offsets@, tier_id),
{
    match state.chunk_offsets.get(&chunk_offset_key(tier_id)) {
        Some(o) => *o,
        None => 0,
    }
}

/// Increment the chunk offset of a tier and return the new offset.
pub fn increment_offset(state: &mut OrbsState, tier_id: u8) -> (o: u64)
    requires
        old(state).wf(),
        tier_value(old(state).chunk_offsets@, tier_id) < u64::MAX,
    ensures
        final(state).wf(),
        o == tier_value(old(state).chunk_offsets@, tier_id) + 1,
        final(state).chunk_offsets@ == old(state).chunk_offsets@.insert(tier_id as u32, o),
        final(state).seed_chunks == old(state).seed_chunks,
        final(state).seed_chunks_next == old(state).seed_chunks_next,
        final(state).last_settled_rounds == old(state).last_settled_rounds,
        final(state).revealed_seeds == old(state).revealed_seeds,
        only_seed_tables_changed(*final(state), *old(state)),
{
    let current = get_chunk_offset(state, tier_id);
    let new_offset = current + 1;
    state.chunk_offsets.insert(chunk_offset_key(tier_id), new_offset);
    new_offset
}

/// Whether every seed of the tier's chunk has been used (offset >= CHUNK_SIZE).
pub fn chunk_needs_regen(state: &OrbsState, tier_id: u8) -> (b: bool)
    requires
        state.wf(),
    ensures
        b == (tier_value(state.chunk_offsets@, tier_id) >= CHUNK_SIZE),
{
    get_chunk_offset(state, tier_id) >= CHUNK_SIZE
}

/// Set the chunk offset of a tier (admin recovery).
pub fn set_chunk_offset(state: &mut OrbsState, tier_id: u8, offset: u64)
    requires
        old(state).wf(),
    ensures
        final(state).wf(),
        final(state).chunk_offsets@ == old(state).chunk_offsets@.insert(tier_id as u32, offset),
        final(state).seed_chunks == old(state).seed_chunks,
        final(state).seed_chunks_next == old(state).seed_chunks_next,
        final(state).last_settled_rounds == old(state).last_settled_rounds,
        final(state).revealed_seeds == old(state).revealed_seeds,
        only_seed_tables_changed(*final(state), *old(state)),
{
    state.chunk_offsets.insert(chunk_offset_key(tier_id), offset);
}

/// The last settled round of a tier (0 if none).
pub fn get_last_settled_round(state: &OrbsState, tier_id: u8) -> (r: u64)
    requires
        state.wf(),
    ensures
        r == tier_value(state.last_settled_rounds@, tier_id),
{
    match state.last_settled_rounds.get(&chunk_offset_key(tier_id)) {
        Some(r) => *r,
        None => 0,
    }
}

/// Set the last settled round of a tier (admin recovery).
pub fn set_last_settled_round(state: &mut OrbsState, tier_id: u8, round_id: u64)
    requires
        old(state).wf(),
    ensures
        final(state).wf(),
        final(state).last_settled_rounds@ == old(state).last_settled_rounds@.insert(
            tier_id as u32,
            round_id,
        ),
        final(state).seed_chunks == old(state).seed_chunks,
        final(state).seed_chunks_next == old(state).seed_chunks_next,
        final(state).chunk_offsets == old(state).chunk_offsets,
        final(state).revealed_seeds == old(state).revealed_seeds,
        only_seed_tables_changed(*final(state), *old(state)),
{
    state.last_settled_rounds.insert(chunk_offset_key(tier_id), round_id);
}

/// Forget the last settled round of a tier.
pub fn reset_last_settled_round(state: &mut OrbsState, tier_id: u8)
    requires
        old(state).wf(),
    ensures
        final(state).wf(),
        final(state).last_settled_rounds@ == old(state).last_settled_rounds@.remove(
            tier_id as u32,
        ),
        final(state).seed_chunks == old(state).seed_chunks,
        final(state).seed_chunks_next == old(state).seed_chunks_next,
        final(state).chunk_offsets == old(state).chunk_offsets,
        final(state).revealed_seeds == old(state).revealed_seeds,
        only_seed_tables_changed(*final(state), *old(state)),
{
    state.last_settled_rounds.remove(&chunk_offset_key(tier_id));
}

/// Forget the revealed seed of a round (admin recovery: forces a re-reveal).
pub fn clear_revealed_seed(state: &mut OrbsState, tier_id: u8, round_id: u64)
    requires
        old(state).wf(),
    ensures
        final(state).wf(),
        final(state).revealed_seeds@ == old(state).revealed_seeds@.remove(
            spec_round_key(tier_id, round_id),
        ),
        final(state).seed_chunks == old(state).seed_chunks,
        final(state).seed_chunks_next == old(state).seed_chunks_next,
        final(state).chunk_offsets == old(state).chunk_offsets,
        final(state).last_settled_rounds == old(state).last_settled_rounds,
        only_seed_tables_changed(*final(state), *old(state)),
{
    state.revealed_seeds.remove(&revealed_seed_key(tier_id, round_id));
}

/// The publicly revealed seed proof of a round, if any.
pub fn get_revealed_seed(state: &OrbsState, tier_id: u8, round_id: u64) -> (r: Option<SeedProof>)
    requires
        state.wf(),
    ensures
        r is Some <==> state.revealed_seeds@.contains_key(spec_round_key(tier_id, round_id)),
        r matches Some(p) ==> p@ == state.revealed_seeds@[spec_round_key(tier_id, round_id)]@,
{
    match state.revealed_seeds.get(&revealed_seed_key(tier_id, round_id)) {
        Some(p) => Some(p.copy()),
        None => None,
    }
}

/// Result of reveal validation.
#[derive(Debug, Clone, Copy, PartialEq, Eq, Structural)]
pub enum RevealValidation {
    /// The round can be revealed.
    Valid,
    /// The wrong round was requested.
    InvalidRound { expected: u64, last_settled: u64, requested: u64 },
}

/// The round that may be revealed next: last settled + 1; with nothing settled yet,
/// round 0 or 1 (any other request is told to expect 1).
pub open spec fn expected_round(last_settled: u64, round_id: u64) -> int {
    if last_settled == 0 {
        if round_id <= 1 {
            round_id as int
        } else {
            1
        }
    } else {
        last_settled + 1
    }
}

/// The validation outcome of revealing `round_id` in a tier.
pub open spec fn validation_of(state: OrbsState, tier_id: u8, round_id: u64) -> RevealValidation {
    let last = tier_value(state.last_settled_rounds@, tier_id);
    let expected = expected_round(last, round_id);
    if round_id == expected {
        RevealValidation::Valid
    } else {
        RevealValidation::InvalidRound {
            expected: expected as u64,
            last_settled: last,
            requested: round_id,
        }
    }
}

/// Validate that a round can be revealed (sequential access).
pub fn validate_reveal_round(state: &OrbsState, tier_id: u8, round_id: u64) -> (v:
    RevealValidation)
    requires
        state.wf(),
        tier_value(state.last_settled_rounds@, tier_id) < u64::MAX,
    ensures
        v == validation_of(*state, tier_id, round_id),
{
    let last_settled = get_last_settled_round(state, tier_id);
    let expected_round = if last_settled == 0 {
        if round_id <= 1 {
            round_id
        } else {
            1
        }
    } else {
        last_settled + 1
    };
    if round_id != expected_round {
        RevealValidation::InvalidRound { expected: expected_round, last_settled, requested: round_id }
    } else {
        RevealValidation::Valid
    }
}

/// First step of revealing a round's seed.
#[derive(Debug)]
pub enum RevealStart {
    /// The round was revealed before: its stored proof is the answer.
    AlreadyRevealed(SeedProof),
    /// The round is out of sequence.
    Rejected(String),
    /// The CURRENT slot must first be given the chunk with this id.
    NeedCurrentChunk(u64),
    /// The CURRENT slot holds the round's chunk: `commit_reveal` may proceed.
    Ready,
}

pub open spec fn invalid_round_error(expected: u64, last_settled: u64, requested: u64) -> Seq<char> {
    "Invalid round_id: expected "@ + decimal(expected as nat) + " (last settled: "@ + decimal(
        last_settled as nat,
    ) + "), got "@ + decimal(requested as nat)
}

/// How a request to reveal a round starts, with the proof and message as plain values.
pub enum RevealAnswer {
    AlreadyRevealed(SeedProofView),
    Rejected(Seq<char>),
    NeedCurrentChunk(u64),
    Ready,
}

/// The model of a `RevealStart`.
pub open spec fn answer_of(r: RevealStart) -> RevealAnswer {
    match r {
        RevealStart::AlreadyRevealed(p) => RevealAnswer::AlreadyRevealed(p@),
        RevealStart::Rejected(e) => RevealAnswer::Rejected(e@),
        RevealStart::NeedCurrentChunk(c) => RevealAnswer::NeedCurrentChunk(c),
        RevealStart::Ready => RevealAnswer::Ready,
    }
}

/// How a request to reveal `round_id` of a tier starts in a state: the stored proof if the
/// round was revealed before, a rejection if the round is out of sequence, a rejection of
/// round 0 where the sequence would admit it (nothing settled yet: rounds start at 1, and
/// round 0 has no seed), otherwise whether the CURRENT slot holds the round's chunk.
pub open spec fn reveal_answer(state: OrbsState, tier_id: u8, round_id: u64) -> RevealAnswer {
    let key = spec_round_key(tier_id, round_id);
    if state.revealed_seeds@.contains_key(key) {
        RevealAnswer::AlreadyRevealed(state.revealed_seeds@[key]@)
    } else {
        match validation_of(state, tier_id, round_id) {
            RevealValidation::InvalidRound { expected, last_settled, requested } => {
                RevealAnswer::Rejected(invalid_round_error(expected, last_settled, requested))
            },
            RevealValidation::Valid => {
                if round_id == 0 {
                    RevealAnswer::Rejected("round_id must be >= 1"@)
                } else if slot_chunk_id(state.seed_chunks@, tier_id) != Some(chunk_id_of_round(round_id)) {
                    RevealAnswer::NeedCurrentChunk(chunk_id_of_round(round_id))
                } else {
                    RevealAnswer::Ready
                }
            },
        }
    }
}

/// Decide how a request to reveal `round_id` of a tier starts: the stored proof if it was
/// revealed before (idempotent, whatever round was settled last), a rejection of a round
/// out of sequence, or of round 0 where the sequence admits it, otherwise whether the CURRENT
/// slot must first be given the round's chunk.
pub fn begin_reveal(state: &OrbsState, tier_id: u8, round_id: u64) -> (r: RevealStart)
    requires
        state.wf(),
        !state.revealed_seeds@.contains_key(spec_round_key(tier_id, round_id)) ==> tier_value(
            state.last_settled_rounds@,
            tier_id,
        ) < u64::MAX,
    ensures
        answer_of(r) == reveal_answer(*state, tier_id, round_id),
{
    if let Some(p) = get_revealed_seed(state, tier_id, round_id) {
        return RevealStart::AlreadyRevealed(p);
    }
    match validate_reveal_round(state, tier_id, round_id) {
        RevealValidation::Valid => {},
        RevealValidation::InvalidRound { expected, last_settled, requested } => {
            let mut e = text("Invalid round_id: expected ");
            push_decimal(&mut e, expected);
            e.append(" (last settled: ");
            push_decimal(&mut e, last_settled);
            e.append("), got ");
            push_decimal(&mut e, requested);
            return RevealStart::Rejected(e);
        },
    }
    if round_id == 0 {
        return RevealStart::Rejected(text("round_id must be >= 1"));
    }
    let expected_chunk_id = (round_id - 1) / CHUNK_SIZE;
    match get_stored_chunk_id(state, tier_id) {
        Some(id) => {
            if id != expected_chunk_id {
                RevealStart::NeedCurrentChunk(expected_chunk_id)
            } else {
                RevealStart::Ready
            }
        },
        None => RevealStart::NeedCurrentChunk(expected_chunk_id),
    }
}

/// NEXT-slot maintenance owed after a reveal.
#[derive(Debug, Clone, Copy, PartialEq, Eq, Structural)]
pub enum RevealFollowUp {
    /// Mid-chunk: NEXT must hold chunk `next_chunk_id` (`current_chunk_id + 1`).
    MidChunk { current_chunk_id: u64, next_chunk_id: u64 },
    /// The reveal used up CURRENT: NEXT must hold chunk `next_chunk_id`
    /// (`current_chunk_id + 1`), then be promoted to CURRENT, then NEXT must hold chunk
    /// `following_chunk_id` (`current_chunk_id + 2`).
    Boundary { current_chunk_id: u64, next_chunk_id: u64, following_chunk_id: u64 },
}

/// The tables after revealing `round_id` of a tier from its CURRENT chunk with proof `p`:
/// the proof is stored as revealed, the round becomes the last settled one, the offset
/// advances, and `plan` says which NEXT-slot maintenance follows.
pub open spec fn committed(
    old: OrbsState,
    new: OrbsState,
    tier_id: u8,
    round_id: u64,
    p: SeedProofView,
    plan: RevealFollowUp,
) -> bool {
    let new_offset = tier_value(old.chunk_offsets@, tier_id) + 1;
    let key = spec_round_key(tier_id, round_id);
    &&& p == proof_at(old.seed_chunks@[tier_id as u32], offset_of_round(round_id) as int)
    &&& new.revealed_seeds@.dom() == old.revealed_seeds@.dom().insert(key)
    &&& new.revealed_seeds@[key]@ == p
    &&& forall|k: u128|
        k != key && #[trigger] old.revealed_seeds@.contains_key(k) ==> new.revealed_seeds@[k]
            == old.revealed_seeds@[k]
    &&& new.last_settled_rounds@ == old.last_settled_rounds@.insert(tier_id as u32, round_id)
    &&& new.chunk_offsets@ == old.chunk_offsets@.insert(tier_id as u32, new_offset as u64)
    &&& new.seed_chunks == old.seed_chunks
    &&& plan == if new_offset % (CHUNK_SIZE as int) == 0 {
        RevealFollowUp::Boundary {
            current_chunk_id: chunk_id_of_round(round_id),
            next_chunk_id: (chunk_id_of_round(round_id) + 1) as u64,
            following_chunk_id: (chunk_id_of_round(round_id) + 2) as u64,
        }
    } else {
        RevealFollowUp::MidChunk {
            current_chunk_id: chunk_id_of_round(round_id),
            next_chunk_id: (chunk_id_of_round(round_id) + 1) as u64,
        }
    }
}

/// Reveal the seed of `round_id` from the CURRENT chunk: the proof of the seed at offset
/// (round_id - 1) % CHUNK_SIZE is stored as revealed, the round becomes the last settled
/// one, and the chunk offset advances. Returns the proof and the NEXT-slot maintenance owed:
/// `Boundary` when the new offset is a multiple of CHUNK_SIZE, else `MidChunk`.
/// On error nothing changes.
pub fn commit_reveal(state: &mut OrbsState, tier_id: u8, round_id: u64) -> (r: Result<
    (SeedProof, RevealFollowUp),
    String,
>)
    requires
        old(state).wf(),
        round_id >= 1,
        tier_value(old(state).chunk_offsets@, tier_id) < u64::MAX,
    ensures
        final(state).wf(),
        only_seed_tables_changed(*final(state), *old(state)),
        final(state).seed_chunks == old(state).seed_chunks,
        final(state).seed_chunks_next == old(state).seed_chunks_next,
        r is Ok <==> old(state).seed_chunks@.contains_key(tier_id as u32) && offset_of_round(
            round_id,
        ) < old(state).seed_chunks@[tier_id as u32].seeds@.len(),
        r matches Ok((p, plan)) ==> committed(*old(state), *final(state), tier_id, round_id, p@, plan),
        r is Err ==> final(state).revealed_seeds == old(state).revealed_seeds
            && final(state).last_settled_rounds == old(state).last_settled_rounds
            && final(state).chunk_offsets == old(state).chunk_offsets,
{
    let offset_in_chunk = (round_id - 1) % CHUNK_SIZE;
    let proof = get_seed_proof(state, tier_id, offset_in_chunk)?;
    let stored = proof.copy();
    let key = revealed_seed_key(tier_id, round_id);
    state.revealed_seeds.insert(key, stored);
    let tier_key = chunk_offset_key(tier_id);
    state.last_settled_rounds.insert(tier_key, round_id);
    let new_offset = increment_offset(state, tier_id);
    let current_chunk_id = (round_id - 1) / CHUNK_SIZE;
    let plan = if new_offset % CHUNK_SIZE == 0 {
        RevealFollowUp::Boundary {
            current_chunk_id,
            next_chunk_id: current_chunk_id + 1,
            following_chunk_id: current_chunk_id + 2,
        }
    } else {
        RevealFollowUp::MidChunk { current_chunk_id, next_chunk_id: current_chunk_id + 1 }
    };
    Ok((proof, plan))
}

/// After a round is committed as the last settled one, it can not be revealed again through
/// the sequence check, and the round after it is the one that may be revealed next.
pub proof fn lemma_settled_round_advances(state: OrbsState, tier_id: u8, round_id: u64)
    requires
        round_id >= 1,
        round_id < u64::MAX,
        tier_value(state.last_settled_rounds@, tier_id) == round_id,
    ensures
        validation_of(state, tier_id, round_id) != RevealValidation::Valid,
        validation_of(state, tier_id, (round_id + 1) as u64) == RevealValidation::Valid,
        forall|other: u64|
            other != round_id + 1 ==> validation_of(state, tier_id, other)
                != RevealValidation::Valid,
{
}


/// Revealing is idempotent and sequential: once a round is revealed, a request for it is
/// answered with the very proof that was revealed, and the round after it is the one that
/// may be revealed next.
pub proof fn lemma_reveal_is_idempotent(
    old: OrbsState,
    new: OrbsState,
    tier_id: u8,
    round_id: u64,
    p: SeedProofView,
    plan: RevealFollowUp,
)
    requires
        round_id >= 1,
        committed(old, new, tier_id, round_id, p, plan),
    ensures
        reveal_answer(new, tier_id, round_id) == RevealAnswer::AlreadyRevealed(p),
        round_id < u64::MAX ==> validation_of(new, tier_id, (round_id + 1) as u64)
            == RevealValidation::Valid,
{
    assert(tier_value(new.last_settled_rounds@, tier_id) == round_id);
    if round_id < u64::MAX {
        lemma_settled_round_advances(new, tier_id, round_id);
    }
}


/// A chunk built for a tier: `CHUNK_SIZE` seeds under the Merkle tree of their leaves, each
/// leaf bound to the seed's round.
pub open spec fn well_built(chunk: SeedChunk, tier_id: u8) -> bool {
    &&& chunk.tier_id == tier_id
    &&& chunk.seeds@.len() == CHUNK_SIZE
    &&& layers_view(chunk.merkle_layers@) == merkle_layers(
        chunk_leaves(tier_id, chunk.chunk_id, chunk.seeds@),
    )
}

/// A chunk finished from a chunk prepared for a tier (as chunk generation makes it) is well
/// built.
pub proof fn lemma_generated_chunk_well_built(
    prepared: PreparedChunk,
    tier_id: u8,
    chunk_id: u64,
    master: Seq<u8>,
    chunk: SeedChunk,
)
    requires
        prepared_from(prepared, tier_id, chunk_id, master),
        chunk.tier_id == prepared.tier_id,
        chunk.chunk_id == prepared.chunk_id,
        chunk.seeds@ == prepared.seeds@,
        chunk.merkle_layers@ == prepared.merkle_layers@,
    ensures
        well_built(chunk, tier_id),
{
}

/// A revealed proof verifies: when the CURRENT chunk of the tier is well built and holds
/// the round's chunk (`begin_reveal` answers `Ready` exactly then), the proof that the
/// reveal stores and returns has one sibling per level below the root (six for a chunk of
/// fifty seeds), its position flags are the bits of the round's offset in the chunk, and it
/// folds from the seed's leaf hash for this very round to the proof's Merkle root.
pub proof fn lemma_revealed_proof_verifies(
    old: OrbsState,
    new: OrbsState,
    tier_id: u8,
    round_id: u64,
    p: SeedProofView,
    plan: RevealFollowUp,
)
    requires
        round_id >= 1,
        committed(old, new, tier_id, round_id, p, plan),
        old.seed_chunks@.contains_key(tier_id as u32),
        well_built(old.seed_chunks@[tier_id as u32], tier_id),
        old.seed_chunks@[tier_id as u32].chunk_id == chunk_id_of_round(round_id),
    ensures
        new.revealed_seeds@[spec_round_key(tier_id, round_id)]@ == p,
        p.proof_siblings.len() == 6,
        p.proof_positions.len() == 6,
        forall|k: int|
            0 <= k < 6 ==> #[trigger] p.proof_positions[k] == ((offset_of_round(round_id) as int
                / pow2(k as nat) as int) % 2 == 1),
        fold_proof(leaf_hash(tier_id, round_id, p.seed@), p.proof_siblings, p.proof_positions)
            == p.merkle_root,
{
    let c = old.seed_chunks@[tier_id as u32];
    let o = offset_of_round(round_id);
    lemma_round_chunk_correspondence(round_id, 0, 0);
    lemma_seed_proof_verifies(c, o);
    let leaves = chunk_leaves(tier_id, c.chunk_id, c.seeds@);
    lemma_merkle_proof_shape(leaves, o as nat);
    lemma_fifty_leaf_tree_height(leaves);
}


/// Keeping NEXT at an expected chunk, as one step: when NEXT already holds the expected
/// chunk id, `next_chunk_needed` says no chunk is to be generated; otherwise, once a chunk
/// generated for that id is offered with `install_next_chunk` (which says whether it stored
/// it), NEXT holds that chunk id whichever of two racing calls stored first, a chunk that
/// was already there is kept as it was, and CURRENT is not touched.
pub proof fn lemma_next_slot_settles(
    old: OrbsState,
    new: OrbsState,
    tier_id: u8,
    chunk: SeedChunk,
    stored: bool,
)
    requires
        stored == (slot_chunk_id(old.seed_chunks_next@, tier_id) != Some(chunk.chunk_id)),
        stored ==> new.seed_chunks_next@ == old.seed_chunks_next@.insert(tier_id as u32, chunk),
        !stored ==> new.seed_chunks_next == old.seed_chunks_next,
        new.seed_chunks == old.seed_chunks,
    ensures
        slot_chunk_id(new.seed_chunks_next@, tier_id) == Some(chunk.chunk_id),
        !stored ==> new.seed_chunks_next@[tier_id as u32] == old.seed_chunks_next@[tier_id as u32],
        new.seed_chunks == old.seed_chunks,
{
}

} // verus!
