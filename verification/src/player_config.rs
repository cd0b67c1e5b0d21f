//! Player config records of v2 rounds: quantized spawn position and skill allocation,
//! keyed by (round, tier, commitment hash). A record is immutable once written.
use vstd::prelude::*;
use vstd::string::StringExecFns;
use crate::encoding::{array32, array_of, lemma_array_of, to_array32};
use crate::engine_config::NANOS_PER_SECOND;
use crate::keys::{
    player_config_key, player_config_prefix, spec_player_config_key, spec_round_key, u64_be_bytes,
};
use crate::shared::vec_to_pk32;
use crate::state::{round_tables_eq, seed_tables_eq, OrbsState, PlayerConfigRecord};
use crate::text::{decimal, push_bytes, push_decimal, text};
use crate::keys::revealed_seed_key;

verus! {

/// A player config as submitted.
#[derive(Debug, Clone)]
pub struct PlayerConfigInput {
    /// 32 bytes: part of the key, and the commitment.
    pub player_config_hash: Vec<u8>,
    pub round_id: u64,
    pub tier_id: u8,
    /// 32 bytes.
    pub player_pubkey: Vec<u8>,
    pub tp_preset: u16,
    pub spawn_x_q: i16,
    pub spawn_y_q: i16,
    pub spawn_rot_q: u16,
    pub alloc_split: u8,
    pub alloc_tether: u8,
    pub alloc_power: u8,
}

/// A stored player config, as returned.
#[derive(Debug, Clone)]
pub struct PlayerConfigOutput {
    pub player_config_hash: Vec<u8>,
    pub round_id: u64,
    pub tier_id: u8,
    pub player_pubkey: Vec<u8>,
    pub tp_preset: u16,
    pub spawn_x_q: i16,
    pub spawn_y_q: i16,
    pub spawn_rot_q: u16,
    pub alloc_split: u8,
    pub alloc_tether: u8,
    pub alloc_power: u8,
    pub created_at: u64,
}

/// `o` shows the record `r`.
pub open spec fn shows_record(o: PlayerConfigOutput, r: PlayerConfigRecord) -> bool {
    &&& o.player_config_hash@ == r.player_config_hash@
    &&& o.round_id == r.round_id
    &&& o.tier_id == r.tier_id
    &&& o.player_pubkey@ == r.player_pubkey@
    &&& o.tp_preset == r.tp_preset
    &&& o.spawn_x_q == r.spawn_x_q
    &&& o.spawn_y_q == r.spawn_y_q
    &&& o.spawn_rot_q == r.spawn_rot_q
    &&& o.alloc_split == r.alloc_split
    &&& o.alloc_tether == r.alloc_tether
    &&& o.alloc_power == r.alloc_power
    &&& o.created_at == r.created_at
}

impl PlayerConfigOutput {
    /// The output form of a stored record.
    pub fn from_record(r: PlayerConfigRecord) -> (o: PlayerConfigOutput)
        ensures
            shows_record(o, r),
    {
        let mut hash: Vec<u8> = Vec::new();
        push_bytes(&mut hash, r.player_config_hash.as_slice());
        let mut pk: Vec<u8> = Vec::new();
        push_bytes(&mut pk, r.player_pubkey.as_slice());
        PlayerConfigOutput {
            player_config_hash: hash,
            round_id: r.round_id,
            tier_id: r.tier_id,
            player_pubkey: pk,
            tp_preset: r.tp_preset,
            spawn_x_q: r.spawn_x_q,
            spawn_y_q: r.spawn_y_q,
            spawn_rot_q: r.spawn_rot_q,
            alloc_split: r.alloc_split,
            alloc_tether: r.alloc_tether,
            alloc_power: r.alloc_power,
            created_at: r.created_at,
        }
    }
}

/// The table key of (round, tier, hash).
pub open spec fn config_key(round_id: u64, tier_id: u8, hash: Seq<u8>) -> [u8; 41] {
    array_of::<41>(spec_player_config_key(round_id, tier_id, hash))
}

/// The record stored for an input at a time (nanoseconds).
pub open spec fn record_of(input: PlayerConfigInput, now_nanos: u64) -> PlayerConfigRecord {
    PlayerConfigRecord {
        player_config_hash: array32(input.player_config_hash@),
        round_id: input.round_id,
        tier_id: input.tier_id,
        player_pubkey: array32(input.player_pubkey@),
        tp_preset: input.tp_preset,
        spawn_x_q: input.spawn_x_q,
        spawn_y_q: input.spawn_y_q,
        spawn_rot_q: input.spawn_rot_q,
        alloc_split: input.alloc_split,
        alloc_tether: input.alloc_tether,
        alloc_power: input.alloc_power,
        created_at: (now_nanos / NANOS_PER_SECOND) as u64,
    }
}

/// Everything but the player config table is unchanged.
pub open spec fn only_player_configs_changed(a: OrbsState, b: OrbsState) -> bool {
    &&& seed_tables_eq(a, b)
    &&& round_tables_eq(a, b)
    &&& a.admins == b.admins
    &&& a.players == b.players
    &&& a.pubkey == b.pubkey
    &&& a.engine_configs == b.engine_configs
    &&& a.current_config_version == b.current_config_version
    &&& a.player_join_data == b.player_join_data
}

pub open spec fn hash_size_error(n: nat) -> Seq<char> {
    "player_config_hash must be 32 bytes, got "@ + decimal(n)
}

/// Store a player config record. The hash and the public key must be 32 bytes, the
/// preset at most 4, and no record may exist yet for (round, tier, hash).
pub fn set_player_config(state: &mut OrbsState, input: PlayerConfigInput, now_nanos: u64) -> (r:
    Result<(), String>)
    requires
        old(state).wf(),
    ensures
        final(state).wf(),
        only_player_configs_changed(*final(state), *old(state)),
        ({
            let k = config_key(input.round_id, input.tier_id, input.player_config_hash@);
            if input.player_config_hash@.len() != 32 {
                r is Err && r->Err_0@ == hash_size_error(input.player_config_hash@.len())
                    && final(state).player_configs == old(state).player_configs
            } else if input.player_pubkey@.len() != 32 {
                r is Err && r->Err_0@ == "invalid pubkey length, expected 32 bytes"@
                    && final(state).player_configs == old(state).player_configs
            } else if input.tp_preset > 4 {
                r is Err && r->Err_0@ == "tp_preset must be 0-4, got "@ + decimal(
                    input.tp_preset as nat,
                ) && final(state).player_configs == old(state).player_configs
            } else if old(state).player_configs@.contains_key(k) {
                r is Err && r->Err_0@ == "player config already exists for this hash (immutable)"@
                    && final(state).player_configs == old(state).player_configs
            } else {
                r is Ok && final(state).player_configs@ == old(state).player_configs@.insert(
                    k,
                    record_of(input, now_nanos),
                )
            }
        }),
{
    if input.player_config_hash.len() != 32 {
        let mut e = text("player_config_hash must be 32 bytes, got ");
        push_decimal(&mut e, input.player_config_hash.len() as u64);
        return Err(e);
    }
    let player_config_hash = to_array32(input.player_config_hash.as_slice());
    let ghost pk_view = input.player_pubkey@;
    let player_pubkey = vec_to_pk32(input.player_pubkey)?;
    proof {
        crate::encoding::lemma_array32(pk_view, player_pubkey);
    }
    if input.tp_preset > 4 {
        let mut e = text("tp_preset must be 0-4, got ");
        push_decimal(&mut e, input.tp_preset as u64);
        return Err(e);
    }
    let key = player_config_key(input.round_id, input.tier_id, &player_config_hash);
    proof {
        lemma_array_of::<41>(key@, key);
    }
    if state.player_configs.contains_key(&key) {
        return Err(text("player config already exists for this hash (immutable)"));
    }
    let record = PlayerConfigRecord {
        player_config_hash,
        round_id: input.round_id,
        tier_id: input.tier_id,
        player_pubkey,
        tp_preset: input.tp_preset,
        spawn_x_q: input.spawn_x_q,
        spawn_y_q: input.spawn_y_q,
        spawn_rot_q: input.spawn_rot_q,
        alloc_split: input.alloc_split,
        alloc_tether: input.alloc_tether,
        alloc_power: input.alloc_power,
        created_at: now_nanos / NANOS_PER_SECOND,
    };
    state.player_configs.insert(key, record);
    Ok(())
}

/// The player config record of (round, tier, hash); a hash that is not 32 bytes is an error.
pub fn get_player_config(
    state: &OrbsState,
    round_id: u64,
    tier_id: u8,
    player_config_hash: Vec<u8>,
) -> (r: Result<Option<PlayerConfigOutput>, String>)
    requires
        state.wf(),
    ensures
        r is Ok <==> player_config_hash@.len() == 32,
        r matches Err(e) ==> e@ == hash_size_error(player_config_hash@.len()),
        r matches Ok(o) ==> {
            let k = config_key(round_id, tier_id, player_config_hash@);
            &&& o is Some <==> state.player_configs@.contains_key(k)
            &&& o matches Some(out) ==> shows_record(out, state.player_configs@[k])
        },
{
    if player_config_hash.len() != 32 {
        let mut e = text("player_config_hash must be 32 bytes, got ");
        push_decimal(&mut e, player_config_hash.len() as u64);
        return Err(e);
    }
    let hash = to_array32(player_config_hash.as_slice());
    let key = player_config_key(round_id, tier_id, &hash);
    proof {
        lemma_array_of::<41>(key@, key);
    }
    match state.player_configs.get(&key) {
        Some(rec) => Ok(Some(PlayerConfigOutput::from_record(*rec))),
        None => Ok(None),
    }
}

/// The records of entries whose key starts with `prefix`, in key order.
pub open spec fn records_with_prefix(entries: Seq<([u8; 41], PlayerConfigRecord)>, prefix: Seq<u8>) -> Seq<
    PlayerConfigRecord,
>
    decreases entries.len(),
{
    if entries.len() == 0 {
        Seq::empty()
    } else {
        let rest = records_with_prefix(entries.drop_last(), prefix);
        if entries.last().0@.subrange(0, 9) == prefix {
            rest.push(entries.last().1)
        } else {
            rest
        }
    }
}

/// The records of one (round, tier), in key order.
pub open spec fn round_records(state: OrbsState, round_id: u64, tier_id: u8) -> Seq<PlayerConfigRecord> {
    records_with_prefix(state.player_configs.entries(), u64_be_bytes(round_id) + seq![tier_id])
}

/// Outputs showing the records, in order.
pub open spec fn shows_records(outs: Seq<PlayerConfigOutput>, recs: Seq<PlayerConfigRecord>) -> bool {
    &&& outs.len() == recs.len()
    &&& forall|i: int| 0 <= i < outs.len() ==> shows_record(#[trigger] outs[i], recs[i])
}

fn key_has_prefix(key: &[u8; 41], prefix: &[u8; 9]) -> (b: bool)
    ensures
        b == (key@.subrange(0, 9) == prefix@),
{
    let mut i: usize = 0;
    while i < 9
        invariant
            0 <= i <= 9,
            key@.len() == 41,
            prefix@.len() == 9,
            forall|j: int| 0 <= j < i ==> key@[j] == prefix@[j],
        decreases 9 - i,
    {
        if key[i] != prefix[i] {
            assert(key@.subrange(0, 9)[i as int] != prefix@[i as int]);
            return false;
        }
        i = i + 1;
    }
    assert(key@.subrange(0, 9) =~= prefix@);
    true
}

fn list_player_configs_internal(state: &OrbsState, round_id: u64, tier_id: u8) -> (r: Vec<
    PlayerConfigOutput,
>)
    requires
        state.wf(),
    ensures
        shows_records(r@, round_records(*state, round_id, tier_id)),
{
    let prefix = player_config_prefix(round_id, tier_id);
    let n = state.player_configs.len();
    let ghost es = state.player_configs.entries();
    let mut results: Vec<PlayerConfigOutput> = Vec::new();
    let mut i: usize = 0;
    assert(es.take(0) =~= Seq::<([u8; 41], PlayerConfigRecord)>::empty());
    while i < n
        invariant
            n == es.len(),
            es == state.player_configs.entries(),
            prefix@ == u64_be_bytes(round_id) + seq![tier_id],
            0 <= i <= n,
            shows_records(results@, records_with_prefix(es.take(i as int), prefix@)),
        decreases n - i,
    {
        let e = state.player_configs.entry_at(i);
        assert(es.take(i + 1).drop_last() =~= es.take(i as int));
        if key_has_prefix(&e.0, &prefix) {
            results.push(PlayerConfigOutput::from_record(e.1));
        }
        i = i + 1;
    }
    assert(es.take(n as int) =~= es);
    results
}

/// All player config records of a round, in key order (the caller checks admin rights).
pub fn list_player_configs(state: &OrbsState, round_id: u64, tier_id: u8) -> (r: Vec<
    PlayerConfigOutput,
>)
    requires
        state.wf(),
    ensures
        shows_records(r@, round_records(*state, round_id, tier_id)),
{
    list_player_configs_internal(state, round_id, tier_id)
}

pub open spec fn not_revealed_error(round_id: u64, tier_id: u8) -> Seq<char> {
    "Round "@ + decimal(round_id as nat) + " tier "@ + decimal(tier_id as nat)
        + " seed not yet revealed - configs are private"@
}

/// All player config records of a round, but only once the round's seed is revealed.
pub fn list_player_configs_if_revealed(state: &OrbsState, round_id: u64, tier_id: u8) -> (r: Result<
    Vec<PlayerConfigOutput>,
    String,
>)
    requires
        state.wf(),
    ensures
        r is Ok <==> state.revealed_seeds@.contains_key(spec_round_key(tier_id, round_id)),
        r matches Ok(v) ==> shows_records(v@, round_records(*state, round_id, tier_id)),
        r matches Err(e) ==> e@ == not_revealed_error(round_id, tier_id),
{
    let key = revealed_seed_key(tier_id, round_id);
    if !state.revealed_seeds.contains_key(&key) {
        let mut e = text("Round ");
        push_decimal(&mut e, round_id);
        e.append(" tier ");
        push_decimal(&mut e, tier_id as u64);
        e.append(" seed not yet revealed - configs are private");
        return Err(e);
    }
    Ok(list_player_configs_internal(state, round_id, tier_id))
}


/// A stored player config keeps the submission as given: reading it back after a successful
/// `set_player_config` shows every field of the input, and the time in whole seconds.
pub proof fn lemma_player_config_read_back(
    before: Map<[u8; 41], PlayerConfigRecord>,
    after: Map<[u8; 41], PlayerConfigRecord>,
    input: PlayerConfigInput,
    now_nanos: u64,
    o: PlayerConfigOutput,
)
    requires
        input.player_config_hash@.len() == 32,
        input.player_pubkey@.len() == 32,
        after == before.insert(
            config_key(input.round_id, input.tier_id, input.player_config_hash@),
            record_of(input, now_nanos),
        ),
        shows_record(o, after[config_key(input.round_id, input.tier_id, input.player_config_hash@)]),
    ensures
        o.player_config_hash@ == input.player_config_hash@,
        o.round_id == input.round_id,
        o.tier_id == input.tier_id,
        o.player_pubkey@ == input.player_pubkey@,
        o.tp_preset == input.tp_preset,
        o.spawn_x_q == input.spawn_x_q,
        o.spawn_y_q == input.spawn_y_q,
        o.spawn_rot_q == input.spawn_rot_q,
        o.alloc_split == input.alloc_split,
        o.alloc_tether == input.alloc_tether,
        o.alloc_power == input.alloc_power,
        o.created_at == now_nanos / 1_000_000_000,
{
    let r = record_of(input, now_nanos);
    crate::encoding::lemma_array32(input.player_config_hash@, r.player_config_hash);
    crate::encoding::lemma_array32(input.player_pubkey@, r.player_pubkey);
}

} // verus!
