//! Per-player seeds of a round's matrix game, derived from the round's raw seed.
use vstd::prelude::*;
use crate::chunks::{u64_le_bytes, u64_to_le};
use crate::hashing::{sha256, sha256_of};
use crate::revelation::{get_raw_seed_for_round, raw_seed_error, round_seed};
use crate::encoding::{array_of, lemma_array_of};
use crate::engine_config::NANOS_PER_SECOND;
use crate::keys::{parse_player_join_key, player_join_key, spec_player_join_key, u64_from_be};
use crate::shared::vec_to_pk32;
use crate::state::{OrbsState, PlayerJoinData};
use crate::text::{decimal, push_bytes, push_decimal, text};
use vstd::string::StringExecFns;

verus! {

/// What is hashed into a player's round seed:
/// round_seed || tier_id || player || round_id (little-endian).
pub open spec fn player_seed_preimage(round_seed: [u8; 32], tier_id: u8, player: Seq<u8>, round_id: u64) -> Seq<u8> {
    round_seed@ + seq![tier_id] + player + u64_le_bytes(round_id)
}

/// The raw seed of a round from the seed chunks (not yet revealed).
fn get_internal_round_seed(state: &OrbsState, tier_id: u8, round_id: u64) -> (r: Result<
    [u8; 32],
    String,
>)
    requires
        state.wf(),
    ensures
        r is Ok <==> round_seed(*state, tier_id, round_id) is Some,
        r matches Ok(s) ==> round_seed(*state, tier_id, round_id) == Some(s),
        r matches Err(e) ==> e@ == raw_seed_error(*state, tier_id, round_id),
{
    get_raw_seed_for_round(state, tier_id, round_id)
}

/// A player's seed for a round: sha256(round_seed || tier_id || player || round_id (LE)),
/// from the round's seed that is not revealed yet. The key must be 32 bytes and the round's
/// seed available.
pub fn get_player_round_seed(state: &OrbsState, tier_id: u8, round_id: u64, player: Vec<u8>) -> (r:
    Result<Vec<u8>, String>)
    requires
        state.wf(),
    ensures
        r is Ok <==> player@.len() == 32 && round_seed(*state, tier_id, round_id) is Some,
        player@.len() != 32 ==> (r matches Err(e) && e@ == "invalid pubkey length, expected 32 bytes"@),
        player@.len() == 32 && round_seed(*state, tier_id, round_id) is None ==> (r matches Err(e)
            && e@ == raw_seed_error(*state, tier_id, round_id)),
        r matches Ok(v) ==> v@ == sha256_of(
            player_seed_preimage(
                round_seed(*state, tier_id, round_id)->Some_0,
                tier_id,
                player@,
                round_id,
            ),
        )@,
{
    let ghost pk_view = player@;
    let pk = vec_to_pk32(player)?;
    let seed = get_internal_round_seed(state, tier_id, round_id)?;
    let mut buf: Vec<u8> = Vec::new();
    push_bytes(&mut buf, seed.as_slice());
    buf.push(tier_id);
    push_bytes(&mut buf, pk.as_slice());
    let rb = u64_to_le(round_id);
    push_bytes(&mut buf, rb.as_slice());
    assert(buf@ =~= player_seed_preimage(seed, tier_id, pk_view, round_id));
    let h = sha256(buf.as_slice());
    let mut out: Vec<u8> = Vec::new();
    push_bytes(&mut out, h.as_slice());
    Ok(out)
}


/// Join data as submitted by the matrix worker. The three spawn values are `f32` numbers,
/// given as their bit patterns.
#[derive(Debug, Clone)]
pub struct PlayerJoinDataInput {
    /// 32-byte public key.
    pub player: Vec<u8>,
    pub tier_id: u8,
    pub round_id: u64,
    pub spawn_x_norm_bits: u32,
    pub spawn_y_norm_bits: u32,
    pub spawn_rot_rad_bits: u32,
    pub earned_sp: u8,
    pub alloc_split_aggro: u8,
    pub alloc_tether_res: u8,
    pub alloc_orb_power: u8,
}

/// Join data of one player of a round, as returned.
#[derive(Debug, Clone)]
pub struct PlayerJoinDataOutput {
    /// 32-byte public key.
    pub player: Vec<u8>,
    pub spawn_x_norm_bits: u32,
    pub spawn_y_norm_bits: u32,
    pub spawn_rot_rad_bits: u32,
    pub earned_sp: u8,
    pub alloc_split_aggro: u8,
    pub alloc_tether_res: u8,
    pub alloc_orb_power: u8,
    pub stored_at: u64,
}

/// The table key of a player's join data in a round.
pub open spec fn join_key(player: Seq<u8>, tier_id: u8, round_id: u64) -> [u8; 41] {
    array_of::<41>(spec_player_join_key(player, tier_id, round_id))
}

/// Skill points allocated by an input.
pub open spec fn alloc_total(input: PlayerJoinDataInput) -> int {
    input.alloc_split_aggro + input.alloc_tether_res + input.alloc_orb_power
}

/// Why an input is refused, if it is: a key that is not 32 bytes, a spawn position outside
/// the unit circle, a rotation that is not finite, or more skill points allocated than earned
/// (checked in that order). The two spawn checks are made on the `f32` values by the caller.
pub open spec fn join_error(
    input: PlayerJoinDataInput,
    spawn_in_unit_circle: bool,
    rotation_finite: bool,
) -> Option<Seq<char>> {
    if input.player@.len() != 32 {
        Some("invalid pubkey length, expected 32 bytes"@)
    } else if !spawn_in_unit_circle {
        Some("spawn position outside unit circle"@)
    } else if !rotation_finite {
        Some("spawn rotation must be finite"@)
    } else if alloc_total(input) > input.earned_sp {
        Some(
            "allocation sum "@ + decimal(alloc_total(input) as nat) + " exceeds earned_sp "@
                + decimal(input.earned_sp as nat),
        )
    } else {
        None
    }
}

/// The join data stored for an input at a time (nanoseconds).
pub open spec fn join_record(input: PlayerJoinDataInput, now_nanos: u64) -> PlayerJoinData {
    PlayerJoinData {
        spawn_x_norm_bits: input.spawn_x_norm_bits,
        spawn_y_norm_bits: input.spawn_y_norm_bits,
        spawn_rot_rad_bits: input.spawn_rot_rad_bits,
        earned_sp: input.earned_sp,
        alloc_split_aggro: input.alloc_split_aggro,
        alloc_tether_res: input.alloc_tether_res,
        alloc_orb_power: input.alloc_orb_power,
        stored_at: now_nanos / NANOS_PER_SECOND,
    }
}

/// Everything but the join data table is unchanged.
pub open spec fn only_join_data_changed(a: OrbsState, b: OrbsState) -> bool {
    &&& crate::state::seed_tables_eq(a, b)
    &&& crate::state::round_tables_eq(a, b)
    &&& a.admins == b.admins
    &&& a.players == b.players
    &&& a.pubkey == b.pubkey
    &&& a.engine_configs == b.engine_configs
    &&& a.current_config_version == b.current_config_version
    &&& a.player_configs == b.player_configs
}

/// Store a player's join data for a round (replacing earlier data of the same round).
/// `spawn_in_unit_circle` says whether x*x + y*y of the spawn values is not above 1.0, and
/// `rotation_finite` whether the rotation is finite, both computed on the `f32` values.
pub fn store_player_join_data(
    state: &mut OrbsState,
    input: PlayerJoinDataInput,
    spawn_in_unit_circle: bool,
    rotation_finite: bool,
    now_nanos: u64,
) -> (r: Result<(), String>)
    requires
        old(state).wf(),
    ensures
        final(state).wf(),
        only_join_data_changed(*final(state), *old(state)),
        r is Ok <==> join_error(input, spawn_in_unit_circle, rotation_finite) is None,
        r matches Err(e) ==> Some(e@) == join_error(input, spawn_in_unit_circle, rotation_finite)
            && final(state).player_join_data == old(state).player_join_data,
        r is Ok ==> final(state).player_join_data@ == old(state).player_join_data@.insert(
            join_key(input.player@, input.tier_id, input.round_id),
            join_record(input, now_nanos),
        ),
{
    let ghost pk_view = input.player@;
    let player = vec_to_pk32(input.player)?;
    if !spawn_in_unit_circle {
        return Err(text("spawn position outside unit circle"));
    }
    if !rotation_finite {
        return Err(text("spawn rotation must be finite"));
    }
    let total_alloc: u16 = input.alloc_split_aggro as u16 + input.alloc_tether_res as u16
        + input.alloc_orb_power as u16;
    if total_alloc > input.earned_sp as u16 {
        let mut e = text("allocation sum ");
        push_decimal(&mut e, total_alloc as u64);
        e.append(" exceeds earned_sp ");
        push_decimal(&mut e, input.earned_sp as u64);
        return Err(e);
    }
    let key = player_join_key(&player, input.tier_id, input.round_id);
    proof {
        lemma_array_of::<41>(key@, key);
        assert(key@ == spec_player_join_key(pk_view, input.tier_id, input.round_id));
    }
    let data = PlayerJoinData {
        spawn_x_norm_bits: input.spawn_x_norm_bits,
        spawn_y_norm_bits: input.spawn_y_norm_bits,
        spawn_rot_rad_bits: input.spawn_rot_rad_bits,
        earned_sp: input.earned_sp,
        alloc_split_aggro: input.alloc_split_aggro,
        alloc_tether_res: input.alloc_tether_res,
        alloc_orb_power: input.alloc_orb_power,
        stored_at: now_nanos / NANOS_PER_SECOND,
    };
    state.player_join_data.insert(key, data);
    Ok(())
}

/// A player's join data for a round; a key that is not 32 bytes is an error.
pub fn get_player_join_data(state: &OrbsState, player: Vec<u8>, tier_id: u8, round_id: u64) -> (r:
    Result<Option<PlayerJoinData>, String>)
    requires
        state.wf(),
    ensures
        r is Ok <==> player@.len() == 32,
        r matches Err(e) ==> e@ == "invalid pubkey length, expected 32 bytes"@,
        r matches Ok(o) ==> {
            let k = join_key(player@, tier_id, round_id);
            &&& o is Some <==> state.player_join_data@.contains_key(k)
            &&& o matches Some(d) ==> d == state.player_join_data@[k]
        },
{
    let ghost pk_view = player@;
    let pk = vec_to_pk32(player)?;
    let key = player_join_key(&pk, tier_id, round_id);
    proof {
        lemma_array_of::<41>(key@, key);
        assert(key@ == spec_player_join_key(pk_view, tier_id, round_id));
    }
    match state.player_join_data.get(&key) {
        Some(d) => Ok(Some(*d)),
        None => Ok(None),
    }
}

/// The key belongs to (tier, round).
pub open spec fn key_in_round(key: [u8; 41], tier_id: u8, round_id: u64) -> bool {
    key@[32] == tier_id && u64_from_be(key@.subrange(33, 41)) == round_id
}

/// The entries of a round, in key order.
pub open spec fn round_join_entries(
    es: Seq<([u8; 41], PlayerJoinData)>,
    tier_id: u8,
    round_id: u64,
) -> Seq<([u8; 41], PlayerJoinData)>
    decreases es.len(),
{
    if es.len() == 0 {
        Seq::empty()
    } else {
        let rest = round_join_entries(es.drop_last(), tier_id, round_id);
        if key_in_round(es.last().0, tier_id, round_id) {
            rest.push(es.last())
        } else {
            rest
        }
    }
}

/// `o` shows the join data `d` stored under key `key`.
pub open spec fn shows_join(o: PlayerJoinDataOutput, key: [u8; 41], d: PlayerJoinData) -> bool {
    &&& o.player@ == key@.subrange(0, 32)
    &&& o.spawn_x_norm_bits == d.spawn_x_norm_bits
    &&& o.spawn_y_norm_bits == d.spawn_y_norm_bits
    &&& o.spawn_rot_rad_bits == d.spawn_rot_rad_bits
    &&& o.earned_sp == d.earned_sp
    &&& o.alloc_split_aggro == d.alloc_split_aggro
    &&& o.alloc_tether_res == d.alloc_tether_res
    &&& o.alloc_orb_power == d.alloc_orb_power
    &&& o.stored_at == d.stored_at
}

/// Outputs showing the entries, in order.
pub open spec fn shows_joins(outs: Seq<PlayerJoinDataOutput>, es: Seq<([u8; 41], PlayerJoinData)>) -> bool {
    &&& outs.len() == es.len()
    &&& forall|i: int| 0 <= i < outs.len() ==> shows_join(#[trigger] outs[i], es[i].0, es[i].1)
}

/// The join data of every player of a round, in key order (by player).
pub fn get_round_join_data(state: &OrbsState, tier_id: u8, round_id: u64) -> (r: Vec<
    PlayerJoinDataOutput,
>)
    requires
        state.wf(),
    ensures
        shows_joins(r@, round_join_entries(state.player_join_data.entries(), tier_id, round_id)),
{
    let n = state.player_join_data.len();
    let ghost es = state.player_join_data.entries();
    let mut results: Vec<PlayerJoinDataOutput> = Vec::new();
    let mut i: usize = 0;
    assert(es.take(0) =~= Seq::<([u8; 41], PlayerJoinData)>::empty());
    while i < n
        invariant
            n == es.len(),
            es == state.player_join_data.entries(),
            0 <= i <= n,
            shows_joins(results@, round_join_entries(es.take(i as int), tier_id, round_id)),
        decreases n - i,
    {
        let e = state.player_join_data.entry_at(i);
        assert(es.take(i + 1).drop_last() =~= es.take(i as int));
        assert(es.take(i + 1).last() == *e);
        let (player, t, r) = parse_player_join_key(&e.0);
        if t == tier_id && r == round_id {
            let mut pv: Vec<u8> = Vec::new();
            push_bytes(&mut pv, player.as_slice());
            let d = e.1;
            results.push(
                PlayerJoinDataOutput {
                    player: pv,
                    spawn_x_norm_bits: d.spawn_x_norm_bits,
                    spawn_y_norm_bits: d.spawn_y_norm_bits,
                    spawn_rot_rad_bits: d.spawn_rot_rad_bits,
                    earned_sp: d.earned_sp,
                    alloc_split_aggro: d.alloc_split_aggro,
                    alloc_tether_res: d.alloc_tether_res,
                    alloc_orb_power: d.alloc_orb_power,
                    stored_at: d.stored_at,
                },
            );
        }
        i = i + 1;
    }
    assert(es.take(n as int) =~= es);
    results
}


/// Stored join data keeps the submission as given: each spawn value and allocation of the
/// record is the input's field of the same name, and the time is in whole seconds.
pub proof fn lemma_join_data_kept_as_given(input: PlayerJoinDataInput, now_nanos: u64)
    ensures
        join_record(input, now_nanos).spawn_x_norm_bits == input.spawn_x_norm_bits,
        join_record(input, now_nanos).spawn_y_norm_bits == input.spawn_y_norm_bits,
        join_record(input, now_nanos).spawn_rot_rad_bits == input.spawn_rot_rad_bits,
        join_record(input, now_nanos).earned_sp == input.earned_sp,
        join_record(input, now_nanos).alloc_split_aggro == input.alloc_split_aggro,
        join_record(input, now_nanos).alloc_tether_res == input.alloc_tether_res,
        join_record(input, now_nanos).alloc_orb_power == input.alloc_orb_power,
        join_record(input, now_nanos).stored_at == now_nanos / 1_000_000_000,
{
}

/// Reading join data back after a successful store gives the submission: the data found
/// under the player's key for the round holds the input's fields.
pub proof fn lemma_join_data_read_back(
    before: Map<[u8; 41], PlayerJoinData>,
    after: Map<[u8; 41], PlayerJoinData>,
    input: PlayerJoinDataInput,
    now_nanos: u64,
)
    requires
        after == before.insert(
            join_key(input.player@, input.tier_id, input.round_id),
            join_record(input, now_nanos),
        ),
    ensures
        ({
            let d = after[join_key(input.player@, input.tier_id, input.round_id)];
            &&& d.spawn_x_norm_bits == input.spawn_x_norm_bits
            &&& d.spawn_y_norm_bits == input.spawn_y_norm_bits
            &&& d.spawn_rot_rad_bits == input.spawn_rot_rad_bits
            &&& d.earned_sp == input.earned_sp
            &&& d.alloc_split_aggro == input.alloc_split_aggro
            &&& d.alloc_tether_res == input.alloc_tether_res
            &&& d.alloc_orb_power == input.alloc_orb_power
            &&& d.stored_at == now_nanos / 1_000_000_000
        }),
{
}


/// A listed row shows the stored join data it was made from, field by field, under the
/// player of its key.
pub proof fn lemma_join_row_shows_data(o: PlayerJoinDataOutput, key: [u8; 41], d: PlayerJoinData)
    requires
        shows_join(o, key, d),
    ensures
        o.player@ == key@.subrange(0, 32),
        o.spawn_x_norm_bits == d.spawn_x_norm_bits,
        o.spawn_y_norm_bits == d.spawn_y_norm_bits,
        o.spawn_rot_rad_bits == d.spawn_rot_rad_bits,
        o.earned_sp == d.earned_sp,
        o.alloc_split_aggro == d.alloc_split_aggro,
        o.alloc_tether_res == d.alloc_tether_res,
        o.alloc_orb_power == d.alloc_orb_power,
        o.stored_at == d.stored_at,
{
}

} // verus!
