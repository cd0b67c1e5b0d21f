//! The checks the canister's endpoints make before they hand requests to the services:
//! size bounds on inputs and on responses. Caller authentication stays with the endpoints.
use vstd::prelude::*;
use vstd::string::StringExecFns;
use vstd::utf8::encode_utf8;
use crate::admin::{filter_anonymous, init_admins, non_anonymous, principals_fit, MAX_PRINCIPAL_LEN};
use crate::engine_config::{
    add_engine_config, byte_len, config_views, get_engine_config, list_engine_config_versions,
    update_engine_config, version_key,
};
use crate::join_data::{
    get_player_join_data, get_player_round_seed, store_player_join_data, PlayerJoinDataInput,
};
use crate::player_config::{
    get_player_config, list_player_configs, list_player_configs_if_revealed, round_records,
    set_player_config, shows_records, PlayerConfigInput, PlayerConfigOutput,
};
use crate::players::{add_players, get_players};
use crate::rounds::{
    get_player_round_history, get_round_snapshots_by_tier, store_round_snapshot,
    update_round_config_version,
};
use crate::shared::{PlayerPage, PlayerRoundHistoryPage, RoundPlayerSnapshotInput, RoundSnapshotPage};
use crate::state::{set_current_config_version, EngineConfig, OrbsState, PlayerJoinData};
use crate::text::{decimal, push_decimal, text};

verus! {

/// Most items per page.
pub const MAX_PAGE_LIMIT: u64 = 100;

/// Most players per batch add.
pub const MAX_PLAYERS_BATCH: usize = 200;

/// Size of a public key.
pub const PUBKEY_SIZE: usize = 32;

/// Largest engine config JSON (64 KiB).
pub const MAX_CONFIG_JSON_SIZE: usize = 65_536;

/// Most admins at initialization.
pub const MAX_INIT_ADMINS: usize = 10;

/// Most players per round snapshot batch.
pub const MAX_SNAPSHOT_PLAYERS: usize = 50;

/// Most engine config versions listed.
pub const MAX_CONFIG_VERSIONS_LIST: usize = 100;

/// Most player configs listed per round.
pub const MAX_PLAYER_CONFIGS_LIST: usize = 100;

/// Size of a hash.
pub const HASH_SIZE: usize = 32;

/// Clamp a page limit to `MAX_PAGE_LIMIT`.
pub fn clamp_limit(limit: u64) -> (r: u64)
    ensures
        r == if limit < MAX_PAGE_LIMIT {
            limit
        } else {
            MAX_PAGE_LIMIT
        },
{
    if limit < MAX_PAGE_LIMIT {
        limit
    } else {
        MAX_PAGE_LIMIT
    }
}

pub open spec fn size_error(what: Seq<char>, n: nat) -> Seq<char> {
    what + decimal(n) + " (expected 32)"@
}

/// Initialization: admins are the listed principals that are not anonymous, and the caller.
/// More than `MAX_INIT_ADMINS` principals are refused by the endpoint before this runs.
pub fn init_canister(state: &mut OrbsState, admins: Vec<Vec<u8>>, caller: Vec<u8>)
    requires
        old(state).wf(),
        admins@.len() <= MAX_INIT_ADMINS,
        principals_fit(admins@),
        caller@.len() <= MAX_PRINCIPAL_LEN,
    ensures
        final(state).wf(),
        crate::admin::only_admins_changed(*final(state), *old(state)),
        crate::admin::admin_views(final(state).admins@) == crate::admin::granted(
            crate::admin::admin_views(old(state).admins@),
            non_anonymous(admins@).push(caller@),
        ),
        final(state).admins@.contains_key(crate::admin::admin_key_of(caller@)),
        forall|i: int|
            0 <= i < non_anonymous(admins@).len() ==> final(state).admins@.contains_key(
                crate::admin::admin_key_of(#[trigger] non_anonymous(admins@)[i]),
            ),
{
    let ghost original = admins@;
    let valid = filter_anonymous(admins);
    assert forall|i: int| 0 <= i < valid@.len() implies (#[trigger] valid@[i])@.len()
        <= MAX_PRINCIPAL_LEN by {
        let j = choose|j: int| 0 <= j < original.len() && valid@[i]@ == (#[trigger] original[j])@;
    }
    init_admins(state, valid, caller);
    assert forall|i: int| 0 <= i < non_anonymous(original).len() implies
        state.admins@.contains_key(crate::admin::admin_key_of(#[trigger] non_anonymous(original)[i])) by {
        assert(valid@.map_values(|v: Vec<u8>| v@)[i] == valid@[i]@);
    }
}

/// Position of the first key of `keys` that is not 32 bytes (`keys.len()` if none).
pub open spec fn first_bad_key(keys: Seq<Vec<u8>>) -> int
    decreases keys.len(),
{
    if keys.len() == 0 {
        0
    } else if keys[0]@.len() != PUBKEY_SIZE {
        0
    } else {
        1 + first_bad_key(keys.drop_first())
    }
}

proof fn lemma_first_bad_key(keys: Seq<Vec<u8>>, i: int)
    requires
        0 <= i < keys.len(),
        keys[i]@.len() != PUBKEY_SIZE,
        forall|j: int| 0 <= j < i ==> (#[trigger] keys[j])@.len() == PUBKEY_SIZE,
    ensures
        first_bad_key(keys) == i,
    decreases i,
{
    if i > 0 {
        let t = keys.drop_first();
        assert forall|j: int| 0 <= j < i - 1 implies (#[trigger] t[j])@.len() == PUBKEY_SIZE by {
            assert(t[j] == keys[j + 1]);
        }
        assert(keys[0]@.len() == PUBKEY_SIZE);
        lemma_first_bad_key(t, i - 1);
    }
}

/// Endpoint form of `add_players`: at most `MAX_PLAYERS_BATCH` keys of 32 bytes each.
pub fn handle_add_players(state: &mut OrbsState, pubkeys: Vec<Vec<u8>>) -> (r: Result<(), String>)
    requires
        old(state).wf(),
    ensures
        final(state).wf(),
        pubkeys@.len() > MAX_PLAYERS_BATCH ==> r is Err && r->Err_0@ == "batch too large: "@
            + decimal(pubkeys@.len()) + " (max 200)"@ && *final(state) == *old(state),
        pubkeys@.len() <= MAX_PLAYERS_BATCH && (exists|i: int|
            0 <= i < pubkeys@.len() && (#[trigger] pubkeys@[i])@.len() != PUBKEY_SIZE) ==> r is Err
            && r->Err_0@ == size_error(
            "invalid pubkey size: "@,
            pubkeys@[first_bad_key(pubkeys@)]@.len(),
        ) && *final(state) == *old(state),
        pubkeys@.len() <= MAX_PLAYERS_BATCH && (forall|i: int|
            0 <= i < pubkeys@.len() ==> (#[trigger] pubkeys@[i])@.len() == PUBKEY_SIZE) ==> r is Ok
            && crate::state::seed_tables_eq(*final(state), *old(state))
            && crate::state::round_tables_eq(*final(state), *old(state))
            && final(state).admins == old(state).admins
            && final(state).pubkey == old(state).pubkey
            && final(state).engine_configs == old(state).engine_configs
            && final(state).current_config_version == old(state).current_config_version
            && final(state).player_join_data == old(state).player_join_data
            && final(state).player_configs == old(state).player_configs
            && forall|pk: [u8; 32]| #[trigger]
                final(state).players@.contains_key(pk) <==> old(state).players@.contains_key(pk)
                    || crate::players::is_listed(pubkeys@, pk),
{
    if pubkeys.len() > MAX_PLAYERS_BATCH {
        let mut e = text("batch too large: ");
        push_decimal(&mut e, pubkeys.len() as u64);
        e.append(" (max 200)");
        return Err(e);
    }
    let mut i: usize = 0;
    while i < pubkeys.len()
        invariant
            0 <= i <= pubkeys@.len(),
            pubkeys@.len() <= MAX_PLAYERS_BATCH,
            *state == *old(state),
            state.wf(),
            forall|j: int| 0 <= j < i ==> (#[trigger] pubkeys@[j])@.len() == PUBKEY_SIZE,
        decreases pubkeys@.len() - i,
    {
        if pubkeys[i].len() != PUBKEY_SIZE {
            proof {
                lemma_first_bad_key(pubkeys@, i as int);
            }
            let mut e = text("invalid pubkey size: ");
            push_decimal(&mut e, pubkeys[i].len() as u64);
            e.append(" (expected 32)");
            return Err(e);
        }
        i = i + 1;
    }
    add_players(state, pubkeys)
}

/// Endpoint form of `get_players`: the limit is clamped.
pub fn handle_get_players(state: &OrbsState, offset: u64, limit: u64) -> (r: PlayerPage)
    requires
        state.wf(),
    ensures
        r.total == state.players.entries().len(),
        r.players@.map_values(|v: Vec<u8>| v@) == if clamp_limit_spec(limit) as usize == 0 {
            Seq::empty()
        } else {
            crate::rounds::page(
                crate::players::player_key_views(state.players.entries()),
                offset as usize as nat,
                clamp_limit_spec(limit) as usize as nat,
            )
        },
{
    get_players(state, offset, clamp_limit(limit))
}

pub open spec fn clamp_limit_spec(limit: u64) -> u64 {
    if limit < MAX_PAGE_LIMIT {
        limit
    } else {
        MAX_PAGE_LIMIT
    }
}

/// Endpoint form of `store_round_snapshot`: at most `MAX_SNAPSHOT_PLAYERS` players.
pub fn handle_store_round_snapshot(
    state: &mut OrbsState,
    tier_id: u8,
    round_id: u64,
    season_id: u16,
    players: Vec<RoundPlayerSnapshotInput>,
    did_emit: bool,
    emit_tx_sig: Option<String>,
) -> (r: Result<(), String>)
    requires
        old(state).wf(),
    ensures
        final(state).wf(),
        crate::state::seed_tables_eq(*final(state), *old(state)),
        crate::state::registry_eq(*final(state), *old(state)),
        players@.len() > MAX_SNAPSHOT_PLAYERS ==> r is Err && r->Err_0@ == "too many players: "@
            + decimal(players@.len()) + " (max 50)"@ && *final(state) == *old(state),
        players@.len() <= MAX_SNAPSHOT_PLAYERS ==> match crate::rounds::input_records(players@) {
            None => r is Err && *final(state) == *old(state),
            Some(recs) => r is Ok && crate::rounds::stored_batch(
                *old(state),
                *final(state),
                tier_id,
                round_id,
                season_id,
                recs,
                did_emit,
                crate::state::opt_string_view(emit_tx_sig),
            ),
        },
{
    if players.len() > MAX_SNAPSHOT_PLAYERS {
        let mut e = text("too many players: ");
        push_decimal(&mut e, players.len() as u64);
        e.append(" (max 50)");
        return Err(e);
    }
    store_round_snapshot(state, tier_id, round_id, season_id, players, did_emit, emit_tx_sig)
}

/// Endpoint form of `update_round_config_version`: the version is at most 32 bytes.
pub fn handle_update_round_config_version(
    state: &mut OrbsState,
    tier_id: u8,
    round_id: u64,
    config_version: String,
) -> (r: Result<(), String>)
    requires
        old(state).wf(),
    ensures
        final(state).wf(),
        byte_len(config_version@) > 32 ==> r is Err && r->Err_0@
            == "config version too long (max 32 chars)"@ && *final(state) == *old(state),
        byte_len(config_version@) <= 32 ==> ({
            let key = crate::keys::spec_round_key(tier_id, round_id);
            if old(state).round_snapshots@.contains_key(key) {
                &&& r is Ok
                &&& crate::state::seed_tables_eq(*final(state), *old(state))
                &&& crate::state::registry_eq(*final(state), *old(state))
                &&& final(state).round_history_entries == old(state).round_history_entries
                &&& final(state).player_round_refs == old(state).player_round_refs
                &&& final(state).round_snapshots@.contains_key(key)
                &&& final(state).round_snapshots@.remove(key) == old(state).round_snapshots@.remove(key)
                &&& final(state).round_snapshots@[key]@ == (crate::state::RoundSnapshotView {
                    config_version: config_version@,
                    ..old(state).round_snapshots@[key]@
                })
            } else {
                &&& r is Err
                &&& r->Err_0@ == crate::rounds::snapshot_not_found_error(tier_id, round_id)
                &&& *final(state) == *old(state)
            }
        }),
{
    if config_version.as_str().len() > 32 {
        return Err(text("config version too long (max 32 chars)"));
    }
    update_round_config_version(state, tier_id, round_id, config_version)
}

/// Endpoint form of `get_round_snapshots_by_tier`: the limit is clamped.
pub fn handle_get_round_snapshots_by_tier(state: &OrbsState, tier_id: u8, offset: u64, limit: u64) -> (r:
    RoundSnapshotPage)
    requires
        state.wf(),
    ensures
        ({
            let all = crate::rounds::snapshots_of_tier(state.round_snapshots.entries(), tier_id);
            let take = clamp_limit_spec(limit);
            &&& r.total == all.len()
            &&& crate::rounds::snapshot_views(r.snapshots@) == if take as usize == 0 {
                Seq::empty()
            } else {
                crate::rounds::page(all, offset as usize as nat, take as usize as nat)
            }
        }),
{
    get_round_snapshots_by_tier(state, tier_id, offset, clamp_limit(limit))
}

/// Endpoint form of `get_player_round_history`: a 32-byte key, a clamped limit.
pub fn handle_get_player_round_history(
    state: &OrbsState,
    player_pubkey: Vec<u8>,
    offset: u64,
    limit: u64,
) -> (r: Result<PlayerRoundHistoryPage, String>)
    requires
        state.wf(),
    ensures
        r is Ok <==> player_pubkey@.len() == PUBKEY_SIZE,
        r matches Err(e) ==> e@ == size_error("invalid pubkey size: "@, player_pubkey@.len()),
        r matches Ok(pg) ==> crate::rounds::history_page(
            *state,
            crate::encoding::array32(player_pubkey@),
            offset,
            clamp_limit_spec(limit),
        ) == (pg.total as nat, pg.rounds@),
{
    if player_pubkey.len() != PUBKEY_SIZE {
        let mut e = text("invalid pubkey size: ");
        push_decimal(&mut e, player_pubkey.len() as u64);
        e.append(" (expected 32)");
        return Err(e);
    }
    get_player_round_history(state, player_pubkey, offset, clamp_limit(limit))
}

/// Endpoint form of `get_player_round_seed`: a 32-byte key.
pub fn handle_get_player_round_seed(state: &OrbsState, tier_id: u8, round_id: u64, player: Vec<u8>) -> (r:
    Result<Vec<u8>, String>)
    requires
        state.wf(),
    ensures
        player@.len() != PUBKEY_SIZE ==> r is Err && r->Err_0@ == size_error("invalid pubkey size: "@, player@.len()),
        player@.len() == PUBKEY_SIZE ==> (r is Ok <==> crate::revelation::round_seed(
            *state,
            tier_id,
            round_id,
        ) is Some),
        player@.len() == PUBKEY_SIZE && crate::revelation::round_seed(*state, tier_id, round_id)
            is None ==> (r matches Err(e) && e@ == crate::revelation::raw_seed_error(
            *state,
            tier_id,
            round_id,
        )),
        r matches Ok(v) ==> v@ == crate::hashing::sha256_of(
            crate::join_data::player_seed_preimage(
                crate::revelation::round_seed(*state, tier_id, round_id)->Some_0,
                tier_id,
                player@,
                round_id,
            ),
        )@,
{
    if player.len() != PUBKEY_SIZE {
        let mut e = text("invalid pubkey size: ");
        push_decimal(&mut e, player.len() as u64);
        e.append(" (expected 32)");
        return Err(e);
    }
    get_player_round_seed(state, tier_id, round_id, player)
}

/// Endpoint form of `store_player_join_data`: a 32-byte key.
pub fn handle_store_player_join_data(
    state: &mut OrbsState,
    input: PlayerJoinDataInput,
    spawn_in_unit_circle: bool,
    rotation_finite: bool,
    now_nanos: u64,
) -> (r: Result<(), String>)
    requires
        old(state).wf(),
    ensures
        final(state).wf(),
        input.player@.len() != PUBKEY_SIZE ==> r is Err && r->Err_0@ == size_error(
            "invalid pubkey size: "@,
            input.player@.len(),
        ) && *final(state) == *old(state),
        input.player@.len() == PUBKEY_SIZE ==> {
            &&& crate::join_data::only_join_data_changed(*final(state), *old(state))
            &&& r is Ok <==> crate::join_data::join_error(input, spawn_in_unit_circle, rotation_finite) is None
            &&& r matches Err(e) ==> Some(e@) == crate::join_data::join_error(
                input,
                spawn_in_unit_circle,
                rotation_finite,
            ) && final(state).player_join_data == old(state).player_join_data
            &&& r is Ok ==> final(state).player_join_data@ == old(state).player_join_data@.insert(
                crate::join_data::join_key(input.player@, input.tier_id, input.round_id),
                crate::join_data::join_record(input, now_nanos),
            )
        },
{
    if input.player.len() != PUBKEY_SIZE {
        let mut e = text("invalid pubkey size: ");
        push_decimal(&mut e, input.player.len() as u64);
        e.append(" (expected 32)");
        return Err(e);
    }
    store_player_join_data(state, input, spawn_in_unit_circle, rotation_finite, now_nanos)
}

/// Endpoint form of `get_player_join_data`: a 32-byte key.
pub fn handle_get_player_join_data(state: &OrbsState, player: Vec<u8>, tier_id: u8, round_id: u64) -> (r:
    Result<Option<PlayerJoinData>, String>)
    requires
        state.wf(),
    ensures
        r is Ok <==> player@.len() == PUBKEY_SIZE,
        r matches Err(e) ==> e@ == size_error("invalid pubkey size: "@, player@.len()),
        r matches Ok(o) ==> {
            let k = crate::join_data::join_key(player@, tier_id, round_id);
            &&& o is Some <==> state.player_join_data@.contains_key(k)
            &&& o matches Some(d) ==> d == state.player_join_data@[k]
        },
{
    if player.len() != PUBKEY_SIZE {
        let mut e = text("invalid pubkey size: ");
        push_decimal(&mut e, player.len() as u64);
        e.append(" (expected 32)");
        return Err(e);
    }
    get_player_join_data(state, player, tier_id, round_id)
}

/// Endpoint form of `set_player_config`: a 32-byte hash and key.
pub fn handle_set_player_config(state: &mut OrbsState, input: PlayerConfigInput, now_nanos: u64) -> (r:
    Result<(), String>)
    requires
        old(state).wf(),
    ensures
        final(state).wf(),
        crate::player_config::only_player_configs_changed(*final(state), *old(state)),
        r is Err ==> *final(state) == *old(state),
        input.player_config_hash@.len() != HASH_SIZE ==> r is Err && r->Err_0@ == size_error("invalid player_config_hash size: "@, input.player_config_hash@.len()) && *final(state) == *old(state),
        input.player_config_hash@.len() == HASH_SIZE && input.player_pubkey@.len() != PUBKEY_SIZE
            ==> r is Err && r->Err_0@ == size_error("invalid player_pubkey size: "@, input.player_pubkey@.len()) && *final(state) == *old(state),
        input.player_config_hash@.len() == HASH_SIZE && input.player_pubkey@.len() == PUBKEY_SIZE
            ==> {
            let k = crate::player_config::config_key(
                input.round_id,
                input.tier_id,
                input.player_config_hash@,
            );
            &&& r is Ok <==> input.tp_preset <= 4 && !old(state).player_configs@.contains_key(k)
            &&& r is Ok ==> final(state).player_configs@ == old(state).player_configs@.insert(
                k,
                crate::player_config::record_of(input, now_nanos),
            )
        },
{
    if input.player_config_hash.len() != HASH_SIZE {
        let mut e = text("invalid player_config_hash size: ");
        push_decimal(&mut e, input.player_config_hash.len() as u64);
        e.append(" (expected 32)");
        return Err(e);
    }
    if input.player_pubkey.len() != PUBKEY_SIZE {
        let mut e = text("invalid player_pubkey size: ");
        push_decimal(&mut e, input.player_pubkey.len() as u64);
        e.append(" (expected 32)");
        return Err(e);
    }
    set_player_config(state, input, now_nanos)
}

/// Endpoint form of `get_player_config`: a 32-byte hash.
pub fn handle_get_player_config(
    state: &OrbsState,
    round_id: u64,
    tier_id: u8,
    player_config_hash: Vec<u8>,
) -> (r: Result<Option<PlayerConfigOutput>, String>)
    requires
        state.wf(),
    ensures
        r is Ok <==> player_config_hash@.len() == HASH_SIZE,
        r matches Err(e) ==> e@ == size_error("invalid player_config_hash size: "@, player_config_hash@.len()),
        r matches Ok(o) ==> {
            let k = crate::player_config::config_key(round_id, tier_id, player_config_hash@);
            &&& o is Some <==> state.player_configs@.contains_key(k)
            &&& o matches Some(out) ==> crate::player_config::shows_record(
                out,
                state.player_configs@[k],
            )
        },
{
    if player_config_hash.len() != HASH_SIZE {
        let mut e = text("invalid player_config_hash size: ");
        push_decimal(&mut e, player_config_hash.len() as u64);
        e.append(" (expected 32)");
        return Err(e);
    }
    get_player_config(state, round_id, tier_id, player_config_hash)
}

/// The first `n` items of `v`.
fn truncate_configs(v: Vec<PlayerConfigOutput>, n: usize) -> (r: Vec<PlayerConfigOutput>)
    ensures
        r@ == if v@.len() > n {
            v@.take(n as int)
        } else {
            v@
        },
{
    if v.len() > n {
        let mut v = v;
        v.truncate(n);
        v
    } else {
        v
    }
}

/// The first `MAX_PLAYER_CONFIGS_LIST` of a round's records.
pub open spec fn bounded_records(state: OrbsState, round_id: u64, tier_id: u8) -> Seq<
    crate::state::PlayerConfigRecord,
> {
    let all = round_records(state, round_id, tier_id);
    if all.len() > MAX_PLAYER_CONFIGS_LIST {
        all.take(MAX_PLAYER_CONFIGS_LIST as int)
    } else {
        all
    }
}

/// Endpoint form of `list_player_configs`: at most `MAX_PLAYER_CONFIGS_LIST` records.
pub fn handle_list_player_configs(state: &OrbsState, round_id: u64, tier_id: u8) -> (r: Vec<
    PlayerConfigOutput,
>)
    requires
        state.wf(),
    ensures
        shows_records(r@, bounded_records(*state, round_id, tier_id)),
{
    let all = list_player_configs(state, round_id, tier_id);
    truncate_configs(all, MAX_PLAYER_CONFIGS_LIST)
}

/// Endpoint form of `list_player_configs_if_revealed`: at most `MAX_PLAYER_CONFIGS_LIST`.
pub fn handle_list_player_configs_if_revealed(state: &OrbsState, round_id: u64, tier_id: u8) -> (r:
    Result<Vec<PlayerConfigOutput>, String>)
    requires
        state.wf(),
    ensures
        r is Ok <==> state.revealed_seeds@.contains_key(crate::keys::spec_round_key(tier_id, round_id)),
        r matches Ok(v) ==> shows_records(v@, bounded_records(*state, round_id, tier_id)),
        r matches Err(e) ==> e@ == crate::player_config::not_revealed_error(round_id, tier_id),
{
    let all = list_player_configs_if_revealed(state, round_id, tier_id)?;
    Ok(truncate_configs(all, MAX_PLAYER_CONFIGS_LIST))
}

pub open spec fn json_too_large_error(n: nat) -> Seq<char> {
    "config_json too large: "@ + decimal(n) + " bytes (max 65536)"@
}

pub open spec fn version_too_long_error(n: nat) -> Seq<char> {
    "version too long: "@ + decimal(n) + " (max 16)"@
}

/// The size checks shared by the engine config endpoints.
fn check_engine_config_sizes(version: &String, config_json: &String) -> (r: Result<(), String>)
    ensures
        byte_len(config_json@) > MAX_CONFIG_JSON_SIZE ==> r is Err && r->Err_0@
            == json_too_large_error(byte_len(config_json@) as nat),
        byte_len(config_json@) <= MAX_CONFIG_JSON_SIZE && byte_len(version@) > 16 ==> r is Err
            && r->Err_0@ == version_too_long_error(byte_len(version@) as nat),
        byte_len(config_json@) <= MAX_CONFIG_JSON_SIZE && byte_len(version@) <= 16 ==> r is Ok,
{
    let json_len = config_json.as_str().len();
    if json_len > MAX_CONFIG_JSON_SIZE {
        let mut e = text("config_json too large: ");
        push_decimal(&mut e, json_len as u64);
        e.append(" bytes (max 65536)");
        return Err(e);
    }
    let version_len = version.as_str().len();
    if version_len > 16 {
        let mut e = text("version too long: ");
        push_decimal(&mut e, version_len as u64);
        e.append(" (max 16)");
        return Err(e);
    }
    Ok(())
}

/// Endpoint form of `add_engine_config`: JSON of at most 64 KiB, version of at most 16 bytes.
pub fn handle_add_engine_config(
    state: &mut OrbsState,
    version: String,
    config_json: String,
    now_nanos: u64,
) -> (r: Result<(), String>)
    requires
        old(state).wf(),
    ensures
        final(state).wf(),
        crate::engine_config::only_engine_configs_changed(*final(state), *old(state)),
        r is Err ==> *final(state) == *old(state),
        byte_len(config_json@) > MAX_CONFIG_JSON_SIZE ==> r is Err && *final(state) == *old(state),
        byte_len(config_json@) <= MAX_CONFIG_JSON_SIZE && byte_len(version@) > 16 ==> r is Err
            && r->Err_0@ == version_too_long_error(byte_len(version@) as nat) && *final(state)
            == *old(state),
        byte_len(config_json@) <= MAX_CONFIG_JSON_SIZE && byte_len(version@) <= 16 ==> (r is Ok
            <==> version@.len() > 0 && !old(state).engine_configs@.contains_key(
            version_key(version@),
        )),
        r is Ok ==> crate::engine_config::stored_config(
            old(state).engine_configs@,
            final(state).engine_configs@,
            version_key(version@),
            crate::engine_config::config_view(version@, config_json@, now_nanos),
        ),
{
    check_engine_config_sizes(&version, &config_json)?;
    add_engine_config(state, version, config_json, now_nanos)
}

/// Endpoint form of `update_engine_config`: JSON of at most 64 KiB, version of at most 16
/// bytes.
pub fn handle_update_engine_config(
    state: &mut OrbsState,
    version: String,
    config_json: String,
    now_nanos: u64,
) -> (r: Result<(), String>)
    requires
        old(state).wf(),
    ensures
        final(state).wf(),
        crate::engine_config::only_engine_configs_changed(*final(state), *old(state)),
        r is Err ==> *final(state) == *old(state),
        byte_len(config_json@) > MAX_CONFIG_JSON_SIZE ==> r is Err && *final(state) == *old(state),
        byte_len(config_json@) <= MAX_CONFIG_JSON_SIZE && byte_len(version@) > 16 ==> r is Err
            && *final(state) == *old(state),
        byte_len(config_json@) <= MAX_CONFIG_JSON_SIZE && byte_len(version@) <= 16 ==> (r is Ok
            <==> old(state).engine_configs@.contains_key(version_key(version@))),
        r is Ok ==> crate::engine_config::stored_config(
            old(state).engine_configs@,
            final(state).engine_configs@,
            version_key(version@),
            crate::engine_config::config_view(version@, config_json@, now_nanos),
        ),
{
    check_engine_config_sizes(&version, &config_json)?;
    update_engine_config(state, version, config_json, now_nanos)
}

/// Endpoint form of `list_engine_config_versions`: at most `MAX_CONFIG_VERSIONS_LIST`.
pub fn handle_list_engine_config_versions(state: &OrbsState) -> (r: Vec<EngineConfig>)
    requires
        state.wf(),
    ensures
        ({
            let all = config_views(state.engine_configs.entries());
            r@.map_values(|c: EngineConfig| c@) == if all.len() > MAX_CONFIG_VERSIONS_LIST {
                all.take(MAX_CONFIG_VERSIONS_LIST as int)
            } else {
                all
            }
        }),
{
    let mut all = list_engine_config_versions(state);
    if all.len() > MAX_CONFIG_VERSIONS_LIST {
        let ghost before = all@;
        all.truncate(MAX_CONFIG_VERSIONS_LIST);
        assert(all@.map_values(|c: EngineConfig| c@) =~= before.map_values(|c: EngineConfig| c@).take(
            MAX_CONFIG_VERSIONS_LIST as int,
        ));
    }
    all
}

/// Make an existing engine config version the current one; its name is at most 16 bytes.
pub fn handle_set_current_config_version(state: &mut OrbsState, version: String) -> (r: Result<
    (),
    String,
>)
    requires
        old(state).wf(),
    ensures
        final(state).wf(),
        byte_len(version@) > 16 ==> r is Err && r->Err_0@ == version_too_long_error(
            byte_len(version@) as nat,
        ) && *final(state) == *old(state),
        byte_len(version@) <= 16 && !old(state).engine_configs@.contains_key(version_key(version@))
            ==> r is Err && r->Err_0@ == "Engine config version "@ + version@
            + " does not exist. Add it first with add_engine_config."@
            && *final(state) == *old(state),
        byte_len(version@) <= 16 && old(state).engine_configs@.contains_key(version_key(version@))
            ==> r is Ok && final(state).current_config_version@ == version@
            && final(state).engine_configs == old(state).engine_configs,
{
    let len = version.as_str().len();
    if len > 16 {
        let mut e = text("version too long: ");
        push_decimal(&mut e, len as u64);
        e.append(" (max 16)");
        return Err(e);
    }
    let copy = crate::text::copy_string(&version);
    if get_engine_config(state, copy).is_none() {
        let mut e = text("Engine config version ");
        e.append(version.as_str());
        e.append(" does not exist. Add it first with add_engine_config.");
        return Err(e);
    }
    set_current_config_version(state, version);
    Ok(())
}

/// Upgrade migration: round 283 of tier 0 was stored before version "2.0.0" became current.
pub fn post_upgrade_migration(state: &mut OrbsState)
    requires
        old(state).wf(),
    ensures
        final(state).wf(),
        crate::state::seed_tables_eq(*final(state), *old(state)),
        crate::state::registry_eq(*final(state), *old(state)),
        final(state).round_history_entries == old(state).round_history_entries,
        final(state).player_round_refs == old(state).player_round_refs,
        ({
            let key = crate::keys::spec_round_key(0, 283);
            if old(state).round_snapshots@.contains_key(key) {
                &&& final(state).round_snapshots@.contains_key(key)
                &&& final(state).round_snapshots@.remove(key) == old(state).round_snapshots@.remove(key)
                &&& final(state).round_snapshots@[key]@ == (crate::state::RoundSnapshotView {
                    config_version: "2.0.0"@,
                    ..old(state).round_snapshots@[key]@
                })
            } else {
                final(state).round_snapshots == old(state).round_snapshots
            }
        }),
{
    let v = text("2.0.0");
    let _ = update_round_config_version(state, 0, 283, v);
}

} // verus!
