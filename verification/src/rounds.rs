//! Round snapshots and player round history.
use vstd::prelude::*;
use vstd::string::StringExecFns;
use crate::keys::{round_key_tier, round_snapshot_key, spec_round_key};
use crate::shared::{
    input_record, vec_to_pk32, PlayerRoundHistoryEntry, PlayerRoundHistoryPage,
    RoundPlayerSnapshotInput, RoundSnapshotPage,
};
use crate::state::{
    default_payout_model, get_current_config_version, opt_string_view, registry_eq,
    seed_tables_eq, OrbsState, PlayerRoundRef, RoundHistoryEntry, RoundPlayerSnapshot,
    RoundSnapshot, RoundSnapshotView,
};
use crate::table::{KeyCmp, TableKey};
use crate::text::{copy_vec, decimal, push_decimal, text};
use crate::revelation::only_seed_tables_changed;

verus! {

/// Most players accepted in one call; more are stored by calling again.
pub const MAX_PLAYERS_PER_CALL: usize = 50;

/// The stored records of all inputs, if every one of them converts.
pub open spec fn input_records(inputs: Seq<RoundPlayerSnapshotInput>) -> Option<Seq<RoundPlayerSnapshot>>
    decreases inputs.len(),
{
    if inputs.len() == 0 {
        Some(Seq::empty())
    } else {
        match (input_records(inputs.drop_last()), input_record(inputs.last())) {
            (Some(rs), Some(r)) => Some(rs.push(r)),
            _ => None,
        }
    }
}

/// Some record of `s` belongs to player `pk`.
pub open spec fn has_player(s: Seq<RoundPlayerSnapshot>, pk: [u8; 32]) -> bool {
    exists|i: int| 0 <= i < s.len() && (#[trigger] s[i]).player == pk
}

/// `existing` followed by those of `new` whose player is not present yet (first wins).
pub open spec fn append_new_players(existing: Seq<RoundPlayerSnapshot>, new: Seq<RoundPlayerSnapshot>) -> Seq<
    RoundPlayerSnapshot,
>
    decreases new.len(),
{
    if new.len() == 0 {
        existing
    } else {
        let acc = append_new_players(existing, new.drop_last());
        if has_player(acc, new.last().player) {
            acc
        } else {
            acc.push(new.last())
        }
    }
}

/// A snapshot extended by a later batch: new players appended once, emission sticky,
/// transaction signature replaced when one is given.
pub open spec fn merged_snapshot(
    old: RoundSnapshotView,
    new: Seq<RoundPlayerSnapshot>,
    did_emit: bool,
    emit_tx_sig: Option<Seq<char>>,
) -> RoundSnapshotView {
    RoundSnapshotView {
        players: append_new_players(old.players, new),
        did_emit: old.did_emit || did_emit,
        emit_tx_sig: if emit_tx_sig is Some {
            emit_tx_sig
        } else {
            old.emit_tx_sig
        },
        ..old
    }
}

/// The first snapshot of a round: the batch as given, under the current config version.
pub open spec fn fresh_snapshot(
    tier_id: u8,
    round_id: u64,
    season_id: u16,
    new: Seq<RoundPlayerSnapshot>,
    did_emit: bool,
    emit_tx_sig: Option<Seq<char>>,
    config_version: Seq<char>,
) -> RoundSnapshotView {
    RoundSnapshotView {
        tier_id,
        round_id,
        season_id,
        players: new,
        did_emit,
        emit_tx_sig,
        config_version,
        payout_model: "v1_inherit"@,
    }
}

/// A player's reference to a round, made from their record.
pub open spec fn round_ref_of(p: RoundPlayerSnapshot, round_key: u128) -> PlayerRoundRef {
    PlayerRoundRef {
        round_key,
        join_ts: p.join_ts,
        placement: p.placement,
        kills: p.kills,
        sol_earned_lamports: p.payout_lamports,
        orb_earned_atoms: p.orb_earned_atoms,
    }
}

/// Some reference of `refs` is to round `round_key`.
pub open spec fn has_round(refs: Seq<PlayerRoundRef>, round_key: u128) -> bool {
    exists|i: int| 0 <= i < refs.len() && (#[trigger] refs[i]).round_key == round_key
}

/// Insert `x` after every reference that joined no earlier than it.
pub open spec fn insert_by_join_desc(s: Seq<PlayerRoundRef>, x: PlayerRoundRef) -> Seq<PlayerRoundRef>
    decreases s.len(),
{
    if s.len() == 0 {
        seq![x]
    } else if s[0].join_ts < x.join_ts {
        seq![x] + s
    } else {
        seq![s[0]] + insert_by_join_desc(s.drop_first(), x)
    }
}

/// Stable sort by join time, most recent first.
pub open spec fn sort_by_join_desc(s: Seq<PlayerRoundRef>) -> Seq<PlayerRoundRef>
    decreases s.len(),
{
    if s.len() == 0 {
        s
    } else {
        insert_by_join_desc(sort_by_join_desc(s.drop_last()), s.last())
    }
}

/// The round references of every player, as plain sequences.
pub open spec fn refs_view(m: Map<[u8; 32], Vec<PlayerRoundRef>>) -> Map<[u8; 32], Seq<PlayerRoundRef>> {
    m.map_values(|v: Vec<PlayerRoundRef>| v@)
}

/// Record that player `p` played round `round_key` (once per round; most recent first).
pub open spec fn add_player_round(
    m: Map<[u8; 32], Seq<PlayerRoundRef>>,
    p: RoundPlayerSnapshot,
    round_key: u128,
) -> Map<[u8; 32], Seq<PlayerRoundRef>> {
    if m.contains_key(p.player) {
        if has_round(m[p.player], round_key) {
            m
        } else {
            m.insert(p.player, sort_by_join_desc(m[p.player].push(round_ref_of(p, round_key))))
        }
    } else {
        m.insert(p.player, seq![round_ref_of(p, round_key)])
    }
}

/// Record the round for each player of a batch, in order.
pub open spec fn add_player_rounds(
    m: Map<[u8; 32], Seq<PlayerRoundRef>>,
    players: Seq<RoundPlayerSnapshot>,
    round_key: u128,
) -> Map<[u8; 32], Seq<PlayerRoundRef>>
    decreases players.len(),
{
    if players.len() == 0 {
        m
    } else {
        add_player_round(add_player_rounds(m, players.drop_last(), round_key), players.last(), round_key)
    }
}

pub open spec fn too_many_players_error(n: nat) -> Seq<char> {
    "too many players in batch: "@ + decimal(n) + " (max 50). Call multiple times to append."@
}

/// The round tables after storing a batch of records for a round.
pub open spec fn stored_batch(
    old: OrbsState,
    new: OrbsState,
    tier_id: u8,
    round_id: u64,
    season_id: u16,
    recs: Seq<RoundPlayerSnapshot>,
    did_emit: bool,
    emit_tx_sig: Option<Seq<char>>,
) -> bool {
    let key = spec_round_key(tier_id, round_id);
    &&& new.round_snapshots@.contains_key(key)
    &&& new.round_snapshots@.remove(key) == old.round_snapshots@.remove(key)
    &&& new.round_snapshots@[key]@ == if old.round_snapshots@.contains_key(key) {
        merged_snapshot(old.round_snapshots@[key]@, recs, did_emit, emit_tx_sig)
    } else {
        fresh_snapshot(
            tier_id,
            round_id,
            season_id,
            recs,
            did_emit,
            emit_tx_sig,
            old.current_config_version@,
        )
    }
    &&& new.round_history_entries@ == if old.round_history_entries@.contains_key(key) {
        old.round_history_entries@
    } else {
        old.round_history_entries@.insert(
            key,
            RoundHistoryEntry { tier_id, round_id, season_id },
        )
    }
    &&& refs_view(new.player_round_refs@) == add_player_rounds(
        refs_view(old.player_round_refs@),
        recs,
        key,
    )
}

/// Convert all inputs, stopping at the first that fails.
fn convert_inputs(players: Vec<RoundPlayerSnapshotInput>) -> (r: Result<
    Vec<RoundPlayerSnapshot>,
    String,
>)
    ensures
        r is Ok <==> input_records(players@) is Some,
        r matches Ok(v) ==> Some(v@) == input_records(players@),
{
    let ghost orig = players@;
    let total = players.len();
    let mut rest = players;
    let mut out: Vec<RoundPlayerSnapshot> = Vec::new();
    let mut i: usize = 0;
    assert(orig.take(0) =~= Seq::<RoundPlayerSnapshotInput>::empty());
    while rest.len() > 0
        invariant
            rest@ == orig.skip(i as int),
            orig == players@,
            total == orig.len(),
            0 <= i <= orig.len(),
            input_records(orig.take(i as int)) == Some(out@),
        decreases rest@.len(),
    {
        let p = rest.remove(0);
        assert(orig.take(i + 1).drop_last() =~= orig.take(i as int));
        assert(orig.take(i + 1).last() == p);
        match p.into_storage() {
            Ok(rec) => {
                out.push(rec);
            },
            Err(e) => {
                proof {
                    assert(input_records(orig.take(i + 1)) is None);
                    lemma_records_prefix(orig, i + 1);
                }
                return Err(e);
            },
        }
        assert(rest@ =~= orig.skip(i + 1));
        i = i + 1;
    }
    assert(orig.take(i as int) =~= orig);
    Ok(out)
}

/// If a prefix fails to convert, so does the whole sequence.
proof fn lemma_records_prefix(s: Seq<RoundPlayerSnapshotInput>, n: int)
    requires
        0 <= n <= s.len(),
        input_records(s.take(n)) is None,
    ensures
        input_records(s) is None,
    decreases s.len() - n,
{
    if n < s.len() {
        assert(s.take(n + 1).drop_last() =~= s.take(n));
        lemma_records_prefix(s, n + 1);
    } else {
        assert(s.take(n) =~= s);
    }
}

/// Whether a record of `players` belongs to `pk`.
fn contains_player(players: &Vec<RoundPlayerSnapshot>, pk: &[u8; 32]) -> (b: bool)
    ensures
        b == has_player(players@, *pk),
{
    let mut i: usize = 0;
    while i < players.len()
        invariant
            0 <= i <= players@.len(),
            forall|j: int| 0 <= j < i ==> (#[trigger] players@[j]).player != *pk,
        decreases players@.len() - i,
    {
        if players[i].player.compare(pk) == KeyCmp::Equal {
            return true;
        }
        i = i + 1;
    }
    false
}

/// Whether a reference of `refs` is to round `round_key`.
fn contains_round(refs: &Vec<PlayerRoundRef>, round_key: u128) -> (b: bool)
    ensures
        b == has_round(refs@, round_key),
{
    let mut i: usize = 0;
    while i < refs.len()
        invariant
            0 <= i <= refs@.len(),
            forall|j: int| 0 <= j < i ==> (#[trigger] refs@[j]).round_key != round_key,
        decreases refs@.len() - i,
    {
        if refs[i].round_key == round_key {
            return true;
        }
        i = i + 1;
    }
    false
}

/// `insert_by_join_desc` inserts before the first reference that joined earlier.
proof fn lemma_insert_by_join_desc(s: Seq<PlayerRoundRef>, x: PlayerRoundRef, i: int)
    requires
        0 <= i <= s.len(),
        forall|j: int| 0 <= j < i ==> (#[trigger] s[j]).join_ts >= x.join_ts,
        i == s.len() || s[i].join_ts < x.join_ts,
    ensures
        insert_by_join_desc(s, x) == s.insert(i, x),
    decreases s.len(),
{
    if s.len() == 0 {
        assert(s.insert(i, x) =~= seq![x]);
    } else if i == 0 {
        assert(s.insert(0, x) =~= seq![x] + s);
    } else {
        let t = s.drop_first();
        assert forall|j: int| 0 <= j < i - 1 implies (#[trigger] t[j]).join_ts >= x.join_ts by {
            assert(t[j] == s[j + 1]);
        }
        lemma_insert_by_join_desc(t, x, i - 1);
        assert(seq![s[0]] + t.insert(i - 1, x) =~= s.insert(i, x));
    }
}

/// Insert `x` after every reference that joined no earlier than it.
fn insert_ref_by_join_desc(v: &mut Vec<PlayerRoundRef>, x: PlayerRoundRef)
    ensures
        final(v)@ == insert_by_join_desc(old(v)@, x),
{
    let mut i: usize = 0;
    while i < v.len() && v[i].join_ts >= x.join_ts
        invariant
            0 <= i <= v@.len(),
            v@ == old(v)@,
            forall|j: int| 0 <= j < i ==> (#[trigger] v@[j]).join_ts >= x.join_ts,
        decreases v@.len() - i,
    {
        i = i + 1;
    }
    proof {
        lemma_insert_by_join_desc(old(v)@, x, i as int);
    }
    v.insert(i, x);
}

/// Stable sort by join time, most recent first.
fn sort_refs_by_join_desc(refs: &Vec<PlayerRoundRef>) -> (r: Vec<PlayerRoundRef>)
    ensures
        r@ == sort_by_join_desc(refs@),
{
    let mut r: Vec<PlayerRoundRef> = Vec::new();
    let mut i: usize = 0;
    assert(refs@.take(0) =~= Seq::<PlayerRoundRef>::empty());
    while i < refs.len()
        invariant
            0 <= i <= refs@.len(),
            r@ == sort_by_join_desc(refs@.take(i as int)),
        decreases refs@.len() - i,
    {
        assert(refs@.take(i + 1).drop_last() =~= refs@.take(i as int));
        insert_ref_by_join_desc(&mut r, refs[i]);
        i = i + 1;
    }
    assert(refs@.take(i as int) =~= refs@);
    r
}

/// Record the round for each player of the batch.
fn add_round_refs(state: &mut OrbsState, players: &Vec<RoundPlayerSnapshot>, round_key: u128)
    requires
        old(state).wf(),
    ensures
        final(state).wf(),
        refs_view(final(state).player_round_refs@) == add_player_rounds(
            refs_view(old(state).player_round_refs@),
            players@,
            round_key,
        ),
        final(state).round_snapshots == old(state).round_snapshots,
        final(state).round_history_entries == old(state).round_history_entries,
        seed_tables_eq(*final(state), *old(state)),
        registry_eq(*final(state), *old(state)),
{
    let mut j: usize = 0;
    assert(players@.take(0) =~= Seq::<RoundPlayerSnapshot>::empty());
    while j < players.len()
        invariant
            0 <= j <= players@.len(),
            state.wf(),
            refs_view(state.player_round_refs@) == add_player_rounds(
                refs_view(old(state).player_round_refs@),
                players@.take(j as int),
                round_key,
            ),
            state.round_snapshots == old(state).round_snapshots,
            state.round_history_entries == old(state).round_history_entries,
            seed_tables_eq(*state, *old(state)),
            registry_eq(*state, *old(state)),
        decreases players@.len() - j,
    {
        let player = players[j];
        let ghost before = refs_view(state.player_round_refs@);
        assert(players@.take(j + 1).drop_last() =~= players@.take(j as int));
        assert(players@.take(j + 1).last() == player);
        let player_ref = PlayerRoundRef {
            round_key,
            join_ts: player.join_ts,
            placement: player.placement,
            kills: player.kills,
            sol_earned_lamports: player.payout_lamports,
            orb_earned_atoms: player.orb_earned_atoms,
        };
        let existing = match state.player_round_refs.get(&player.player) {
            Some(v) => Some(copy_vec(v)),
            None => None,
        };
        match existing {
            Some(refs) => {
                if !contains_round(&refs, round_key) {
                    let mut refs = refs;
                    refs.push(player_ref);
                    let sorted = sort_refs_by_join_desc(&refs);
                    state.player_round_refs.insert(player.player, sorted);
                    assert(refs_view(state.player_round_refs@) =~= add_player_round(
                        before,
                        player,
                        round_key,
                    ));
                } else {
                    assert(refs_view(state.player_round_refs@) =~= add_player_round(
                        before,
                        player,
                        round_key,
                    ));
                }
            },
            None => {
                let mut refs: Vec<PlayerRoundRef> = Vec::new();
                refs.push(player_ref);
                state.player_round_refs.insert(player.player, refs);
                assert(refs_view(state.player_round_refs@) =~= add_player_round(
                    before,
                    player,
                    round_key,
                ));
            },
        }
        j = j + 1;
    }
    assert(players@.take(j as int) =~= players@);
}

/// Store a round snapshot. Batched calls append: players not yet in the snapshot are
/// added, emission once recorded stays recorded, and a given transaction signature replaces
/// the stored one. A new snapshot uses the current config version. The shared round history
/// entry is created once, and each player's history gains the round once, most recent
/// join first. At most 50 players per call; if any input fails to decode, nothing is stored.
pub fn store_round_snapshot(
    state: &mut OrbsState,
    tier_id: u8,
    round_id: u64,
    season_id: u16,
    players: Vec<RoundPlayerSnapshotInput>,
    did_emit: bool,
    emit_tx_sig: Option<String>,
) -> (r: Result<(), String>)
    requires
        old(state).wf(),
    ensures
        final(state).wf(),
        seed_tables_eq(*final(state), *old(state)),
        registry_eq(*final(state), *old(state)),
        players@.len() > MAX_PLAYERS_PER_CALL ==> r is Err && r->Err_0@ == too_many_players_error(
            players@.len(),
        ) && *final(state) == *old(state),
        players@.len() <= MAX_PLAYERS_PER_CALL ==> match input_records(players@) {
            None => r is Err && *final(state) == *old(state),
            Some(recs) => r is Ok && stored_batch(
                *old(state),
                *final(state),
                tier_id,
                round_id,
                season_id,
                recs,
                did_emit,
                opt_string_view(emit_tx_sig),
            ),
        },
{
    if players.len() > MAX_PLAYERS_PER_CALL {
        let mut e = text("too many players in batch: ");
        push_decimal(&mut e, players.len() as u64);
        e.append(" (max 50). Call multiple times to append.");
        return Err(e);
    }
    let key = round_snapshot_key(tier_id, round_id);
    let new_players = convert_inputs(players)?;
    let existing = match state.round_snapshots.get(&key) {
        Some(s) => Some(s.copy()),
        None => None,
    };
    let ghost old_snapshots = state.round_snapshots@;
    match existing {
        Some(mut snapshot) => {
            let ghost base = snapshot@;
            let mut j: usize = 0;
            assert(new_players@.take(0) =~= Seq::<RoundPlayerSnapshot>::empty());
            while j < new_players.len()
                invariant
                    0 <= j <= new_players@.len(),
                    snapshot@ == (RoundSnapshotView {
                        players: append_new_players(base.players, new_players@.take(j as int)),
                        ..base
                    }),
                decreases new_players@.len() - j,
            {
                assert(new_players@.take(j + 1).drop_last() =~= new_players@.take(j as int));
                let p = new_players[j];
                if !contains_player(&snapshot.players, &p.player) {
                    snapshot.players.push(p);
                }
                j = j + 1;
            }
            assert(new_players@.take(j as int) =~= new_players@);
            if did_emit {
                snapshot.did_emit = true;
            }
            if emit_tx_sig.is_some() {
                snapshot.emit_tx_sig = emit_tx_sig;
            }
            state.round_snapshots.insert(key, snapshot);
        },
        None => {
            let config_version = get_current_config_version(state);
            let snapshot = RoundSnapshot {
                tier_id,
                round_id,
                season_id,
                players: copy_vec(&new_players),
                did_emit,
                emit_tx_sig,
                config_version,
                payout_model: default_payout_model(),
            };
            state.round_snapshots.insert(key, snapshot);
        },
    }
    assert(state.round_snapshots@.remove(key) =~= old_snapshots.remove(key));
    if !state.round_history_entries.contains_key(&key) {
        let entry = RoundHistoryEntry { tier_id, round_id, season_id };
        state.round_history_entries.insert(key, entry);
    }
    add_round_refs(state, &new_players, key);
    Ok(())
}

/// A single round snapshot.
pub fn get_round_snapshot(state: &OrbsState, tier_id: u8, round_id: u64) -> (r: Option<
    RoundSnapshot,
>)
    requires
        state.wf(),
    ensures
        r is Some <==> state.round_snapshots@.contains_key(spec_round_key(tier_id, round_id)),
        r matches Some(s) ==> s@ == state.round_snapshots@[spec_round_key(tier_id, round_id)]@,
{
    match state.round_snapshots.get(&round_snapshot_key(tier_id, round_id)) {
        Some(s) => Some(s.copy()),
        None => None,
    }
}

pub open spec fn snapshot_not_found_error(tier_id: u8, round_id: u64) -> Seq<char> {
    "Round snapshot not found for tier "@ + decimal(tier_id as nat) + " round "@ + decimal(
        round_id as nat,
    )
}

/// Change the config version recorded for a round (fixes rounds made with the wrong one).
pub fn update_round_config_version(
    state: &mut OrbsState,
    tier_id: u8,
    round_id: u64,
    config_version: String,
) -> (r: Result<(), String>)
    requires
        old(state).wf(),
    ensures
        final(state).wf(),
        seed_tables_eq(*final(state), *old(state)),
        registry_eq(*final(state), *old(state)),
        final(state).round_history_entries == old(state).round_history_entries,
        final(state).player_round_refs == old(state).player_round_refs,
        ({
            let key = spec_round_key(tier_id, round_id);
            if old(state).round_snapshots@.contains_key(key) {
                &&& r is Ok
                &&& final(state).round_snapshots@.contains_key(key)
                &&& final(state).round_snapshots@.remove(key) == old(state).round_snapshots@.remove(
                    key,
                )
                &&& final(state).round_snapshots@[key]@ == (RoundSnapshotView {
                    config_version: config_version@,
                    ..old(state).round_snapshots@[key]@
                })
            } else {
                &&& r is Err
                &&& r->Err_0@ == snapshot_not_found_error(tier_id, round_id)
                &&& final(state).round_snapshots == old(state).round_snapshots
            }
        }),
{
    let key = round_snapshot_key(tier_id, round_id);
    let existing = match state.round_snapshots.get(&key) {
        Some(s) => Some(s.copy()),
        None => None,
    };
    match existing {
        Some(mut snapshot) => {
            snapshot.config_version = config_version;
            let ghost before = state.round_snapshots@;
            state.round_snapshots.insert(key, snapshot);
            assert(state.round_snapshots@.remove(key) =~= before.remove(key));
            Ok(())
        },
        None => {
            let mut e = text("Round snapshot not found for tier ");
            push_decimal(&mut e, tier_id as u64);
            e.append(" round ");
            push_decimal(&mut e, round_id);
            Err(e)
        },
    }
}

/// The tier held in a composite round key.
pub open spec fn key_tier(key: u128) -> u8 {
    ((key / 0x1_0000_0000_0000_0000u128) % 256) as u8
}

/// The snapshots of one tier, in key order.
pub open spec fn snapshots_of_tier(entries: Seq<(u128, RoundSnapshot)>, tier_id: u8) -> Seq<
    RoundSnapshotView,
>
    decreases entries.len(),
{
    if entries.len() == 0 {
        Seq::empty()
    } else {
        let rest = snapshots_of_tier(entries.drop_last(), tier_id);
        if key_tier(entries.last().0) == tier_id {
            rest.push(entries.last().1@)
        } else {
            rest
        }
    }
}

/// The page of `s` that skips `skip` items and takes at most `take`.
pub open spec fn page<T>(s: Seq<T>, skip: nat, take: nat) -> Seq<T> {
    let start = if skip < s.len() {
        skip
    } else {
        s.len()
    };
    let end = if start + take < s.len() {
        start + take
    } else {
        s.len()
    };
    s.subrange(start as int, end as int)
}

pub open spec fn snapshot_views(s: Seq<RoundSnapshot>) -> Seq<RoundSnapshotView> {
    s.map_values(|x: RoundSnapshot| x@)
}

/// The items of `all` from `skip`, at most `take` of them.
fn page_of_snapshots(all: &Vec<RoundSnapshot>, skip: usize, take: usize) -> (r: Vec<RoundSnapshot>)
    ensures
        snapshot_views(r@) == page(snapshot_views(all@), skip as nat, take as nat),
{
    let n = all.len();
    let start = if skip < n {
        skip
    } else {
        n
    };
    let end = if take < n - start {
        start + take
    } else {
        n
    };
    let mut r: Vec<RoundSnapshot> = Vec::new();
    let mut i = start;
    while i < end
        invariant
            n == all@.len(),
            start <= i <= end <= n,
            r@.len() == i - start,
            forall|j: int| 0 <= j < r@.len() ==> (#[trigger] r@[j])@ == all@[start + j]@,
        decreases end - i,
    {
        r.push(all[i].copy());
        i = i + 1;
    }
    assert(snapshot_views(r@) =~= page(snapshot_views(all@), skip as nat, take as nat));
    r
}

/// A page of the round snapshots of a tier, in (tier, round) key order, with their total.
pub fn get_round_snapshots_by_tier(state: &OrbsState, tier_id: u8, offset: u64, limit: u64) -> (r:
    RoundSnapshotPage)
    requires
        state.wf(),
    ensures
        ({
            let all = snapshots_of_tier(state.round_snapshots.entries(), tier_id);
            &&& r.total == all.len()
            &&& snapshot_views(r.snapshots@) == if limit as usize == 0 {
                Seq::empty()
            } else {
                page(all, offset as usize as nat, limit as usize as nat)
            }
        }),
{
    let skip = offset as usize;
    let take = limit as usize;
    let mut all: Vec<RoundSnapshot> = Vec::new();
    let n = state.round_snapshots.len();
    let ghost es = state.round_snapshots.entries();
    let mut i: usize = 0;
    assert(es.take(0) =~= Seq::<(u128, RoundSnapshot)>::empty());
    while i < n
        invariant
            n == es.len(),
            es == state.round_snapshots.entries(),
            0 <= i <= n,
            snapshot_views(all@) == snapshots_of_tier(es.take(i as int), tier_id),
        decreases n - i,
    {
        let e = state.round_snapshots.entry_at(i);
        assert(es.take(i + 1).drop_last() =~= es.take(i as int));
        if round_key_tier(e.0) == tier_id {
            let ghost before = all@;
            all.push(e.1.copy());
            assert(snapshot_views(all@) =~= snapshot_views(before).push(e.1@));
        }
        i = i + 1;
    }
    assert(es.take(n as int) =~= es);
    let total = all.len() as u64;
    if take == 0 {
        return RoundSnapshotPage { total, snapshots: Vec::new() };
    }
    let snapshots = page_of_snapshots(&all, skip, take);
    RoundSnapshotPage { total, snapshots }
}

/// History entries of a page of round references: each reference whose round has a
/// history entry, joined with it.
pub open spec fn history_rows(refs: Seq<PlayerRoundRef>, entries: Map<u128, RoundHistoryEntry>) -> Seq<
    PlayerRoundHistoryEntry,
>
    decreases refs.len(),
{
    if refs.len() == 0 {
        Seq::empty()
    } else {
        let rest = history_rows(refs.drop_last(), entries);
        let r = refs.last();
        if entries.contains_key(r.round_key) {
            let e = entries[r.round_key];
            rest.push(
                PlayerRoundHistoryEntry {
                    tier_id: e.tier_id,
                    round_id: e.round_id,
                    season_id: e.season_id,
                    join_ts: r.join_ts,
                    placement: r.placement,
                    kills: r.kills,
                    sol_earned_lamports: r.sol_earned_lamports,
                    orb_earned_atoms: r.orb_earned_atoms,
                },
            )
        } else {
            rest
        }
    }
}

/// The total number of rounds of a player, and the page of their history from `offset`
/// with at most `limit` rows (most recent join first).
pub open spec fn history_page(state: OrbsState, pk: [u8; 32], offset: u64, limit: u64) -> (
    nat,
    Seq<PlayerRoundHistoryEntry>,
) {
    let refs = refs_view(state.player_round_refs@);
    if refs.contains_key(pk) {
        (
            refs[pk].len(),
            if limit as usize == 0 {
                Seq::empty()
            } else {
                history_rows(
                    page(refs[pk], offset as usize as nat, limit as usize as nat),
                    state.round_history_entries@,
                )
            },
        )
    } else {
        (0, Seq::empty())
    }
}

/// A page of a player's round history (most recent join first) with the total number of
/// rounds; a key that is not 32 bytes is an error, a player without rounds has none.
pub fn get_player_round_history(
    state: &OrbsState,
    player_pubkey: Vec<u8>,
    offset: u64,
    limit: u64,
) -> (r: Result<PlayerRoundHistoryPage, String>)
    requires
        state.wf(),
    ensures
        r is Ok <==> player_pubkey@.len() == 32,
        r matches Err(e) ==> e@ == "invalid pubkey length, expected 32 bytes"@,
        r matches Ok(pg) ==> history_page(*state, crate::encoding::array32(player_pubkey@), offset, limit)
            == (pg.total as nat, pg.rounds@),
{
    let ghost pk_view = player_pubkey@;
    let player = vec_to_pk32(player_pubkey)?;
    proof {
        crate::encoding::lemma_array32(pk_view, player);
    }
    let skip = offset as usize;
    let take = limit as usize;
    match state.player_round_refs.get(&player) {
        None => Ok(PlayerRoundHistoryPage { total: 0, rounds: Vec::new() }),
        Some(refs) => {
            let total = refs.len() as u64;
            if take == 0 {
                return Ok(PlayerRoundHistoryPage { total, rounds: Vec::new() });
            }
            let n = refs.len();
            let start = if skip < n {
                skip
            } else {
                n
            };
            let end = if take < n - start {
                start + take
            } else {
                n
            };
            let ghost pg = refs@.subrange(start as int, end as int);
            assert(pg == page(refs@, skip as nat, take as nat));
            let mut rounds: Vec<PlayerRoundHistoryEntry> = Vec::new();
            let mut i = start;
            assert(pg.take(0) =~= Seq::<PlayerRoundRef>::empty());
            while i < end
                invariant
                    n == refs@.len(),
                    start <= i <= end <= n,
                    pg == refs@.subrange(start as int, end as int),
                    state.wf(),
                    rounds@ == history_rows(pg.take(i - start), state.round_history_entries@),
                decreases end - i,
            {
                let rf = refs[i];
                assert(pg.take(i - start + 1).drop_last() =~= pg.take(i - start));
                assert(pg.take(i - start + 1).last() == rf);
                match state.round_history_entries.get(&rf.round_key) {
                    Some(entry) => {
                        rounds.push(
                            PlayerRoundHistoryEntry {
                                tier_id: entry.tier_id,
                                round_id: entry.round_id,
                                season_id: entry.season_id,
                                join_ts: rf.join_ts,
                                placement: rf.placement,
                                kills: rf.kills,
                                sol_earned_lamports: rf.sol_earned_lamports,
                                orb_earned_atoms: rf.orb_earned_atoms,
                            },
                        );
                    },
                    None => {},
                }
                i = i + 1;
            }
            assert(pg.take(end - start) =~= pg);
            Ok(PlayerRoundHistoryPage { total, rounds })
        },
    }
}


/// References are ordered by join time, most recent first.
pub open spec fn joined_desc(s: Seq<PlayerRoundRef>) -> bool {
    forall|i: int, j: int| 0 <= i < j < s.len() ==> (#[trigger] s[i]).join_ts >= (#[trigger] s[j]).join_ts
}

/// Every player's references are ordered most recent first.
pub open spec fn all_joined_desc(m: Map<[u8; 32], Seq<PlayerRoundRef>>) -> bool {
    forall|pk: [u8; 32]| #[trigger] m.contains_key(pk) ==> joined_desc(m[pk])
}

/// No two records of `s` belong to the same player.
pub open spec fn unique_players(s: Seq<RoundPlayerSnapshot>) -> bool {
    forall|i: int, j: int| 0 <= i < j < s.len() ==> (#[trigger] s[i]).player != (#[trigger] s[j]).player
}

proof fn lemma_insert_keeps_order(s: Seq<PlayerRoundRef>, x: PlayerRoundRef)
    requires
        joined_desc(s),
    ensures
        joined_desc(insert_by_join_desc(s, x)),
        insert_by_join_desc(s, x).to_multiset() == s.to_multiset().insert(x),
        insert_by_join_desc(s, x).len() == s.len() + 1,
        forall|k: int|
            0 <= k < insert_by_join_desc(s, x).len() ==> #[trigger] insert_by_join_desc(s, x)[k]
                == x || s.contains(insert_by_join_desc(s, x)[k]),
    decreases s.len(),
{
    broadcast use vstd::seq_lib::to_multiset_insert;

    let r = insert_by_join_desc(s, x);
    if s.len() == 0 {
        assert(r =~= s.insert(0, x));
    } else if s[0].join_ts < x.join_ts {
        assert(r =~= s.insert(0, x));
        assert forall|i: int, j: int| 0 <= i < j < r.len() implies (#[trigger] r[i]).join_ts >= (
        #[trigger] r[j]).join_ts by {
            if i == 0 {
                assert(r[j] == s[j - 1]);
                if j - 1 > 0 {
                    assert(s[0].join_ts >= s[j - 1].join_ts);
                }
            } else {
                assert(r[i] == s[i - 1] && r[j] == s[j - 1]);
            }
        }
        assert forall|k: int| 0 <= k < r.len() implies #[trigger] r[k] == x || s.contains(r[k]) by {
            if k > 0 {
                assert(r[k] == s[k - 1]);
            }
        }
    } else {
        let t = s.drop_first();
        assert forall|i: int, j: int| 0 <= i < j < t.len() implies (#[trigger] t[i]).join_ts >= (
        #[trigger] t[j]).join_ts by {
            assert(t[i] == s[i + 1] && t[j] == s[j + 1]);
        }
        lemma_insert_keeps_order(t, x);
        let u = insert_by_join_desc(t, x);
        assert(r =~= u.insert(0, s[0]));
        assert(s =~= t.insert(0, s[0]));
        assert(r.to_multiset() =~= s.to_multiset().insert(x));
        assert forall|i: int, j: int| 0 <= i < j < r.len() implies (#[trigger] r[i]).join_ts >= (
        #[trigger] r[j]).join_ts by {
            if i == 0 {
                assert(r[j] == u[j - 1]);
                if u[j - 1] != x {
                    assert(t.contains(u[j - 1]));
                    let m = choose|m: int| 0 <= m < t.len() && t[m] == u[j - 1];
                    assert(s[m + 1] == t[m]);
                }
            } else {
                assert(r[i] == u[i - 1] && r[j] == u[j - 1]);
            }
        }
        assert forall|k: int| 0 <= k < r.len() implies #[trigger] r[k] == x || s.contains(r[k]) by {
            if k > 0 {
                assert(r[k] == u[k - 1]);
                if u[k - 1] != x {
                    let m = choose|m: int| 0 <= m < t.len() && t[m] == u[k - 1];
                    assert(s[m + 1] == t[m]);
                }
            } else {
                assert(s[0] == r[0]);
            }
        }
    }
}

/// A player's history comes most recent first and loses no reference: sorting orders the
/// references by join time, latest first, and keeps each of them.
pub proof fn lemma_sort_by_join_desc(s: Seq<PlayerRoundRef>)
    ensures
        joined_desc(sort_by_join_desc(s)),
        sort_by_join_desc(s).to_multiset() == s.to_multiset(),
    decreases s.len(),
{
    broadcast use vstd::seq_lib::to_multiset_build;

    if s.len() > 0 {
        lemma_sort_by_join_desc(s.drop_last());
        lemma_insert_keeps_order(sort_by_join_desc(s.drop_last()), s.last());
        assert(s =~= s.drop_last().push(s.last()));
    } else {
        assert(s.to_multiset() =~= sort_by_join_desc(s).to_multiset());
    }
}

proof fn lemma_add_player_rounds_order(
    m: Map<[u8; 32], Seq<PlayerRoundRef>>,
    players: Seq<RoundPlayerSnapshot>,
    round_key: u128,
)
    requires
        all_joined_desc(m),
    ensures
        all_joined_desc(add_player_rounds(m, players, round_key)),
    decreases players.len(),
{
    if players.len() > 0 {
        lemma_add_player_rounds_order(m, players.drop_last(), round_key);
        let acc = add_player_rounds(m, players.drop_last(), round_key);
        let p = players.last();
        if acc.contains_key(p.player) && !has_round(acc[p.player], round_key) {
            lemma_sort_by_join_desc(acc[p.player].push(round_ref_of(p, round_key)));
        }
    }
}

proof fn lemma_add_player_rounds_has_round(
    m: Map<[u8; 32], Seq<PlayerRoundRef>>,
    players: Seq<RoundPlayerSnapshot>,
    round_key: u128,
)
    ensures
        forall|i: int|
            0 <= i < players.len() ==> add_player_rounds(m, players, round_key).contains_key(
                (#[trigger] players[i]).player,
            ) && has_round(add_player_rounds(m, players, round_key)[players[i].player], round_key),
        forall|pk: [u8; 32]|
            #[trigger] m.contains_key(pk) ==> add_player_rounds(m, players, round_key).contains_key(pk),
    decreases players.len(),
{
    broadcast use vstd::seq_lib::to_multiset_build;
    broadcast use vstd::seq_lib::to_multiset_contains;

    if players.len() > 0 {
        let prev = players.drop_last();
        lemma_add_player_rounds_has_round(m, prev, round_key);
        let acc = add_player_rounds(m, prev, round_key);
        let p = players.last();
        let r = add_player_rounds(m, players, round_key);
        let rf = round_ref_of(p, round_key);
        if acc.contains_key(p.player) && !has_round(acc[p.player], round_key) {
            let pushed = acc[p.player].push(rf);
            lemma_sort_by_join_desc(pushed);
            assert(pushed[pushed.len() - 1] == rf);
            assert(pushed.contains(rf));
            assert(pushed.to_multiset().count(rf) > 0);
            assert(sort_by_join_desc(pushed).contains(rf));
            let k = choose|k: int|
                0 <= k < sort_by_join_desc(pushed).len() && sort_by_join_desc(pushed)[k] == rf;
            assert(has_round(r[p.player], round_key));
        } else if !acc.contains_key(p.player) {
            assert(r[p.player][0] == rf);
        }
        assert forall|i: int| 0 <= i < players.len() implies r.contains_key(
            (#[trigger] players[i]).player,
        ) && has_round(r[players[i].player], round_key) by {
            if i < players.len() - 1 {
                assert(players[i] == prev[i]);
                if players[i].player != p.player {
                    assert(r[players[i].player] == acc[players[i].player]);
                }
            }
        }
    }
}

/// Storing a batch keeps every player's history most recent first, and afterwards each
/// player of the batch has the round in their history (players already known keep theirs).
pub proof fn lemma_stored_batch_history(
    old: OrbsState,
    new: OrbsState,
    tier_id: u8,
    round_id: u64,
    season_id: u16,
    recs: Seq<RoundPlayerSnapshot>,
    did_emit: bool,
    emit_tx_sig: Option<Seq<char>>,
)
    requires
        stored_batch(old, new, tier_id, round_id, season_id, recs, did_emit, emit_tx_sig),
        all_joined_desc(refs_view(old.player_round_refs@)),
    ensures
        all_joined_desc(refs_view(new.player_round_refs@)),
        forall|i: int|
            0 <= i < recs.len() ==> refs_view(new.player_round_refs@).contains_key(
                (#[trigger] recs[i]).player,
            ) && has_round(
                refs_view(new.player_round_refs@)[recs[i].player],
                spec_round_key(tier_id, round_id),
            ),
        forall|pk: [u8; 32]|
            #[trigger] old.player_round_refs@.contains_key(pk)
                ==> new.player_round_refs@.contains_key(pk),
{
    let key = spec_round_key(tier_id, round_id);
    let m = refs_view(old.player_round_refs@);
    lemma_add_player_rounds_order(m, recs, key);
    lemma_add_player_rounds_has_round(m, recs, key);
    assert forall|pk: [u8; 32]| #[trigger] old.player_round_refs@.contains_key(pk)
        implies new.player_round_refs@.contains_key(pk) by {
        assert(m.contains_key(pk));
        assert(refs_view(new.player_round_refs@).contains_key(pk));
    }
}

/// A later batch for a round keeps the players already stored, in order, adds every new
/// player of the batch, and adds no player twice.
pub proof fn lemma_append_new_players(existing: Seq<RoundPlayerSnapshot>, new: Seq<RoundPlayerSnapshot>)
    ensures
        append_new_players(existing, new).len() >= existing.len(),
        append_new_players(existing, new).subrange(0, existing.len() as int) == existing,
        forall|i: int|
            0 <= i < new.len() ==> has_player(append_new_players(existing, new), (#[trigger] new[i]).player),
        unique_players(existing) ==> unique_players(append_new_players(existing, new)),
        forall|pk: [u8; 32]|
            #[trigger] has_player(append_new_players(existing, new), pk) ==> has_player(existing, pk)
                || has_player(new, pk),
    decreases new.len(),
{
    if new.len() > 0 {
        let prev = new.drop_last();
        lemma_append_new_players(existing, prev);
        let acc = append_new_players(existing, prev);
        let r = append_new_players(existing, new);
        if !has_player(acc, new.last().player) {
            assert(r.subrange(0, existing.len() as int) =~= acc.subrange(0, existing.len() as int));
            assert(r[r.len() - 1] == new.last());
            assert forall|i: int| 0 <= i < acc.len() implies r[i] == acc[i] by {}
        }
        assert forall|pk: [u8; 32]| #[trigger] has_player(r, pk) implies has_player(existing, pk)
            || has_player(new, pk) by {
            let k = choose|k: int| 0 <= k < r.len() && (#[trigger] r[k]).player == pk;
            if k < acc.len() {
                assert(r[k] == acc[k]);
                assert(has_player(acc, pk));
                if has_player(prev, pk) {
                    let m = choose|m: int| 0 <= m < prev.len() && (#[trigger] prev[m]).player == pk;
                    assert(new[m] == prev[m]);
                }
            } else {
                assert(r[k] == new.last());
                assert(new[new.len() - 1].player == pk);
            }
        }
        assert forall|i: int| 0 <= i < new.len() implies has_player(r, (#[trigger] new[i]).player) by {
            if i < new.len() - 1 {
                assert(new[i] == prev[i]);
                let k = choose|k: int| 0 <= k < acc.len() && (#[trigger] acc[k]).player == new[i].player;
                assert(r[k] == acc[k]);
            } else if !has_player(acc, new.last().player) {
                assert(r[r.len() - 1] == new.last());
            }
        }
    } else {
        assert(existing.subrange(0, existing.len() as int) =~= existing);
    }
}


/// No two references of `s` are to the same round.
pub open spec fn distinct_rounds(s: Seq<PlayerRoundRef>) -> bool {
    forall|i: int, j: int|
        0 <= i < j < s.len() ==> (#[trigger] s[i]).round_key != (#[trigger] s[j]).round_key
}

/// Every player has at most one reference per round.
pub open spec fn all_distinct_rounds(m: Map<[u8; 32], Seq<PlayerRoundRef>>) -> bool {
    forall|pk: [u8; 32]| #[trigger] m.contains_key(pk) ==> distinct_rounds(m[pk])
}

proof fn lemma_insert_index(s: Seq<PlayerRoundRef>, x: PlayerRoundRef) -> (i: int)
    ensures
        0 <= i <= s.len(),
        insert_by_join_desc(s, x) == s.insert(i, x),
    decreases s.len(),
{
    if s.len() == 0 {
        assert(s.insert(0, x) =~= seq![x]);
        0
    } else if s[0].join_ts < x.join_ts {
        assert(s.insert(0, x) =~= seq![x] + s);
        0
    } else {
        let t = s.drop_first();
        let j = lemma_insert_index(t, x);
        assert(seq![s[0]] + t.insert(j, x) =~= s.insert(j + 1, x));
        j + 1
    }
}

proof fn lemma_sort_keeps_distinct_rounds(s: Seq<PlayerRoundRef>)
    requires
        distinct_rounds(s),
    ensures
        distinct_rounds(sort_by_join_desc(s)),
        forall|k: int|
            0 <= k < sort_by_join_desc(s).len() ==> s.contains(#[trigger] sort_by_join_desc(s)[k]),
    decreases s.len(),
{
    broadcast use vstd::seq_lib::to_multiset_contains;

    if s.len() > 0 {
        let t = s.drop_last();
        let x = s.last();
        assert forall|i: int, j: int| 0 <= i < j < t.len() implies (#[trigger] t[i]).round_key
            != (#[trigger] t[j]).round_key by {
            assert(t[i] == s[i] && t[j] == s[j]);
        }
        lemma_sort_keeps_distinct_rounds(t);
        let u = sort_by_join_desc(t);
        let i = lemma_insert_index(u, x);
        let r = u.insert(i, x);
        assert forall|k: int| 0 <= k < u.len() implies (#[trigger] u[k]).round_key != x.round_key by {
            assert(t.contains(u[k]));
            let m = choose|m: int| 0 <= m < t.len() && t[m] == u[k];
            assert(s[m] == t[m]);
            assert(s[s.len() - 1] == x);
        }
        assert forall|a: int, b: int| 0 <= a < b < r.len() implies (#[trigger] r[a]).round_key
            != (#[trigger] r[b]).round_key by {
            if a < i && b < i {
                assert(r[a] == u[a] && r[b] == u[b]);
            } else if a < i && b == i {
                assert(r[a] == u[a]);
            } else if a < i && b > i {
                assert(r[a] == u[a] && r[b] == u[b - 1]);
            } else if a == i {
                assert(r[b] == u[b - 1]);
            } else {
                assert(r[a] == u[a - 1] && r[b] == u[b - 1]);
            }
        }
        assert forall|k: int| 0 <= k < r.len() implies s.contains(#[trigger] r[k]) by {
            if k < i {
                assert(r[k] == u[k]);
                assert(t.contains(u[k]));
                let m = choose|m: int| 0 <= m < t.len() && t[m] == u[k];
                assert(s[m] == t[m]);
            } else if k == i {
                assert(s[s.len() - 1] == x);
            } else {
                assert(r[k] == u[k - 1]);
                assert(t.contains(u[k - 1]));
                let m = choose|m: int| 0 <= m < t.len() && t[m] == u[k - 1];
                assert(s[m] == t[m]);
            }
        }
    }
}

proof fn lemma_add_player_rounds_distinct(
    m: Map<[u8; 32], Seq<PlayerRoundRef>>,
    players: Seq<RoundPlayerSnapshot>,
    round_key: u128,
)
    requires
        all_distinct_rounds(m),
    ensures
        all_distinct_rounds(add_player_rounds(m, players, round_key)),
    decreases players.len(),
{
    if players.len() > 0 {
        lemma_add_player_rounds_distinct(m, players.drop_last(), round_key);
        let acc = add_player_rounds(m, players.drop_last(), round_key);
        let p = players.last();
        let rf = round_ref_of(p, round_key);
        if acc.contains_key(p.player) && !has_round(acc[p.player], round_key) {
            let old_refs = acc[p.player];
            let pushed = old_refs.push(rf);
            assert forall|i: int, j: int| 0 <= i < j < pushed.len() implies (
            #[trigger] pushed[i]).round_key != (#[trigger] pushed[j]).round_key by {
                assert(pushed[i] == old_refs[i]);
                if j < old_refs.len() {
                    assert(pushed[j] == old_refs[j]);
                }
            }
            lemma_sort_keeps_distinct_rounds(pushed);
        }
    }
}

/// Storing a batch keeps every player's history free of repeated rounds, so that each
/// player of the batch has exactly one reference to the round afterwards.
pub proof fn lemma_stored_batch_one_ref_per_round(
    old: OrbsState,
    new: OrbsState,
    tier_id: u8,
    round_id: u64,
    season_id: u16,
    recs: Seq<RoundPlayerSnapshot>,
    did_emit: bool,
    emit_tx_sig: Option<Seq<char>>,
)
    requires
        stored_batch(old, new, tier_id, round_id, season_id, recs, did_emit, emit_tx_sig),
        all_distinct_rounds(refs_view(old.player_round_refs@)),
    ensures
        all_distinct_rounds(refs_view(new.player_round_refs@)),
        forall|i: int|
            0 <= i < recs.len() ==> has_round(
                refs_view(new.player_round_refs@)[(#[trigger] recs[i]).player],
                spec_round_key(tier_id, round_id),
            ),
{
    let key = spec_round_key(tier_id, round_id);
    lemma_add_player_rounds_distinct(refs_view(old.player_round_refs@), recs, key);
    lemma_add_player_rounds_has_round(refs_view(old.player_round_refs@), recs, key);
}

proof fn lemma_append_all_present(existing: Seq<RoundPlayerSnapshot>, new: Seq<RoundPlayerSnapshot>)
    requires
        forall|i: int| 0 <= i < new.len() ==> has_player(existing, (#[trigger] new[i]).player),
    ensures
        append_new_players(existing, new) == existing,
    decreases new.len(),
{
    if new.len() > 0 {
        let prev = new.drop_last();
        assert forall|i: int| 0 <= i < prev.len() implies has_player(existing, (#[trigger] prev[i]).player) by {
            assert(prev[i] == new[i]);
        }
        lemma_append_all_present(existing, prev);
        assert(has_player(existing, new[new.len() - 1].player));
    }
}

proof fn lemma_add_player_rounds_present(
    m: Map<[u8; 32], Seq<PlayerRoundRef>>,
    players: Seq<RoundPlayerSnapshot>,
    round_key: u128,
)
    requires
        forall|i: int|
            0 <= i < players.len() ==> m.contains_key((#[trigger] players[i]).player) && has_round(
                m[players[i].player],
                round_key,
            ),
    ensures
        add_player_rounds(m, players, round_key) == m,
    decreases players.len(),
{
    if players.len() > 0 {
        let prev = players.drop_last();
        assert forall|i: int| 0 <= i < prev.len() implies m.contains_key((#[trigger] prev[i]).player)
            && has_round(m[prev[i].player], round_key) by {
            assert(prev[i] == players[i]);
        }
        lemma_add_player_rounds_present(m, prev, round_key);
        let last = players[players.len() - 1];
        assert(m.contains_key(last.player) && has_round(m[last.player], round_key));
    }
}

/// A retried batch adds nothing: storing the same batch for a round a second time leaves
/// the round snapshots, the round history entries and every player's history as the first
/// call left them.
pub proof fn lemma_stored_batch_retry(
    s0: OrbsState,
    s1: OrbsState,
    s2: OrbsState,
    tier_id: u8,
    round_id: u64,
    season_id: u16,
    recs: Seq<RoundPlayerSnapshot>,
    did_emit: bool,
    emit_tx_sig: Option<Seq<char>>,
)
    requires
        stored_batch(s0, s1, tier_id, round_id, season_id, recs, did_emit, emit_tx_sig),
        stored_batch(s1, s2, tier_id, round_id, season_id, recs, did_emit, emit_tx_sig),
    ensures
        s2.round_snapshots@.dom() == s1.round_snapshots@.dom(),
        forall|k: u128| #[trigger]
            s1.round_snapshots@.contains_key(k) ==> s2.round_snapshots@[k]@ == s1.round_snapshots@[k]@,
        s2.round_history_entries@ == s1.round_history_entries@,
        refs_view(s2.player_round_refs@) == refs_view(s1.player_round_refs@),
{
    let key = spec_round_key(tier_id, round_id);
    let v1 = s1.round_snapshots@[key]@;
    assert forall|i: int| 0 <= i < recs.len() implies has_player(v1.players, (#[trigger] recs[i]).player) by {
        if s0.round_snapshots@.contains_key(key) {
            lemma_append_new_players(s0.round_snapshots@[key]@.players, recs);
        } else {
            assert(v1.players[i] == recs[i]);
        }
    }
    lemma_append_all_present(v1.players, recs);
    assert(s2.round_snapshots@[key]@ == v1);
    assert(s2.round_snapshots@.dom() =~= s1.round_snapshots@.dom()) by {
        assert(s2.round_snapshots@.remove(key).dom() == s1.round_snapshots@.remove(key).dom());
    }
    assert forall|k: u128| #[trigger] s1.round_snapshots@.contains_key(k) implies s2.round_snapshots@[k]@
        == s1.round_snapshots@[k]@ by {
        if k != key {
            assert(s2.round_snapshots@.remove(key)[k] == s1.round_snapshots@.remove(key)[k]);
        }
    }
    let m1 = refs_view(s1.player_round_refs@);
    lemma_add_player_rounds_has_round(refs_view(s0.player_round_refs@), recs, key);
    lemma_add_player_rounds_present(m1, recs, key);
}


/// `players[i]` is the first record of its player in `players`.
pub open spec fn first_of_player(players: Seq<RoundPlayerSnapshot>, i: int) -> bool {
    forall|j: int| 0 <= j < i ==> (#[trigger] players[j]).player != players[i].player
}

proof fn lemma_add_player_rounds_refs(
    m: Map<[u8; 32], Seq<PlayerRoundRef>>,
    players: Seq<RoundPlayerSnapshot>,
    round_key: u128,
)
    ensures
        forall|pk: [u8; 32]|
            #[trigger] m.contains_key(pk) && has_round(m[pk], round_key) ==> add_player_rounds(
                m,
                players,
                round_key,
            ).contains_key(pk) && add_player_rounds(m, players, round_key)[pk] == m[pk],
        forall|pk: [u8; 32]|
            (forall|i: int| 0 <= i < players.len() ==> (#[trigger] players[i]).player != pk) ==> (
            add_player_rounds(m, players, round_key).contains_key(pk) == m.contains_key(pk) && (
            #[trigger] m.contains_key(pk) ==> add_player_rounds(m, players, round_key)[pk] == m[pk])),
        forall|i: int|
            0 <= i < players.len() && first_of_player(players, i) && !(m.contains_key(
                (#[trigger] players[i]).player,
            ) && has_round(m[players[i].player], round_key)) ==> add_player_rounds(
                m,
                players,
                round_key,
            ).contains_key(players[i].player) && add_player_rounds(m, players, round_key)[players[i].player].contains(
                round_ref_of(players[i], round_key),
            ),
    decreases players.len(),
{
    broadcast use vstd::seq_lib::to_multiset_build;
    broadcast use vstd::seq_lib::to_multiset_contains;

    if players.len() > 0 {
        let prev = players.drop_last();
        lemma_add_player_rounds_refs(m, prev, round_key);
        let acc = add_player_rounds(m, prev, round_key);
        let n = players.len() - 1;
        let p = players[n];
        assert(p == players.last());
        let rf = round_ref_of(p, round_key);
        let r = add_player_rounds(m, players, round_key);
        assert(r == add_player_round(acc, p, round_key));
        assert forall|pk: [u8; 32]| #[trigger] m.contains_key(pk) && has_round(m[pk], round_key)
            implies r.contains_key(pk) && r[pk] == m[pk] by {
            assert(acc.contains_key(pk) && acc[pk] == m[pk]);
        }
        assert forall|pk: [u8; 32]|
            (forall|i: int| 0 <= i < players.len() ==> (#[trigger] players[i]).player != pk) implies (
            r.contains_key(pk) == m.contains_key(pk) && (#[trigger] m.contains_key(pk) ==> r[pk]
                == m[pk])) by {
            assert forall|i: int| 0 <= i < prev.len() implies (#[trigger] prev[i]).player != pk by {
                assert(prev[i] == players[i]);
            }
            assert(players[n].player != pk);
        }
        assert forall|i: int|
            0 <= i < players.len() && first_of_player(players, i) && !(m.contains_key(
                (#[trigger] players[i]).player,
            ) && has_round(m[players[i].player], round_key)) implies r.contains_key(players[i].player)
            && r[players[i].player].contains(round_ref_of(players[i], round_key)) by {
            let pk = players[i].player;
            if i < n {
                assert(prev[i] == players[i]);
                assert forall|j: int| 0 <= j < i implies (#[trigger] prev[j]).player != prev[i].player by {
                    assert(prev[j] == players[j]);
                }
                assert(acc.contains_key(pk) && acc[pk].contains(round_ref_of(players[i], round_key)));
                if p.player == pk {
                    let k = choose|k: int| 0 <= k < acc[pk].len() && acc[pk][k] == round_ref_of(
                        players[i],
                        round_key,
                    );
                    assert(has_round(acc[pk], round_key));
                }
            } else {
                assert(i == n);
                assert forall|q: int| 0 <= q < prev.len() implies (#[trigger] prev[q]).player != pk by {
                    assert(prev[q] == players[q]);
                }
                if acc.contains_key(pk) {
                    assert(acc[pk] == m[pk]);
                    assert(!has_round(acc[pk], round_key));
                    let pushed = acc[pk].push(rf);
                    lemma_sort_by_join_desc(pushed);
                    assert(pushed[pushed.len() - 1] == rf);
                    assert(pushed.contains(rf));
                    assert(pushed.to_multiset().count(rf) > 0);
                    assert(sort_by_join_desc(pushed).contains(rf));
                } else {
                    assert(r[pk] == seq![rf]);
                    assert(r[pk][0] == rf);
                }
            }
        }
    }
}

/// What storing a batch does to the history of each player: a player that already had a
/// reference to the round keeps its history as it was (a retried or later batch changes
/// nothing there), a player outside the batch keeps its history, and the first record of a
/// player new to the round is the one whose reference is added.
pub proof fn lemma_stored_batch_first_submission(
    old: OrbsState,
    new: OrbsState,
    tier_id: u8,
    round_id: u64,
    season_id: u16,
    recs: Seq<RoundPlayerSnapshot>,
    did_emit: bool,
    emit_tx_sig: Option<Seq<char>>,
)
    requires
        stored_batch(old, new, tier_id, round_id, season_id, recs, did_emit, emit_tx_sig),
    ensures
        ({
            let key = spec_round_key(tier_id, round_id);
            let before = refs_view(old.player_round_refs@);
            let after = refs_view(new.player_round_refs@);
            &&& forall|pk: [u8; 32]|
                #[trigger] before.contains_key(pk) && has_round(before[pk], key)
                    ==> after.contains_key(pk) && after[pk] == before[pk]
            &&& forall|pk: [u8; 32]|
                (forall|i: int| 0 <= i < recs.len() ==> (#[trigger] recs[i]).player != pk) ==> (
                after.contains_key(pk) == before.contains_key(pk) && (#[trigger] before.contains_key(
                    pk,
                ) ==> after[pk] == before[pk]))
            &&& forall|i: int|
                0 <= i < recs.len() && first_of_player(recs, i) && !(before.contains_key(
                    (#[trigger] recs[i]).player,
                ) && has_round(before[recs[i].player], key)) ==> after.contains_key(recs[i].player)
                    && after[recs[i].player].contains(round_ref_of(recs[i], key))
        }),
{
    lemma_add_player_rounds_refs(
        refs_view(old.player_round_refs@),
        recs,
        spec_round_key(tier_id, round_id),
    );
}


/// A history row shows reference `r` of round entry `e`: the round's tier, id and season,
/// and the reference's own join time, placement, kills and earnings.
pub open spec fn row_shows(row: PlayerRoundHistoryEntry, r: PlayerRoundRef, e: RoundHistoryEntry) -> bool {
    &&& row.tier_id == e.tier_id
    &&& row.round_id == e.round_id
    &&& row.season_id == e.season_id
    &&& row.join_ts == r.join_ts
    &&& row.placement == r.placement
    &&& row.kills == r.kills
    &&& row.sol_earned_lamports == r.sol_earned_lamports
    &&& row.orb_earned_atoms == r.orb_earned_atoms
}

/// Emission is sticky across batches: after a batch for a round that was already stored,
/// the round records an emission exactly when it had recorded one or the batch reports
/// one; the transaction signature is the batch's when it gives one, else the earlier one.
/// The first batch of a round records its own flag and signature.
pub proof fn lemma_emission_sticky(
    old: OrbsState,
    new: OrbsState,
    tier_id: u8,
    round_id: u64,
    season_id: u16,
    recs: Seq<RoundPlayerSnapshot>,
    did_emit: bool,
    emit_tx_sig: Option<Seq<char>>,
)
    requires
        stored_batch(old, new, tier_id, round_id, season_id, recs, did_emit, emit_tx_sig),
    ensures
        ({
            let key = spec_round_key(tier_id, round_id);
            let after = new.round_snapshots@[key]@;
            if old.round_snapshots@.contains_key(key) {
                let before = old.round_snapshots@[key]@;
                &&& (after.did_emit <==> before.did_emit || did_emit)
                &&& before.did_emit ==> after.did_emit
                &&& after.emit_tx_sig == (if emit_tx_sig is Some {
                    emit_tx_sig
                } else {
                    before.emit_tx_sig
                })
                &&& after.tier_id == before.tier_id
                &&& after.round_id == before.round_id
                &&& after.season_id == before.season_id
                &&& after.config_version == before.config_version
                &&& after.payout_model == before.payout_model
            } else {
                &&& after.did_emit == did_emit
                &&& after.emit_tx_sig == emit_tx_sig
                &&& after.players == recs
                &&& after.tier_id == tier_id
                &&& after.round_id == round_id
                &&& after.season_id == season_id
                &&& after.config_version == old.current_config_version@
            }
        }),
{
}

/// A player's reference to a round carries the record's own results: join time, placement,
/// kills, the SOL payout as SOL earnings and the ORB earnings as ORB earnings.
pub proof fn lemma_round_ref_carries_record(p: RoundPlayerSnapshot, round_key: u128)
    ensures
        round_ref_of(p, round_key).round_key == round_key,
        round_ref_of(p, round_key).join_ts == p.join_ts,
        round_ref_of(p, round_key).placement == p.placement,
        round_ref_of(p, round_key).kills == p.kills,
        round_ref_of(p, round_key).sol_earned_lamports == p.payout_lamports,
        round_ref_of(p, round_key).orb_earned_atoms == p.orb_earned_atoms,
{
}

/// The row shows some reference of `refs`, with its round entry.
pub open spec fn shows_some_ref(
    row: PlayerRoundHistoryEntry,
    refs: Seq<PlayerRoundRef>,
    entries: Map<u128, RoundHistoryEntry>,
) -> bool {
    exists|k: int|
        0 <= k < refs.len() && entries.contains_key(refs[k].round_key) && row_shows(
            row,
            refs[k],
            entries[refs[k].round_key],
        )
}

/// Each history row shows one of the player's references with its own results, under the
/// tier, round and season of the round it refers to; when every reference has its round
/// entry, the rows are the references, one for one and in order.
pub proof fn lemma_history_rows_carry_refs(refs: Seq<PlayerRoundRef>, entries: Map<u128, RoundHistoryEntry>)
    ensures
        history_rows(refs, entries).len() <= refs.len(),
        forall|i: int|
            0 <= i < history_rows(refs, entries).len() ==> shows_some_ref(
                #[trigger] history_rows(refs, entries)[i],
                refs,
                entries,
            ),
        (forall|k: int| 0 <= k < refs.len() ==> entries.contains_key(#[trigger] refs[k].round_key))
            ==> history_rows(refs, entries).len() == refs.len() && forall|i: int|
            0 <= i < refs.len() ==> row_shows(
                #[trigger] history_rows(refs, entries)[i],
                refs[i],
                entries[refs[i].round_key],
            ),
    decreases refs.len(),
{
    if refs.len() > 0 {
        let prev = refs.drop_last();
        lemma_history_rows_carry_refs(prev, entries);
        let rows = history_rows(refs, entries);
        let rest = history_rows(prev, entries);
        assert forall|i: int| 0 <= i < rows.len() implies shows_some_ref(#[trigger] rows[i], refs, entries) by {
            if i < rest.len() {
                assert(rows[i] == rest[i]);
                assert(shows_some_ref(rest[i], prev, entries));
                let k = choose|k: int|
                    0 <= k < prev.len() && entries.contains_key(prev[k].round_key) && row_shows(
                        rest[i],
                        prev[k],
                        entries[prev[k].round_key],
                    );
                assert(prev[k] == refs[k]);
                assert(0 <= k < refs.len() && entries.contains_key(refs[k].round_key) && row_shows(
                    rows[i],
                    refs[k],
                    entries[refs[k].round_key],
                ));
            } else {
                let k = refs.len() - 1;
                assert(refs[k] == refs.last());
                assert(entries.contains_key(refs[k].round_key));
                assert(rows == rest.push(rows[i]));
                assert(row_shows(rows[i], refs[k], entries[refs[k].round_key]));
            }
        }
        if forall|k: int| 0 <= k < refs.len() ==> entries.contains_key(#[trigger] refs[k].round_key) {
            assert forall|k: int| 0 <= k < prev.len() implies entries.contains_key(
                #[trigger] prev[k].round_key,
            ) by {
                assert(prev[k] == refs[k]);
            }
            assert(entries.contains_key(refs[refs.len() - 1].round_key));
            assert forall|i: int| 0 <= i < refs.len() implies row_shows(
                #[trigger] rows[i],
                refs[i],
                entries[refs[i].round_key],
            ) by {
                if i < prev.len() {
                    assert(rows[i] == rest[i]);
                    assert(prev[i] == refs[i]);
                }
            }
        }
    }
}

} // verus!
