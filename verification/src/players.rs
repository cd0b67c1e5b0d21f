//! The player registry.
use vstd::prelude::*;
use crate::encoding::{array32, lemma_array32};
use crate::rounds::page;
use crate::shared::{vec_to_pk32, PlayerPage};
use crate::state::{round_tables_eq, seed_tables_eq, OrbsState};
use crate::text::copy_vec;

verus! {

/// `pk` is the key of one of the listed public keys.
pub open spec fn is_listed(pubkeys: Seq<Vec<u8>>, pk: [u8; 32]) -> bool {
    exists|i: int| 0 <= i < pubkeys.len() && array32((#[trigger] pubkeys[i])@) == pk
}

/// `pk` is among the first `j` keys.
pub open spec fn in_prefix(keys: Seq<[u8; 32]>, j: int, pk: [u8; 32]) -> bool {
    exists|m: int| 0 <= m < j && keys[m] == pk
}

/// Every listed public key is 32 bytes.
pub open spec fn all_keys_32(pubkeys: Seq<Vec<u8>>) -> bool {
    forall|i: int| 0 <= i < pubkeys.len() ==> (#[trigger] pubkeys[i])@.len() == 32
}

/// Register a batch of players. If any key is not 32 bytes, nothing is registered.
pub fn add_players(state: &mut OrbsState, pubkeys: Vec<Vec<u8>>) -> (r: Result<(), String>)
    requires
        old(state).wf(),
    ensures
        final(state).wf(),
        seed_tables_eq(*final(state), *old(state)),
        round_tables_eq(*final(state), *old(state)),
        final(state).admins == old(state).admins,
        final(state).pubkey == old(state).pubkey,
        final(state).engine_configs == old(state).engine_configs,
        final(state).current_config_version == old(state).current_config_version,
        final(state).player_join_data == old(state).player_join_data,
        final(state).player_configs == old(state).player_configs,
        r is Ok <==> all_keys_32(pubkeys@),
        r matches Err(e) ==> e@ == "invalid pubkey length, expected 32 bytes"@ && final(state).players
            == old(state).players,
        r is Ok ==> forall|pk: [u8; 32]|
            #![trigger final(state).players@.contains_key(pk)]
            (final(state).players@.contains_key(pk) <==> old(state).players@.contains_key(pk)
                || is_listed(pubkeys@, pk))
            && (is_listed(pubkeys@, pk) ==> final(state).players@[pk] == true)
            && (!is_listed(pubkeys@, pk) && old(state).players@.contains_key(pk)
                ==> final(state).players@[pk] == old(state).players@[pk]),
{
    let ghost pks = pubkeys@;
    let n = pubkeys.len();
    let mut keys: Vec<[u8; 32]> = Vec::new();
    let mut i: usize = 0;
    while i < n
        invariant
            n == pks.len(),
            pks == pubkeys@,
            *state == *old(state),
            state.wf(),
            0 <= i <= n,
            keys@.len() == i,
            forall|j: int| 0 <= j < i ==> pks[j]@.len() == 32 && keys@[j] == array32(
                (#[trigger] pks[j])@,
            ),
        decreases n - i,
    {
        let v = copy_vec(&pubkeys[i]);
        match vec_to_pk32(v) {
            Ok(k) => {
                proof {
                    lemma_array32(pks[i as int]@, k);
                }
                keys.push(k);
            },
            Err(e) => {
                return Err(e);
            },
        }
        i = i + 1;
    }
    let mut j: usize = 0;
    while j < n
        invariant
            n == pks.len(),
            keys@.len() == n,
            0 <= j <= n,
            forall|m: int| 0 <= m < n ==> pks[m]@.len() == 32 && keys@[m] == array32(
                (#[trigger] pks[m])@,
            ),
            state.wf(),
            seed_tables_eq(*state, *old(state)),
            round_tables_eq(*state, *old(state)),
            state.admins == old(state).admins,
            state.pubkey == old(state).pubkey,
            state.engine_configs == old(state).engine_configs,
            state.current_config_version == old(state).current_config_version,
            state.player_join_data == old(state).player_join_data,
            state.player_configs == old(state).player_configs,
            forall|pk: [u8; 32]|
                #![trigger state.players@.contains_key(pk)]
                (state.players@.contains_key(pk) <==> old(state).players@.contains_key(pk)
                    || in_prefix(keys@, j as int, pk))
                && (in_prefix(keys@, j as int, pk) ==> state.players@[pk] == true)
                && (!in_prefix(keys@, j as int, pk) && old(state).players@.contains_key(pk)
                    ==> state.players@[pk] == old(state).players@[pk]),
        decreases n - j,
    {
        let k = keys[j];
        state.players.insert(k, true);
        proof {
            assert forall|pk: [u8; 32]| #[trigger] in_prefix(keys@, j + 1, pk) <==> (in_prefix(
                keys@,
                j as int,
                pk,
            ) || pk == k) by {
                if pk == k {
                    assert(keys@[j as int] == pk);
                }
                if in_prefix(keys@, j + 1, pk) {
                    let m = choose|m: int| 0 <= m < j + 1 && keys@[m] == pk;
                    if m < j {
                        assert(in_prefix(keys@, j as int, pk));
                    }
                }
            }
        }
        j = j + 1;
    }
    proof {
        assert forall|pk: [u8; 32]| #[trigger] in_prefix(keys@, n as int, pk) <==> is_listed(
            pks,
            pk,
        ) by {
            if in_prefix(keys@, n as int, pk) {
                let m = choose|m: int| 0 <= m < n && keys@[m] == pk;
                assert(array32(pks[m]@) == pk);
            }
            if is_listed(pks, pk) {
                let m = choose|m: int| 0 <= m < pks.len() && array32((#[trigger] pks[m])@) == pk;
                assert(keys@[m] == pk);
            }
        }
    }
    Ok(())
}

/// Whether a player is registered.
pub fn player_exists(state: &OrbsState, pubkey: [u8; 32]) -> (b: bool)
    requires
        state.wf(),
    ensures
        b == state.players@.contains_key(pubkey),
{
    state.players.contains_key(&pubkey)
}

/// The keys of a sequence of player entries, as byte sequences.
pub open spec fn player_key_views(entries: Seq<([u8; 32], bool)>) -> Seq<Seq<u8>> {
    entries.map_values(|e: ([u8; 32], bool)| e.0@)
}

/// A page of registered players in key order, with the number registered.
pub fn get_players(state: &OrbsState, offset: u64, limit: u64) -> (r: PlayerPage)
    requires
        state.wf(),
    ensures
        r.total == state.players.entries().len(),
        r.players@.map_values(|v: Vec<u8>| v@) == if limit as usize == 0 {
            Seq::empty()
        } else {
            page(player_key_views(state.players.entries()), offset as usize as nat, limit as usize as nat)
        },
{
    let skip = offset as usize;
    let take = limit as usize;
    let n = state.players.len();
    let total = n as u64;
    if take == 0 {
        let r = PlayerPage { total, players: Vec::new() };
        assert(r.players@.map_values(|v: Vec<u8>| v@) =~= Seq::<Seq<u8>>::empty());
        return r;
    }
    let start = if skip < n {
        skip
    } else {
        n
    };
    let end = if take < n - start {
        start + take
    } else {
        n
    };
    let ghost es = state.players.entries();
    let mut out: Vec<Vec<u8>> = Vec::new();
    let mut i = start;
    while i < end
        invariant
            n == es.len(),
            es == state.players.entries(),
            start <= i <= end <= n,
            out@.len() == i - start,
            forall|j: int| 0 <= j < out@.len() ==> (#[trigger] out@[j])@ == es[start + j].0@,
        decreases end - i,
    {
        let e = state.players.entry_at(i);
        let mut v: Vec<u8> = Vec::new();
        crate::text::push_bytes(&mut v, e.0.as_slice());
        out.push(v);
        i = i + 1;
    }
    let r = PlayerPage { total, players: out };
    assert(r.players@.map_values(|v: Vec<u8>| v@) =~= page(
        player_key_views(es),
        skip as nat,
        take as nat,
    ));
    r
}

} // verus!
