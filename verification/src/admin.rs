//! Administrators, the cached public key, and bulk data clearing.
use vstd::prelude::*;
use vstd::string::StringExecFns;
use crate::address::{sec1_compressed, sec1_to_compressed, sec1_to_uncompressed, sec1_uncompressed};
use crate::encoding::{array_of, hex_encode, lemma_array_of};
use crate::state::{AdminKey, OrbsState};
use crate::text::{copy_vec, hex_lower, push_bytes, text};

verus! {

/// Longest principal, in bytes.
pub const MAX_PRINCIPAL_LEN: usize = 29;

/// The admin table key of a principal: its length, its bytes, then zeros.
pub open spec fn admin_key_of(principal: Seq<u8>) -> AdminKey {
    array_of::<30>(
        Seq::new(
            30,
            |i: int|
                if i == 0 {
                    principal.len() as u8
                } else if i - 1 < principal.len() {
                    principal[i - 1]
                } else {
                    0u8
                },
        ),
    )
}

/// The admin table key of a principal of at most 29 bytes.
pub fn admin_key(principal: &[u8]) -> (k: AdminKey)
    requires
        principal@.len() <= MAX_PRINCIPAL_LEN,
    ensures
        k == admin_key_of(principal@),
{
    let mut k = [0u8; 30];
    k[0] = principal.len() as u8;
    let mut i: usize = 0;
    while i < principal.len()
        invariant
            0 <= i <= principal@.len(),
            principal@.len() <= 29,
            k@.len() == 30,
            k@[0] == principal@.len() as u8,
            forall|j: int| 1 <= j < 30 ==> k@[j] == if j - 1 < i {
                principal@[j - 1]
            } else {
                0u8
            },
        decreases principal@.len() - i,
    {
        k[i + 1] = principal[i];
        i = i + 1;
    }
    let ghost s = Seq::new(
        30,
        |j: int|
            if j == 0 {
                principal@.len() as u8
            } else if j - 1 < principal@.len() {
                principal@[j - 1]
            } else {
                0u8
            },
    );
    assert(k@ =~= s);
    proof {
        lemma_array_of::<30>(s, k);
    }
    k
}

/// Whether `caller` is an administrator.
pub fn is_admin(state: &OrbsState, caller: &[u8]) -> (b: bool)
    requires
        state.wf(),
        caller@.len() <= MAX_PRINCIPAL_LEN,
    ensures
        b == state.admins@.contains_key(admin_key_of(caller@)),
{
    state.admins.contains_key(&admin_key(caller))
}

/// Only the admin table may differ.
pub open spec fn only_admins_changed(a: OrbsState, b: OrbsState) -> bool {
    &&& crate::state::seed_tables_eq(a, b)
    &&& crate::state::round_tables_eq(a, b)
    &&& a.players == b.players
    &&& a.pubkey == b.pubkey
    &&& a.engine_configs == b.engine_configs
    &&& a.current_config_version == b.current_config_version
    &&& a.player_join_data == b.player_join_data
    &&& a.player_configs == b.player_configs
}

/// Make `principal` an administrator.
pub fn add_admin(state: &mut OrbsState, principal: Vec<u8>)
    requires
        old(state).wf(),
        principal@.len() <= MAX_PRINCIPAL_LEN,
    ensures
        final(state).wf(),
        only_admins_changed(*final(state), *old(state)),
        final(state).admins@.dom() == old(state).admins@.dom().insert(admin_key_of(principal@)),
        final(state).admins@[admin_key_of(principal@)]@ == principal@,
        forall|k: AdminKey|
            k != admin_key_of(principal@) && #[trigger] old(state).admins@.contains_key(k)
                ==> final(state).admins@[k] == old(state).admins@[k],
{
    let k = admin_key(principal.as_slice());
    state.admins.insert(k, principal);
}

/// Every listed principal is at most 29 bytes.
pub open spec fn principals_fit(admins: Seq<Vec<u8>>) -> bool {
    forall|i: int| 0 <= i < admins.len() ==> (#[trigger] admins[i])@.len() <= MAX_PRINCIPAL_LEN
}

/// The admin table viewed as principals.
pub open spec fn admin_views(m: Map<AdminKey, Vec<u8>>) -> Map<AdminKey, Seq<u8>> {
    m.map_values(|v: Vec<u8>| v@)
}

/// The admin table after making each principal of `ps` an administrator, in order.
pub open spec fn granted(m: Map<AdminKey, Seq<u8>>, ps: Seq<Seq<u8>>) -> Map<AdminKey, Seq<u8>>
    decreases ps.len(),
{
    if ps.len() == 0 {
        m
    } else {
        granted(m, ps.drop_last()).insert(admin_key_of(ps.last()), ps.last())
    }
}

/// Make every listed principal and the caller administrators; no one else becomes one.
pub fn init_admins(state: &mut OrbsState, admins: Vec<Vec<u8>>, caller: Vec<u8>)
    requires
        old(state).wf(),
        principals_fit(admins@),
        caller@.len() <= MAX_PRINCIPAL_LEN,
    ensures
        final(state).wf(),
        only_admins_changed(*final(state), *old(state)),
        admin_views(final(state).admins@) == granted(
            admin_views(old(state).admins@),
            admins@.map_values(|v: Vec<u8>| v@).push(caller@),
        ),
        final(state).admins@.contains_key(admin_key_of(caller@)),
        forall|i: int|
            0 <= i < admins@.len() ==> final(state).admins@.contains_key(
                admin_key_of((#[trigger] admins@[i])@),
            ),
        forall|k: AdminKey| #[trigger]
            old(state).admins@.contains_key(k) ==> final(state).admins@.contains_key(k),
{
    let n = admins.len();
    let ghost views = admins@.map_values(|v: Vec<u8>| v@);
    let mut i: usize = 0;
    assert(views.take(0) =~= Seq::<Seq<u8>>::empty());
    while i < n
        invariant
            n == admins@.len(),
            views == admins@.map_values(|v: Vec<u8>| v@),
            0 <= i <= n,
            principals_fit(admins@),
            state.wf(),
            only_admins_changed(*state, *old(state)),
            admin_views(state.admins@) == granted(admin_views(old(state).admins@), views.take(i as int)),
            forall|j: int|
                0 <= j < i ==> state.admins@.contains_key(admin_key_of((#[trigger] admins@[j])@)),
            forall|k: AdminKey| #[trigger]
                old(state).admins@.contains_key(k) ==> state.admins@.contains_key(k),
        decreases n - i,
    {
        let p = copy_vec(&admins[i]);
        let ghost before = admin_views(state.admins@);
        add_admin(state, p);
        assert(views.take(i + 1).drop_last() =~= views.take(i as int));
        assert(admin_views(state.admins@) =~= before.insert(admin_key_of(admins@[i as int]@), admins@[i as int]@));
        i = i + 1;
    }
    assert(views.take(n as int) =~= views);
    let ghost before = admin_views(state.admins@);
    let ghost cv = caller@;
    add_admin(state, caller);
    assert(views.push(cv).drop_last() =~= views);
    assert(admin_views(state.admins@) =~= before.insert(admin_key_of(cv), cv));
}

/// The administrators, in principal order (length, then bytes).
pub fn list_admins(state: &OrbsState) -> (r: Vec<Vec<u8>>)
    requires
        state.wf(),
    ensures
        r@.len() == state.admins.entries().len(),
        forall|i: int| 0 <= i < r@.len() ==> (#[trigger] r@[i])@ == state.admins.entries()[i].1@,
{
    let n = state.admins.len();
    let mut out: Vec<Vec<u8>> = Vec::new();
    let mut i: usize = 0;
    while i < n
        invariant
            n == state.admins.entries().len(),
            0 <= i <= n,
            out@.len() == i,
            forall|j: int| 0 <= j < i ==> (#[trigger] out@[j])@ == state.admins.entries()[j].1@,
        decreases n - i,
    {
        let e = state.admins.entry_at(i);
        out.push(copy_vec(&e.1));
        i = i + 1;
    }
    out
}

/// The anonymous principal.
pub open spec fn anonymous_principal() -> Seq<u8> {
    seq![4u8]
}

/// Whether a principal is the anonymous one.
pub fn is_anonymous(principal: &[u8]) -> (b: bool)
    ensures
        b == (principal@ == anonymous_principal()),
{
    if principal.len() == 1 && principal[0] == 4 {
        assert(principal@ =~= anonymous_principal());
        true
    } else {
        false
    }
}

/// The principals of a list that are not anonymous, in order.
pub open spec fn non_anonymous(admins: Seq<Vec<u8>>) -> Seq<Seq<u8>>
    decreases admins.len(),
{
    if admins.len() == 0 {
        Seq::empty()
    } else {
        let rest = non_anonymous(admins.drop_last());
        if admins.last()@ == anonymous_principal() {
            rest
        } else {
            rest.push(admins.last()@)
        }
    }
}

/// Drop the anonymous principal from a list of principals.
pub fn filter_anonymous(admins: Vec<Vec<u8>>) -> (r: Vec<Vec<u8>>)
    ensures
        r@.map_values(|v: Vec<u8>| v@) == non_anonymous(admins@),
        forall|i: int|
            0 <= i < r@.len() ==> exists|j: int|
                0 <= j < admins@.len() && (#[trigger] r@[i])@ == (#[trigger] admins@[j])@,
{
    let n = admins.len();
    let mut out: Vec<Vec<u8>> = Vec::new();
    let mut i: usize = 0;
    assert(admins@.take(0) =~= Seq::<Vec<u8>>::empty());
    while i < n
        invariant
            n == admins@.len(),
            0 <= i <= n,
            out@.map_values(|v: Vec<u8>| v@) == non_anonymous(admins@.take(i as int)),
            forall|k: int|
                0 <= k < out@.len() ==> exists|j: int|
                    0 <= j < admins@.len() && (#[trigger] out@[k])@ == (#[trigger] admins@[j])@,
        decreases n - i,
    {
        assert(admins@.take(i + 1).drop_last() =~= admins@.take(i as int));
        if !is_anonymous(admins[i].as_slice()) {
            let ghost before = out@;
            out.push(copy_vec(&admins[i]));
            assert(out@.map_values(|v: Vec<u8>| v@) =~= before.map_values(|v: Vec<u8>| v@).push(
                admins@[i as int]@,
            ));
            assert(out@[out@.len() - 1]@ == admins@[i as int]@);
        }
        i = i + 1;
    }
    assert(admins@.take(n as int) =~= admins@);
    out
}

/// Whether the public key has been cached.
pub fn pubkey_initialized(state: &OrbsState) -> (b: bool)
    ensures
        b == (state.pubkey@.len() > 0),
{
    state.pubkey.len() > 0
}

/// Only the cached public key may differ.
pub open spec fn only_pubkey_changed(a: OrbsState, b: OrbsState) -> bool {
    &&& crate::state::seed_tables_eq(a, b)
    &&& crate::state::round_tables_eq(a, b)
    &&& a.admins == b.admins
    &&& a.players == b.players
    &&& a.engine_configs == b.engine_configs
    &&& a.current_config_version == b.current_config_version
    &&& a.player_join_data == b.player_join_data
    &&& a.player_configs == b.player_configs
}

/// Cache the public key fetched from the signing service (any SEC1 form), in uncompressed
/// form. Once cached it is never replaced.
pub fn store_public_key(state: &mut OrbsState, sec1: &[u8]) -> (r: Result<(), String>)
    requires
        old(state).wf(),
    ensures
        final(state).wf(),
        only_pubkey_changed(*final(state), *old(state)),
        old(state).pubkey@.len() > 0 ==> r is Err && r->Err_0@ == "pubkey already initialized"@
            && final(state).pubkey == old(state).pubkey,
        old(state).pubkey@.len() == 0 ==> (r is Ok <==> sec1_uncompressed(sec1@) is Some),
        old(state).pubkey@.len() == 0 && r is Ok ==> Some(final(state).pubkey@) == sec1_uncompressed(
            sec1@,
        ),
        r is Err ==> final(state).pubkey == old(state).pubkey,
{
    if state.pubkey.len() > 0 {
        return Err(text("pubkey already initialized"));
    }
    match sec1_to_uncompressed(sec1) {
        Ok(v) => {
            state.pubkey = v;
            Ok(())
        },
        Err(e) => {
            let mut m = text("failed to fetch pubkey: InvalidPublicKey(\"");
            m.append(e.as_str());
            m.append("\")");
            Err(m)
        },
    }
}

/// The cached public key in compressed SEC1 form, hex encoded.
pub fn get_pubkey_hex(state: &OrbsState) -> (r: Result<String, String>)
    ensures
        state.pubkey@.len() == 0 ==> r is Err && r->Err_0@ == "pubkey not initialized"@,
        state.pubkey@.len() > 0 ==> (r is Ok <==> sec1_compressed(state.pubkey@) is Some),
        r matches Ok(h) ==> h@ == hex_lower(sec1_compressed(state.pubkey@)->Some_0),
{
    if state.pubkey.len() == 0 {
        return Err(text("pubkey not initialized"));
    }
    match sec1_to_compressed(state.pubkey.as_slice()) {
        Ok(v) => Ok(hex_encode(v.as_slice())),
        Err(e) => {
            let mut m = text("failed to parse pubkey: ");
            m.append(e.as_str());
            Err(m)
        },
    }
}

/// Clear the players, rounds and seeds, both chunk slots included (used when switching to a
/// new Solana program). Admins, the cached public key, engine configs, the current config
/// version, player configs and join data are kept.
pub fn clear_all_data(state: &mut OrbsState) -> (r: Result<(), String>)
    requires
        old(state).wf(),
    ensures
        r is Ok,
        final(state).wf(),
        final(state).players@ == Map::<[u8; 32], bool>::empty(),
        final(state).round_snapshots@ == Map::<u128, crate::state::RoundSnapshot>::empty(),
        final(state).round_history_entries@ == Map::<u128, crate::state::RoundHistoryEntry>::empty(),
        final(state).player_round_refs@ == Map::<[u8; 32], Vec<crate::state::PlayerRoundRef>>::empty(),
        final(state).seed_chunks@ == Map::<u32, crate::chunks::SeedChunk>::empty(),
        final(state).chunk_offsets@ == Map::<u32, u64>::empty(),
        final(state).revealed_seeds@ == Map::<u128, crate::chunks::SeedProof>::empty(),
        final(state).last_settled_rounds@ == Map::<u32, u64>::empty(),
        final(state).seed_chunks_next@ == Map::<u32, crate::chunks::SeedChunk>::empty(),
        final(state).admins == old(state).admins,
        final(state).pubkey == old(state).pubkey,
        final(state).engine_configs == old(state).engine_configs,
        final(state).current_config_version == old(state).current_config_version,
        final(state).player_join_data == old(state).player_join_data,
        final(state).player_configs == old(state).player_configs,
{
    state.players.clear();
    state.round_snapshots.clear();
    state.round_history_entries.clear();
    state.player_round_refs.clear();
    state.seed_chunks.clear();
    state.seed_chunks_next.clear();
    state.chunk_offsets.clear();
    state.revealed_seeds.clear();
    state.last_settled_rounds.clear();
    Ok(())
}

} // verus!
