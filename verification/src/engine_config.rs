//! Versioned game engine configurations, stored for deterministic replay verification.
//! Adding never overwrites a version; updating only replaces an existing one.
use vstd::prelude::*;
use vstd::string::StringExecFns;
use vstd::utf8::encode_utf8;
use crate::encoding::{array_of, lemma_array_of};
use crate::keys::{spec_version_key, version_to_key};
use crate::state::{round_tables_eq, seed_tables_eq, EngineConfig, EngineConfigView, OrbsState};
use crate::text::{copy_string, decimal, push_decimal, text};

verus! {

/// Nanoseconds per second.
pub const NANOS_PER_SECOND: u64 = 1_000_000_000;

/// Length in bytes of the UTF-8 encoding of a string, as `str::len` reports it.
pub open spec fn byte_len(s: Seq<char>) -> usize {
    encode_utf8(s).len() as usize
}

/// The key of a version in the engine config table.
pub open spec fn version_key(version: Seq<char>) -> [u8; 16] {
    array_of::<16>(spec_version_key(encode_utf8(version)))
}

/// The table key of a version string.
fn key_of(version: &String) -> (k: [u8; 16])
    ensures
        k == version_key(version@),
{
    let k = version_to_key(version.as_str());
    proof {
        lemma_array_of::<16>(k@, k);
    }
    k
}

/// Everything but the engine config table is unchanged.
pub open spec fn only_engine_configs_changed(a: OrbsState, b: OrbsState) -> bool {
    &&& seed_tables_eq(a, b)
    &&& round_tables_eq(a, b)
    &&& a.admins == b.admins
    &&& a.players == b.players
    &&& a.pubkey == b.pubkey
    &&& a.current_config_version == b.current_config_version
    &&& a.player_join_data == b.player_join_data
    &&& a.player_configs == b.player_configs
}

/// The config stored for a version at a time (nanoseconds).
pub open spec fn config_view(version: Seq<char>, config_json: Seq<char>, now_nanos: u64) -> EngineConfigView {
    EngineConfigView { version, config_json, created_at: (now_nanos / NANOS_PER_SECOND) as u64 }
}

/// The table holds `v` under `k` and is otherwise unchanged.
pub open spec fn stored_config(
    old: Map<[u8; 16], EngineConfig>,
    new: Map<[u8; 16], EngineConfig>,
    k: [u8; 16],
    v: EngineConfigView,
) -> bool {
    &&& new.contains_key(k)
    &&& new.remove(k) == old.remove(k)
    &&& new[k]@ == v
}

pub open spec fn too_long_error(n: nat) -> Seq<char> {
    "Version string too long: "@ + decimal(n) + " (max 16 chars)"@
}

/// Add a new engine config. A version of more than 16 bytes, an empty version, or one that
/// exists already is refused; `created_at` is `now_nanos` in whole seconds.
pub fn add_engine_config(
    state: &mut OrbsState,
    version: String,
    config_json: String,
    now_nanos: u64,
) -> (r: Result<(), String>)
    requires
        old(state).wf(),
    ensures
        final(state).wf(),
        only_engine_configs_changed(*final(state), *old(state)),
        ({
            let len = byte_len(version@);
            let k = version_key(version@);
            if len > 16 {
                r is Err && r->Err_0@ == too_long_error(len as nat) && final(state).engine_configs
                    == old(state).engine_configs
            } else if version@.len() == 0 {
                r is Err && r->Err_0@ == "Version string cannot be empty"@
                    && final(state).engine_configs == old(state).engine_configs
            } else if old(state).engine_configs@.contains_key(k) {
                r is Err && r->Err_0@ == "Engine config version "@ + version@ + " already exists"@
                    && final(state).engine_configs == old(state).engine_configs
            } else {
                r is Ok && stored_config(
                    old(state).engine_configs@,
                    final(state).engine_configs@,
                    k,
                    config_view(version@, config_json@, now_nanos),
                )
            }
        }),
{
    let len = version.as_str().len();
    if len > 16 {
        let mut e = text("Version string too long: ");
        push_decimal(&mut e, len as u64);
        e.append(" (max 16 chars)");
        return Err(e);
    }
    if version.as_str().is_empty() {
        return Err(text("Version string cannot be empty"));
    }
    let key = key_of(&version);
    if state.engine_configs.contains_key(&key) {
        let mut e = text("Engine config version ");
        e.append(version.as_str());
        e.append(" already exists");
        return Err(e);
    }
    let config = EngineConfig { version, config_json, created_at: now_nanos / NANOS_PER_SECOND };
    let ghost before = state.engine_configs@;
    state.engine_configs.insert(key, config);
    assert(state.engine_configs@.remove(key) =~= before.remove(key));
    Ok(())
}

/// Replace the config of an existing version; a version that does not exist is refused.
pub fn update_engine_config(
    state: &mut OrbsState,
    version: String,
    config_json: String,
    now_nanos: u64,
) -> (r: Result<(), String>)
    requires
        old(state).wf(),
    ensures
        final(state).wf(),
        only_engine_configs_changed(*final(state), *old(state)),
        ({
            let k = version_key(version@);
            if !old(state).engine_configs@.contains_key(k) {
                r is Err && r->Err_0@ == "Engine config version "@ + version@ + " does not exist"@
                    && final(state).engine_configs == old(state).engine_configs
            } else {
                r is Ok && stored_config(
                    old(state).engine_configs@,
                    final(state).engine_configs@,
                    k,
                    config_view(version@, config_json@, now_nanos),
                )
            }
        }),
{
    let key = key_of(&version);
    if !state.engine_configs.contains_key(&key) {
        let mut e = text("Engine config version ");
        e.append(version.as_str());
        e.append(" does not exist");
        return Err(e);
    }
    let config = EngineConfig { version, config_json, created_at: now_nanos / NANOS_PER_SECOND };
    let ghost before = state.engine_configs@;
    state.engine_configs.insert(key, config);
    assert(state.engine_configs@.remove(key) =~= before.remove(key));
    Ok(())
}

/// The engine config of a version.
pub fn get_engine_config(state: &OrbsState, version: String) -> (r: Option<EngineConfig>)
    requires
        state.wf(),
    ensures
        r is Some <==> state.engine_configs@.contains_key(version_key(version@)),
        r matches Some(c) ==> c@ == state.engine_configs@[version_key(version@)]@,
{
    let key = key_of(&version);
    match state.engine_configs.get(&key) {
        Some(c) => Some(c.copy()),
        None => None,
    }
}

/// The version string of the config with the greatest version key.
pub fn get_latest_engine_config_version(state: &OrbsState) -> (r: Option<String>)
    requires
        state.wf(),
    ensures
        r is None <==> state.engine_configs.entries().len() == 0,
        r matches Some(v) ==> v@ == state.engine_configs.entries().last().1.version@,
{
    match state.engine_configs.last_entry() {
        Some(e) => Some(copy_string(&e.1.version)),
        None => None,
    }
}

/// The config with the greatest version key.
pub fn get_latest_engine_config(state: &OrbsState) -> (r: Option<EngineConfig>)
    requires
        state.wf(),
    ensures
        r is None <==> state.engine_configs.entries().len() == 0,
        r matches Some(c) ==> c@ == state.engine_configs.entries().last().1@,
{
    match state.engine_configs.last_entry() {
        Some(e) => Some(e.1.copy()),
        None => None,
    }
}

/// The views of the configs of a sequence of table entries.
pub open spec fn config_views(entries: Seq<([u8; 16], EngineConfig)>) -> Seq<EngineConfigView> {
    entries.map_values(|e: ([u8; 16], EngineConfig)| e.1@)
}

/// All engine configs, in version key order.
pub fn list_engine_config_versions(state: &OrbsState) -> (r: Vec<EngineConfig>)
    requires
        state.wf(),
    ensures
        r@.map_values(|c: EngineConfig| c@) == config_views(state.engine_configs.entries()),
{
    let n = state.engine_configs.len();
    let ghost es = state.engine_configs.entries();
    let mut result: Vec<EngineConfig> = Vec::new();
    let mut i: usize = 0;
    while i < n
        invariant
            n == es.len(),
            es == state.engine_configs.entries(),
            0 <= i <= n,
            result@.len() == i,
            forall|j: int| 0 <= j < i ==> (#[trigger] result@[j])@ == es[j].1@,
        decreases n - i,
    {
        let e = state.engine_configs.entry_at(i);
        result.push(e.1.copy());
        i = i + 1;
    }
    assert(result@.map_values(|c: EngineConfig| c@) =~= config_views(es));
    result
}


/// The latest engine config is the one whose version key (its zero-padded version bytes) is
/// lexicographically greatest: every other stored version key is smaller at the first byte
/// where they differ.
pub proof fn lemma_latest_engine_config_is_greatest(state: OrbsState, k: [u8; 16])
    requires
        state.wf(),
        state.engine_configs.entries().len() > 0,
        state.engine_configs@.contains_key(k),
        k != state.engine_configs.entries().last().0,
    ensures
        exists|i: int|
            0 <= i < 16 && k@[i] < state.engine_configs.entries().last().0@[i] && (forall|j: int|
                0 <= j < i ==> k@[j] == state.engine_configs.entries().last().0@[j]),
{
    crate::table::lemma_last_byte_key_is_greatest(state.engine_configs, k);
}


/// An engine config is stored as given: the version and JSON as submitted, and the time in
/// whole seconds.
pub proof fn lemma_engine_config_kept_as_given(version: Seq<char>, config_json: Seq<char>, now_nanos: u64)
    ensures
        config_view(version, config_json, now_nanos).version == version,
        config_view(version, config_json, now_nanos).config_json == config_json,
        config_view(version, config_json, now_nanos).created_at == now_nanos / 1_000_000_000,
{
}

} // verus!
