//! The canister state: record types and the tables that hold them.
use vstd::prelude::*;
use crate::chunks::{SeedChunk, SeedProof};
use crate::table::SortedMap;
use crate::text::{copy_string, copy_vec, text};

verus! {

/// One player's result in a round.
#[derive(Debug, Clone, Copy)]
pub struct RoundPlayerSnapshot {
    pub player: [u8; 32],
    pub join_ts: u64,
    pub tp_preset: u8,
    pub payout_lamports: u64,
    pub placement: u8,
    pub kills: u8,
    /// ORB tokens earned from emissions (in atoms).
    pub orb_earned_atoms: u64,
    /// Commitment hash for the player config record lookup.
    pub player_config_hash: Option<[u8; 32]>,
}

/// The stored result of a round.
#[derive(Debug, Clone)]
pub struct RoundSnapshot {
    pub tier_id: u8,
    pub round_id: u64,
    pub season_id: u16,
    pub players: Vec<RoundPlayerSnapshot>,
    /// Whether ORB emission occurred for this round.
    pub did_emit: bool,
    /// Solana transaction signature of the ORB mint (base58).
    pub emit_tx_sig: Option<String>,
    /// Engine config version used for this round (e.g. "1.2.2").
    pub config_version: String,
    /// Payout model used: "v1_inherit" or "v2_top3".
    pub payout_model: String,
}

/// A round snapshot as plain values.
pub struct RoundSnapshotView {
    pub tier_id: u8,
    pub round_id: u64,
    pub season_id: u16,
    pub players: Seq<RoundPlayerSnapshot>,
    pub did_emit: bool,
    pub emit_tx_sig: Option<Seq<char>>,
    pub config_version: Seq<char>,
    pub payout_model: Seq<char>,
}

pub open spec fn opt_string_view(o: Option<String>) -> Option<Seq<char>> {
    match o {
        Some(s) => Some(s@),
        None => None,
    }
}

/// A copy of an optional string.
pub fn copy_opt_string(o: &Option<String>) -> (r: Option<String>)
    ensures
        opt_string_view(r) == opt_string_view(*o),
{
    match o {
        Some(s) => Some(copy_string(s)),
        None => None,
    }
}

impl View for RoundSnapshot {
    type V = RoundSnapshotView;

    open spec fn view(&self) -> RoundSnapshotView {
        RoundSnapshotView {
            tier_id: self.tier_id,
            round_id: self.round_id,
            season_id: self.season_id,
            players: self.players@,
            did_emit: self.did_emit,
            emit_tx_sig: opt_string_view(self.emit_tx_sig),
            config_version: self.config_version@,
            payout_model: self.payout_model@,
        }
    }
}

impl RoundSnapshot {
    /// A copy of this snapshot.
    pub fn copy(&self) -> (r: RoundSnapshot)
        ensures
            r@ == self@,
    {
        RoundSnapshot {
            tier_id: self.tier_id,
            round_id: self.round_id,
            season_id: self.season_id,
            players: copy_vec(&self.players),
            did_emit: self.did_emit,
            emit_tx_sig: copy_opt_string(&self.emit_tx_sig),
            config_version: copy_string(&self.config_version),
            payout_model: copy_string(&self.payout_model),
        }
    }
}

/// Payout model of snapshots stored without one.
pub fn default_payout_model() -> (s: String)
    ensures
        s@ == "v1_inherit"@,
{
    text("v1_inherit")
}

/// Engine config version of snapshots stored without one.
pub fn default_config_version() -> (s: String)
    ensures
        s@ == "1.2.2"@,
{
    text("1.2.2")
}

/// Shared per-round entry that the rounds of each player refer to.
#[derive(Debug, Clone, Copy)]
pub struct RoundHistoryEntry {
    pub tier_id: u8,
    pub round_id: u64,
    pub season_id: u16,
}

/// A player's reference to a round they played.
#[derive(Debug, Clone, Copy)]
pub struct PlayerRoundRef {
    /// Composite key (tier_id, round_id).
    pub round_key: u128,
    /// When the player joined.
    pub join_ts: u64,
    /// 1 = first, 2 = second, etc.; 0 = participation only.
    pub placement: u8,
    pub kills: u8,
    /// SOL prize earned (in lamports).
    pub sol_earned_lamports: u64,
    /// ORB tokens earned from emissions (in atoms).
    pub orb_earned_atoms: u64,
}

/// Game engine configuration, used for deterministic replay verification.
#[derive(Debug, Clone)]
pub struct EngineConfig {
    /// Version string (unique identifier, e.g. "1.2.2").
    pub version: String,
    /// JSON text of the full engine configuration.
    pub config_json: String,
    /// Unix timestamp (seconds) when this config was stored.
    pub created_at: u64,
}

/// An engine config as plain values.
pub struct EngineConfigView {
    pub version: Seq<char>,
    pub config_json: Seq<char>,
    pub created_at: u64,
}

impl View for EngineConfig {
    type V = EngineConfigView;

    open spec fn view(&self) -> EngineConfigView {
        EngineConfigView {
            version: self.version@,
            config_json: self.config_json@,
            created_at: self.created_at,
        }
    }
}

impl EngineConfig {
    /// A copy of this config.
    pub fn copy(&self) -> (r: EngineConfig)
        ensures
            r@ == self@,
    {
        EngineConfig {
            version: copy_string(&self.version),
            config_json: copy_string(&self.config_json),
            created_at: self.created_at,
        }
    }
}

/// Player config record of a v2 round (quantized, no floats). Immutable once written.
#[derive(Debug, Clone, Copy)]
pub struct PlayerConfigRecord {
    /// Commitment hash (part of the key, also stored on Solana).
    pub player_config_hash: [u8; 32],
    pub round_id: u64,
    pub tier_id: u8,
    pub player_pubkey: [u8; 32],
    pub tp_preset: u16,
    /// Quantized X: [-32767, 32767] -> [-1, 1].
    pub spawn_x_q: i16,
    /// Quantized Y: [-32767, 32767] -> [-1, 1].
    pub spawn_y_q: i16,
    /// Quantized rotation: [0, 65535] -> [0, 2*PI).
    pub spawn_rot_q: u16,
    pub alloc_split: u8,
    pub alloc_tether: u8,
    pub alloc_power: u8,
    /// Timestamp (seconds) for cleanup.
    pub created_at: u64,
}

/// Join data of a player in a round (spawn and skill allocation from the matrix game).
/// The three spawn values are `f32` numbers, kept as their bit patterns.
#[derive(Debug, Clone, Copy, PartialEq, Eq)]
pub struct PlayerJoinData {
    /// Bits of the normalized spawn X, in [-1, 1].
    pub spawn_x_norm_bits: u32,
    /// Bits of the normalized spawn Y, in [-1, 1].
    pub spawn_y_norm_bits: u32,
    /// Bits of the spawn direction in radians, in [0, 2*PI].
    pub spawn_rot_rad_bits: u32,
    /// Skill points earned from the matrix game.
    pub earned_sp: u8,
    pub alloc_split_aggro: u8,
    pub alloc_tether_res: u8,
    pub alloc_orb_power: u8,
    /// Timestamp (seconds) when stored.
    pub stored_at: u64,
}

/// The tables of the canister and the stable-memory slot each one is persisted in.
#[derive(Debug, Clone, Copy, PartialEq, Eq, Structural)]
pub enum MemoryIndex {
    AdminMemory,
    PlayersMemory,
    PubKey,
    RoundSnapshots,
    RoundHistoryEntries,
    PlayerRoundRefs,
    SeedChunks,
    ChunkOffsets,
    RevealedSeeds,
    LastSettledRounds,
    EngineConfigs,
    CurrentConfigVersion,
    PlayerJoinData,
    PlayerConfigs,
}

impl MemoryIndex {
    /// The stable-memory slot of each table, in declaration order from 0.
    pub open spec fn slot(&self) -> u8 {
        match self {
            MemoryIndex::AdminMemory => 0,
            MemoryIndex::PlayersMemory => 1,
            MemoryIndex::PubKey => 2,
            MemoryIndex::RoundSnapshots => 3,
            MemoryIndex::RoundHistoryEntries => 4,
            MemoryIndex::PlayerRoundRefs => 5,
            MemoryIndex::SeedChunks => 6,
            MemoryIndex::ChunkOffsets => 7,
            MemoryIndex::RevealedSeeds => 8,
            MemoryIndex::LastSettledRounds => 9,
            MemoryIndex::EngineConfigs => 10,
            MemoryIndex::CurrentConfigVersion => 11,
            MemoryIndex::PlayerJoinData => 12,
            MemoryIndex::PlayerConfigs => 13,
        }
    }

    /// The stable-memory slot of the table.
    pub fn memory_id(&self) -> (id: u8)
        ensures
            id == self.slot(),
            id < 14,
    {
        match self {
            MemoryIndex::AdminMemory => 0,
            MemoryIndex::PlayersMemory => 1,
            MemoryIndex::PubKey => 2,
            MemoryIndex::RoundSnapshots => 3,
            MemoryIndex::RoundHistoryEntries => 4,
            MemoryIndex::PlayerRoundRefs => 5,
            MemoryIndex::SeedChunks => 6,
            MemoryIndex::ChunkOffsets => 7,
            MemoryIndex::RevealedSeeds => 8,
            MemoryIndex::LastSettledRounds => 9,
            MemoryIndex::EngineConfigs => 10,
            MemoryIndex::CurrentConfigVersion => 11,
            MemoryIndex::PlayerJoinData => 12,
            MemoryIndex::PlayerConfigs => 13,
        }
    }
}

/// Admin principal key: length byte, then the principal bytes padded with zeros.
/// This orders admins as principals are ordered (by length, then bytes).
pub type AdminKey = [u8; 30];

/// All persistent state of the canister.
pub struct OrbsState {
    /// Principals allowed to administer the canister.
    pub admins: SortedMap<AdminKey, Vec<u8>>,
    /// Registered players.
    pub players: SortedMap<[u8; 32], bool>,
    /// Cached ECDSA public key (uncompressed SEC1); empty until initialized.
    pub pubkey: Vec<u8>,
    /// (tier, round) -> round snapshot.
    pub round_snapshots: SortedMap<u128, RoundSnapshot>,
    /// (tier, round) -> shared round history entry.
    pub round_history_entries: SortedMap<u128, RoundHistoryEntry>,
    /// Player -> rounds played, most recent join first.
    pub player_round_refs: SortedMap<[u8; 32], Vec<PlayerRoundRef>>,
    /// Tier -> CURRENT seed chunk.
    pub seed_chunks: SortedMap<u32, SeedChunk>,
    /// Tier -> NEXT (prefetched) seed chunk.
    pub seed_chunks_next: SortedMap<u32, SeedChunk>,
    /// Tier -> number of seeds revealed from the chunks.
    pub chunk_offsets: SortedMap<u32, u64>,
    /// Tier -> last settled round.
    pub last_settled_rounds: SortedMap<u32, u64>,
    /// (tier, round) -> publicly revealed seed proof.
    pub revealed_seeds: SortedMap<u128, SeedProof>,
    /// Version key -> engine config.
    pub engine_configs: SortedMap<[u8; 16], EngineConfig>,
    /// Engine config version used by new rounds.
    pub current_config_version: String,
    /// (player, tier, round) key -> join data.
    pub player_join_data: SortedMap<[u8; 41], PlayerJoinData>,
    /// (round, tier, config hash) key -> player config record.
    pub player_configs: SortedMap<[u8; 41], PlayerConfigRecord>,
}

impl OrbsState {
    /// Every table is well formed.
    pub open spec fn wf(&self) -> bool {
        &&& self.admins.wf()
        &&& self.players.wf()
        &&& self.round_snapshots.wf()
        &&& self.round_history_entries.wf()
        &&& self.player_round_refs.wf()
        &&& self.seed_chunks.wf()
        &&& self.seed_chunks_next.wf()
        &&& self.chunk_offsets.wf()
        &&& self.last_settled_rounds.wf()
        &&& self.revealed_seeds.wf()
        &&& self.engine_configs.wf()
        &&& self.player_join_data.wf()
        &&& self.player_configs.wf()
    }

    /// A fresh state: every table empty, current config version "1.2.2".
    pub fn new() -> (s: OrbsState)
        ensures
            s.wf(),
            s.admins@ == Map::<AdminKey, Vec<u8>>::empty(),
            s.players@ == Map::<[u8; 32], bool>::empty(),
            s.pubkey@ == Seq::<u8>::empty(),
            s.round_snapshots@ == Map::<u128, RoundSnapshot>::empty(),
            s.round_history_entries@ == Map::<u128, RoundHistoryEntry>::empty(),
            s.player_round_refs@ == Map::<[u8; 32], Vec<PlayerRoundRef>>::empty(),
            s.seed_chunks@ == Map::<u32, SeedChunk>::empty(),
            s.seed_chunks_next@ == Map::<u32, SeedChunk>::empty(),
            s.chunk_offsets@ == Map::<u32, u64>::empty(),
            s.last_settled_rounds@ == Map::<u32, u64>::empty(),
            s.revealed_seeds@ == Map::<u128, SeedProof>::empty(),
            s.engine_configs@ == Map::<[u8; 16], EngineConfig>::empty(),
            s.current_config_version@ == "1.2.2"@,
            s.player_join_data@ == Map::<[u8; 41], PlayerJoinData>::empty(),
            s.player_configs@ == Map::<[u8; 41], PlayerConfigRecord>::empty(),
    {
        OrbsState {
            admins: SortedMap::new(),
            players: SortedMap::new(),
            pubkey: Vec::new(),
            round_snapshots: SortedMap::new(),
            round_history_entries: SortedMap::new(),
            player_round_refs: SortedMap::new(),
            seed_chunks: SortedMap::new(),
            seed_chunks_next: SortedMap::new(),
            chunk_offsets: SortedMap::new(),
            last_settled_rounds: SortedMap::new(),
            revealed_seeds: SortedMap::new(),
            engine_configs: SortedMap::new(),
            current_config_version: default_config_version(),
            player_join_data: SortedMap::new(),
            player_configs: SortedMap::new(),
        }
    }
}

/// The seed tables of two states are equal.
pub open spec fn seed_tables_eq(a: OrbsState, b: OrbsState) -> bool {
    &&& a.seed_chunks == b.seed_chunks
    &&& a.seed_chunks_next == b.seed_chunks_next
    &&& a.chunk_offsets == b.chunk_offsets
    &&& a.last_settled_rounds == b.last_settled_rounds
    &&& a.revealed_seeds == b.revealed_seeds
}

/// The round tables of two states are equal.
pub open spec fn round_tables_eq(a: OrbsState, b: OrbsState) -> bool {
    &&& a.round_snapshots == b.round_snapshots
    &&& a.round_history_entries == b.round_history_entries
    &&& a.player_round_refs == b.player_round_refs
}

/// The admin, player, key and configuration tables of two states are equal.
pub open spec fn registry_eq(a: OrbsState, b: OrbsState) -> bool {
    &&& a.admins == b.admins
    &&& a.players == b.players
    &&& a.pubkey == b.pubkey
    &&& a.engine_configs == b.engine_configs
    &&& a.current_config_version == b.current_config_version
    &&& a.player_join_data == b.player_join_data
    &&& a.player_configs == b.player_configs
}

/// The current active config version string.
pub fn get_current_config_version(state: &OrbsState) -> (v: String)
    ensures
        v@ == state.current_config_version@,
{
    copy_string(&state.current_config_version)
}

/// Set the current active config version string (the caller checks that it exists).
pub fn set_current_config_version(state: &mut OrbsState, version: String)
    ensures
        final(state).current_config_version@ == version@,
        seed_tables_eq(*final(state), *old(state)),
        round_tables_eq(*final(state), *old(state)),
        final(state).admins == old(state).admins,
        final(state).players == old(state).players,
        final(state).pubkey == old(state).pubkey,
        final(state).engine_configs == old(state).engine_configs,
        final(state).player_join_data == old(state).player_join_data,
        final(state).player_configs == old(state).player_configs,
{
    state.current_config_version = version;
}

} // verus!
