//! API types shared by the game modules, and the decoding of snapshot inputs.
use vstd::prelude::*;
use vstd::string::StringSliceAdditionalSpecFns;
use vstd::utf8::encode_utf8;
use crate::encoding::{array32, bs58_decode, bs58_decoded, hex_decode, hex_decoded, is_hex, to_array32};
use crate::state::{RoundPlayerSnapshot, RoundSnapshot};
use crate::text::text;
use vstd::string::StringExecFns;

verus! {

/// A page of registered players.
#[derive(Debug)]
pub struct PlayerPage {
    /// Number of registered players.
    pub total: u64,
    /// Public keys of the players on this page.
    pub players: Vec<Vec<u8>>,
}

/// A player's result in a round, as submitted.
#[derive(Debug, Clone)]
pub struct RoundPlayerSnapshotInput {
    /// Base58-encoded public key.
    pub player: String,
    pub join_ts: u64,
    pub tp_preset: u8,
    pub payout_lamports: u64,
    pub placement: u8,
    pub kills: u8,
    /// ORB tokens earned from emissions (in atoms).
    pub orb_earned_atoms: u64,
    /// Hex-encoded 32-byte commitment hash.
    pub player_config_hash: Option<String>,
}

/// A page of round snapshots.
#[derive(Debug)]
pub struct RoundSnapshotPage {
    pub total: u64,
    pub snapshots: Vec<RoundSnapshot>,
}

/// One round of a player's history.
#[derive(Debug, Clone, Copy)]
pub struct PlayerRoundHistoryEntry {
    pub tier_id: u8,
    pub round_id: u64,
    pub season_id: u16,
    pub join_ts: u64,
    pub placement: u8,
    pub kills: u8,
    pub sol_earned_lamports: u64,
    /// ORB tokens earned from emissions (in atoms).
    pub orb_earned_atoms: u64,
}

/// A page of a player's round history.
#[derive(Debug)]
pub struct PlayerRoundHistoryPage {
    pub total: u64,
    pub rounds: Vec<PlayerRoundHistoryEntry>,
}

/// `s` starts with `prefix`.
pub open spec fn starts_with(s: Seq<char>, prefix: Seq<char>) -> bool {
    prefix.len() <= s.len() && s.subrange(0, prefix.len() as int) == prefix
}

/// Convert a vector to a 32-byte public key.
pub fn vec_to_pk32(pk: Vec<u8>) -> (r: Result<[u8; 32], String>)
    ensures
        r is Ok <==> pk@.len() == 32,
        r matches Ok(a) ==> a@ == pk@,
        r matches Err(e) ==> e@ == "invalid pubkey length, expected 32 bytes"@,
{
    if pk.len() != 32 {
        return Err(text("invalid pubkey length, expected 32 bytes"));
    }
    Ok(to_array32(pk.as_slice()))
}

/// The stored record of a snapshot input whose player key decoded to `player_bytes`:
/// the key must be 32 bytes, and the config hash, if given, 32 bytes of hex.
pub open spec fn player_record(input: RoundPlayerSnapshotInput, player_bytes: Option<Seq<u8>>) -> Option<
    RoundPlayerSnapshot,
> {
    match player_bytes {
        None => None,
        Some(pk) => {
            if pk.len() != 32 {
                None
            } else {
                match input.player_config_hash {
                    None => Some(
                        RoundPlayerSnapshot {
                            player: array32(pk),
                            join_ts: input.join_ts,
                            tp_preset: input.tp_preset,
                            payout_lamports: input.payout_lamports,
                            placement: input.placement,
                            kills: input.kills,
                            orb_earned_atoms: input.orb_earned_atoms,
                            player_config_hash: None,
                        },
                    ),
                    Some(h) => {
                        let b = encode_utf8(h@);
                        if is_hex(b) && hex_decoded(b).len() == 32 {
                            Some(
                                RoundPlayerSnapshot {
                                    player: array32(pk),
                                    join_ts: input.join_ts,
                                    tp_preset: input.tp_preset,
                                    payout_lamports: input.payout_lamports,
                                    placement: input.placement,
                                    kills: input.kills,
                                    orb_earned_atoms: input.orb_earned_atoms,
                                    player_config_hash: Some(array32(hex_decoded(b))),
                                },
                            )
                        } else {
                            None
                        }
                    },
                }
            }
        },
    }
}

/// The stored record of a snapshot input, if its player key is base58 for 32 bytes and its
/// config hash, if given, is hex for 32 bytes.
pub open spec fn input_record(input: RoundPlayerSnapshotInput) -> Option<RoundPlayerSnapshot> {
    player_record(input, bs58_decoded(input.player@))
}

/// What went wrong with an input whose player key decoded as given.
pub open spec fn record_error(
    input: RoundPlayerSnapshotInput,
    player_bytes: Result<Seq<u8>, Seq<char>>,
    e: Seq<char>,
) -> bool {
    match player_bytes {
        Err(decode_error) => e == "invalid base58 for player: "@ + decode_error,
        Ok(pk) => if pk.len() != 32 {
            e == "player pubkey must be 32 bytes"@
        } else {
            let b = encode_utf8(input.player_config_hash->Some_0@);
            if !is_hex(b) {
                starts_with(e, "invalid hex for player_config_hash: "@)
            } else {
                e == "player_config_hash must be 32 bytes"@
            }
        },
    }
}

pub open spec fn bytes_result_view(r: Result<Vec<u8>, String>) -> Result<Seq<u8>, Seq<char>> {
    match r {
        Ok(v) => Ok(v@),
        Err(e) => Err(e@),
    }
}

pub open spec fn ok_bytes(r: Result<Vec<u8>, String>) -> Option<Seq<u8>> {
    match r {
        Ok(v) => Some(v@),
        Err(_) => None,
    }
}

impl RoundPlayerSnapshotInput {
    /// Convert to the stored record, given the outcome of decoding the player key.
    pub fn into_storage_with(self, player_bytes: Result<Vec<u8>, String>) -> (r: Result<
        RoundPlayerSnapshot,
        String,
    >)
        ensures
            r is Ok <==> player_record(self, ok_bytes(player_bytes)) is Some,
            r matches Ok(s) ==> Some(s) == player_record(self, ok_bytes(player_bytes)),
            r matches Err(e) ==> record_error(self, bytes_result_view(player_bytes), e@),
    {
        let bytes = match player_bytes {
            Ok(b) => b,
            Err(e) => {
                let mut msg = text("invalid base58 for player: ");
                msg.append(e.as_str());
                return Err(msg);
            },
        };
        if bytes.len() != 32 {
            return Err(text("player pubkey must be 32 bytes"));
        }
        let player = to_array32(bytes.as_slice());
        let player_config_hash = match self.player_config_hash {
            Some(hash_hex) => {
                let hash_bytes = match hex_decode(hash_hex.as_str()) {
                    Ok(b) => b,
                    Err(e) => {
                        let mut msg = text("invalid hex for player_config_hash: ");
                        msg.append(e.as_str());
                        assert(msg@.subrange(0, "invalid hex for player_config_hash: "@.len() as int)
                            =~= "invalid hex for player_config_hash: "@);
                        return Err(msg);
                    },
                };
                if hash_bytes.len() != 32 {
                    return Err(text("player_config_hash must be 32 bytes"));
                }
                Some(to_array32(hash_bytes.as_slice()))
            },
            None => None,
        };
        Ok(
            RoundPlayerSnapshot {
                player,
                join_ts: self.join_ts,
                tp_preset: self.tp_preset,
                payout_lamports: self.payout_lamports,
                placement: self.placement,
                kills: self.kills,
                orb_earned_atoms: self.orb_earned_atoms,
                player_config_hash,
            },
        )
    }

    /// Convert to the stored record: decode the base58 player key (32 bytes) and the hex
    /// config hash (32 bytes, if given).
    pub fn into_storage(self) -> (r: Result<RoundPlayerSnapshot, String>)
        ensures
            r is Ok <==> input_record(self) is Some,
            r matches Ok(s) ==> Some(s) == input_record(self),
    {
        let decoded = bs58_decode(self.player.as_str());
        self.into_storage_with(decoded)
    }
}


/// A snapshot input is stored as submitted: the record's player is the decoded key, the
/// config hash the decoded hex (if given), and every other field the input's field of the
/// same name.
pub proof fn lemma_input_record_kept_as_given(input: RoundPlayerSnapshotInput, player_bytes: Seq<u8>)
    requires
        player_record(input, Some(player_bytes)) is Some,
    ensures
        ({
            let r = player_record(input, Some(player_bytes))->Some_0;
            &&& r.player@ == player_bytes
            &&& r.join_ts == input.join_ts
            &&& r.tp_preset == input.tp_preset
            &&& r.payout_lamports == input.payout_lamports
            &&& r.placement == input.placement
            &&& r.kills == input.kills
            &&& r.orb_earned_atoms == input.orb_earned_atoms
            &&& (input.player_config_hash is None <==> r.player_config_hash is None)
            &&& r.player_config_hash matches Some(h) ==> h@ == hex_decoded(
                encode_utf8(input.player_config_hash->Some_0@),
            )
        }),
{
    let r = player_record(input, Some(player_bytes))->Some_0;
    crate::encoding::lemma_array32(player_bytes, r.player);
    if input.player_config_hash is Some {
        let b = encode_utf8(input.player_config_hash->Some_0@);
        crate::encoding::lemma_array32(hex_decoded(b), r.player_config_hash->Some_0);
    }
}

} // verus!
