//! Storage keys: how (player, tier, round, hash, version) tuples are laid out as bytes.
use vstd::prelude::*;
use vstd::string::StringSliceAdditionalSpecFns;

verus! {

/// Big-endian bytes of a `u64`.
pub open spec fn u64_be_bytes(x: u64) -> Seq<u8> {
    seq![
        ((x >> 56u64) & 0xff) as u8,
        ((x >> 48u64) & 0xff) as u8,
        ((x >> 40u64) & 0xff) as u8,
        ((x >> 32u64) & 0xff) as u8,
        ((x >> 24u64) & 0xff) as u8,
        ((x >> 16u64) & 0xff) as u8,
        ((x >> 8u64) & 0xff) as u8,
        (x & 0xff) as u8,
    ]
}

/// The `u64` whose big-endian bytes are `s[0..8]`.
pub open spec fn u64_from_be(s: Seq<u8>) -> u64 {
    (s[0] as u64) << 56u64 | (s[1] as u64) << 48u64 | (s[2] as u64) << 40u64 | (s[3] as u64)
        << 32u64 | (s[4] as u64) << 24u64 | (s[5] as u64) << 16u64 | (s[6] as u64) << 8u64 | (
    s[7] as u64)
}

/// Reading back the big-endian bytes of `x` gives `x`.
pub proof fn lemma_u64_be_roundtrip(x: u64)
    ensures
        u64_from_be(u64_be_bytes(x)) == x,
{
    let b0 = ((x >> 56u64) & 0xff) as u8;
    let b1 = ((x >> 48u64) & 0xff) as u8;
    let b2 = ((x >> 40u64) & 0xff) as u8;
    let b3 = ((x >> 32u64) & 0xff) as u8;
    let b4 = ((x >> 24u64) & 0xff) as u8;
    let b5 = ((x >> 16u64) & 0xff) as u8;
    let b6 = ((x >> 8u64) & 0xff) as u8;
    let b7 = (x & 0xff) as u8;
    assert((b0 as u64) << 56u64 | (b1 as u64) << 48u64 | (b2 as u64) << 40u64 | (b3 as u64)
        << 32u64 | (b4 as u64) << 24u64 | (b5 as u64) << 16u64 | (b6 as u64) << 8u64 | (b7 as u64)
        == x) by (bit_vector)
        requires
            b0 == ((x >> 56u64) & 0xff) as u8,
            b1 == ((x >> 48u64) & 0xff) as u8,
            b2 == ((x >> 40u64) & 0xff) as u8,
            b3 == ((x >> 32u64) & 0xff) as u8,
            b4 == ((x >> 24u64) & 0xff) as u8,
            b5 == ((x >> 16u64) & 0xff) as u8,
            b6 == ((x >> 8u64) & 0xff) as u8,
            b7 == (x & 0xff) as u8,
    ;
    let s = u64_be_bytes(x);
    assert(s[0] == b0 && s[1] == b1 && s[2] == b2 && s[3] == b3);
    assert(s[4] == b4 && s[5] == b5 && s[6] == b6 && s[7] == b7);
}

/// Big-endian bytes of `x`.
pub fn u64_to_be(x: u64) -> (r: [u8; 8])
    ensures
        r@ == u64_be_bytes(x),
{
    let r = [
        ((x >> 56u64) & 0xff) as u8,
        ((x >> 48u64) & 0xff) as u8,
        ((x >> 40u64) & 0xff) as u8,
        ((x >> 32u64) & 0xff) as u8,
        ((x >> 24u64) & 0xff) as u8,
        ((x >> 16u64) & 0xff) as u8,
        ((x >> 8u64) & 0xff) as u8,
        (x & 0xff) as u8,
    ];
    assert(r@ =~= u64_be_bytes(x));
    r
}

/// The `u64` stored big-endian at `s[start..start + 8]`.
pub fn u64_read_be(s: &[u8], start: usize) -> (r: u64)
    requires
        start + 8 <= s@.len(),
    ensures
        r == u64_from_be(s@.subrange(start as int, start + 8)),
{
    let ghost t = s@.subrange(start as int, start + 8);
    assert(t[0] == s[start as int] && t[1] == s[start + 1] && t[2] == s[start + 2] && t[3] == s[start
        + 3]);
    assert(t[4] == s[start + 4] && t[5] == s[start + 5] && t[6] == s[start + 6] && t[7] == s[start
        + 7]);
    (s[start] as u64) << 56u64 | (s[start + 1] as u64) << 48u64 | (s[start + 2] as u64) << 40u64 | (
    s[start + 3] as u64) << 32u64 | (s[start + 4] as u64) << 24u64 | (s[start + 5] as u64) << 16u64
        | (s[start + 6] as u64) << 8u64 | (s[start + 7] as u64)
}

/// Key for player join data: player(32) || tier(1) || round(8, big-endian).
pub type PlayerJoinKey = [u8; 41];

/// Key for player config records: round(8, big-endian) || tier(1) || hash(32).
pub type PlayerConfigKey = [u8; 41];

pub open spec fn spec_player_join_key(player: Seq<u8>, tier_id: u8, round_id: u64) -> Seq<u8> {
    player + seq![tier_id] + u64_be_bytes(round_id)
}

pub open spec fn spec_player_config_key(round_id: u64, tier_id: u8, hash: Seq<u8>) -> Seq<u8> {
    u64_be_bytes(round_id) + seq![tier_id] + hash
}

/// Create the key for player join data storage.
pub fn player_join_key(player: &[u8; 32], tier_id: u8, round_id: u64) -> (key: PlayerJoinKey)
    ensures
        key@ == spec_player_join_key(player@, tier_id, round_id),
{
    let mut key = [0u8; 41];
    let mut i: usize = 0;
    while i < 32
        invariant
            0 <= i <= 32,
            key@.len() == 41,
            forall|j: int| 0 <= j < i ==> key@[j] == player@[j],
        decreases 32 - i,
    {
        key[i] = player[i];
        i = i + 1;
    }
    key[32] = tier_id;
    let rb = u64_to_be(round_id);
    let mut j: usize = 0;
    while j < 8
        invariant
            0 <= j <= 8,
            key@.len() == 41,
            rb@ == u64_be_bytes(round_id),
            forall|m: int| 0 <= m < 32 ==> key@[m] == player@[m],
            key@[32] == tier_id,
            forall|m: int| 0 <= m < j ==> key@[33 + m] == rb@[m],
        decreases 8 - j,
    {
        key[33 + j] = rb[j];
        j = j + 1;
    }
    assert(key@ =~= spec_player_join_key(player@, tier_id, round_id));
    key
}

/// Split a player join key back into (player, tier, round).
pub fn parse_player_join_key(key: &PlayerJoinKey) -> (r: ([u8; 32], u8, u64))
    ensures
        r.0@ == key@.subrange(0, 32),
        r.1 == key@[32],
        r.2 == u64_from_be(key@.subrange(33, 41)),
{
    let mut player = [0u8; 32];
    let mut i: usize = 0;
    while i < 32
        invariant
            0 <= i <= 32,
            player@.len() == 32,
            forall|j: int| 0 <= j < i ==> player@[j] == key@[j],
        decreases 32 - i,
    {
        player[i] = key[i];
        i = i + 1;
    }
    assert(player@ =~= key@.subrange(0, 32));
    let round_id = u64_read_be(key.as_slice(), 33);
    (player, key[32], round_id)
}

/// Create the key for player config storage.
pub fn player_config_key(round_id: u64, tier_id: u8, player_config_hash: &[u8; 32]) -> (key:
    PlayerConfigKey)
    ensures
        key@ == spec_player_config_key(round_id, tier_id, player_config_hash@),
{
    let mut key = [0u8; 41];
    let rb = u64_to_be(round_id);
    let mut j: usize = 0;
    while j < 8
        invariant
            0 <= j <= 8,
            key@.len() == 41,
            rb@ == u64_be_bytes(round_id),
            forall|m: int| 0 <= m < j ==> key@[m] == rb@[m],
        decreases 8 - j,
    {
        key[j] = rb[j];
        j = j + 1;
    }
    key[8] = tier_id;
    let mut i: usize = 0;
    while i < 32
        invariant
            0 <= i <= 32,
            key@.len() == 41,
            rb@ == u64_be_bytes(round_id),
            forall|m: int| 0 <= m < 8 ==> key@[m] == rb@[m],
            key@[8] == tier_id,
            forall|m: int| 0 <= m < i ==> key@[9 + m] == player_config_hash@[m],
        decreases 32 - i,
    {
        key[9 + i] = player_config_hash[i];
        i = i + 1;
    }
    assert(key@ =~= spec_player_config_key(round_id, tier_id, player_config_hash@));
    key
}

/// Split a player config key back into (round, tier, hash).
pub fn parse_player_config_key(key: &PlayerConfigKey) -> (r: (u64, u8, [u8; 32]))
    ensures
        r.0 == u64_from_be(key@.subrange(0, 8)),
        r.1 == key@[8],
        r.2@ == key@.subrange(9, 41),
{
    let round_id = u64_read_be(key.as_slice(), 0);
    let mut hash = [0u8; 32];
    let mut i: usize = 0;
    while i < 32
        invariant
            0 <= i <= 32,
            hash@.len() == 32,
            forall|j: int| 0 <= j < i ==> hash@[j] == key@[9 + j],
        decreases 32 - i,
    {
        hash[i] = key[9 + i];
        i = i + 1;
    }
    assert(hash@ =~= key@.subrange(9, 41));
    (round_id, key[8], hash)
}

/// Prefix shared by all player config keys of one (round, tier).
pub fn player_config_prefix(round_id: u64, tier_id: u8) -> (prefix: [u8; 9])
    ensures
        prefix@ == u64_be_bytes(round_id) + seq![tier_id],
{
    let mut prefix = [0u8; 9];
    let rb = u64_to_be(round_id);
    let mut j: usize = 0;
    while j < 8
        invariant
            0 <= j <= 8,
            prefix@.len() == 9,
            rb@ == u64_be_bytes(round_id),
            forall|m: int| 0 <= m < j ==> prefix@[m] == rb@[m],
        decreases 8 - j,
    {
        prefix[j] = rb[j];
        j = j + 1;
    }
    prefix[8] = tier_id;
    assert(prefix@ =~= u64_be_bytes(round_id) + seq![tier_id]);
    prefix
}

/// A player join key parses back into the parts it was made from.
pub proof fn lemma_player_join_key_roundtrip(player: Seq<u8>, tier_id: u8, round_id: u64)
    requires
        player.len() == 32,
    ensures
        spec_player_join_key(player, tier_id, round_id).subrange(0, 32) == player,
        spec_player_join_key(player, tier_id, round_id)[32] == tier_id,
        u64_from_be(spec_player_join_key(player, tier_id, round_id).subrange(33, 41)) == round_id,
{
    let k = spec_player_join_key(player, tier_id, round_id);
    assert(k.subrange(0, 32) =~= player);
    assert(k.subrange(33, 41) =~= u64_be_bytes(round_id));
    lemma_u64_be_roundtrip(round_id);
}

/// A player config key parses back into the parts it was made from, and starts with the
/// prefix of its (round, tier).
pub proof fn lemma_player_config_key_roundtrip(round_id: u64, tier_id: u8, hash: Seq<u8>)
    requires
        hash.len() == 32,
    ensures
        u64_from_be(spec_player_config_key(round_id, tier_id, hash).subrange(0, 8)) == round_id,
        spec_player_config_key(round_id, tier_id, hash)[8] == tier_id,
        spec_player_config_key(round_id, tier_id, hash).subrange(9, 41) == hash,
        spec_player_config_key(round_id, tier_id, hash).subrange(0, 9) == u64_be_bytes(round_id)
            + seq![tier_id],
{
    let k = spec_player_config_key(round_id, tier_id, hash);
    assert(k.subrange(0, 8) =~= u64_be_bytes(round_id));
    assert(k.subrange(9, 41) =~= hash);
    assert(k.subrange(0, 9) =~= u64_be_bytes(round_id) + seq![tier_id]);
    lemma_u64_be_roundtrip(round_id);
}

/// Keys of different (round, tier, hash) triples differ.
pub proof fn lemma_player_config_key_injective(
    r1: u64,
    t1: u8,
    h1: Seq<u8>,
    r2: u64,
    t2: u8,
    h2: Seq<u8>,
)
    requires
        h1.len() == 32,
        h2.len() == 32,
        spec_player_config_key(r1, t1, h1) == spec_player_config_key(r2, t2, h2),
    ensures
        r1 == r2,
        t1 == t2,
        h1 == h2,
{
    lemma_player_config_key_roundtrip(r1, t1, h1);
    lemma_player_config_key_roundtrip(r2, t2, h2);
}

/// Fixed 16-byte key of an engine config version: its first 16 UTF-8 bytes, zero padded.
pub open spec fn spec_version_key(bytes: Seq<u8>) -> Seq<u8> {
    Seq::new(16, |i: int| if i < bytes.len() { bytes[i] } else { 0u8 })
}

/// Convert a version string to the fixed 16-byte key of the engine config table.
pub fn version_to_key(version: &str) -> (key: [u8; 16])
    ensures
        key@ == spec_version_key(version.spec_bytes()),
{
    let mut key = [0u8; 16];
    let bytes = version.as_bytes();
    let len = if bytes.len() < 16 {
        bytes.len()
    } else {
        16
    };
    let mut i: usize = 0;
    while i < len
        invariant
            0 <= i <= len,
            len <= 16,
            len <= bytes@.len(),
            len == bytes@.len() || len == 16,
            key@.len() == 16,
            forall|j: int| 0 <= j < i ==> key@[j] == bytes@[j],
            forall|j: int| len <= j < 16 ==> key@[j] == 0,
        decreases len - i,
    {
        key[i] = bytes[i];
        i = i + 1;
    }
    assert(key@ =~= spec_version_key(version.spec_bytes()));
    key
}

/// Key of the seed chunk slot of a tier.
pub fn seed_chunk_key(tier_id: u8) -> (k: u32)
    ensures
        k == tier_id as u32,
{
    tier_id as u32
}

/// Key of the chunk offset and last settled round of a tier.
pub fn chunk_offset_key(tier_id: u8) -> (k: u32)
    ensures
        k == tier_id as u32,
{
    tier_id as u32
}

/// Composite key (tier, round): tier in the bits above 64, round in the low 64 bits.
pub open spec fn spec_round_key(tier_id: u8, round_id: u64) -> u128 {
    ((tier_id as int) * 0x1_0000_0000_0000_0000int + round_id as int) as u128
}

/// Composite key of a round snapshot.
pub fn round_snapshot_key(tier_id: u8, round_id: u64) -> (k: u128)
    ensures
        k == spec_round_key(tier_id, round_id),
{
    let t = tier_id as u128;
    let r = round_id as u128;
    assert(((t << 64u128) | r) == t * 0x1_0000_0000_0000_0000u128 + r) by (bit_vector)
        requires
            t < 256,
            r < 0x1_0000_0000_0000_0000u128,
    ;
    (t << 64u128) | r
}

/// Composite key of a revealed seed proof.
pub fn revealed_seed_key(tier_id: u8, round_id: u64) -> (k: u128)
    ensures
        k == spec_round_key(tier_id, round_id),
{
    round_snapshot_key(tier_id, round_id)
}

/// The tier held in the high bits of a composite round key.
pub fn round_key_tier(key: u128) -> (t: u8)
    ensures
        t == ((key / 0x1_0000_0000_0000_0000u128) % 256) as u8,
{
    assert((key >> 64u128) == key / 0x1_0000_0000_0000_0000u128) by (bit_vector);
    ((key >> 64u128) % 256) as u8
}

/// Round keys of different (tier, round) pairs differ, and the tier can be read back.
pub proof fn lemma_round_key_parts(tier_id: u8, round_id: u64)
    ensures
        (spec_round_key(tier_id, round_id) / 0x1_0000_0000_0000_0000u128) % 256 == tier_id,
        spec_round_key(tier_id, round_id) % 0x1_0000_0000_0000_0000u128 == round_id,
{
    let k = spec_round_key(tier_id, round_id);
    vstd::arithmetic::div_mod::lemma_fundamental_div_mod_converse(
        k as int,
        0x1_0000_0000_0000_0000int,
        tier_id as int,
        round_id as int,
    );
}

} // verus!
