//! Game configuration distributed to clients, and its stable hash.
//!
//! Clients detect configuration changes cheaply by comparing the hash carried
//! in each snapshot instead of polling fields. Every field that affects
//! client-visible behavior feeds the hash. The hash is FNV-1a over a
//! byte encoding of the fields, fully defined here so that it is a pure
//! function of the field values.

use vstd::prelude::*;

verus! {

use vstd::string::StringSliceAdditionalSpecFns;
use vstd::utf8::encode_utf8;

/// FNV-1a 64-bit offset basis.
pub const FNV_OFFSET: u64 = 0xcbf2_9ce4_8422_2325;

/// FNV-1a 64-bit prime.
pub const FNV_PRIME: u64 = 0x100_0000_01b3;

/// One FNV-1a step: xor the byte in, multiply by the prime modulo 2^64.
pub open spec fn fnv_step(h: u64, b: u8) -> u64 {
    ((((h ^ (b as u64)) as int) * (FNV_PRIME as int)) % 0x1_0000_0000_0000_0000) as u64
}

/// FNV-1a of a byte sequence, folding from the left.
pub open spec fn fnv1a(bytes: Seq<u8>) -> u64
    decreases bytes.len(),
{
    if bytes.len() == 0 {
        FNV_OFFSET
    } else {
        fnv_step(fnv1a(bytes.drop_last()), bytes.last())
    }
}

/// A `u64` as eight little-endian bytes.
pub open spec fn u64_le_bytes(x: u64) -> Seq<u8> {
    seq![
        (x & 0xff) as u8,
        ((x >> 8) & 0xff) as u8,
        ((x >> 16) & 0xff) as u8,
        ((x >> 24) & 0xff) as u8,
        ((x >> 32) & 0xff) as u8,
        ((x >> 40) & 0xff) as u8,
        ((x >> 48) & 0xff) as u8,
        ((x >> 56) & 0xff) as u8,
    ]
}

/// The game configuration. Physics quantities are fixed point: lengths in
/// milli-units (1000 = one arena unit), speeds in milli-units per second,
/// acceleration in milli-units per second squared; delays in milliseconds.
#[derive(Clone, Debug)]
pub struct GameSetting {
    /// Version of the server; clients compare against their own.
    pub version: String,
    /// The maximum number of players this server will allow.
    pub max_players: u8,
    /// How quickly a player gets moving, in milli-units per second squared.
    pub acceleration: i64,
    /// Maximum speed of a player, in milli-units per second.
    pub max_velocity: i64,
    /// Drag applied when a player is not trying to move, in milli-fractions
    /// of the velocity shed per second (1000 would decay fully in one second).
    pub drag: i64,
    /// Magnitude of a move request below which it counts as holding still,
    /// in milli-units.
    pub move_threshold: i64,
    /// Milliseconds a dead player waits before respawning.
    pub respawn_delay: u64,
    /// Milliseconds of input silence after which a player is dropped.
    pub drop_delay: u64,
}

impl GameSetting {
    /// Bounds under which all the tick arithmetic stays inside `i64`.
    pub open spec fn valid(self) -> bool {
        &&& self.max_players >= 1
        &&& 0 <= self.acceleration <= 1_000_000
        &&& 0 <= self.max_velocity <= 1_000_000
        &&& 0 <= self.drag <= 1_000_000
        &&& 0 <= self.move_threshold <= 1_000
    }

    /// The byte encoding whose FNV-1a digest is the settings hash: the
    /// version string's UTF-8 bytes, then every numeric field little-endian.
    pub open spec fn encoded(self) -> Seq<u8> {
        encode_utf8(self.version@) + u64_le_bytes(encode_utf8(self.version@).len() as u64)
            + u64_le_bytes(self.max_players as u64) + u64_le_bytes(self.acceleration as u64)
            + u64_le_bytes(self.max_velocity as u64) + u64_le_bytes(self.drag as u64)
            + u64_le_bytes(self.move_threshold as u64) + u64_le_bytes(self.respawn_delay)
            + u64_le_bytes(self.drop_delay)
    }

    /// The stable hash clients compare: a pure function of the field values.
    pub open spec fn hash_spec(self) -> u64 {
        fnv1a(self.encoded())
    }

    /// The default game settings.
    pub fn new() -> (s: GameSetting)
        ensures
            s.version@ == "0.11.3"@,
            s.max_players == 64,
            s.acceleration == 1500,
            s.max_velocity == 250,
            s.drag == 5000,
            s.move_threshold == 50,
            s.respawn_delay == 5000,
            s.drop_delay == 4000,
            s.valid(),
    {
        GameSetting {
            version: String::from_str("0.11.3"),
            max_players: 64,
            acceleration: 1500,
            max_velocity: 250,
            drag: 5000,
            move_threshold: 50,
            respawn_delay: 5000,
            drop_delay: 4000,
        }
    }

    /// An equal copy, handed out in reply to a configuration fetch.
    pub fn duplicate(&self) -> (s: GameSetting)
        ensures
            s == *self,
    {
        GameSetting {
            version: self.version.clone(),
            max_players: self.max_players,
            acceleration: self.acceleration,
            max_velocity: self.max_velocity,
            drag: self.drag,
            move_threshold: self.move_threshold,
            respawn_delay: self.respawn_delay,
            drop_delay: self.drop_delay,
        }
    }

    /// Compute the settings hash; equal field values give equal hashes.
    pub fn get_hash(&self) -> (h: u64)
        requires
            self.valid(),
        ensures
            h == self.hash_spec(),
    {
        let mut bytes: Vec<u8> = Vec::new();
        bytes.extend_from_slice(self.version.as_str().as_bytes());
        assert(bytes@ == encode_utf8(self.version@));
        let version_len = bytes.len() as u64;
        append_u64_le(&mut bytes, version_len);
        append_u64_le(&mut bytes, self.max_players as u64);
        append_u64_le(&mut bytes, self.acceleration as u64);
        append_u64_le(&mut bytes, self.max_velocity as u64);
        append_u64_le(&mut bytes, self.drag as u64);
        append_u64_le(&mut bytes, self.move_threshold as u64);
        append_u64_le(&mut bytes, self.respawn_delay);
        append_u64_le(&mut bytes, self.drop_delay);
        assert(bytes@ =~= self.encoded());
        fnv1a_exec(&bytes)
    }
}

/// Two settings values with identical field values (the version compared by
/// its characters) have identical hashes.
pub proof fn lemma_hash_of_equal_settings(a: GameSetting, b: GameSetting)
    requires
        a.version@ == b.version@,
        a.max_players == b.max_players,
        a.acceleration == b.acceleration,
        a.max_velocity == b.max_velocity,
        a.drag == b.drag,
        a.move_threshold == b.move_threshold,
        a.respawn_delay == b.respawn_delay,
        a.drop_delay == b.drop_delay,
    ensures
        a.hash_spec() == b.hash_spec(),
{
    assert(a.encoded() == b.encoded());
}

/// Append a `u64` to the buffer as eight little-endian bytes.
fn append_u64_le(bytes: &mut Vec<u8>, x: u64)
    ensures
        final(bytes)@ == old(bytes)@ + u64_le_bytes(x),
{
    bytes.push((x & 0xff) as u8);
    bytes.push(((x >> 8) & 0xff) as u8);
    bytes.push(((x >> 16) & 0xff) as u8);
    bytes.push(((x >> 24) & 0xff) as u8);
    bytes.push(((x >> 32) & 0xff) as u8);
    bytes.push(((x >> 40) & 0xff) as u8);
    bytes.push(((x >> 48) & 0xff) as u8);
    bytes.push(((x >> 56) & 0xff) as u8);
    assert(bytes@ =~= old(bytes)@ + u64_le_bytes(x));
}

/// FNV-1a over a byte buffer, matching [`fnv1a`] exactly.
fn fnv1a_exec(bytes: &Vec<u8>) -> (h: u64)
    ensures
        h == fnv1a(bytes@),
{
    let mut h: u64 = FNV_OFFSET;
    let mut i: usize = 0;
    assert(bytes@.take(0) =~= Seq::<u8>::empty());
    while i < bytes.len()
        invariant
            i <= bytes.len(),
            h == fnv1a(bytes@.take(i as int)),
        decreases bytes.len() - i,
    {
        let b = bytes[i];
        let x = (h ^ (b as u64)) as u128;
        proof {
            assert(x * (FNV_PRIME as u128) <= 0xffff_ffff_ffff_ffffu128 * 0x100_0000_01b3u128)
                by (nonlinear_arith)
                requires 0 <= x <= 0xffff_ffff_ffff_ffffu128,
            ;
        }
        let prod: u128 = x * (FNV_PRIME as u128);
        let h2 = (prod % 0x1_0000_0000_0000_0000u128) as u64;
        proof {
            assert(bytes@.take(i + 1).drop_last() =~= bytes@.take(i as int));
            assert(bytes@.take(i + 1).last() == bytes@[i as int]);
            assert(h2 == fnv_step(h, b));
        }
        h = h2;
        i = i + 1;
    }
    assert(bytes@.take(bytes@.len() as int) =~= bytes@);
    h
}

} // verus!
