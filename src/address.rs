//! The seeds from which the program's record addresses are derived: a
//! namespace tag followed by the record's logical key.
use vstd::prelude::*;
use crate::state::Pubkey;

verus! {

/// Byte `k` of `x`, least significant first.
pub open spec fn byte_of(x: u64, k: int) -> u8 {
    ((x >> ((8 * k) as u64)) & 0xff) as u8
}

/// The eight bytes of `x`, least significant first.
pub open spec fn le_bytes(x: u64) -> Seq<u8> {
    Seq::new(8, |k: int| byte_of(x, k))
}

/// The tag `game`.
pub open spec fn game_tag() -> Seq<u8> {
    seq![0x67u8, 0x61u8, 0x6du8, 0x65u8]
}

/// The tag `vault`.
pub open spec fn vault_tag() -> Seq<u8> {
    seq![0x76u8, 0x61u8, 0x75u8, 0x6cu8, 0x74u8]
}

/// The tag `player`.
pub open spec fn player_tag() -> Seq<u8> {
    seq![0x70u8, 0x6cu8, 0x61u8, 0x79u8, 0x65u8, 0x72u8]
}

/// Appends the eight little-endian bytes of `x` to `out`.
pub fn push_le_bytes(out: &mut Vec<u8>, x: u64)
    ensures
        final(out)@ == old(out)@ + le_bytes(x),
{
    let ghost start = out@;
    let mut k: u64 = 0;
    while k < 8
        invariant
            0 <= k <= 8,
            out@ == start + le_bytes(x).take(k as int),
        decreases 8 - k,
    {
        let b: u8 = ((x >> (8 * k)) & 0xff) as u8;
        out.push(b);
        proof {
            assert(le_bytes(x).take(k as int + 1) =~= le_bytes(x).take(k as int).push(b));
        }
        k = k + 1;
    }
    assert(le_bytes(x).take(8) =~= le_bytes(x));
}

/// The seed of the record of game `game_id`: `game` then the identifier's
/// little-endian bytes.
pub fn game_seed(game_id: u64) -> (r: Vec<u8>)
    ensures
        r@ == game_tag() + le_bytes(game_id),
{
    let mut r: Vec<u8> = vec![0x67u8, 0x61u8, 0x6du8, 0x65u8];
    assert(r@ =~= game_tag());
    push_le_bytes(&mut r, game_id);
    r
}

/// The seed of the vault of game `game_id`: `vault` then the identifier's
/// little-endian bytes.
pub fn vault_seed(game_id: u64) -> (r: Vec<u8>)
    ensures
        r@ == vault_tag() + le_bytes(game_id),
{
    let mut r: Vec<u8> = vec![0x76u8, 0x61u8, 0x75u8, 0x6cu8, 0x74u8];
    assert(r@ =~= vault_tag());
    push_le_bytes(&mut r, game_id);
    r
}

/// The seed of the record of `player` joining the game at `game_address`:
/// `player`, then the game's address, then the participant's identity.
pub fn player_seed(game_address: &Pubkey, player: &Pubkey) -> (r: Vec<u8>)
    ensures
        r@ == player_tag() + game_address.bytes@ + player.bytes@,
{
    let mut r: Vec<u8> = vec![0x70u8, 0x6cu8, 0x61u8, 0x79u8, 0x65u8, 0x72u8];
    assert(r@ =~= player_tag());
    let ghost start = r@;
    let mut i: usize = 0;
    while i < 32
        invariant
            0 <= i <= 32,
            r@ == start + game_address.bytes@.take(i as int),
        decreases 32 - i,
    {
        r.push(game_address.bytes[i]);
        proof {
            assert(game_address.bytes@.take(i as int + 1) =~= game_address.bytes@.take(i as int).push(
                game_address.bytes@[i as int],
            ));
        }
        i = i + 1;
    }
    assert(game_address.bytes@.take(32) =~= game_address.bytes@);
    let ghost mid = r@;
    let mut j: usize = 0;
    while j < 32
        invariant
            0 <= j <= 32,
            r@ == mid + player.bytes@.take(j as int),
        decreases 32 - j,
    {
        r.push(player.bytes[j]);
        proof {
            assert(player.bytes@.take(j as int + 1) =~= player.bytes@.take(j as int).push(
                player.bytes@[j as int],
            ));
        }
        j = j + 1;
    }
    assert(player.bytes@.take(32) =~= player.bytes@);
    r
}

} // verus!
