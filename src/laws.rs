//! Properties of the wager program that relate its instructions to each
//! other, proved from their contracts.
use vstd::prelude::*;
use crate::ledger::{accounted, Ledger};
use crate::program::{end_error, end_post, init_error, join_error, join_post};
use crate::state::{EndGame, ErrorCode, JoinGame, Pubkey};

verus! {

/// In every ledger the instructions produce, each game's pool is its number
/// of joins times its entry fee, and while the game is active its vault
/// holds exactly the pool.
pub proof fn lemma_pool_backed_by_vault(l: Ledger, game_id: u64)
    requires
        l.wf(),
        l.games().contains_key(game_id),
    ensures
        l.games()[game_id].prize_pool == l.games()[game_id].player_count
            * l.games()[game_id].entry_fee,
        l.games()[game_id].is_active ==> l.vaults()[game_id] == l.games()[game_id].prize_pool,
{
    l.lemma_accounted(game_id);
}

/// After a successful resolution the vault is empty, the game is closed with
/// the named winner, and every later join, resolution or re-opening of that
/// game is refused, so none of this changes again.
pub proof fn lemma_resolution_is_final(
    before: Ledger,
    after: Ledger,
    ctx: EndGame,
    winner: Pubkey,
    later_join: JoinGame,
    later_end: EndGame,
    later_winner: Pubkey,
)
    requires
        before.wf(),
        end_error(before, ctx, winner) is None,
        end_post(before, after, ctx, winner),
        later_join.game == ctx.game,
        later_end.game == ctx.game,
    ensures
        after.vaults()[ctx.game] == 0,
        !after.games()[ctx.game].is_active,
        after.games()[ctx.game].winner == Some(winner),
        join_error(after, later_join) == Some(ErrorCode::GameNotActive),
        end_error(after, later_end, later_winner) == Some(ErrorCode::GameNotActive),
        init_error(after, ctx.game) == Some(ErrorCode::AddressOccupied),
{
}

/// A second resolution of a game that was just resolved is refused with
/// `GameNotActive` (and, being refused, moves no balance).
pub proof fn lemma_second_end_refused(
    before: Ledger,
    after: Ledger,
    ctx: EndGame,
    winner: Pubkey,
    again: EndGame,
    again_winner: Pubkey,
)
    requires
        end_error(before, ctx, winner) is None,
        end_post(before, after, ctx, winner),
        again.game == ctx.game,
    ensures
        end_error(after, again, again_winner) == Some(ErrorCode::GameNotActive),
{
}

/// A participant who just joined a game and asks to join it again is refused
/// with `AddressOccupied` (and, being refused, changes nothing).
pub proof fn lemma_second_join_refused(before: Ledger, after: Ledger, ctx: JoinGame, now: i64)
    requires
        join_error(before, ctx) is None,
        join_post(before, after, ctx, now),
    ensures
        join_error(after, ctx) == Some(ErrorCode::AddressOccupied),
{
}

/// Resolution of an active game requested by anyone but its authority is
/// refused with `Unauthorized` (and, being refused, changes nothing).
pub proof fn lemma_stranger_cannot_end(l: Ledger, ctx: EndGame, winner: Pubkey)
    requires
        l.games().contains_key(ctx.game),
        l.games()[ctx.game].is_active,
        ctx.authority != l.games()[ctx.game].authority,
    ensures
        end_error(l, ctx, winner) == Some(ErrorCode::Unauthorized),
{
}

/// Joining a resolved game is refused with `GameNotActive`, however many
/// participants joined it before.
pub proof fn lemma_join_resolved_refused(l: Ledger, ctx: JoinGame)
    requires
        l.games().contains_key(ctx.game),
        !l.games()[ctx.game].is_active,
    ensures
        join_error(l, ctx) == Some(ErrorCode::GameNotActive),
{
}

} // verus!
