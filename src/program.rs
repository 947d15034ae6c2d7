//! The three instructions of the wager program. Each one checks every
//! precondition before it changes anything, so a refused request leaves the
//! ledger exactly as it was.
use vstd::prelude::*;
use crate::ledger::{accounted, balance_in, credited, Ledger};
use crate::payout::{fee_share, lemma_split_exact, split_fits, split_prize, winner_share};
use crate::state::{
    lemma_pubkey_bytes_eq, EndGame, ErrorCode, Game, InitializeGame, JoinGame, PlayerEntry, Pubkey,
};

verus! {

/// The record of a game just opened by `ctx`.
pub open spec fn opened(ctx: InitializeGame, game_id: u64, entry_fee: u64) -> Game {
    Game {
        authority: ctx.authority,
        game_id,
        entry_fee,
        prize_pool: 0,
        is_active: true,
        player_count: 0,
        winner: None,
        fee_recipient: ctx.fee_recipient,
    }
}

/// Why opening game `game_id` is refused, if it is.
pub open spec fn init_error(l: Ledger, game_id: u64) -> Option<ErrorCode> {
    if l.games().contains_key(game_id) || l.vaults().contains_key(game_id) {
        Some(ErrorCode::AddressOccupied)
    } else {
        None
    }
}

/// `after` is `before` with game `game_id` opened by `ctx`.
pub open spec fn init_post(
    before: Ledger,
    after: Ledger,
    ctx: InitializeGame,
    game_id: u64,
    entry_fee: u64,
) -> bool {
    &&& after.games() == before.games().insert(game_id, opened(ctx, game_id, entry_fee))
    &&& after.vaults() == before.vaults().insert(game_id, 0)
    &&& after.entries() == before.entries()
    &&& after.balances() == before.balances()
}

/// Opens game `game_id` with authority `ctx.authority`, fee recipient
/// `ctx.fee_recipient`, an empty pool and an empty vault. Refused with
/// `AddressOccupied` where the game or its vault already exists.
pub fn initialize_game(
    ledger: &mut Ledger,
    ctx: &InitializeGame,
    game_id: u64,
    entry_fee: u64,
) -> (r: Result<(), ErrorCode>)
    requires
        old(ledger).wf(),
    ensures
        final(ledger).wf(),
        match init_error(*old(ledger), game_id) {
            Some(e) => r == Err::<(), ErrorCode>(e) && *final(ledger) == *old(ledger),
            None => r is Ok && init_post(*old(ledger), *final(ledger), *ctx, game_id, entry_fee),
        },
{
    if ledger.game(game_id).is_some() || ledger.vault_balance(game_id).is_some() {
        return Err(ErrorCode::AddressOccupied);
    }
    let game = Game {
        authority: ctx.authority,
        game_id,
        entry_fee,
        prize_pool: 0,
        is_active: true,
        player_count: 0,
        winner: None,
        fee_recipient: ctx.fee_recipient,
    };
    ledger.create_game(game);
    Ok(())
}

/// The record of game `g` after one more participant joined.
pub open spec fn joined(g: Game) -> Game {
    Game {
        prize_pool: (g.prize_pool + g.entry_fee) as u64,
        player_count: (g.player_count + 1) as u64,
        ..g
    }
}

/// Why the join request `ctx` is refused, if it is: checked in this order.
pub open spec fn join_error(l: Ledger, ctx: JoinGame) -> Option<ErrorCode> {
    if !l.games().contains_key(ctx.game) {
        Some(ErrorCode::AccountNotInitialized)
    } else if !l.games()[ctx.game].is_active {
        Some(ErrorCode::GameNotActive)
    } else if l.entries().contains_key((ctx.game, ctx.player)) {
        Some(ErrorCode::AddressOccupied)
    } else if l.balance_of(ctx.player) < l.games()[ctx.game].entry_fee {
        Some(ErrorCode::InsufficientBalance)
    } else if l.games()[ctx.game].prize_pool + l.games()[ctx.game].entry_fee > u64::MAX
        || l.games()[ctx.game].player_count + 1 > u64::MAX {
        Some(ErrorCode::ArithmeticOverflow)
    } else {
        None
    }
}

/// `after` is `before` with `ctx.player` joined to game `ctx.game` at `now`:
/// the fee moved from the player to the vault, the pool and count grown, and
/// the participant record created.
pub open spec fn join_post(before: Ledger, after: Ledger, ctx: JoinGame, now: i64) -> bool {
    let g = before.games()[ctx.game];
    &&& after.games() == before.games().insert(ctx.game, joined(g))
    &&& after.vaults() == before.vaults().insert(
        ctx.game,
        (before.vaults()[ctx.game] + g.entry_fee) as u64,
    )
    &&& after.entries() == before.entries().insert(
        (ctx.game, ctx.player),
        PlayerEntry { player: ctx.player, game: ctx.game, joined_at: now },
    )
    &&& after.balances() == credited(before.balances(), ctx.player, -g.entry_fee)
}

/// Joins `ctx.player` to game `ctx.game` at time `now`, moving the entry fee
/// from the player's balance into the game's vault.
pub fn join_game(ledger: &mut Ledger, ctx: &JoinGame, now: i64) -> (r: Result<(), ErrorCode>)
    requires
        old(ledger).wf(),
    ensures
        final(ledger).wf(),
        match join_error(*old(ledger), *ctx) {
            Some(e) => r == Err::<(), ErrorCode>(e) && *final(ledger) == *old(ledger),
            None => r is Ok && join_post(*old(ledger), *final(ledger), *ctx, now),
        },
{
    let g = match ledger.game(ctx.game) {
        Some(g) => g,
        None => return Err(ErrorCode::AccountNotInitialized),
    };
    proof {
        ledger.lemma_accounted(ctx.game);
    }
    if !g.is_active {
        return Err(ErrorCode::GameNotActive);
    }
    if ledger.player_entry(ctx.game, &ctx.player).is_some() {
        return Err(ErrorCode::AddressOccupied);
    }
    let held = ledger.balance(&ctx.player);
    if held < g.entry_fee {
        return Err(ErrorCode::InsufficientBalance);
    }
    let prize_pool = match g.prize_pool.checked_add(g.entry_fee) {
        Some(p) => p,
        None => return Err(ErrorCode::ArithmeticOverflow),
    };
    let player_count = match g.player_count.checked_add(1) {
        Some(c) => c,
        None => return Err(ErrorCode::ArithmeticOverflow),
    };
    proof {
        lemma_joined_accounted(g);
    }
    let next = Game { prize_pool, player_count, ..g };
    ledger.store_game(next, prize_pool);
    ledger.set_balance(&ctx.player, held - g.entry_fee);
    ledger.add_entry(PlayerEntry { player: ctx.player, game: ctx.game, joined_at: now });
    Ok(())
}

proof fn lemma_joined_accounted(g: Game)
    requires
        accounted(g, g.prize_pool),
        g.is_active,
        g.prize_pool + g.entry_fee <= u64::MAX,
        g.player_count + 1 <= u64::MAX,
    ensures
        accounted(joined(g), joined(g).prize_pool),
{
    let c = g.player_count as int;
    let f = g.entry_fee as int;
    assert((c + 1) * f == c * f + f) by (nonlinear_arith);
}

/// The record of game `g` resolved in favour of `winner`.
pub open spec fn resolved(g: Game, winner: Pubkey) -> Game {
    Game { is_active: false, winner: Some(winner), ..g }
}

/// The balances `b` after the pool of `g` is paid out: the winner's share to
/// `winner`, then the fee share to the game's fee recipient.
pub open spec fn paid_out(b: Map<Pubkey, u64>, g: Game, winner: Pubkey) -> Map<Pubkey, u64> {
    credited(
        credited(b, winner, winner_share(g.prize_pool)),
        g.fee_recipient,
        fee_share(g.prize_pool),
    )
}

/// Why the request `ctx` to resolve in favour of `winner` is refused, if it
/// is: checked in this order.
pub open spec fn end_error(l: Ledger, ctx: EndGame, winner: Pubkey) -> Option<ErrorCode> {
    let g = l.games()[ctx.game];
    let b = l.balances();
    if !l.games().contains_key(ctx.game) {
        Some(ErrorCode::AccountNotInitialized)
    } else if !g.is_active {
        Some(ErrorCode::GameNotActive)
    } else if ctx.authority != g.authority {
        Some(ErrorCode::Unauthorized)
    } else if ctx.fee_recipient != g.fee_recipient {
        Some(ErrorCode::FeeRecipientMismatch)
    } else if !split_fits(g.prize_pool) {
        Some(ErrorCode::ArithmeticOverflow)
    } else if balance_in(b, winner) + winner_share(g.prize_pool) > u64::MAX {
        Some(ErrorCode::ArithmeticOverflow)
    } else if balance_in(credited(b, winner, winner_share(g.prize_pool)), g.fee_recipient)
        + fee_share(g.prize_pool) > u64::MAX {
        Some(ErrorCode::ArithmeticOverflow)
    } else {
        None
    }
}

/// `after` is `before` with game `ctx.game` resolved in favour of `winner`:
/// the game closed with its winner set, its vault emptied, and the pool paid
/// out.
pub open spec fn end_post(before: Ledger, after: Ledger, ctx: EndGame, winner: Pubkey) -> bool {
    let g = before.games()[ctx.game];
    &&& after.games() == before.games().insert(ctx.game, resolved(g, winner))
    &&& after.vaults() == before.vaults().insert(ctx.game, 0)
    &&& after.entries() == before.entries()
    &&& after.balances() == paid_out(before.balances(), g, winner)
}

/// Resolves game `ctx.game` in favour of `winner_key`: closes the game, and
/// moves ninety percent of the pool, rounded down, from the vault to the
/// winner and the rest to the fee recipient.
pub fn end_game(ledger: &mut Ledger, ctx: &EndGame, winner_key: Pubkey) -> (r: Result<(), ErrorCode>)
    requires
        old(ledger).wf(),
    ensures
        final(ledger).wf(),
        match end_error(*old(ledger), *ctx, winner_key) {
            Some(e) => r == Err::<(), ErrorCode>(e) && *final(ledger) == *old(ledger),
            None => r is Ok && end_post(*old(ledger), *final(ledger), *ctx, winner_key),
        },
{
    let g = match ledger.game(ctx.game) {
        Some(g) => g,
        None => return Err(ErrorCode::AccountNotInitialized),
    };
    proof {
        ledger.lemma_accounted(ctx.game);
        lemma_pubkey_bytes_eq(ctx.authority, g.authority);
        lemma_pubkey_bytes_eq(ctx.fee_recipient, g.fee_recipient);
        lemma_pubkey_bytes_eq(winner_key, g.fee_recipient);
    }
    if !g.is_active {
        return Err(ErrorCode::GameNotActive);
    }
    if ctx.authority != g.authority {
        return Err(ErrorCode::Unauthorized);
    }
    if ctx.fee_recipient != g.fee_recipient {
        return Err(ErrorCode::FeeRecipientMismatch);
    }
    let (winner_prize, fee_amount) = match split_prize(g.prize_pool) {
        Some(shares) => shares,
        None => return Err(ErrorCode::ArithmeticOverflow),
    };
    let winner_total = match ledger.balance(&winner_key).checked_add(winner_prize) {
        Some(t) => t,
        None => return Err(ErrorCode::ArithmeticOverflow),
    };
    let fee_held = if winner_key == g.fee_recipient {
        winner_total
    } else {
        ledger.balance(&g.fee_recipient)
    };
    let fee_total = match fee_held.checked_add(fee_amount) {
        Some(t) => t,
        None => return Err(ErrorCode::ArithmeticOverflow),
    };
    proof {
        lemma_split_exact(g.prize_pool);
    }
    let vault = g.prize_pool - winner_prize - fee_amount;
    let closed = Game { is_active: false, winner: Some(winner_key), ..g };
    ledger.store_game(closed, vault);
    ledger.set_balance(&winner_key, winner_total);
    ledger.set_balance(&g.fee_recipient, fee_total);
    Ok(())
}

} // verus!
