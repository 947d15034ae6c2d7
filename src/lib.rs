//! Escrowed wager pools: an authority opens a game with a fixed entry fee,
//! players deposit the fee into the game's vault, and the authority resolves
//! the game by naming a winner, which splits the vault between the winner and
//! a fee recipient.
use vstd::prelude::*;

pub mod address;
pub mod keyed;
pub mod laws;
pub mod ledger;
pub mod payout;
pub mod program;
pub mod state;

verus! {

} // verus!
