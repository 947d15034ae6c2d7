//! Records, identities and error kinds of the wager program.
use vstd::prelude::*;

verus! {

/// An identity: a 32-byte public key.
#[derive(Clone, Copy, Debug)]
pub struct Pubkey {
    pub bytes: [u8; 32],
}

impl PartialEq for Pubkey {
    fn eq(&self, o: &Pubkey) -> (r: bool) {
        let mut i: usize = 0;
        while i < 32
            invariant
                0 <= i <= 32,
                forall|j: int| 0 <= j < i ==> self.bytes@[j] == o.bytes@[j],
            decreases 32 - i,
        {
            if self.bytes[i] != o.bytes[i] {
                return false;
            }
            i = i + 1;
        }
        assert(self.bytes@ =~= o.bytes@);
        true
    }
}

impl vstd::std_specs::cmp::PartialEqSpecImpl for Pubkey {
    open spec fn obeys_eq_spec() -> bool {
        true
    }

    open spec fn eq_spec(&self, o: &Pubkey) -> bool {
        self.bytes@ == o.bytes@
    }
}

impl Eq for Pubkey {
}

/// Keys of the same bytes are the same key.
pub proof fn lemma_pubkey_bytes_eq(a: Pubkey, b: Pubkey)
    ensures
        (a.bytes@ == b.bytes@) <==> a == b,
{
    if a.bytes@ == b.bytes@ {
        assert(a.bytes == b.bytes);
    }
}

/// The durable record of one game: its configuration and its mutable state.
#[derive(Clone, Copy, Debug, PartialEq, Eq)]
pub struct Game {
    /// The identity allowed to resolve the game.
    pub authority: Pubkey,
    /// The caller-chosen identifier that addresses the record and its vault.
    pub game_id: u64,
    /// The deposit every participant pays.
    pub entry_fee: u64,
    /// The sum of all deposits.
    pub prize_pool: u64,
    /// True from creation until the game is resolved.
    pub is_active: bool,
    /// The number of successful joins.
    pub player_count: u64,
    /// Absent until resolution; the named winner afterwards.
    pub winner: Option<Pubkey>,
    /// The identity that receives the fee share.
    pub fee_recipient: Pubkey,
}

/// The record that a participant joined a game; its existence is the fact of
/// having joined.
#[derive(Clone, Copy, Debug, PartialEq, Eq)]
pub struct PlayerEntry {
    pub player: Pubkey,
    /// The identifier of the game joined, which addresses the game's record.
    pub game: u64,
    /// When the participant joined, for audit only.
    pub joined_at: i64,
}

/// The custody account of one game: a balance and nothing else.
#[derive(Clone, Copy, Debug, PartialEq, Eq)]
pub struct Vault {
    pub game_id: u64,
    pub lamports: u64,
}

/// The native balance held by an identity.
#[derive(Clone, Copy, Debug, PartialEq, Eq)]
pub struct Wallet {
    pub key: Pubkey,
    pub lamports: u64,
}

/// The accounts named by a request to open a game.
#[derive(Clone, Copy, Debug, PartialEq, Eq)]
pub struct InitializeGame {
    /// The signer, who becomes the game's authority.
    pub authority: Pubkey,
    /// The identity that will receive the fee share.
    pub fee_recipient: Pubkey,
}

/// The accounts named by a request to join a game.
#[derive(Clone, Copy, Debug, PartialEq, Eq)]
pub struct JoinGame {
    /// The identifier of the game to join.
    pub game: u64,
    /// The signer, who pays the entry fee.
    pub player: Pubkey,
}

/// The accounts named by a request to resolve a game.
#[derive(Clone, Copy, Debug, PartialEq, Eq)]
pub struct EndGame {
    /// The identifier of the game to resolve.
    pub game: u64,
    /// The signer, who must be the game's authority.
    pub authority: Pubkey,
    /// The fee recipient account supplied with the request.
    pub fee_recipient: Pubkey,
}

/// Why a request was refused. A refused request changes nothing.
#[derive(Clone, Copy, Debug, PartialEq, Eq, Structural)]
pub enum ErrorCode {
    /// The game has already been resolved.
    GameNotActive,
    /// The signer is not the game's authority.
    Unauthorized,
    /// The supplied fee recipient is not the one the game was opened with.
    FeeRecipientMismatch,
    /// A record already exists at the address a request would create.
    AddressOccupied,
    /// No game exists at the named address.
    AccountNotInitialized,
    /// A checked addition or multiplication would exceed 64 bits.
    ArithmeticOverflow,
    /// The payer's balance does not cover the amount to move.
    InsufficientBalance,
    /// A stored game record and its vault break the game's accounting.
    InconsistentRecord,
}

impl ErrorCode {
    /// The message shown for this error.
    pub fn message(&self) -> (r: String) {
        match self {
            ErrorCode::GameNotActive => "Game is not active".to_string(),
            ErrorCode::Unauthorized => "Unauthorized access".to_string(),
            ErrorCode::FeeRecipientMismatch => "Fee recipient does not match".to_string(),
            ErrorCode::AddressOccupied => "Account address already in use".to_string(),
            ErrorCode::AccountNotInitialized => "Account is not initialized".to_string(),
            ErrorCode::ArithmeticOverflow => "Arithmetic overflow".to_string(),
            ErrorCode::InsufficientBalance => "Insufficient balance".to_string(),
            ErrorCode::InconsistentRecord => "Game record does not match its vault".to_string(),
        }
    }
}

} // verus!
