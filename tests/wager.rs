use sonic_svm::address::{game_seed, player_seed, vault_seed};
use sonic_svm::ledger::Ledger;
use sonic_svm::payout::split_prize;
use sonic_svm::program::{end_game, initialize_game, join_game};
use sonic_svm::state::{EndGame, ErrorCode, Game, InitializeGame, JoinGame, PlayerEntry, Pubkey};

fn key(b: u8) -> Pubkey {
    Pubkey { bytes: [b; 32] }
}

const AUTHORITY: u8 = 1;
const FEE: u8 = 2;

fn open(l: &mut Ledger, game_id: u64, entry_fee: u64) {
    let ctx = InitializeGame { authority: key(AUTHORITY), fee_recipient: key(FEE) };
    assert_eq!(initialize_game(l, &ctx, game_id, entry_fee), Ok(()));
}

fn join(l: &mut Ledger, game_id: u64, player: u8) -> Result<(), ErrorCode> {
    join_game(l, &JoinGame { game: game_id, player: key(player) }, 1_700_000_000)
}

fn end(l: &mut Ledger, game_id: u64, winner: u8) -> Result<(), ErrorCode> {
    let ctx = EndGame { game: game_id, authority: key(AUTHORITY), fee_recipient: key(FEE) };
    end_game(l, &ctx, key(winner))
}

fn funded(players: &[u8], amount: u64) -> Ledger {
    let mut l = Ledger::new();
    for p in players {
        assert_eq!(l.deposit(&key(*p), amount), Ok(()));
    }
    l
}

#[test]
fn initialize_sets_fresh_game() {
    let mut l = Ledger::new();
    open(&mut l, 42, 100);
    let g = l.game(42).unwrap();
    assert_eq!(g.authority, key(AUTHORITY));
    assert_eq!(g.fee_recipient, key(FEE));
    assert_eq!(g.game_id, 42);
    assert_eq!(g.entry_fee, 100);
    assert_eq!(g.prize_pool, 0);
    assert_eq!(g.player_count, 0);
    assert!(g.is_active);
    assert_eq!(g.winner, None);
    assert_eq!(l.vault_balance(42), Some(0));
    assert_eq!(l.game(43), None);
    assert_eq!(l.vault_balance(43), None);
}

#[test]
fn reinitialize_is_address_occupied() {
    let mut l = funded(&[10], 1000);
    open(&mut l, 5, 100);
    assert_eq!(join(&mut l, 5, 10), Ok(()));
    let other = InitializeGame { authority: key(9), fee_recipient: key(9) };
    assert_eq!(initialize_game(&mut l, &other, 5, 1), Err(ErrorCode::AddressOccupied));
    let g = l.game(5).unwrap();
    assert_eq!(g.authority, key(AUTHORITY));
    assert_eq!(g.entry_fee, 100);
    assert_eq!(g.prize_pool, 100);
    assert_eq!(l.vault_balance(5), Some(100));
}

#[test]
fn three_joins_then_end_pays_270_and_30() {
    let mut l = funded(&[10, 11, 12], 1000);
    open(&mut l, 1, 100);
    for p in [10u8, 11, 12] {
        assert_eq!(join(&mut l, 1, p), Ok(()));
    }
    let g = l.game(1).unwrap();
    assert_eq!(g.prize_pool, 300);
    assert_eq!(g.player_count, 3);
    assert_eq!(l.vault_balance(1), Some(300));
    assert_eq!(end(&mut l, 1, 11), Ok(()));
    assert_eq!(l.balance(&key(11)), 900 + 270);
    assert_eq!(l.balance(&key(FEE)), 30);
    assert_eq!(l.vault_balance(1), Some(0));
    let g = l.game(1).unwrap();
    assert!(!g.is_active);
    assert_eq!(g.winner, Some(key(11)));
    assert_eq!(g.prize_pool, 300);
}

#[test]
fn single_unit_pool_goes_to_fee_recipient() {
    let mut l = funded(&[10], 1);
    open(&mut l, 1, 1);
    assert_eq!(join(&mut l, 1, 10), Ok(()));
    assert_eq!(l.game(1).unwrap().prize_pool, 1);
    assert_eq!(end(&mut l, 1, 10), Ok(()));
    assert_eq!(l.balance(&key(10)), 0);
    assert_eq!(l.balance(&key(FEE)), 1);
    assert_eq!(l.vault_balance(1), Some(0));
}

#[test]
fn pool_tracks_joins_and_vault() {
    let mut l = funded(&[10, 11, 12, 13, 14], 50);
    open(&mut l, 3, 7);
    for (n, p) in [10u8, 11, 12, 13, 14].iter().enumerate() {
        assert_eq!(join(&mut l, 3, *p), Ok(()));
        let g = l.game(3).unwrap();
        assert_eq!(g.player_count, n as u64 + 1);
        assert_eq!(g.prize_pool, g.player_count * g.entry_fee);
        assert_eq!(l.vault_balance(3), Some(g.prize_pool));
        assert_eq!(l.balance(&key(*p)), 43);
    }
}

#[test]
fn split_sums_to_pool() {
    for pool in [0u64, 1, 9, 10, 11, 99, 100, 101, 12345, u64::MAX / 90] {
        let (w, f) = split_prize(pool).unwrap();
        assert_eq!(w + f, pool);
        assert_eq!(w as u128, (pool as u128 * 90) / 100);
    }
    assert_eq!(split_prize(300), Some((270, 30)));
    assert_eq!(split_prize(15), Some((13, 2)));
    assert_eq!(split_prize(u64::MAX / 90 + 1), None);
    assert_eq!(split_prize(u64::MAX), None);
}

#[test]
fn second_end_is_game_not_active() {
    let mut l = funded(&[10, 11], 100);
    open(&mut l, 1, 100);
    assert_eq!(join(&mut l, 1, 10), Ok(()));
    assert_eq!(join(&mut l, 1, 11), Ok(()));
    assert_eq!(end(&mut l, 1, 10), Ok(()));
    assert_eq!(l.balance(&key(10)), 180);
    assert_eq!(l.balance(&key(FEE)), 20);
    assert_eq!(end(&mut l, 1, 11), Err(ErrorCode::GameNotActive));
    assert_eq!(l.balance(&key(10)), 180);
    assert_eq!(l.balance(&key(11)), 0);
    assert_eq!(l.balance(&key(FEE)), 20);
    assert_eq!(l.vault_balance(1), Some(0));
    assert_eq!(l.game(1).unwrap().winner, Some(key(10)));
}

#[test]
fn double_join_is_address_occupied() {
    let mut l = funded(&[10], 1000);
    open(&mut l, 1, 100);
    assert_eq!(join(&mut l, 1, 10), Ok(()));
    assert_eq!(join(&mut l, 1, 10), Err(ErrorCode::AddressOccupied));
    let g = l.game(1).unwrap();
    assert_eq!(g.prize_pool, 100);
    assert_eq!(g.player_count, 1);
    assert_eq!(l.vault_balance(1), Some(100));
    assert_eq!(l.balance(&key(10)), 900);
    let e = l.player_entry(1, &key(10)).unwrap();
    assert_eq!(e.player, key(10));
    assert_eq!(e.game, 1);
    assert_eq!(e.joined_at, 1_700_000_000);
    assert_eq!(l.player_entry(1, &key(11)), None);
}

#[test]
fn same_player_may_join_two_games() {
    let mut l = funded(&[10], 1000);
    open(&mut l, 1, 100);
    open(&mut l, 2, 50);
    assert_eq!(join(&mut l, 1, 10), Ok(()));
    assert_eq!(join(&mut l, 2, 10), Ok(()));
    assert_eq!(l.balance(&key(10)), 850);
    assert_eq!(l.vault_balance(1), Some(100));
    assert_eq!(l.vault_balance(2), Some(50));
}

#[test]
fn stranger_end_is_unauthorized() {
    let mut l = funded(&[10], 1000);
    open(&mut l, 1, 100);
    assert_eq!(join(&mut l, 1, 10), Ok(()));
    let ctx = EndGame { game: 1, authority: key(10), fee_recipient: key(FEE) };
    assert_eq!(end_game(&mut l, &ctx, key(10)), Err(ErrorCode::Unauthorized));
    let g = l.game(1).unwrap();
    assert!(g.is_active);
    assert_eq!(g.winner, None);
    assert_eq!(l.vault_balance(1), Some(100));
    assert_eq!(l.balance(&key(10)), 900);
    assert_eq!(l.balance(&key(FEE)), 0);
}

#[test]
fn wrong_fee_recipient_is_refused() {
    let mut l = funded(&[10], 1000);
    open(&mut l, 1, 100);
    assert_eq!(join(&mut l, 1, 10), Ok(()));
    let ctx = EndGame { game: 1, authority: key(AUTHORITY), fee_recipient: key(66) };
    assert_eq!(end_game(&mut l, &ctx, key(10)), Err(ErrorCode::FeeRecipientMismatch));
    assert!(l.game(1).unwrap().is_active);
    assert_eq!(l.vault_balance(1), Some(100));
    assert_eq!(l.balance(&key(66)), 0);
}

#[test]
fn join_resolved_game_is_game_not_active() {
    let mut l = funded(&[10, 11, 12], 1000);
    open(&mut l, 1, 100);
    open(&mut l, 2, 100);
    assert_eq!(end(&mut l, 1, 10), Ok(()));
    assert_eq!(join(&mut l, 1, 11), Err(ErrorCode::GameNotActive));
    assert_eq!(join(&mut l, 2, 10), Ok(()));
    assert_eq!(join(&mut l, 2, 11), Ok(()));
    assert_eq!(end(&mut l, 2, 11), Ok(()));
    assert_eq!(join(&mut l, 2, 12), Err(ErrorCode::GameNotActive));
    assert_eq!(join(&mut l, 2, 10), Err(ErrorCode::GameNotActive));
    assert_eq!(l.balance(&key(12)), 1000);
    assert_eq!(l.game(2).unwrap().player_count, 2);
}

#[test]
fn unknown_game_is_not_initialized() {
    let mut l = funded(&[10], 1000);
    assert_eq!(join(&mut l, 9, 10), Err(ErrorCode::AccountNotInitialized));
    assert_eq!(end(&mut l, 9, 10), Err(ErrorCode::AccountNotInitialized));
    assert_eq!(l.balance(&key(10)), 1000);
}

#[test]
fn poor_player_is_insufficient_balance() {
    let mut l = funded(&[10], 99);
    open(&mut l, 1, 100);
    assert_eq!(join(&mut l, 1, 10), Err(ErrorCode::InsufficientBalance));
    assert_eq!(join(&mut l, 1, 20), Err(ErrorCode::InsufficientBalance));
    assert_eq!(l.balance(&key(10)), 99);
    assert_eq!(l.game(1).unwrap().player_count, 0);
    assert_eq!(l.player_entry(1, &key(10)), None);
}

#[test]
fn free_game_admits_unfunded_player() {
    let mut l = Ledger::new();
    open(&mut l, 1, 0);
    assert_eq!(join(&mut l, 1, 10), Ok(()));
    assert_eq!(l.game(1).unwrap().player_count, 1);
    assert_eq!(l.balance(&key(10)), 0);
    assert_eq!(end(&mut l, 1, 10), Ok(()));
    assert_eq!(l.vault_balance(1), Some(0));
}

#[test]
fn pool_overflow_on_join() {
    let mut l = funded(&[10, 11], u64::MAX);
    open(&mut l, 1, u64::MAX);
    assert_eq!(join(&mut l, 1, 10), Ok(()));
    assert_eq!(join(&mut l, 1, 11), Err(ErrorCode::ArithmeticOverflow));
    assert_eq!(l.game(1).unwrap().prize_pool, u64::MAX);
    assert_eq!(l.balance(&key(11)), u64::MAX);
}

#[test]
fn split_overflow_on_end() {
    let mut l = funded(&[10], u64::MAX);
    open(&mut l, 1, u64::MAX / 90 + 1);
    assert_eq!(join(&mut l, 1, 10), Ok(()));
    assert_eq!(end(&mut l, 1, 10), Err(ErrorCode::ArithmeticOverflow));
    assert!(l.game(1).unwrap().is_active);
    assert_eq!(l.vault_balance(1), Some(u64::MAX / 90 + 1));
}

#[test]
fn winner_credit_overflow_on_end() {
    let mut l = funded(&[10, 11], 100);
    open(&mut l, 1, 100);
    assert_eq!(join(&mut l, 1, 10), Ok(()));
    assert_eq!(l.deposit(&key(11), u64::MAX - 100), Ok(()));
    assert_eq!(end(&mut l, 1, 11), Err(ErrorCode::ArithmeticOverflow));
    assert_eq!(l.balance(&key(11)), u64::MAX);
    assert_eq!(l.vault_balance(1), Some(100));
}

#[test]
fn winner_may_be_fee_recipient() {
    let mut l = funded(&[10], 100);
    open(&mut l, 1, 100);
    assert_eq!(join(&mut l, 1, 10), Ok(()));
    assert_eq!(end(&mut l, 1, FEE), Ok(()));
    assert_eq!(l.balance(&key(FEE)), 100);
    assert_eq!(l.vault_balance(1), Some(0));
}

#[test]
fn deposit_overflow_is_refused() {
    let mut l = funded(&[10], u64::MAX);
    assert_eq!(l.deposit(&key(10), 1), Err(ErrorCode::ArithmeticOverflow));
    assert_eq!(l.balance(&key(10)), u64::MAX);
    assert_eq!(l.deposit(&key(10), 0), Ok(()));
}

#[test]
fn error_messages() {
    assert_eq!(ErrorCode::GameNotActive.message(), "Game is not active");
    assert_eq!(ErrorCode::Unauthorized.message(), "Unauthorized access");
}

#[test]
fn seeds_are_tag_then_key() {
    let id: u64 = 0x0102_0304_0506_0708;
    let mut expect = b"game".to_vec();
    expect.extend_from_slice(&id.to_le_bytes());
    assert_eq!(game_seed(id), expect);
    let mut expect = b"vault".to_vec();
    expect.extend_from_slice(&id.to_le_bytes());
    assert_eq!(vault_seed(id), expect);
    assert_eq!(game_seed(1), vec![b'g', b'a', b'm', b'e', 1, 0, 0, 0, 0, 0, 0, 0]);
    let mut expect = b"player".to_vec();
    expect.extend_from_slice(&[7u8; 32]);
    expect.extend_from_slice(&[9u8; 32]);
    assert_eq!(player_seed(&key(7), &key(9)), expect);
}

fn stored(prize_pool: u64, player_count: u64, is_active: bool, winner: Option<Pubkey>) -> Game {
    Game {
        authority: key(AUTHORITY),
        game_id: 4,
        entry_fee: 25,
        prize_pool,
        is_active,
        player_count,
        winner,
        fee_recipient: key(FEE),
    }
}

#[test]
fn load_accepts_consistent_records() {
    let mut l = funded(&[10], 25);
    assert_eq!(l.load_game(stored(50, 2, true, None), 50), Ok(()));
    let e = PlayerEntry { player: key(10), game: 4, joined_at: 3 };
    assert_eq!(l.load_entry(e), Ok(()));
    assert_eq!(l.load_entry(e), Err(ErrorCode::AddressOccupied));
    assert_eq!(join(&mut l, 4, 10), Err(ErrorCode::AddressOccupied));
    assert_eq!(l.load_game(stored(50, 2, true, None), 50), Err(ErrorCode::AddressOccupied));
    assert_eq!(end(&mut l, 4, 10), Ok(()));
    assert_eq!(l.balance(&key(10)), 25 + 45);
    assert_eq!(l.balance(&key(FEE)), 5);
    let mut m = Ledger::new();
    assert_eq!(m.load_game(stored(50, 2, false, Some(key(10))), 0), Ok(()));
    assert_eq!(join(&mut m, 4, 11), Err(ErrorCode::GameNotActive));
}

#[test]
fn load_refuses_inconsistent_records() {
    let mut l = Ledger::new();
    assert_eq!(l.load_game(stored(50, 1, true, None), 50), Err(ErrorCode::InconsistentRecord));
    assert_eq!(l.load_game(stored(50, 2, true, None), 49), Err(ErrorCode::InconsistentRecord));
    assert_eq!(l.load_game(stored(50, 2, true, Some(key(3))), 50), Err(ErrorCode::InconsistentRecord));
    assert_eq!(l.load_game(stored(50, 2, false, Some(key(3))), 50), Err(ErrorCode::InconsistentRecord));
    assert_eq!(l.load_game(stored(50, 2, false, None), 0), Err(ErrorCode::InconsistentRecord));
    assert_eq!(l.load_game(stored(u64::MAX, u64::MAX, true, None), u64::MAX), Err(ErrorCode::InconsistentRecord));
    assert_eq!(l.game(4), None);
    assert_eq!(l.vault_balance(4), None);
}
