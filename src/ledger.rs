//! The custody ledger: game records, their vaults, participant records and
//! wallet balances, each store addressed by its deterministic key.
use vstd::prelude::*;
use crate::keyed::{has_key, keyed, lemma_keyed_at, lemma_keyed_push, lemma_keyed_update, unique_keys};
use crate::state::{lemma_pubkey_bytes_eq, ErrorCode, Game, PlayerEntry, Pubkey, Vault, Wallet};

verus! {

/// A game record is addressed by its game identifier.
pub open spec fn game_key() -> spec_fn(Game) -> u64 {
    |g: Game| g.game_id
}

/// A vault is addressed by the identifier of its game.
pub open spec fn vault_key() -> spec_fn(Vault) -> u64 {
    |v: Vault| v.game_id
}

/// A participant record is addressed by its game and its participant.
pub open spec fn entry_key() -> spec_fn(PlayerEntry) -> (u64, Pubkey) {
    |e: PlayerEntry| (e.game, e.player)
}

/// A wallet is addressed by its identity.
pub open spec fn wallet_key() -> spec_fn(Wallet) -> Pubkey {
    |w: Wallet| w.key
}

/// The balance of `k` in `m`; an identity without a wallet holds nothing.
pub open spec fn balance_in(m: Map<Pubkey, u64>, k: Pubkey) -> int {
    if m.contains_key(k) {
        m[k] as int
    } else {
        0
    }
}

/// `m` after `amount` is added to the balance of `k`.
pub open spec fn credited(m: Map<Pubkey, u64>, k: Pubkey, amount: int) -> Map<Pubkey, u64> {
    m.insert(k, (balance_in(m, k) + amount) as u64)
}

/// The accounting that every game keeps: its pool is its joins times its
/// fee; while it is active its vault holds exactly the pool and it has no
/// winner; once resolved its vault is empty and its winner is set.
pub open spec fn accounted(g: Game, vault: u64) -> bool {
    &&& g.prize_pool == g.player_count * g.entry_fee
    &&& g.is_active ==> vault == g.prize_pool && g.winner is None
    &&& !g.is_active ==> vault == 0 && g.winner is Some
}

proof fn lemma_map_values_insert<K, V, W>(m: Map<K, V>, k: K, v: V, f: spec_fn(V) -> W)
    ensures
        m.insert(k, v).map_values(f) == m.map_values(f).insert(k, f(v)),
{
    assert(m.insert(k, v).map_values(f) =~= m.map_values(f).insert(k, f(v)));
}

/// The state of the program: every record and balance it custodies.
pub struct Ledger {
    games: Vec<Game>,
    vaults: Vec<Vault>,
    entries: Vec<PlayerEntry>,
    wallets: Vec<Wallet>,
}

impl Ledger {
    /// The game records, by game identifier.
    pub closed spec fn games(self) -> Map<u64, Game> {
        keyed(self.games@, game_key())
    }

    /// The vault balances, by game identifier.
    pub closed spec fn vaults(self) -> Map<u64, u64> {
        keyed(self.vaults@, vault_key()).map_values(|v: Vault| v.lamports)
    }

    /// The participant records, by game identifier and participant.
    pub closed spec fn entries(self) -> Map<(u64, Pubkey), PlayerEntry> {
        keyed(self.entries@, entry_key())
    }

    /// The wallet balances, by identity.
    pub closed spec fn balances(self) -> Map<Pubkey, u64> {
        keyed(self.wallets@, wallet_key()).map_values(|w: Wallet| w.lamports)
    }

    /// The balance held by `k`.
    pub open spec fn balance_of(self, k: Pubkey) -> int {
        balance_in(self.balances(), k)
    }

    /// Every store holds at most one record per address, every game has
    /// its vault, and every game keeps its accounting.
    pub closed spec fn wf(self) -> bool {
        &&& unique_keys(self.games@, game_key())
        &&& unique_keys(self.vaults@, vault_key())
        &&& unique_keys(self.entries@, entry_key())
        &&& unique_keys(self.wallets@, wallet_key())
        &&& self.games().dom() == self.vaults().dom()
        &&& forall|id: u64| #[trigger]
            self.games().contains_key(id) ==> accounted(self.games()[id], self.vaults()[id])
    }

    /// Each game kept in a well-formed ledger keeps its accounting.
    pub proof fn lemma_accounted(self, id: u64)
        requires
            self.wf(),
            self.games().contains_key(id),
        ensures
            self.vaults().contains_key(id),
            self.games()[id].game_id == id,
            accounted(self.games()[id], self.vaults()[id]),
    {
        let i = choose|i: int| 0 <= i < self.games@.len() && #[trigger] game_key()(self.games@[i]) == id;
        lemma_keyed_at(self.games@, game_key(), i);
    }

    /// An empty ledger.
    pub fn new() -> (r: Ledger)
        ensures
            r.wf(),
            r.games() == Map::<u64, Game>::empty(),
            r.vaults() == Map::<u64, u64>::empty(),
            r.entries() == Map::<(u64, Pubkey), PlayerEntry>::empty(),
            r.balances() == Map::<Pubkey, u64>::empty(),
    {
        let r = Ledger { games: Vec::new(), vaults: Vec::new(), entries: Vec::new(), wallets: Vec::new() };
        assert(r.games() =~= Map::<u64, Game>::empty());
        assert(r.vaults() =~= Map::<u64, u64>::empty());
        assert(r.entries() =~= Map::<(u64, Pubkey), PlayerEntry>::empty());
        assert(r.balances() =~= Map::<Pubkey, u64>::empty());
        r
    }

    fn find_game(&self, id: u64) -> (r: Option<usize>)
        ensures
            match r {
                Some(i) => i < self.games@.len() && self.games@[i as int].game_id == id,
                None => !has_key(self.games@, game_key(), id),
            },
    {
        let mut i: usize = 0;
        while i < self.games.len()
            invariant
                0 <= i <= self.games@.len(),
                forall|j: int| 0 <= j < i ==> self.games@[j].game_id != id,
            decreases self.games@.len() - i,
        {
            if self.games[i].game_id == id {
                return Some(i);
            }
            i = i + 1;
        }
        None
    }

    fn find_vault(&self, id: u64) -> (r: Option<usize>)
        ensures
            match r {
                Some(i) => i < self.vaults@.len() && self.vaults@[i as int].game_id == id,
                None => !has_key(self.vaults@, vault_key(), id),
            },
    {
        let mut i: usize = 0;
        while i < self.vaults.len()
            invariant
                0 <= i <= self.vaults@.len(),
                forall|j: int| 0 <= j < i ==> self.vaults@[j].game_id != id,
            decreases self.vaults@.len() - i,
        {
            if self.vaults[i].game_id == id {
                return Some(i);
            }
            i = i + 1;
        }
        None
    }

    fn find_entry(&self, id: u64, player: &Pubkey) -> (r: Option<usize>)
        ensures
            match r {
                Some(i) => i < self.entries@.len() && entry_key()(self.entries@[i as int]) == (id, *player),
                None => !has_key(self.entries@, entry_key(), (id, *player)),
            },
    {
        let mut i: usize = 0;
        while i < self.entries.len()
            invariant
                0 <= i <= self.entries@.len(),
                forall|j: int| 0 <= j < i ==> entry_key()(self.entries@[j]) != (id, *player),
            decreases self.entries@.len() - i,
        {
            let e = self.entries[i];
            proof {
                lemma_pubkey_bytes_eq(e.player, *player);
            }
            if e.game == id && e.player == *player {
                return Some(i);
            }
            i = i + 1;
        }
        None
    }

    fn find_wallet(&self, key: &Pubkey) -> (r: Option<usize>)
        ensures
            match r {
                Some(i) => i < self.wallets@.len() && self.wallets@[i as int].key == *key,
                None => !has_key(self.wallets@, wallet_key(), *key),
            },
    {
        let mut i: usize = 0;
        while i < self.wallets.len()
            invariant
                0 <= i <= self.wallets@.len(),
                forall|j: int| 0 <= j < i ==> self.wallets@[j].key != *key,
            decreases self.wallets@.len() - i,
        {
            let w = self.wallets[i];
            proof {
                lemma_pubkey_bytes_eq(w.key, *key);
            }
            if w.key == *key {
                return Some(i);
            }
            i = i + 1;
        }
        None
    }

    /// The game record at `id`, if one exists.
    pub fn game(&self, id: u64) -> (r: Option<Game>)
        requires
            self.wf(),
        ensures
            r == (if self.games().contains_key(id) { Some(self.games()[id]) } else { None::<Game> }),
    {
        match self.find_game(id) {
            Some(i) => {
                proof {
                    lemma_keyed_at(self.games@, game_key(), i as int);
                }
                Some(self.games[i])
            },
            None => None,
        }
    }

    /// The balance of the vault of game `id`, if the game exists.
    pub fn vault_balance(&self, id: u64) -> (r: Option<u64>)
        requires
            self.wf(),
        ensures
            r == (if self.vaults().contains_key(id) { Some(self.vaults()[id]) } else { None::<u64> }),
    {
        match self.find_vault(id) {
            Some(i) => {
                proof {
                    lemma_keyed_at(self.vaults@, vault_key(), i as int);
                }
                Some(self.vaults[i].lamports)
            },
            None => None,
        }
    }

    /// The record of `player` joining game `id`, if there is one.
    pub fn player_entry(&self, id: u64, player: &Pubkey) -> (r: Option<PlayerEntry>)
        requires
            self.wf(),
        ensures
            r == (if self.entries().contains_key((id, *player)) {
                Some(self.entries()[(id, *player)])
            } else {
                None::<PlayerEntry>
            }),
    {
        match self.find_entry(id, player) {
            Some(i) => {
                proof {
                    lemma_keyed_at(self.entries@, entry_key(), i as int);
                }
                Some(self.entries[i])
            },
            None => None,
        }
    }

    /// The balance held by `key`.
    pub fn balance(&self, key: &Pubkey) -> (r: u64)
        requires
            self.wf(),
        ensures
            r == self.balance_of(*key),
    {
        match self.find_wallet(key) {
            Some(i) => {
                proof {
                    lemma_keyed_at(self.wallets@, wallet_key(), i as int);
                }
                self.wallets[i].lamports
            },
            None => 0,
        }
    }

    pub(crate) fn set_balance(&mut self, key: &Pubkey, lamports: u64)
        requires
            old(self).wf(),
        ensures
            final(self).wf(),
            final(self).games() == old(self).games(),
            final(self).vaults() == old(self).vaults(),
            final(self).entries() == old(self).entries(),
            final(self).balances() == old(self).balances().insert(*key, lamports),
    {
        let w = Wallet { key: *key, lamports };
        let ghost f = |w: Wallet| w.lamports;
        proof {
            lemma_map_values_insert(keyed(self.wallets@, wallet_key()), *key, w, f);
        }
        match self.find_wallet(key) {
            Some(i) => {
                proof {
                    lemma_keyed_update(self.wallets@, wallet_key(), i as int, w);
                }
                self.wallets.set(i, w);
            },
            None => {
                proof {
                    lemma_keyed_push(self.wallets@, wallet_key(), w);
                }
                self.wallets.push(w);
            },
        }
        assert(self.balances() == old(self).balances().insert(*key, lamports));
    }

    /// Adds `amount` to the balance of `key`; refused with `ArithmeticOverflow`
    /// where the sum does not fit in 64 bits.
    pub fn deposit(&mut self, key: &Pubkey, amount: u64) -> (r: Result<(), ErrorCode>)
        requires
            old(self).wf(),
        ensures
            final(self).wf(),
            r is Err <==> old(self).balance_of(*key) + amount > u64::MAX,
            r is Err ==> r == Err::<(), ErrorCode>(ErrorCode::ArithmeticOverflow) && *final(self)
                == *old(self),
            r is Ok ==> {
                &&& final(self).balances() == credited(old(self).balances(), *key, amount as int)
                &&& final(self).games() == old(self).games()
                &&& final(self).vaults() == old(self).vaults()
                &&& final(self).entries() == old(self).entries()
            },
    {
        let held = self.balance(key);
        match held.checked_add(amount) {
            None => Err(ErrorCode::ArithmeticOverflow),
            Some(total) => {
                self.set_balance(key, total);
                Ok(())
            },
        }
    }

    /// Creates the record of a fresh game and its empty vault.
    pub(crate) fn create_game(&mut self, g: Game)
        requires
            old(self).wf(),
            !old(self).games().contains_key(g.game_id),
            g.is_active,
            g.prize_pool == 0,
            g.player_count == 0,
            g.winner is None,
        ensures
            final(self).wf(),
            final(self).games() == old(self).games().insert(g.game_id, g),
            final(self).vaults() == old(self).vaults().insert(g.game_id, 0),
            final(self).entries() == old(self).entries(),
            final(self).balances() == old(self).balances(),
    {
        let v = Vault { game_id: g.game_id, lamports: 0 };
        proof {
            assert(!self.vaults().contains_key(g.game_id));
            lemma_keyed_push(self.games@, game_key(), g);
            lemma_keyed_push(self.vaults@, vault_key(), v);
            lemma_map_values_insert(keyed(self.vaults@, vault_key()), g.game_id, v, |v: Vault| v.lamports);
        }
        self.games.push(g);
        self.vaults.push(v);
        proof {
            assert(self.vaults() == old(self).vaults().insert(g.game_id, 0));
            assert(self.games().dom() =~= self.vaults().dom());
        }
    }

    /// Replaces the record of an existing game and the balance of its vault.
    pub(crate) fn store_game(&mut self, g: Game, vault: u64)
        requires
            old(self).wf(),
            old(self).games().contains_key(g.game_id),
            accounted(g, vault),
        ensures
            final(self).wf(),
            final(self).games() == old(self).games().insert(g.game_id, g),
            final(self).vaults() == old(self).vaults().insert(g.game_id, vault),
            final(self).entries() == old(self).entries(),
            final(self).balances() == old(self).balances(),
    {
        let v = Vault { game_id: g.game_id, lamports: vault };
        let gi = match self.find_game(g.game_id) {
            Some(i) => i,
            None => {
                proof {
                    assert(false);
                }
                return;
            },
        };
        let vi = match self.find_vault(g.game_id) {
            Some(i) => i,
            None => {
                proof {
                    assert(self.vaults().contains_key(g.game_id));
                    assert(false);
                }
                return;
            },
        };
        proof {
            lemma_keyed_update(self.games@, game_key(), gi as int, g);
            lemma_keyed_update(self.vaults@, vault_key(), vi as int, v);
            lemma_map_values_insert(keyed(self.vaults@, vault_key()), g.game_id, v, |v: Vault| v.lamports);
        }
        self.games.set(gi, g);
        self.vaults.set(vi, v);
        proof {
            assert(self.vaults() == old(self).vaults().insert(g.game_id, vault));
            assert(self.games().dom() =~= self.vaults().dom());
        }
    }

    /// Creates the record that `e.player` joined game `e.game`.
    pub(crate) fn add_entry(&mut self, e: PlayerEntry)
        requires
            old(self).wf(),
            !old(self).entries().contains_key((e.game, e.player)),
        ensures
            final(self).wf(),
            final(self).games() == old(self).games(),
            final(self).vaults() == old(self).vaults(),
            final(self).entries() == old(self).entries().insert((e.game, e.player), e),
            final(self).balances() == old(self).balances(),
    {
        proof {
            lemma_keyed_push(self.entries@, entry_key(), e);
        }
        self.entries.push(e);
    }

    /// Takes in a stored game record `g` and its vault balance. Refused with
    /// `AddressOccupied` where the game or its vault is already present, and
    /// with `InconsistentRecord` where the pair breaks the accounting that
    /// every game keeps.
    pub fn load_game(&mut self, g: Game, vault: u64) -> (r: Result<(), ErrorCode>)
        requires
            old(self).wf(),
        ensures
            final(self).wf(),
            r == (if old(self).games().contains_key(g.game_id) || old(self).vaults().contains_key(
                g.game_id,
            ) {
                Err::<(), ErrorCode>(ErrorCode::AddressOccupied)
            } else if !accounted(g, vault) {
                Err::<(), ErrorCode>(ErrorCode::InconsistentRecord)
            } else {
                Ok::<(), ErrorCode>(())
            }),
            r is Err ==> *final(self) == *old(self),
            r is Ok ==> {
                &&& final(self).games() == old(self).games().insert(g.game_id, g)
                &&& final(self).vaults() == old(self).vaults().insert(g.game_id, vault)
                &&& final(self).entries() == old(self).entries()
                &&& final(self).balances() == old(self).balances()
            },
    {
        let gi = self.find_game(g.game_id);
        let vi = self.find_vault(g.game_id);
        if gi.is_some() || vi.is_some() {
            proof {
                if let Some(i) = gi {
                    lemma_keyed_at(self.games@, game_key(), i as int);
                } else if let Some(j) = vi {
                    lemma_keyed_at(self.vaults@, vault_key(), j as int);
                }
            }
            return Err(ErrorCode::AddressOccupied);
        }
        let balanced = match g.player_count.checked_mul(g.entry_fee) {
            Some(total) => total == g.prize_pool,
            None => false,
        };
        let consistent = if g.is_active {
            vault == g.prize_pool && g.winner.is_none()
        } else {
            vault == 0 && g.winner.is_some()
        };
        if !balanced || !consistent {
            return Err(ErrorCode::InconsistentRecord);
        }
        let v = Vault { game_id: g.game_id, lamports: vault };
        proof {
            lemma_keyed_push(self.games@, game_key(), g);
            lemma_keyed_push(self.vaults@, vault_key(), v);
            lemma_map_values_insert(keyed(self.vaults@, vault_key()), g.game_id, v, |v: Vault| v.lamports);
        }
        self.games.push(g);
        self.vaults.push(v);
        proof {
            assert(self.vaults() == old(self).vaults().insert(g.game_id, vault));
            assert(self.games().dom() =~= self.vaults().dom());
        }
        Ok(())
    }

    /// Takes in a stored participant record `e`. Refused with
    /// `AddressOccupied` where a record for the same game and participant is
    /// already present.
    pub fn load_entry(&mut self, e: PlayerEntry) -> (r: Result<(), ErrorCode>)
        requires
            old(self).wf(),
        ensures
            final(self).wf(),
            r is Err <==> old(self).entries().contains_key((e.game, e.player)),
            r is Err ==> r == Err::<(), ErrorCode>(ErrorCode::AddressOccupied) && *final(self)
                == *old(self),
            r is Ok ==> {
                &&& final(self).entries() == old(self).entries().insert((e.game, e.player), e)
                &&& final(self).games() == old(self).games()
                &&& final(self).vaults() == old(self).vaults()
                &&& final(self).balances() == old(self).balances()
            },
    {
        if self.find_entry(e.game, &e.player).is_some() {
            proof {
                assert(has_key(self.entries@, entry_key(), (e.game, e.player)));
            }
            return Err(ErrorCode::AddressOccupied);
        }
        self.add_entry(e);
        Ok(())
    }
}

} // verus!
