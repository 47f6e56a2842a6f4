//! The records of the game and the player ledger: what a player owns, what
//! has accrued since the last claim, and how holdings and claims change it.

use crate::constants::{
    calculate_production_rate,
    catalog,
    production_of,
    total_production,
    GENERATOR_TYPE_COUNT,
    MAX_GENERATORS,
};
use crate::errors::IdleGameError;
use vstd::prelude::*;

verus! {

/// A 32-byte identity: of a player, of an administrator, of a currency.
pub type Address = [u8; 32];

/// The game-wide record.
#[derive(Clone, Copy, Debug, PartialEq, Eq)]
pub struct GlobalState {
    /// Who administers the game.
    pub authority: Address,
    /// The currency that the game pays out in.
    pub token_mint: Address,
    /// How many players have joined.
    pub total_players: u64,
    /// Sum of all rewards ever claimed.
    pub total_tokens_minted: u64,
    /// While false, every operation of a player is refused.
    pub game_active: bool,
    /// Seed byte of the address under which the record is stored.
    pub bump: u8,
}

/// One player's record.
#[derive(Clone, Copy, Debug, PartialEq, Eq)]
pub struct Player {
    /// Whose record this is.
    pub authority: Address,
    /// Spendable currency.
    pub balance: u64,
    /// Units held of each generator kind, by kind id.
    pub generators: [u32; MAX_GENERATORS],
    /// Time of the last claim, in seconds since the Unix epoch.
    pub last_claim_time: i64,
    /// Everything ever claimed.
    pub total_earned: u64,
    /// Currency units accruing per second: derived from `generators`.
    pub production_rate: u64,
    /// Seed byte of the address under which the record is stored.
    pub bump: u8,
}

/// A player has joined.
#[derive(Clone, Copy, Debug, PartialEq, Eq)]
pub struct PlayerInitialized {
    pub authority: Address,
}

/// A player has bought one generator.
#[derive(Clone, Copy, Debug, PartialEq, Eq, Structural)]
pub struct GeneratorPurchased {
    pub generator_id: u8,
    /// What was paid.
    pub cost: u64,
    /// Units of that kind held after the purchase.
    pub new_count: u32,
}

/// A player has claimed accrued rewards.
#[derive(Clone, Copy, Debug, PartialEq, Eq, Structural)]
pub struct RewardsClaimed {
    pub amount: u64,
    pub new_balance: u64,
}

/// The game-wide record as a mathematical value.
pub struct GlobalStateView {
    pub authority: Seq<u8>,
    pub token_mint: Seq<u8>,
    pub total_players: u64,
    pub total_tokens_minted: u64,
    pub game_active: bool,
    pub bump: u8,
}

/// A player's record as a mathematical value.
pub struct PlayerView {
    pub authority: Seq<u8>,
    pub balance: u64,
    pub generators: Seq<u32>,
    pub last_claim_time: i64,
    pub total_earned: u64,
    pub production_rate: u64,
    pub bump: u8,
}

impl View for GlobalState {
    type V = GlobalStateView;

    open spec fn view(&self) -> GlobalStateView {
        GlobalStateView {
            authority: self.authority@,
            token_mint: self.token_mint@,
            total_players: self.total_players,
            total_tokens_minted: self.total_tokens_minted,
            game_active: self.game_active,
            bump: self.bump,
        }
    }
}

impl View for Player {
    type V = PlayerView;

    open spec fn view(&self) -> PlayerView {
        PlayerView {
            authority: self.authority@,
            balance: self.balance,
            generators: self.generators@,
            last_claim_time: self.last_claim_time,
            total_earned: self.total_earned,
            production_rate: self.production_rate,
            bump: self.bump,
        }
    }
}

impl PlayerView {
    /// The record has one slot per generator kind and its production rate is
    /// the one that its holdings yield.
    pub open spec fn consistent(self) -> bool {
        &&& self.generators.len() == MAX_GENERATORS
        &&& self.production_rate == total_production(self.generators)
    }

    /// The record of a player who joins at time `now`.
    pub open spec fn fresh(authority: Seq<u8>, bump: u8, now: i64) -> PlayerView {
        PlayerView {
            authority,
            balance: 0,
            generators: Seq::new(MAX_GENERATORS as nat, |i: int| 0u32),
            last_claim_time: now,
            total_earned: 0,
            production_rate: 0,
            bump,
        }
    }

    /// What has accrued by time `now`: nothing when the clock reads earlier
    /// than the last claim; otherwise rate times elapsed seconds, clamped to
    /// the largest 64-bit amount.
    pub open spec fn pending_rewards(self, now: i64) -> u64 {
        let elapsed = now - self.last_claim_time;
        if elapsed < 0 {
            0
        } else if self.production_rate * elapsed > u64::MAX {
            u64::MAX
        } else {
            (self.production_rate * elapsed) as u64
        }
    }

    /// The record after gaining one generator of kind `generator_id`, with
    /// the production rate that the new holdings yield.
    pub open spec fn with_generator(self, generator_id: u8) -> Result<PlayerView, IdleGameError> {
        if generator_id >= GENERATOR_TYPE_COUNT {
            Err(IdleGameError::InvalidGeneratorType)
        } else if self.generators[generator_id as int] == u32::MAX {
            Err(IdleGameError::MaxGeneratorsReached)
        } else {
            let generators = self.generators.update(
                generator_id as int,
                (self.generators[generator_id as int] + 1) as u32,
            );
            if total_production(generators) > u64::MAX {
                Err(IdleGameError::ArithmeticOverflow)
            } else {
                Ok(
                    PlayerView {
                        generators,
                        production_rate: total_production(generators) as u64,
                        ..self
                    },
                )
            }
        }
    }

    /// The record after claiming at time `now`, with the amount claimed.
    pub open spec fn settled(self, now: i64) -> Result<(PlayerView, u64), IdleGameError> {
        let pending = self.pending_rewards(now);
        if pending == 0 {
            Err(IdleGameError::NoRewardsToClaim)
        } else if self.balance + pending > u64::MAX || self.total_earned + pending > u64::MAX {
            Err(IdleGameError::ArithmeticOverflow)
        } else {
            Ok(
                (
                    PlayerView {
                        balance: (self.balance + pending) as u64,
                        total_earned: (self.total_earned + pending) as u64,
                        last_claim_time: now,
                        ..self
                    },
                    pending,
                ),
            )
        }
    }
}

impl Player {
    /// The record of a player who joins at time `now`: nothing owned, nothing
    /// earned, nothing accruing.
    pub fn initialize(authority: Address, bump: u8, now: i64) -> (player: Player)
        ensures
            player@ == PlayerView::fresh(authority@, bump, now),
            player@.consistent(),
    {
        let player = Player {
            authority,
            balance: 0,
            generators: [0, 0, 0, 0, 0, 0, 0, 0, 0, 0],
            last_claim_time: now,
            total_earned: 0,
            production_rate: 0,
            bump,
        };
        proof {
            assert(player@.generators =~= PlayerView::fresh(authority@, bump, now).generators);
            lemma_no_holdings(player@.generators, GENERATOR_TYPE_COUNT as nat);
        }
        player
    }

    /// What has accrued by `current_time` and is not yet claimed. Never
    /// fails, and changes nothing.
    pub fn calculate_pending_rewards(&self, current_time: i64) -> (res: Result<
        u64,
        IdleGameError,
    >)
        ensures
            res == Ok::<u64, IdleGameError>(self@.pending_rewards(current_time)),
    {
        if current_time < self.last_claim_time {
            return Ok(0);
        }
        let time_elapsed: i128 = current_time as i128 - self.last_claim_time as i128;
        let rate = self.production_rate as u128;
        let seconds = time_elapsed as u128;
        assert(rate * seconds <= 0xffff_ffff_ffff_ffff * 0xffff_ffff_ffff_ffff) by (nonlinear_arith)
            requires
                0 <= rate <= 0xffff_ffff_ffff_ffff,
                0 <= seconds <= 0xffff_ffff_ffff_ffff,
        ;
        let rewards = rate * seconds;
        if rewards > u64::MAX as u128 {
            Ok(u64::MAX)
        } else {
            Ok(rewards as u64)
        }
    }

    /// Recomputes the production rate from the holdings. Refused, with the
    /// record unchanged, where the rate would leave the 64-bit range.
    pub fn update_production_rate(&mut self) -> (res: Result<(), IdleGameError>)
        ensures
            total_production(old(self).generators@) <= u64::MAX ==> {
                &&& res.is_ok()
                &&& final(self)@ == (PlayerView {
                    production_rate: total_production(old(self).generators@) as u64,
                    ..old(self)@
                })
                &&& final(self)@.consistent()
            },
            total_production(old(self).generators@) > u64::MAX ==> {
                &&& res == Err::<(), IdleGameError>(IdleGameError::ArithmeticOverflow)
                &&& *final(self) == *old(self)
            },
    {
        match calculate_production_rate(&self.generators) {
            Ok(rate) => {
                self.production_rate = rate;
                Ok(())
            },
            Err(e) => Err(e),
        }
    }

    /// Adds one generator of kind `generator_id` and recomputes the
    /// production rate from the new holdings. Refused, with the record
    /// unchanged, where the kind does not exist, the holding of that kind is
    /// at its maximum, or the new production rate would leave the 64-bit
    /// range.
    pub fn add_generator(&mut self, generator_id: u8) -> (res: Result<(), IdleGameError>)
        ensures
            match old(self)@.with_generator(generator_id) {
                Ok(next) => res.is_ok() && final(self)@ == next && final(self)@.consistent(),
                Err(e) => res == Err::<(), IdleGameError>(e) && *final(self) == *old(self),
            },
    {
        if generator_id as usize >= GENERATOR_TYPE_COUNT {
            return Err(IdleGameError::InvalidGeneratorType);
        }
        let slot = generator_id as usize;
        let count = match self.generators[slot].checked_add(1) {
            Some(count) => count,
            None => {
                return Err(IdleGameError::MaxGeneratorsReached);
            },
        };
        let mut generators = self.generators;
        generators[slot] = count;
        let rate = match calculate_production_rate(&generators) {
            Ok(rate) => rate,
            Err(e) => {
                return Err(e);
            },
        };
        self.generators = generators;
        self.production_rate = rate;
        Ok(())
    }

    /// Claims what has accrued by `now`: adds it to the balance and to the
    /// lifetime earnings and moves the claim time to `now`. Returns the amount
    /// claimed. Refused, with the record unchanged, where nothing has accrued
    /// or a sum would leave the 64-bit range.
    pub fn settle(&mut self, now: i64) -> (res: Result<u64, IdleGameError>)
        ensures
            match old(self)@.settled(now) {
                Ok((next, amount)) => {
                    &&& res == Ok::<u64, IdleGameError>(amount)
                    &&& final(self)@ == next
                    &&& old(self)@.consistent() ==> final(self)@.consistent()
                },
                Err(e) => res == Err::<u64, IdleGameError>(e) && *final(self) == *old(self),
            },
    {
        let pending = match self.calculate_pending_rewards(now) {
            Ok(pending) => pending,
            Err(e) => {
                return Err(e);
            },
        };
        if pending == 0 {
            return Err(IdleGameError::NoRewardsToClaim);
        }
        let balance = match self.balance.checked_add(pending) {
            Some(balance) => balance,
            None => {
                return Err(IdleGameError::ArithmeticOverflow);
            },
        };
        let total_earned = match self.total_earned.checked_add(pending) {
            Some(total_earned) => total_earned,
            None => {
                return Err(IdleGameError::ArithmeticOverflow);
            },
        };
        self.balance = balance;
        self.total_earned = total_earned;
        self.last_claim_time = now;
        Ok(pending)
    }
}

/// Empty holdings yield nothing.
pub proof fn lemma_no_holdings(generators: Seq<u32>, kinds: nat)
    requires
        kinds <= generators.len(),
        forall|i: int| 0 <= i < generators.len() ==> generators[i] == 0,
    ensures
        production_of(generators, kinds) == 0,
    decreases kinds,
{
    if kinds > 0 {
        lemma_no_holdings(generators, (kinds - 1) as nat);
        assert(0 * catalog()[kinds - 1].production_rate as nat == 0);
    }
}

} // verus!
