//! The game as a state machine over the views of its records, and what holds
//! of every state that it can reach.
//!
//! A state is the game-wide record together with the record of every player
//! who has joined, in the order of joining. An operation that the engine
//! refuses leaves the state as it was.

use crate::constants::{
    generator_cost,
    lemma_catalog,
    total_production,
    GENERATOR_TYPE_COUNT,
    MAX_GENERATORS,
};
use crate::engine::{
    claim_outcome,
    deposit_outcome,
    join_outcome,
    purchase_outcome,
    withdraw_outcome,
};
use crate::errors::IdleGameError;
use crate::state::{lemma_no_holdings, GlobalStateView, PlayerView, RewardsClaimed};
use vstd::prelude::*;

verus! {

/// The whole game: the game-wide record and every player's record.
pub struct GameView {
    pub global: GlobalStateView,
    pub players: Seq<PlayerView>,
}

/// One request to the engine. `player` is the position of the player's
/// record in the state.
pub enum Operation {
    InitializePlayer { authority: Seq<u8>, bump: u8, now: i64 },
    PurchaseGenerator { player: int, generator_id: u8 },
    ClaimRewards { player: int, now: i64 },
    DepositSol { player: int, amount: u64 },
    WithdrawTokens { player: int, amount: u64 },
}

impl GameView {
    /// The game before anyone has joined.
    pub open spec fn genesis(authority: Seq<u8>, token_mint: Seq<u8>, bump: u8) -> GameView {
        GameView {
            global: GlobalStateView::genesis(authority, token_mint, bump),
            players: Seq::empty(),
        }
    }

    /// The state with the record at position `player` replaced.
    pub open spec fn with_player(self, player: int, record: PlayerView) -> GameView {
        GameView { players: self.players.update(player, record), ..self }
    }

    /// The state after one operation.
    pub open spec fn step(self, op: Operation) -> GameView {
        match op {
            Operation::InitializePlayer { authority, bump, now } => match join_outcome(
                self.global,
                authority,
                bump,
                now,
            ) {
                Ok((global, record)) => GameView { global, players: self.players.push(record) },
                Err(_) => self,
            },
            Operation::PurchaseGenerator { player, generator_id } => if 0 <= player
                < self.players.len() {
                match purchase_outcome(self.global, self.players[player], generator_id) {
                    Ok((record, _)) => self.with_player(player, record),
                    Err(_) => self,
                }
            } else {
                self
            },
            Operation::ClaimRewards { player, now } => if 0 <= player < self.players.len() {
                match claim_outcome(self.global, self.players[player], now) {
                    Ok((global, record, _)) => GameView {
                        global,
                        players: self.players.update(player, record),
                    },
                    Err(_) => self,
                }
            } else {
                self
            },
            Operation::DepositSol { player, amount } => if 0 <= player < self.players.len() {
                match deposit_outcome(self.global, self.players[player], amount) {
                    Ok((record, _)) => self.with_player(player, record),
                    Err(_) => self,
                }
            } else {
                self
            },
            Operation::WithdrawTokens { player, amount } => if 0 <= player < self.players.len() {
                match withdraw_outcome(self.global, self.players[player], amount) {
                    Ok(record) => self.with_player(player, record),
                    Err(_) => self,
                }
            } else {
                self
            },
        }
    }

    /// The state after a sequence of operations, first to last.
    pub open spec fn run(self, ops: Seq<Operation>) -> GameView
        decreases ops.len(),
    {
        if ops.len() == 0 {
            self
        } else {
            self.run(ops.drop_last()).step(ops.last())
        }
    }

    /// Every player's production rate is the one that their holdings yield.
    pub open spec fn consistent(self) -> bool {
        forall|i: int| 0 <= i < self.players.len() ==> (#[trigger] self.players[i]).consistent()
    }

    /// The game-wide counters agree with the players' records: every player
    /// is counted once, and what was paid out is what the players earned.
    pub open spec fn balanced(self) -> bool {
        &&& self.global.total_players == self.players.len()
        &&& self.global.total_tokens_minted == lifetime_earnings(self.players)
    }

    /// Nothing that only grows is smaller in `self` than it was in `before`:
    /// the number of players, the game-wide counters, and each player's
    /// lifetime earnings and claim time.
    pub open spec fn not_behind(self, before: GameView) -> bool {
        &&& before.players.len() <= self.players.len()
        &&& before.global.total_players <= self.global.total_players
        &&& before.global.total_tokens_minted <= self.global.total_tokens_minted
        &&& forall|i: int|
            0 <= i < before.players.len() ==> {
                &&& (#[trigger] before.players[i]).total_earned <= self.players[i].total_earned
                &&& before.players[i].last_claim_time <= self.players[i].last_claim_time
            }
    }
}

/// Sum of the lifetime earnings of all players.
pub open spec fn lifetime_earnings(players: Seq<PlayerView>) -> nat
    decreases players.len(),
{
    if players.len() == 0 {
        0
    } else {
        lifetime_earnings(players.drop_last()) + players.last().total_earned as nat
    }
}

proof fn lemma_earnings_update(players: Seq<PlayerView>, i: int, record: PlayerView)
    requires
        0 <= i < players.len(),
    ensures
        lifetime_earnings(players.update(i, record)) == lifetime_earnings(players)
            - players[i].total_earned + record.total_earned,
    decreases players.len(),
{
    let updated = players.update(i, record);
    if i == players.len() - 1 {
        assert(updated.drop_last() =~= players.drop_last());
    } else {
        lemma_earnings_update(players.drop_last(), i, record);
        assert(updated.drop_last() =~= players.drop_last().update(i, record));
    }
}

/// A fresh record is consistent: it holds nothing and produces nothing.
pub proof fn lemma_fresh_consistent(authority: Seq<u8>, bump: u8, now: i64)
    ensures
        PlayerView::fresh(authority, bump, now).consistent(),
{
    lemma_catalog();
    lemma_no_holdings(
        PlayerView::fresh(authority, bump, now).generators,
        GENERATOR_TYPE_COUNT as nat,
    );
}

/// A record that gained a generator is consistent, whatever it was before:
/// the production rate is recomputed from the holdings.
pub proof fn lemma_with_generator_consistent(player: PlayerView, generator_id: u8)
    requires
        player.generators.len() == MAX_GENERATORS,
        player.with_generator(generator_id) is Ok,
    ensures
        player.with_generator(generator_id).unwrap().consistent(),
{
}

/// No operation breaks the link between holdings and production rate.
pub proof fn lemma_step_consistent(state: GameView, op: Operation)
    requires
        state.consistent(),
    ensures
        state.step(op).consistent(),
{
    let next = state.step(op);
    match op {
        Operation::InitializePlayer { authority, bump, now } => {
            lemma_fresh_consistent(authority, bump, now);
        },
        _ => {},
    }
    assert forall|i: int| 0 <= i < next.players.len() implies (
    #[trigger] next.players[i]).consistent() by {
        if i < state.players.len() {
            assert(state.players[i].consistent());
        }
    }
}

/// In every state that the game can reach from its start, each player's
/// production rate equals the sum, over the catalog, of the units held times
/// the rate of the kind.
pub proof fn lemma_reachable_consistent(
    authority: Seq<u8>,
    token_mint: Seq<u8>,
    bump: u8,
    ops: Seq<Operation>,
)
    ensures
        GameView::genesis(authority, token_mint, bump).run(ops).consistent(),
    decreases ops.len(),
{
    if ops.len() > 0 {
        lemma_reachable_consistent(authority, token_mint, bump, ops.drop_last());
        lemma_step_consistent(
            GameView::genesis(authority, token_mint, bump).run(ops.drop_last()),
            ops.last(),
        );
    }
}

/// No operation lowers a player's lifetime earnings or claim time, the
/// number of players, or the total paid out.
pub proof fn lemma_step_monotone(state: GameView, op: Operation)
    ensures
        state.step(op).not_behind(state),
{
}

/// No sequence of operations lowers a player's lifetime earnings or claim
/// time, the number of players, or the total paid out.
pub proof fn lemma_run_monotone(state: GameView, ops: Seq<Operation>)
    ensures
        state.run(ops).not_behind(state),
    decreases ops.len(),
{
    if ops.len() > 0 {
        let before = state.run(ops.drop_last());
        lemma_run_monotone(state, ops.drop_last());
        lemma_step_monotone(before, ops.last());
        assert forall|i: int| 0 <= i < state.players.len() implies {
            &&& (#[trigger] state.players[i]).total_earned <= state.run(
                ops,
            ).players[i].total_earned
            &&& state.players[i].last_claim_time <= state.run(ops).players[i].last_claim_time
        } by {
            assert(before.players[i].total_earned <= before.step(
                ops.last(),
            ).players[i].total_earned);
        }
    }
}

/// A successful claim moves the claim time strictly forward and pays out a
/// positive amount.
pub proof fn lemma_claim_advances(global: GlobalStateView, player: PlayerView, now: i64)
    requires
        claim_outcome(global, player, now) is Ok,
    ensures
        ({
            let (next_global, next, event) = claim_outcome(global, player, now).unwrap();
            &&& player.last_claim_time < next.last_claim_time == now
            &&& event.amount > 0
            &&& next.total_earned == player.total_earned + event.amount
            &&& next.balance == player.balance + event.amount
            &&& next_global.total_tokens_minted == global.total_tokens_minted + event.amount
        }),
{
    let elapsed = now - player.last_claim_time;
    if elapsed == 0 {
        assert(player.production_rate * 0 == 0);
    }
}

/// No operation breaks the agreement between the game-wide counters and the
/// players' records.
pub proof fn lemma_step_balanced(state: GameView, op: Operation)
    requires
        state.balanced(),
    ensures
        state.step(op).balanced(),
{
    let next = state.step(op);
    match op {
        Operation::InitializePlayer { authority, bump, now } => {
            if join_outcome(state.global, authority, bump, now) is Ok {
                assert(next.players.drop_last() =~= state.players);
            }
        },
        Operation::PurchaseGenerator { player, generator_id } => {
            if 0 <= player < state.players.len() && purchase_outcome(
                state.global,
                state.players[player],
                generator_id,
            ) is Ok {
                lemma_earnings_update(state.players, player, next.players[player]);
            }
        },
        Operation::ClaimRewards { player, now } => {
            if 0 <= player < state.players.len() && claim_outcome(
                state.global,
                state.players[player],
                now,
            ) is Ok {
                lemma_earnings_update(state.players, player, next.players[player]);
            }
        },
        Operation::DepositSol { player, amount } => {
            if 0 <= player < state.players.len() && deposit_outcome(
                state.global,
                state.players[player],
                amount,
            ) is Ok {
                lemma_earnings_update(state.players, player, next.players[player]);
            }
        },
        Operation::WithdrawTokens { player, amount } => {
            if 0 <= player < state.players.len() && withdraw_outcome(
                state.global,
                state.players[player],
                amount,
            ) is Ok {
                lemma_earnings_update(state.players, player, next.players[player]);
            }
        },
    }
}

/// In every state that the game can reach from its start, the player count
/// is the number of players who joined and the total paid out is the sum of
/// the players' lifetime earnings.
pub proof fn lemma_reachable_balanced(
    authority: Seq<u8>,
    token_mint: Seq<u8>,
    bump: u8,
    ops: Seq<Operation>,
)
    ensures
        GameView::genesis(authority, token_mint, bump).run(ops).balanced(),
    decreases ops.len(),
{
    if ops.len() > 0 {
        lemma_reachable_balanced(authority, token_mint, bump, ops.drop_last());
        lemma_step_balanced(
            GameView::genesis(authority, token_mint, bump).run(ops.drop_last()),
            ops.last(),
        );
    }
}

/// When the clock reads earlier than the last claim, nothing is pending and
/// a claim is refused: for want of rewards while the game runs, and because
/// of the pause otherwise.
pub proof fn lemma_backward_clock(global: GlobalStateView, player: PlayerView, now: i64)
    requires
        now < player.last_claim_time,
    ensures
        player.pending_rewards(now) == 0,
        player.settled(now) == Err::<(PlayerView, u64), IdleGameError>(
            IdleGameError::NoRewardsToClaim,
        ),
        global.game_active ==> claim_outcome(global, player, now) == Err::<
            (GlobalStateView, PlayerView, RewardsClaimed),
            IdleGameError,
        >(IdleGameError::NoRewardsToClaim),
        !global.game_active ==> claim_outcome(global, player, now) == Err::<
            (GlobalStateView, PlayerView, RewardsClaimed),
            IdleGameError,
        >(IdleGameError::GamePaused),
{
}

/// A claim with the clock behind the last claim changes nothing: not the
/// claim time, not a balance, not a counter.
pub proof fn lemma_backward_claim_changes_nothing(state: GameView, player: int, now: i64)
    requires
        0 <= player < state.players.len(),
        now < state.players[player].last_claim_time,
    ensures
        state.step(Operation::ClaimRewards { player, now }) == state,
{
    lemma_backward_clock(state.global, state.players[player], now);
}

/// A claim at the very time of the last claim finds nothing pending.
pub proof fn lemma_no_time_no_rewards(player: PlayerView)
    ensures
        player.pending_rewards(player.last_claim_time) == 0,
        player.settled(player.last_claim_time) == Err::<(PlayerView, u64), IdleGameError>(
            IdleGameError::NoRewardsToClaim,
        ),
{
    assert(player.production_rate * 0 == 0);
}

/// Where rate times elapsed time exceeds the 64-bit range, what is pending is
/// exactly the largest 64-bit amount.
pub proof fn lemma_rewards_saturate(player: PlayerView, now: i64)
    requires
        now >= player.last_claim_time,
        player.production_rate * (now - player.last_claim_time) > u64::MAX,
    ensures
        player.pending_rewards(now) == u64::MAX,
{
}

/// What is pending is the product of rate and elapsed time or, where that is
/// beyond the 64-bit range, the largest 64-bit amount: never more than the
/// product, and never a wrapped value.
pub proof fn lemma_rewards_bounded(player: PlayerView, now: i64)
    requires
        now >= player.last_claim_time,
    ensures
        player.pending_rewards(now) <= player.production_rate * (now - player.last_claim_time),
        player.pending_rewards(now) < u64::MAX ==> player.pending_rewards(now)
            == player.production_rate * (now - player.last_claim_time),
{
    assert(0 <= player.production_rate * (now - player.last_claim_time)) by (nonlinear_arith)
        requires
            now >= player.last_claim_time,
            player.production_rate >= 0,
    ;
}

/// A purchase whose holding cannot grow is refused as a whole: whether a
/// generator can be added does not depend on the balance, so no price is
/// ever taken for a generator that is not handed out.
pub proof fn lemma_purchase_all_or_nothing(state: GameView, player: int, generator_id: u8)
    requires
        0 <= player < state.players.len(),
        state.players[player].with_generator(generator_id) is Err,
    ensures
        purchase_outcome(state.global, state.players[player], generator_id) is Err,
        state.step(Operation::PurchaseGenerator { player, generator_id }) == state,
{
}

/// A successful purchase takes exactly the price at the holding before it,
/// and adds exactly one unit of the kind bought and none of any other.
pub proof fn lemma_purchase_effect(global: GlobalStateView, player: PlayerView, generator_id: u8)
    requires
        player.generators.len() == MAX_GENERATORS,
        purchase_outcome(global, player, generator_id) is Ok,
    ensures
        ({
            let (next, event) = purchase_outcome(global, player, generator_id).unwrap();
            &&& generator_id < GENERATOR_TYPE_COUNT
            &&& event.cost == generator_cost(
                generator_id,
                player.generators[generator_id as int],
            )
            &&& next.balance == player.balance - event.cost
            &&& event.new_count == player.generators[generator_id as int] + 1
            &&& next.generators == player.generators.update(generator_id as int, event.new_count)
            &&& next.production_rate == total_production(next.generators)
            &&& next.total_earned == player.total_earned
            &&& next.last_claim_time == player.last_claim_time
        }),
{
}

} // verus!
