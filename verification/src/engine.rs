//! The operations of the game. Each one either applies in full or is refused
//! and changes nothing; what it does is fixed by an outcome function over the
//! views of the records.

use crate::constants::{generator_cost, get_generator_cost, GENERATOR_TYPE_COUNT};
use crate::errors::IdleGameError;
use crate::state::{
    Address,
    GeneratorPurchased,
    GlobalState,
    GlobalStateView,
    Player,
    PlayerInitialized,
    PlayerView,
    RewardsClaimed,
};
use vstd::prelude::*;

verus! {

/// Currency units credited for each unit deposited.
pub const DEPOSIT_RATE: u64 = 5000;

impl GlobalStateView {
    /// The game-wide record at the start of a game: no players, nothing
    /// paid out, the game running.
    pub open spec fn genesis(authority: Seq<u8>, token_mint: Seq<u8>, bump: u8) -> GlobalStateView {
        GlobalStateView {
            authority,
            token_mint,
            total_players: 0,
            total_tokens_minted: 0,
            game_active: true,
            bump,
        }
    }
}

/// What joining does: a fresh player record and one more player counted.
pub open spec fn join_outcome(
    global: GlobalStateView,
    authority: Seq<u8>,
    bump: u8,
    now: i64,
) -> Result<(GlobalStateView, PlayerView), IdleGameError> {
    if !global.game_active {
        Err(IdleGameError::GamePaused)
    } else if global.total_players == u64::MAX {
        Err(IdleGameError::ArithmeticOverflow)
    } else {
        Ok(
            (
                GlobalStateView { total_players: (global.total_players + 1) as u64, ..global },
                PlayerView::fresh(authority, bump, now),
            ),
        )
    }
}

/// What buying one generator of kind `generator_id` does: the price at the
/// player's current holding of that kind leaves the balance, the holding grows
/// by one, and the production rate follows the new holdings.
pub open spec fn purchase_outcome(
    global: GlobalStateView,
    player: PlayerView,
    generator_id: u8,
) -> Result<(PlayerView, GeneratorPurchased), IdleGameError> {
    if !global.game_active {
        Err(IdleGameError::GamePaused)
    } else if generator_id >= GENERATOR_TYPE_COUNT {
        Err(IdleGameError::InvalidGeneratorType)
    } else {
        let cost = generator_cost(generator_id, player.generators[generator_id as int]);
        if player.balance < cost {
            Err(IdleGameError::InsufficientBalance)
        } else {
            let paid = PlayerView { balance: (player.balance - cost) as u64, ..player };
            match paid.with_generator(generator_id) {
                Err(e) => Err(e),
                Ok(next) => Ok(
                    (
                        next,
                        GeneratorPurchased {
                            generator_id,
                            cost: cost as u64,
                            new_count: next.generators[generator_id as int],
                        },
                    ),
                ),
            }
        }
    }
}

/// What claiming at time `now` does: the player's ledger is settled and the
/// amount is added to the game-wide total.
pub open spec fn claim_outcome(global: GlobalStateView, player: PlayerView, now: i64) -> Result<
    (GlobalStateView, PlayerView, RewardsClaimed),
    IdleGameError,
> {
    if !global.game_active {
        Err(IdleGameError::GamePaused)
    } else {
        match player.settled(now) {
            Err(e) => Err(e),
            Ok((next, amount)) => if global.total_tokens_minted + amount > u64::MAX {
                Err(IdleGameError::ArithmeticOverflow)
            } else {
                Ok(
                    (
                        GlobalStateView {
                            total_tokens_minted: (global.total_tokens_minted + amount) as u64,
                            ..global
                        },
                        next,
                        RewardsClaimed { amount, new_balance: next.balance },
                    ),
                )
            },
        }
    }
}

/// What a deposit of `amount` does: `DEPOSIT_RATE` currency units per unit
/// deposited are added to the balance.
pub open spec fn deposit_outcome(global: GlobalStateView, player: PlayerView, amount: u64) -> Result<
    (PlayerView, u64),
    IdleGameError,
> {
    if !global.game_active {
        Err(IdleGameError::GamePaused)
    } else if amount * DEPOSIT_RATE > u64::MAX || player.balance + amount * DEPOSIT_RATE
        > u64::MAX {
        Err(IdleGameError::ArithmeticOverflow)
    } else {
        Ok(
            (
                PlayerView { balance: (player.balance + amount * DEPOSIT_RATE) as u64, ..player },
                (amount * DEPOSIT_RATE) as u64,
            ),
        )
    }
}

/// What a withdrawal of `amount` does: the amount leaves the balance.
pub open spec fn withdraw_outcome(global: GlobalStateView, player: PlayerView, amount: u64) -> Result<
    PlayerView,
    IdleGameError,
> {
    if !global.game_active {
        Err(IdleGameError::GamePaused)
    } else if player.balance < amount {
        Err(IdleGameError::InsufficientBalance)
    } else {
        Ok(PlayerView { balance: (player.balance - amount) as u64, ..player })
    }
}

/// Starts a game: no players, nothing paid out, the game running.
pub fn initialize(authority: Address, token_mint: Address, bump: u8) -> (global: GlobalState)
    ensures
        global@ == GlobalStateView::genesis(authority@, token_mint@, bump),
{
    GlobalState {
        authority,
        token_mint,
        total_players: 0,
        total_tokens_minted: 0,
        game_active: true,
        bump,
    }
}

/// Passes while the game is running.
pub fn require_active(global: &GlobalState) -> (res: Result<(), IdleGameError>)
    ensures
        global.game_active ==> res == Ok::<(), IdleGameError>(()),
        !global.game_active ==> res == Err::<(), IdleGameError>(IdleGameError::GamePaused),
{
    if global.game_active {
        Ok(())
    } else {
        Err(IdleGameError::GamePaused)
    }
}

/// A player joins at time `now`. Returns the new player's record and the
/// event to report. The caller sees to it that no record exists yet for
/// this player.
pub fn initialize_player(global: &mut GlobalState, authority: Address, bump: u8, now: i64) -> (res:
    Result<(Player, PlayerInitialized), IdleGameError>)
    ensures
        match join_outcome(old(global)@, authority@, bump, now) {
            Ok((next_global, fresh)) => {
                &&& res matches Ok((player, event))
                &&& player@ == fresh
                &&& player@.consistent()
                &&& event.authority == authority
                &&& final(global)@ == next_global
            },
            Err(e) => {
                &&& res == Err::<(Player, PlayerInitialized), IdleGameError>(e)
                &&& *final(global) == *old(global)
            },
        },
{
    match require_active(global) {
        Ok(()) => {},
        Err(e) => {
            return Err(e);
        },
    }
    let total_players = match global.total_players.checked_add(1) {
        Some(total_players) => total_players,
        None => {
            return Err(IdleGameError::ArithmeticOverflow);
        },
    };
    let player = Player::initialize(authority, bump, now);
    global.total_players = total_players;
    Ok((player, PlayerInitialized { authority }))
}

/// The player buys one generator of kind `generator_id` at the price for
/// their current holding of that kind. Returns the event to report.
pub fn purchase_generator(global: &GlobalState, player: &mut Player, generator_id: u8) -> (res:
    Result<GeneratorPurchased, IdleGameError>)
    ensures
        match purchase_outcome(global@, old(player)@, generator_id) {
            Ok((next, event)) => {
                &&& res == Ok::<GeneratorPurchased, IdleGameError>(event)
                &&& final(player)@ == next
                &&& final(player)@.consistent()
            },
            Err(e) => {
                &&& res == Err::<GeneratorPurchased, IdleGameError>(e)
                &&& *final(player) == *old(player)
            },
        },
{
    match require_active(global) {
        Ok(()) => {},
        Err(e) => {
            return Err(e);
        },
    }
    if generator_id as usize >= GENERATOR_TYPE_COUNT {
        return Err(IdleGameError::InvalidGeneratorType);
    }
    let current_count = player.generators[generator_id as usize];
    let cost = match get_generator_cost(generator_id, current_count) {
        Ok(cost) => cost,
        Err(e) => {
            return Err(e);
        },
    };
    if player.balance < cost {
        return Err(IdleGameError::InsufficientBalance);
    }
    let mut next = *player;
    next.balance = player.balance - cost;
    match next.add_generator(generator_id) {
        Ok(()) => {},
        Err(e) => {
            return Err(e);
        },
    }
    let new_count = next.generators[generator_id as usize];
    *player = next;
    Ok(GeneratorPurchased { generator_id, cost, new_count })
}

/// The player claims what has accrued by `now`. Returns the event to report.
pub fn claim_rewards(global: &mut GlobalState, player: &mut Player, now: i64) -> (res: Result<
    RewardsClaimed,
    IdleGameError,
>)
    ensures
        match claim_outcome(old(global)@, old(player)@, now) {
            Ok((next_global, next, event)) => {
                &&& res == Ok::<RewardsClaimed, IdleGameError>(event)
                &&& final(global)@ == next_global
                &&& final(player)@ == next
                &&& old(player)@.consistent() ==> final(player)@.consistent()
            },
            Err(e) => {
                &&& res == Err::<RewardsClaimed, IdleGameError>(e)
                &&& *final(global) == *old(global)
                &&& *final(player) == *old(player)
            },
        },
{
    match require_active(global) {
        Ok(()) => {},
        Err(e) => {
            return Err(e);
        },
    }
    let mut next = *player;
    let amount = match next.settle(now) {
        Ok(amount) => amount,
        Err(e) => {
            return Err(e);
        },
    };
    let total_tokens_minted = match global.total_tokens_minted.checked_add(amount) {
        Some(total_tokens_minted) => total_tokens_minted,
        None => {
            return Err(IdleGameError::ArithmeticOverflow);
        },
    };
    *player = next;
    global.total_tokens_minted = total_tokens_minted;
    Ok(RewardsClaimed { amount, new_balance: next.balance })
}

/// Credits the player for a deposit of `amount` that the caller has taken
/// in. Returns the currency units credited.
pub fn deposit_sol(global: &GlobalState, player: &mut Player, amount: u64) -> (res: Result<
    u64,
    IdleGameError,
>)
    ensures
        match deposit_outcome(global@, old(player)@, amount) {
            Ok((next, credited)) => {
                &&& res == Ok::<u64, IdleGameError>(credited)
                &&& final(player)@ == next
                &&& old(player)@.consistent() ==> final(player)@.consistent()
            },
            Err(e) => {
                &&& res == Err::<u64, IdleGameError>(e)
                &&& *final(player) == *old(player)
            },
        },
{
    match require_active(global) {
        Ok(()) => {},
        Err(e) => {
            return Err(e);
        },
    }
    let tokens_to_give = match amount.checked_mul(DEPOSIT_RATE) {
        Some(tokens_to_give) => tokens_to_give,
        None => {
            return Err(IdleGameError::ArithmeticOverflow);
        },
    };
    let balance = match player.balance.checked_add(tokens_to_give) {
        Some(balance) => balance,
        None => {
            return Err(IdleGameError::ArithmeticOverflow);
        },
    };
    player.balance = balance;
    Ok(tokens_to_give)
}

/// Takes `amount` out of the player's balance.
pub fn withdraw_tokens(global: &GlobalState, player: &mut Player, amount: u64) -> (res: Result<
    (),
    IdleGameError,
>)
    ensures
        match withdraw_outcome(global@, old(player)@, amount) {
            Ok(next) => {
                &&& res.is_ok()
                &&& final(player)@ == next
                &&& old(player)@.consistent() ==> final(player)@.consistent()
            },
            Err(e) => res == Err::<(), IdleGameError>(e) && *final(player) == *old(player),
        },
{
    match require_active(global) {
        Ok(()) => {},
        Err(e) => {
            return Err(e);
        },
    }
    if player.balance < amount {
        return Err(IdleGameError::InsufficientBalance);
    }
    player.balance = player.balance - amount;
    Ok(())
}

} // verus!
