use idle_game::constants::{calculate_production_rate, get_generator_cost};
use idle_game::engine::{
    claim_rewards, deposit_sol, initialize, initialize_player, purchase_generator, require_active,
    withdraw_tokens, DEPOSIT_RATE,
};
use idle_game::errors::IdleGameError;
use idle_game::state::{
    GeneratorPurchased, GlobalState, Player, PlayerInitialized, RewardsClaimed,
};

const ADMIN: [u8; 32] = [1; 32];
const MINT: [u8; 32] = [2; 32];
const ALICE: [u8; 32] = [3; 32];
const T: i64 = 1_700_000_000;

fn game() -> GlobalState {
    initialize(ADMIN, MINT, 255)
}

fn paused_game() -> GlobalState {
    let mut global = game();
    global.game_active = false;
    global
}

fn join(global: &mut GlobalState, now: i64) -> Player {
    match initialize_player(global, ALICE, 250, now) {
        Ok((player, _)) => player,
        Err(e) => panic!("joining failed: {}", e.message()),
    }
}

#[test]
fn a_new_game_is_running_and_empty() {
    let global = game();
    assert_eq!(global.authority, ADMIN);
    assert_eq!(global.token_mint, MINT);
    assert_eq!(global.bump, 255);
    assert_eq!(global.total_players, 0);
    assert_eq!(global.total_tokens_minted, 0);
    assert!(global.game_active);
    assert_eq!(require_active(&global), Ok(()));
    assert_eq!(require_active(&paused_game()), Err(IdleGameError::GamePaused));
}

#[test]
fn joining_creates_a_fresh_player_and_counts_them() {
    let mut global = game();
    let res = initialize_player(&mut global, ALICE, 250, T);
    let expected = Player {
        authority: ALICE,
        balance: 0,
        generators: [0; 10],
        last_claim_time: T,
        total_earned: 0,
        production_rate: 0,
        bump: 250,
    };
    assert_eq!(res, Ok((expected, PlayerInitialized { authority: ALICE })));
    assert_eq!(global.total_players, 1);
    assert_eq!(global.total_tokens_minted, 0);
    let _ = join(&mut global, T + 5);
    let _ = join(&mut global, T + 6);
    assert_eq!(global.total_players, 3);
}

#[test]
fn joining_is_refused_while_paused() {
    let mut global = paused_game();
    let before = global;
    assert_eq!(initialize_player(&mut global, ALICE, 250, T), Err(IdleGameError::GamePaused));
    assert_eq!(global, before);
}

#[test]
fn joining_is_refused_when_the_player_count_is_full() {
    let mut global = game();
    global.total_players = u64::MAX;
    let before = global;
    assert_eq!(
        initialize_player(&mut global, ALICE, 250, T),
        Err(IdleGameError::ArithmeticOverflow)
    );
    assert_eq!(global, before);
    global.total_players = u64::MAX - 1;
    assert!(initialize_player(&mut global, ALICE, 250, T).is_ok());
    assert_eq!(global.total_players, u64::MAX);
}

#[test]
fn first_purchase_with_the_exact_price() {
    let mut global = game();
    let mut player = join(&mut global, T);
    player.balance = 10_000_000_000;
    let res = purchase_generator(&global, &mut player, 0);
    assert_eq!(
        res,
        Ok(GeneratorPurchased { generator_id: 0, cost: 10_000_000_000, new_count: 1 })
    );
    assert_eq!(player.balance, 0);
    assert_eq!(player.generators[0], 1);
    assert_eq!(player.generators, [1, 0, 0, 0, 0, 0, 0, 0, 0, 0]);
    assert_eq!(player.production_rate, 1_000_000_000);
    assert_eq!(player.last_claim_time, T);
    assert_eq!(player.total_earned, 0);
}

#[test]
fn second_purchase_without_funds() {
    let mut global = game();
    let mut player = join(&mut global, T);
    player.balance = 10_000_000_000;
    assert!(purchase_generator(&global, &mut player, 0).is_ok());
    assert_eq!(get_generator_cost(0, player.generators[0]), Ok(11_500_000_000));
    let before = player;
    assert_eq!(
        purchase_generator(&global, &mut player, 0),
        Err(IdleGameError::InsufficientBalance)
    );
    assert_eq!(player, before);
    assert_eq!(player.balance, 0);
    assert_eq!(player.generators[0], 1);
}

#[test]
fn purchase_one_unit_short_of_the_price() {
    let global = game();
    let mut player = Player::initialize(ALICE, 250, T);
    player.generators[0] = 1;
    player.production_rate = 1_000_000_000;
    player.balance = 11_499_999_999;
    let before = player;
    assert_eq!(
        purchase_generator(&global, &mut player, 0),
        Err(IdleGameError::InsufficientBalance)
    );
    assert_eq!(player, before);
    player.balance = 11_500_000_000;
    assert_eq!(
        purchase_generator(&global, &mut player, 0),
        Ok(GeneratorPurchased { generator_id: 0, cost: 11_500_000_000, new_count: 2 })
    );
    assert_eq!(player.balance, 0);
}

#[test]
fn price_follows_the_holding_of_the_kind_bought() {
    let global = game();
    let mut player = Player::initialize(ALICE, 250, T);
    player.balance = 1_000_000_000_000;
    let first = purchase_generator(&global, &mut player, 0);
    let second = purchase_generator(&global, &mut player, 0);
    let other = purchase_generator(&global, &mut player, 1);
    let third = purchase_generator(&global, &mut player, 0);
    assert_eq!(first.map(|e| e.cost), Ok(10_000_000_000));
    assert_eq!(second.map(|e| e.cost), Ok(11_500_000_000));
    assert_eq!(other.map(|e| e.cost), Ok(100_000_000_000));
    assert_eq!(
        third,
        Ok(GeneratorPurchased { generator_id: 0, cost: 13_224_999_999, new_count: 3 })
    );
    assert_eq!(player.balance, 1_000_000_000_000 - 134_724_999_999);
    assert_eq!(player.generators, [3, 1, 0, 0, 0, 0, 0, 0, 0, 0]);
    assert_eq!(player.production_rate, 18_000_000_000);
}

#[test]
fn purchase_refuses_an_unknown_kind() {
    let global = game();
    let mut player = Player::initialize(ALICE, 250, T);
    player.balance = u64::MAX;
    let before = player;
    assert_eq!(
        purchase_generator(&global, &mut player, 5),
        Err(IdleGameError::InvalidGeneratorType)
    );
    assert_eq!(
        purchase_generator(&global, &mut player, 200),
        Err(IdleGameError::InvalidGeneratorType)
    );
    assert_eq!(player, before);
}

#[test]
fn purchase_is_refused_while_paused() {
    let global = paused_game();
    let mut player = Player::initialize(ALICE, 250, T);
    player.balance = u64::MAX;
    let before = player;
    assert_eq!(purchase_generator(&global, &mut player, 0), Err(IdleGameError::GamePaused));
    assert_eq!(purchase_generator(&global, &mut player, 77), Err(IdleGameError::GamePaused));
    assert_eq!(player, before);
}

#[test]
fn purchase_that_cannot_add_takes_no_payment() {
    let global = game();
    let mut player = Player::initialize(ALICE, 250, T);
    player.generators[0] = u32::MAX;
    player.production_rate = 4_294_967_295_000_000_000;
    player.balance = u64::MAX;
    let before = player;
    assert_eq!(get_generator_cost(0, u32::MAX), Ok(u64::MAX));
    assert_eq!(
        purchase_generator(&global, &mut player, 0),
        Err(IdleGameError::MaxGeneratorsReached)
    );
    assert_eq!(player, before);
    assert_eq!(player.balance, u64::MAX);
}

#[test]
fn purchase_that_would_overflow_the_rate_takes_no_payment() {
    let global = game();
    let mut player = Player::initialize(ALICE, 250, T);
    player.generators[4] = 558_992;
    player.production_rate = 18_446_736_000_000_000_000;
    player.balance = u64::MAX;
    let before = player;
    assert_eq!(
        purchase_generator(&global, &mut player, 4),
        Err(IdleGameError::ArithmeticOverflow)
    );
    assert_eq!(player, before);
}

#[test]
fn purchase_at_a_clamped_price() {
    let global = game();
    let mut player = Player::initialize(ALICE, 250, T);
    player.generators[0] = 200;
    player.production_rate = 200_000_000_000;
    player.balance = u64::MAX - 1;
    let before = player;
    assert_eq!(
        purchase_generator(&global, &mut player, 0),
        Err(IdleGameError::InsufficientBalance)
    );
    assert_eq!(player, before);
    player.balance = u64::MAX;
    assert_eq!(
        purchase_generator(&global, &mut player, 0),
        Ok(GeneratorPurchased { generator_id: 0, cost: u64::MAX, new_count: 201 })
    );
    assert_eq!(player.balance, 0);
    assert_eq!(player.production_rate, 201_000_000_000);
}

#[test]
fn production_rate_stays_consistent_through_play() {
    let mut global = game();
    let mut player = join(&mut global, T);
    assert_eq!(deposit_sol(&global, &mut player, 1_000_000_000), Ok(5_000_000_000_000));
    let mut now = T;
    for round in 0..40u8 {
        let _ = purchase_generator(&global, &mut player, round % 6);
        assert_eq!(Ok(player.production_rate), calculate_production_rate(&player.generators));
        now += 3;
        let _ = claim_rewards(&mut global, &mut player, now);
        assert_eq!(Ok(player.production_rate), calculate_production_rate(&player.generators));
        let _ = withdraw_tokens(&global, &mut player, 1_000);
        assert_eq!(Ok(player.production_rate), calculate_production_rate(&player.generators));
    }
    assert!(player.production_rate > 0);
}

#[test]
fn counters_never_decrease_through_play() {
    let mut global = game();
    let mut player = join(&mut global, T);
    assert!(deposit_sol(&global, &mut player, 40_000_000).is_ok());
    let times = [T + 10, T + 5, T + 10, T + 11, T - 100, T + 500, T + 500, T + 499];
    for (round, now) in times.iter().enumerate() {
        let earned = player.total_earned;
        let claimed_at = player.last_claim_time;
        let players = global.total_players;
        let minted = global.total_tokens_minted;
        let _ = purchase_generator(&global, &mut player, (round % 2) as u8);
        let _ = claim_rewards(&mut global, &mut player, *now);
        let _ = withdraw_tokens(&global, &mut player, 5);
        let _ = join(&mut global, *now);
        assert!(player.total_earned >= earned);
        assert!(player.last_claim_time >= claimed_at);
        assert!(global.total_players > players);
        assert!(global.total_tokens_minted >= minted);
        assert_eq!(global.total_tokens_minted, player.total_earned);
    }
    assert_eq!(player.last_claim_time, T + 500);
    assert_eq!(global.total_players, 9);
}

#[test]
fn claim_after_a_hundred_seconds() {
    let mut global = game();
    let mut player = join(&mut global, T);
    player.production_rate = 1_000_000_000;
    player.generators[0] = 1;
    player.balance = 42;
    player.total_earned = 1_000;
    let res = claim_rewards(&mut global, &mut player, T + 100);
    assert_eq!(
        res,
        Ok(RewardsClaimed { amount: 100_000_000_000, new_balance: 100_000_000_042 })
    );
    assert_eq!(player.balance, 42 + 100_000_000_000);
    assert_eq!(player.total_earned, 1_000 + 100_000_000_000);
    assert_eq!(player.last_claim_time, T + 100);
    assert_eq!(global.total_tokens_minted, 100_000_000_000);
    assert_eq!(global.total_players, 1);
}

#[test]
fn claim_twice_without_elapsed_time() {
    let mut global = game();
    let mut player = join(&mut global, T);
    player.production_rate = 1_000_000_000;
    player.generators[0] = 1;
    assert!(claim_rewards(&mut global, &mut player, T + 100).is_ok());
    let before = player;
    let global_before = global;
    assert_eq!(
        claim_rewards(&mut global, &mut player, T + 100),
        Err(IdleGameError::NoRewardsToClaim)
    );
    assert_eq!(player, before);
    assert_eq!(global, global_before);
}

#[test]
fn claim_at_the_time_of_joining() {
    let mut global = game();
    let mut player = join(&mut global, T);
    player.production_rate = 1_000_000_000;
    assert_eq!(player.calculate_pending_rewards(T), Ok(0));
    assert_eq!(claim_rewards(&mut global, &mut player, T), Err(IdleGameError::NoRewardsToClaim));
}

#[test]
fn claim_after_the_clock_went_back() {
    let mut global = game();
    let mut player = join(&mut global, T);
    player.production_rate = 1_000_000_000;
    let before = player;
    let global_before = global;
    assert_eq!(player.calculate_pending_rewards(T - 1), Ok(0));
    assert_eq!(
        claim_rewards(&mut global, &mut player, T - 1),
        Err(IdleGameError::NoRewardsToClaim)
    );
    assert_eq!(
        claim_rewards(&mut global, &mut player, i64::MIN),
        Err(IdleGameError::NoRewardsToClaim)
    );
    assert_eq!(player.last_claim_time, T);
    assert_eq!(player, before);
    assert_eq!(global, global_before);
    assert!(claim_rewards(&mut global, &mut player, T + 1).is_ok());
    assert_eq!(player.last_claim_time, T + 1);
}

#[test]
fn claim_without_generators() {
    let mut global = game();
    let mut player = join(&mut global, T);
    assert_eq!(
        claim_rewards(&mut global, &mut player, T + 3_600),
        Err(IdleGameError::NoRewardsToClaim)
    );
    assert_eq!(player.last_claim_time, T);
}

#[test]
fn claim_is_refused_while_paused() {
    let mut global = paused_game();
    let mut player = Player::initialize(ALICE, 250, T);
    player.production_rate = 1_000_000_000;
    let before = player;
    let global_before = global;
    assert_eq!(claim_rewards(&mut global, &mut player, T + 100), Err(IdleGameError::GamePaused));
    assert_eq!(claim_rewards(&mut global, &mut player, T - 100), Err(IdleGameError::GamePaused));
    assert_eq!(player, before);
    assert_eq!(global, global_before);
}

#[test]
fn claim_of_a_saturated_amount() {
    let mut global = game();
    let mut player = join(&mut global, 0);
    player.production_rate = u64::MAX;
    assert_eq!(
        claim_rewards(&mut global, &mut player, 2),
        Ok(RewardsClaimed { amount: u64::MAX, new_balance: u64::MAX })
    );
    assert_eq!(player.total_earned, u64::MAX);
    assert_eq!(global.total_tokens_minted, u64::MAX);
    let before = player;
    let global_before = global;
    assert_eq!(
        claim_rewards(&mut global, &mut player, 3),
        Err(IdleGameError::ArithmeticOverflow)
    );
    assert_eq!(player, before);
    assert_eq!(global, global_before);
}

#[test]
fn claim_that_would_overflow_the_total_paid_out() {
    let mut global = game();
    let mut player = join(&mut global, 0);
    player.production_rate = 10;
    global.total_tokens_minted = u64::MAX - 99;
    let before = player;
    let global_before = global;
    assert_eq!(
        claim_rewards(&mut global, &mut player, 10),
        Err(IdleGameError::ArithmeticOverflow)
    );
    assert_eq!(player, before);
    assert_eq!(global, global_before);
    global.total_tokens_minted = u64::MAX - 100;
    assert_eq!(
        claim_rewards(&mut global, &mut player, 10),
        Ok(RewardsClaimed { amount: 100, new_balance: 100 })
    );
    assert_eq!(global.total_tokens_minted, u64::MAX);
}

#[test]
fn claim_over_an_elapsed_time_beyond_the_signed_range() {
    let mut global = game();
    let mut player = join(&mut global, -10);
    player.production_rate = 1;
    assert_eq!(
        claim_rewards(&mut global, &mut player, i64::MAX),
        Ok(RewardsClaimed {
            amount: 9_223_372_036_854_775_817,
            new_balance: 9_223_372_036_854_775_817
        })
    );
    assert_eq!(player.last_claim_time, i64::MAX);
    assert_eq!(global.total_tokens_minted, 9_223_372_036_854_775_817);
}

#[test]
fn deposit_credits_five_thousand_per_unit() {
    let global = game();
    let mut player = Player::initialize(ALICE, 250, T);
    assert_eq!(DEPOSIT_RATE, 5000);
    assert_eq!(deposit_sol(&global, &mut player, 200_000_000), Ok(1_000_000_000_000));
    assert_eq!(player.balance, 1_000_000_000_000);
    assert_eq!(deposit_sol(&global, &mut player, 0), Ok(0));
    assert_eq!(deposit_sol(&global, &mut player, 1), Ok(5_000));
    assert_eq!(player.balance, 1_000_000_005_000);
    assert_eq!(player.total_earned, 0);
    assert_eq!(player.last_claim_time, T);
}

#[test]
fn deposit_refuses_amounts_beyond_the_range() {
    let global = game();
    let mut player = Player::initialize(ALICE, 250, T);
    player.balance = 1_616;
    let before = player;
    assert_eq!(
        deposit_sol(&global, &mut player, u64::MAX / 5000 + 1),
        Err(IdleGameError::ArithmeticOverflow)
    );
    assert_eq!(
        deposit_sol(&global, &mut player, u64::MAX / 5000),
        Err(IdleGameError::ArithmeticOverflow)
    );
    assert_eq!(player, before);
    player.balance = 1_615;
    assert_eq!(
        deposit_sol(&global, &mut player, u64::MAX / 5000),
        Ok(18_446_744_073_709_550_000)
    );
    assert_eq!(player.balance, u64::MAX);
}

#[test]
fn deposit_is_refused_while_paused() {
    let global = paused_game();
    let mut player = Player::initialize(ALICE, 250, T);
    let before = player;
    assert_eq!(deposit_sol(&global, &mut player, 1), Err(IdleGameError::GamePaused));
    assert_eq!(player, before);
}

#[test]
fn withdraw_takes_the_amount_out() {
    let global = game();
    let mut player = Player::initialize(ALICE, 250, T);
    player.balance = 1_000;
    assert_eq!(withdraw_tokens(&global, &mut player, 400), Ok(()));
    assert_eq!(player.balance, 600);
    assert_eq!(withdraw_tokens(&global, &mut player, 0), Ok(()));
    assert_eq!(withdraw_tokens(&global, &mut player, 600), Ok(()));
    assert_eq!(player.balance, 0);
}

#[test]
fn withdraw_refuses_more_than_the_balance() {
    let global = game();
    let mut player = Player::initialize(ALICE, 250, T);
    player.balance = 1_000;
    let before = player;
    assert_eq!(
        withdraw_tokens(&global, &mut player, 1_001),
        Err(IdleGameError::InsufficientBalance)
    );
    assert_eq!(
        withdraw_tokens(&global, &mut player, u64::MAX),
        Err(IdleGameError::InsufficientBalance)
    );
    assert_eq!(player, before);
}

#[test]
fn withdraw_is_refused_while_paused() {
    let global = paused_game();
    let mut player = Player::initialize(ALICE, 250, T);
    player.balance = 1_000;
    let before = player;
    assert_eq!(withdraw_tokens(&global, &mut player, 1), Err(IdleGameError::GamePaused));
    assert_eq!(player, before);
}
