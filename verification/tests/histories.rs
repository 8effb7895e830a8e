use staking::{Address, Effect, Env, StakingContract, StakingError};

const POOL: Address = Address::Contract(9, 9);
const TOKEN: Address = Address::Contract(8, 8);
const ADMIN: Address = Address::Account(7, 7);
const ALICE: Address = Address::Account(1, 0);
const BOB: Address = Address::Account(2, 0);

fn configured() -> Env {
    let mut env = Env::new(POOL);
    StakingContract::initialize(&mut env, ADMIN, TOKEN);
    env
}

fn moved(env: &Env, from: Option<Address>, to: Option<Address>) -> i128 {
    let mut sum = 0;
    for effect in &env.effects {
        if let Effect::Transfer { from: f, to: t, amount, .. } = effect {
            if from.map_or(true, |a| a == *f) && to.map_or(true, |a| a == *t) {
                sum += amount;
            }
        }
    }
    sum
}

/// What the host stores when it carries the requests out.
fn replayed(env: &Env) -> Env {
    let mut host = Env::new(env.contract);
    for effect in &env.effects {
        match effect {
            Effect::SetAdmin(a) => host.admin = Some(*a),
            Effect::SetToken(a) => host.token = Some(*a),
            Effect::SetPaused(flag) => host.paused = Some(*flag),
            Effect::SetStaked(a, amount) => host.staked.set(*a, *amount),
            Effect::RequireAuth(_) | Effect::Transfer { .. } | Effect::Publish(_) => {}
        }
    }
    host
}

fn busy() -> Env {
    let mut env = configured();
    assert_eq!(StakingContract::stake(&mut env, ALICE, 500), Ok(500));
    assert_eq!(StakingContract::stake(&mut env, BOB, 70), Ok(70));
    assert_eq!(StakingContract::unstake(&mut env, ALICE, 120), Ok(120));
    assert_eq!(
        StakingContract::unstake(&mut env, BOB, 71),
        Err(StakingError::InsufficientStake)
    );
    StakingContract::pause(&mut env);
    assert_eq!(StakingContract::stake(&mut env, BOB, 1), Err(StakingError::Paused));
    StakingContract::unpause(&mut env);
    assert_eq!(StakingContract::stake(&mut env, ALICE, 3), Ok(3));
    env
}

#[test]
fn a_deposit_can_be_taken_back() {
    let mut env = busy();
    assert_eq!(StakingContract::stake(&mut env, ALICE, 41), Ok(41));
    assert_eq!(StakingContract::unstake(&mut env, ALICE, 41), Ok(41));
    assert_eq!(StakingContract::staked_balance(&env, ALICE), 383);
    assert_eq!(StakingContract::staked_balance(&env, BOB), 70);
}

#[test]
fn a_withdrawal_can_be_put_back() {
    let mut env = busy();
    assert_eq!(StakingContract::unstake(&mut env, BOB, 70), Ok(70));
    assert_eq!(StakingContract::stake(&mut env, BOB, 70), Ok(70));
    assert_eq!(StakingContract::staked_balance(&env, BOB), 70);
}

#[test]
fn deposits_and_withdrawals_add_up() {
    let mut twice = configured();
    let mut once = configured();
    assert_eq!(StakingContract::stake(&mut twice, ALICE, 30), Ok(30));
    assert_eq!(StakingContract::stake(&mut twice, ALICE, 12), Ok(12));
    assert_eq!(StakingContract::stake(&mut once, ALICE, 42), Ok(42));
    assert_eq!(twice.staked.get(ALICE), Some(42));
    assert_eq!(once.staked.get(ALICE), Some(42));
    assert_eq!(StakingContract::unstake(&mut twice, ALICE, 1), Ok(1));
    assert_eq!(StakingContract::unstake(&mut twice, ALICE, 2), Ok(2));
    assert_eq!(StakingContract::unstake(&mut once, ALICE, 3), Ok(3));
    assert_eq!(twice.staked.get(ALICE), Some(39));
    assert_eq!(once.staked.get(ALICE), Some(39));
}

#[test]
fn balances_are_net_deposits() {
    let env = busy();
    assert_eq!(StakingContract::staked_balance(&env, ALICE), 383);
    assert_eq!(moved(&env, Some(ALICE), Some(POOL)), 503);
    assert_eq!(moved(&env, Some(POOL), Some(ALICE)), 120);
    assert_eq!(StakingContract::staked_balance(&env, BOB), 70);
    assert_eq!(moved(&env, Some(BOB), Some(POOL)), 70);
    assert_eq!(moved(&env, Some(POOL), Some(BOB)), 0);
}

#[test]
fn stakes_are_covered_by_what_the_pool_received() {
    let env = busy();
    assert_eq!(moved(&env, None, Some(POOL)) - moved(&env, Some(POOL), None), 383 + 70);
}

#[test]
fn a_pool_that_stakes_with_itself_is_not_covered() {
    let mut env = configured();
    assert_eq!(StakingContract::stake(&mut env, POOL, 5), Ok(5));
    assert_eq!(StakingContract::staked_balance(&env, POOL), 5);
    assert_eq!(moved(&env, None, Some(POOL)) - moved(&env, Some(POOL), None), 0);
}

#[test]
fn balances_are_what_was_accepted_even_for_the_pool() {
    let mut env = busy();
    assert_eq!(StakingContract::stake(&mut env, POOL, 5), Ok(5));
    assert_eq!(StakingContract::unstake(&mut env, POOL, 6), Err(StakingError::InsufficientStake));
    assert_eq!(StakingContract::unstake(&mut env, POOL, 2), Ok(2));
    assert_eq!(StakingContract::staked_balance(&env, POOL), 5 - 2);
    assert_eq!(StakingContract::staked_balance(&env, ALICE), 500 - 120 + 3);
    assert_eq!(StakingContract::staked_balance(&env, BOB), 70);
}

#[test]
fn the_pause_flag_follows_the_calls() {
    let mut env = configured();
    assert!(!StakingContract::is_paused(&env));
    StakingContract::unpause(&mut env);
    assert!(!StakingContract::is_paused(&env));
    StakingContract::pause(&mut env);
    StakingContract::pause(&mut env);
    assert_eq!(StakingContract::stake(&mut env, ALICE, 1), Err(StakingError::Paused));
    assert!(StakingContract::is_paused(&env));
    StakingContract::unpause(&mut env);
    assert_eq!(StakingContract::stake(&mut env, ALICE, 1), Ok(1));
    assert!(!StakingContract::is_paused(&env));
}

#[test]
fn the_configuration_comes_from_initialize() {
    let mut env = Env::new(POOL);
    assert_eq!(StakingContract::stake(&mut env, ALICE, 1), Err(StakingError::NotInitialized));
    assert_eq!(env.admin, None);
    assert_eq!(env.token, None);
    StakingContract::initialize(&mut env, ADMIN, TOKEN);
    assert_eq!(StakingContract::stake(&mut env, ALICE, 1), Ok(1));
    assert_eq!(env.admin, Some(ADMIN));
    assert_eq!(env.token, Some(TOKEN));
}

#[test]
fn the_requests_carry_out_every_call() {
    let env = busy();
    let host = replayed(&env);
    assert_eq!(host.admin, env.admin);
    assert_eq!(host.token, env.token);
    assert_eq!(host.paused, env.paused);
    assert_eq!(host.staked.get(ALICE), env.staked.get(ALICE));
    assert_eq!(host.staked.get(BOB), env.staked.get(BOB));
    assert_eq!(host.staked.get(ADMIN), None);
}

#[test]
fn the_configuration_is_final() {
    let env = busy();
    assert_eq!(StakingContract::admin(&env), ADMIN);
    assert_eq!(env.token, Some(TOKEN));
}

#[test]
fn a_pause_lasts_until_it_is_lifted() {
    let mut env = busy();
    StakingContract::pause(&mut env);
    StakingContract::pause(&mut env);
    for _ in 0..3 {
        assert_eq!(StakingContract::stake(&mut env, ALICE, 1), Err(StakingError::Paused));
        assert_eq!(StakingContract::unstake(&mut env, ALICE, 1), Err(StakingError::Paused));
    }
    assert_eq!(StakingContract::staked_balance(&env, ALICE), 383);
    StakingContract::unpause(&mut env);
    assert_eq!(StakingContract::unstake(&mut env, ALICE, 383), Ok(383));
}

#[test]
fn transfers_are_positive_amounts_of_the_token() {
    let env = busy();
    let mut count = 0;
    for effect in &env.effects {
        if let Effect::Transfer { token, from, to, amount } = effect {
            assert_eq!(*token, TOKEN);
            assert!(*from == POOL || *to == POOL);
            assert!(*amount > 0);
            count += 1;
        }
    }
    assert_eq!(count, 4);
}

#[test]
fn only_the_own_balance_matters() {
    let mut crowded = busy();
    let mut lonely = configured();
    lonely.staked.set(ALICE, 383);
    crowded.effects.clear();
    lonely.effects.clear();
    assert_eq!(StakingContract::unstake(&mut crowded, ALICE, 384), Err(StakingError::InsufficientStake));
    assert_eq!(StakingContract::unstake(&mut lonely, ALICE, 384), Err(StakingError::InsufficientStake));
    assert_eq!(StakingContract::stake(&mut crowded, ALICE, 17), Ok(17));
    assert_eq!(StakingContract::stake(&mut lonely, ALICE, 17), Ok(17));
    assert_eq!(crowded.effects, lonely.effects);
    assert_eq!(crowded.staked.get(BOB), Some(70));
}
