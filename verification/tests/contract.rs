use staking::{Address, Effect, Env, InstanceKey, StakedBalances, StakingContract, StakingError, Topic};

const POOL: Address = Address::Contract(0, 100);
const TOKEN: Address = Address::Contract(0, 200);
const ADMIN: Address = Address::Account(0, 1);
const ALICE: Address = Address::Account(0, 2);
const BOB: Address = Address::Account(1, 2);

fn configured() -> Env {
    let mut env = Env::new(POOL);
    StakingContract::initialize(&mut env, ADMIN, TOKEN);
    env.effects.clear();
    env
}

#[test]
fn hello_is_fixed() {
    assert_eq!(StakingContract::hello(&Env::new(POOL)), 101112);
}

#[test]
fn deployment_stores_nothing() {
    let env = Env::new(POOL);
    assert_eq!(env.contract, POOL);
    assert_eq!(env.admin, None);
    assert_eq!(env.token, None);
    assert_eq!(env.paused, None);
    assert!(env.effects.is_empty());
    assert_eq!(env.staked.get(ALICE), None);
    assert!(!StakingContract::is_paused(&env));
    assert_eq!(StakingContract::staked_balance(&env, ALICE), 0);
}

#[test]
fn initialize_stores_admin_and_token_unsigned() {
    let mut env = Env::new(POOL);
    StakingContract::initialize(&mut env, ADMIN, TOKEN);
    assert_eq!(StakingContract::admin(&env), ADMIN);
    assert_eq!(env.token, Some(TOKEN));
    assert_eq!(env.paused, None);
    assert_eq!(env.effects, vec![Effect::SetAdmin(ADMIN), Effect::SetToken(TOKEN)]);
}

#[test]
fn pause_and_unpause_take_the_admin_signature() {
    let mut env = configured();
    StakingContract::pause(&mut env);
    assert!(StakingContract::is_paused(&env));
    assert_eq!(env.paused, Some(true));
    assert_eq!(
        env.effects,
        vec![
            Effect::RequireAuth(ADMIN),
            Effect::SetPaused(true),
            Effect::Publish(Topic::Paused)
        ]
    );
    env.effects.clear();
    StakingContract::unpause(&mut env);
    assert!(!StakingContract::is_paused(&env));
    assert_eq!(env.paused, Some(false));
    assert_eq!(
        env.effects,
        vec![
            Effect::RequireAuth(ADMIN),
            Effect::SetPaused(false),
            Effect::Publish(Topic::Unpaused)
        ]
    );
}

#[test]
fn stake_moves_tokens_and_records_them() {
    let mut env = configured();
    assert_eq!(StakingContract::stake(&mut env, ALICE, 500), Ok(500));
    assert_eq!(StakingContract::staked_balance(&env, ALICE), 500);
    assert_eq!(StakingContract::staked_balance(&env, BOB), 0);
    assert_eq!(
        env.effects,
        vec![
            Effect::RequireAuth(ALICE),
            Effect::Transfer { token: TOKEN, from: ALICE, to: POOL, amount: 500 },
            Effect::SetStaked(ALICE, 500)
        ]
    );
}

#[test]
fn unstake_hands_tokens_back() {
    let mut env = configured();
    env.staked.set(ALICE, 500);
    assert_eq!(StakingContract::unstake(&mut env, ALICE, 200), Ok(200));
    assert_eq!(StakingContract::staked_balance(&env, ALICE), 300);
    assert_eq!(
        env.effects,
        vec![
            Effect::RequireAuth(ALICE),
            Effect::Transfer { token: TOKEN, from: POOL, to: ALICE, amount: 200 },
            Effect::SetStaked(ALICE, 300)
        ]
    );
}

#[test]
fn unstaking_everything_leaves_a_zero_entry() {
    let mut env = configured();
    env.staked.set(ALICE, 7);
    assert_eq!(StakingContract::unstake(&mut env, ALICE, 7), Ok(7));
    assert_eq!(env.staked.get(ALICE), Some(0));
}

#[test]
fn stake_fills_the_balance_to_its_limit() {
    let mut env = configured();
    assert_eq!(StakingContract::stake(&mut env, ALICE, i128::MAX - 1), Ok(i128::MAX - 1));
    assert_eq!(StakingContract::stake(&mut env, ALICE, 1), Ok(1));
    assert_eq!(StakingContract::staked_balance(&env, ALICE), i128::MAX);
    assert_eq!(StakingContract::unstake(&mut env, ALICE, i128::MAX), Ok(i128::MAX));
    assert_eq!(StakingContract::staked_balance(&env, ALICE), 0);
}

#[test]
fn non_positive_amounts_are_invalid() {
    for amount in [0, -1, i128::MIN] {
        let mut env = configured();
        env.staked.set(ALICE, 10);
        assert_eq!(
            StakingContract::stake(&mut env, ALICE, amount),
            Err(StakingError::InvalidAmount)
        );
        assert_eq!(
            StakingContract::unstake(&mut env, ALICE, amount),
            Err(StakingError::InvalidAmount)
        );
        assert_eq!(
            env.effects,
            vec![Effect::RequireAuth(ALICE), Effect::RequireAuth(ALICE)]
        );
        assert_eq!(env.staked.get(ALICE), Some(10));
    }
}

#[test]
fn stake_before_configuration_is_refused() {
    let mut env = Env::new(POOL);
    assert_eq!(StakingContract::stake(&mut env, ALICE, 5), Err(StakingError::NotInitialized));
    assert_eq!(env.effects, vec![Effect::RequireAuth(ALICE)]);
    assert_eq!(env.staked.get(ALICE), None);
}

#[test]
fn unstake_before_configuration_is_refused() {
    let mut env = Env::new(POOL);
    assert_eq!(StakingContract::unstake(&mut env, ALICE, 1), Err(StakingError::NotInitialized));
    assert_eq!(env.effects, vec![Effect::RequireAuth(ALICE)]);
    assert_eq!(StakingContract::staked_balance(&env, ALICE), 0);
    assert_eq!(env.staked.get(ALICE), None);
}

#[test]
fn an_invalid_number_of_shares_comes_before_a_missing_token() {
    let mut env = Env::new(POOL);
    assert_eq!(StakingContract::unstake(&mut env, ALICE, 0), Err(StakingError::InvalidAmount));
}

#[test]
fn stake_fits_tells_a_full_balance() {
    let mut env = configured();
    env.staked.set(ALICE, i128::MAX - 5);
    assert!(StakingContract::stake_fits(&env, ALICE, 5));
    assert!(!StakingContract::stake_fits(&env, ALICE, 6));
    assert!(StakingContract::stake_fits(&env, BOB, i128::MAX));
    assert!(StakingContract::stake_fits(&env, ALICE, i128::MIN));
    env.token = None;
    assert!(StakingContract::stake_fits(&env, ALICE, 6));
    env.token = Some(TOKEN);
    env.paused = Some(true);
    assert!(StakingContract::stake_fits(&env, ALICE, 6));
}

#[test]
fn unstaking_more_than_staked_is_refused() {
    let mut env = configured();
    env.staked.set(ALICE, 500);
    assert_eq!(
        StakingContract::unstake(&mut env, ALICE, 501),
        Err(StakingError::InsufficientStake)
    );
    assert_eq!(
        StakingContract::unstake(&mut env, BOB, 1),
        Err(StakingError::InsufficientStake)
    );
    assert_eq!(env.effects, vec![Effect::RequireAuth(ALICE), Effect::RequireAuth(BOB)]);
    assert_eq!(env.staked.get(ALICE), Some(500));
    assert_eq!(env.staked.get(BOB), None);
}

#[test]
fn pause_comes_before_every_other_refusal() {
    let mut env = configured();
    env.paused = Some(true);
    assert_eq!(StakingContract::stake(&mut env, ALICE, 5), Err(StakingError::Paused));
    assert_eq!(StakingContract::stake(&mut env, ALICE, 0), Err(StakingError::Paused));
    assert_eq!(StakingContract::unstake(&mut env, ALICE, 5), Err(StakingError::Paused));
    assert_eq!(StakingContract::unstake(&mut env, ALICE, -5), Err(StakingError::Paused));
    assert!(env.effects.is_empty());
    env.token = None;
    assert_eq!(StakingContract::stake(&mut env, ALICE, 5), Err(StakingError::Paused));
}

#[test]
fn an_invalid_amount_comes_before_a_missing_token() {
    let mut env = Env::new(POOL);
    assert_eq!(StakingContract::stake(&mut env, ALICE, 0), Err(StakingError::InvalidAmount));
}

#[test]
fn error_numbers() {
    assert_eq!(StakingError::NotInitialized.code(), 1);
    assert_eq!(StakingError::AlreadyInitialized.code(), 2);
    assert_eq!(StakingError::Paused.code(), 3);
    assert_eq!(StakingError::InvalidAmount.code(), 4);
    assert_eq!(StakingError::InsufficientStake.code(), 5);
    assert!(StakingError::NotInitialized < StakingError::InsufficientStake);
}

#[test]
fn symbols_on_the_ledger() {
    assert_eq!(InstanceKey::Admin.symbol(), "ADMIN");
    assert_eq!(InstanceKey::Paused.symbol(), "PAUSED");
    assert_eq!(InstanceKey::Token.symbol(), "TOKEN");
    assert_eq!(Topic::Paused.symbol(), "PAUSED");
    assert_eq!(Topic::Unpaused.symbol(), "UNPAUSED");
}

#[test]
fn balances_keep_one_entry_per_staker() {
    let mut balances = StakedBalances::new();
    assert_eq!(balances.get(ALICE), None);
    balances.set(ALICE, 1);
    balances.set(BOB, 2);
    balances.set(ALICE, 3);
    assert_eq!(balances.get(ALICE), Some(3));
    assert_eq!(balances.get(BOB), Some(2));
    assert_eq!(balances.get(Address::Contract(0, 2)), None);
}
