use vstd::prelude::*;

use crate::address::Address;
use crate::env::{Effect, Env, Topic};
use crate::error::StakingError;

verus! {

/// The staking contract.
pub struct StakingContract;

impl StakingContract {
    /// A fixed value for contract liveness checks.
    pub fn hello(_env: &Env) -> (value: u32)
        ensures
            value == 101112,
    {
        101112
    }

    /// Configures the contract with its administrator and with the token that
    /// is staked. This happens once, right after deployment, and anyone may do
    /// it; a contract that has an administrator must not be configured again.
    pub fn initialize(env: &mut Env, admin: Address, token: Address)
        requires
            old(env)@.storage.admin is None,
        ensures
            final(env)@ == old(env)@.after_initialize(admin, token),
    {
        env.admin = Some(admin);
        env.effects.push(Effect::SetAdmin(admin));
        env.token = Some(token);
        env.effects.push(Effect::SetToken(token));
        assert(env@ =~= old(env)@.after_initialize(admin, token));
    }

    /// The administrator of a configured contract.
    pub fn admin(env: &Env) -> (admin: Address)
        requires
            env@.storage.admin is Some,
        ensures
            Some(admin) == env@.storage.admin,
            env.admin == Some(admin),
    {
        env.admin.unwrap()
    }

    /// Suspends [`StakingContract::stake`] and [`StakingContract::unstake`].
    /// Takes the administrator's signature.
    pub fn pause(env: &mut Env)
        requires
            old(env)@.storage.admin is Some,
        ensures
            final(env)@ == old(env)@.after_set_paused(true),
    {
        let admin = Self::admin(env);
        env.effects.push(Effect::RequireAuth(admin));
        env.paused = Some(true);
        env.effects.push(Effect::SetPaused(true));
        env.effects.push(Effect::Publish(Topic::Paused));
        assert(env@ =~= old(env)@.after_set_paused(true));
    }

    /// Lets [`StakingContract::stake`] and [`StakingContract::unstake`] work
    /// again. Takes the administrator's signature.
    pub fn unpause(env: &mut Env)
        requires
            old(env)@.storage.admin is Some,
        ensures
            final(env)@ == old(env)@.after_set_paused(false),
    {
        let admin = Self::admin(env);
        env.effects.push(Effect::RequireAuth(admin));
        env.paused = Some(false);
        env.effects.push(Effect::SetPaused(false));
        env.effects.push(Effect::Publish(Topic::Unpaused));
        assert(env@ =~= old(env)@.after_set_paused(false));
    }

    /// Whether the contract is paused.
    pub fn is_paused(env: &Env) -> (paused: bool)
        ensures
            paused == env@.storage.is_paused(),
            paused == (env.paused == Some(true)),
    {
        env.paused.unwrap_or(false)
    }

    /// Deposits `amount` tokens and adds them to the balance of `staker`, whose
    /// signature it takes. Returns the number of shares minted, one for each
    /// token.
    ///
    /// A deposit that is accepted must fit into the stored balance, which
    /// [`StakingContract::stake_fits`] tells.
    ///
    /// # Errors
    ///
    /// In this order of precedence:
    /// * [`StakingError::Paused`] while the contract is paused, before the
    ///   signature is asked for;
    /// * [`StakingError::InvalidAmount`] if `amount` is zero or negative;
    /// * [`StakingError::NotInitialized`] if no token is configured.
    pub fn stake(env: &mut Env, staker: Address, amount: i128) -> (shares: Result<
        i128,
        StakingError,
    >)
        requires
            old(env)@.storage.has_room(staker, amount),
        ensures
            shares == old(env)@.storage.stake_result(amount),
            final(env)@ == old(env)@.after_stake(staker, amount),
    {
        require_not_paused(env)?;
        env.effects.push(Effect::RequireAuth(staker));
        if amount <= 0 {
            return Err(StakingError::InvalidAmount);
        }
        let token = get_token_contract(env)?;
        env.effects.push(Effect::Transfer { token, from: staker, to: env.contract, amount });
        let current: i128 = Self::staked_balance(env, staker);
        env.staked.set(staker, current + amount);
        env.effects.push(Effect::SetStaked(staker, current + amount));
        assert(env@ =~= old(env)@.after_stake(staker, amount));
        Ok(amount)
    }

    /// Whether `staker` may ask to stake `amount`: the deposit fits into the
    /// stored balance, or it would be refused anyway.
    pub fn stake_fits(env: &Env, staker: Address, amount: i128) -> (fits: bool)
        ensures
            fits == env@.storage.has_room(staker, amount),
            env.paused != Some(true) && env.token is Some && amount > 0
                && env.staked@.contains_key(staker) ==> fits == (env.staked@[staker] + amount
                <= i128::MAX),
            env.paused != Some(true) && env.token is Some && amount > 0
                && !env.staked@.contains_key(staker) ==> fits,
            env.paused == Some(true) || env.token is None || amount <= 0 ==> fits,
    {
        Self::is_paused(env) || amount <= 0 || env.token.is_none() || Self::staked_balance(
            env,
            staker,
        ) <= i128::MAX - amount
    }

    /// Redeems `shares` of `staker`, whose signature it takes, and hands back
    /// one token for each. Returns the number of tokens handed back.
    ///
    /// # Errors
    ///
    /// In this order of precedence:
    /// * [`StakingError::Paused`] while the contract is paused, before the
    ///   signature is asked for;
    /// * [`StakingError::InvalidAmount`] if `shares` is zero or negative;
    /// * [`StakingError::NotInitialized`] if no token is configured;
    /// * [`StakingError::InsufficientStake`] if `shares` exceeds the balance of
    ///   `staker`.
    pub fn unstake(env: &mut Env, staker: Address, shares: i128) -> (tokens: Result<
        i128,
        StakingError,
    >)
        ensures
            tokens == old(env)@.storage.unstake_result(staker, shares),
            final(env)@ == old(env)@.after_unstake(staker, shares),
    {
        require_not_paused(env)?;
        env.effects.push(Effect::RequireAuth(staker));
        if shares <= 0 {
            return Err(StakingError::InvalidAmount);
        }
        let token = get_token_contract(env)?;
        let current: i128 = Self::staked_balance(env, staker);
        if current < shares {
            return Err(StakingError::InsufficientStake);
        }
        env.effects.push(Effect::Transfer { token, from: env.contract, to: staker, amount: shares });
        env.staked.set(staker, current - shares);
        env.effects.push(Effect::SetStaked(staker, current - shares));
        assert(env@ =~= old(env)@.after_unstake(staker, shares));
        Ok(shares)
    }

    /// The staked balance of `staker`.
    pub fn staked_balance(env: &Env, staker: Address) -> (balance: i128)
        ensures
            balance == env@.storage.balance(staker),
            env.staked@.contains_key(staker) ==> balance == env.staked@[staker],
            !env.staked@.contains_key(staker) ==> balance == 0,
    {
        env.staked.get(staker).unwrap_or(0)
    }
}

/// The token that is staked, once it is configured.
fn get_token_contract(env: &Env) -> (token: Result<Address, StakingError>)
    ensures
        token == (match env@.storage.token {
            Some(token) => Ok(token),
            None => Err(StakingError::NotInitialized),
        }),
{
    env.token.ok_or(StakingError::NotInitialized)
}

/// Refuses while the contract is paused.
fn require_not_paused(env: &Env) -> (outcome: Result<(), StakingError>)
    ensures
        outcome == (if env@.storage.is_paused() {
            Err::<(), StakingError>(StakingError::Paused)
        } else {
            Ok(())
        }),
{
    if StakingContract::is_paused(env) {
        return Err(StakingError::Paused);
    }
    Ok(())
}

} // verus!
