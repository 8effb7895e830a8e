use vstd::prelude::*;

use crate::address::Address;
use crate::env::Effect;
use crate::error::StakingError;
use crate::model::{EnvView, StorageView};

verus! {

/// A deposit can be taken back in full: right after a successful stake the
/// same amount can be unstaked, and every balance is then what it was.
pub proof fn law_unstake_undoes_stake(env: EnvView, staker: Address, amount: i128)
    requires
        env.storage.valid(),
        env.storage.stake_result(amount) is Ok,
        env.storage.has_room(staker, amount),
    ensures
        env.after_stake(staker, amount).storage.unstake_result(staker, amount) == Ok::<
            i128,
            StakingError,
        >(amount),
        env.after_stake(staker, amount).after_unstake(staker, amount).storage.same_terms(
            env.storage,
        ),
        forall|a: Address|
            env.after_stake(staker, amount).after_unstake(staker, amount).storage.balance(a)
                == #[trigger] env.storage.balance(a),
{
}

/// A withdrawal can be put back: right after a successful unstake the same
/// amount can be staked, and every balance is then what it was.
pub proof fn law_stake_undoes_unstake(env: EnvView, staker: Address, shares: i128)
    requires
        env.storage.unstake_result(staker, shares) is Ok,
    ensures
        env.after_unstake(staker, shares).storage.stake_result(shares) == Ok::<i128, StakingError>(
            shares,
        ),
        env.after_unstake(staker, shares).storage.balance(staker) + shares <= i128::MAX,
        env.after_unstake(staker, shares).after_stake(staker, shares).storage.same_terms(
            env.storage,
        ),
        forall|a: Address|
            env.after_unstake(staker, shares).after_stake(staker, shares).storage.balance(a)
                == #[trigger] env.storage.balance(a),
{
}

/// Deposits add up: staking twice leaves the storage as staking the sum once.
pub proof fn law_stakes_add_up(env: EnvView, staker: Address, first: i128, second: i128)
    requires
        env.storage.stake_result(first) is Ok,
        env.storage.stake_result(second) is Ok,
        first + second <= i128::MAX,
        env.storage.balance(staker) + first + second <= i128::MAX,
    ensures
        env.after_stake(staker, first).after_stake(staker, second).storage == env.after_stake(
            staker,
            (first + second) as i128,
        ).storage,
{
    assert(env.after_stake(staker, first).after_stake(staker, second).storage.staked
        =~= env.after_stake(staker, (first + second) as i128).storage.staked);
}

/// Withdrawals add up: unstaking twice leaves the storage as unstaking the sum
/// once.
pub proof fn law_unstakes_add_up(env: EnvView, staker: Address, first: i128, second: i128)
    requires
        env.storage.unstake_result(staker, first) is Ok,
        env.after_unstake(staker, first).storage.unstake_result(staker, second) is Ok,
        first + second <= i128::MAX,
    ensures
        env.storage.unstake_result(staker, (first + second) as i128) is Ok,
        env.after_unstake(staker, first).after_unstake(staker, second).storage
            == env.after_unstake(staker, (first + second) as i128).storage,
{
    assert(env.after_unstake(staker, first).after_unstake(staker, second).storage.staked
        =~= env.after_unstake(staker, (first + second) as i128).storage.staked);
}

/// One share per token: a successful stake returns the amount asked for, moves
/// exactly that many tokens from the staker to the contract, and adds exactly
/// that many to the staker's balance.
pub proof fn law_stake_is_one_to_one(env: EnvView, staker: Address, amount: i128)
    requires
        env.storage.stake_result(amount) is Ok,
        env.storage.has_room(staker, amount),
    ensures
        env.storage.stake_result(amount) == Ok::<i128, StakingError>(amount),
        env.after_stake(staker, amount).storage.balance(staker) == env.storage.balance(staker)
            + amount,
        env.after_stake(staker, amount).requested_since(env).filter(|e: Effect| e is Transfer)
            == seq![
            Effect::Transfer {
                token: env.storage.token->Some_0,
                from: staker,
                to: env.contract,
                amount,
            },
        ],
{
    let transfer = Effect::Transfer {
        token: env.storage.token->Some_0,
        from: staker,
        to: env.contract,
        amount,
    };
    let set = Effect::SetStaked(staker, (env.storage.balance(staker) + amount) as i128);
    lemma_one_transfer(env, Effect::RequireAuth(staker), transfer, set);
}

/// One token per share: a successful unstake returns the shares asked for,
/// moves exactly that many tokens from the contract to the staker, and takes
/// exactly that many off the staker's balance.
pub proof fn law_unstake_is_one_to_one(env: EnvView, staker: Address, shares: i128)
    requires
        env.storage.unstake_result(staker, shares) is Ok,
    ensures
        env.storage.unstake_result(staker, shares) == Ok::<i128, StakingError>(shares),
        env.after_unstake(staker, shares).storage.balance(staker) == env.storage.balance(staker)
            - shares,
        env.after_unstake(staker, shares).requested_since(env).filter(|e: Effect| e is Transfer)
            == seq![
            Effect::Transfer {
                token: env.storage.token->Some_0,
                from: env.contract,
                to: staker,
                amount: shares,
            },
        ],
{
    let transfer = Effect::Transfer {
        token: env.storage.token->Some_0,
        from: env.contract,
        to: staker,
        amount: shares,
    };
    let set = Effect::SetStaked(staker, (env.storage.balance(staker) - shares) as i128);
    lemma_one_transfer(env, Effect::RequireAuth(staker), transfer, set);
}

/// Of three requests of which only the second is a transfer, it is the only
/// transfer.
proof fn lemma_one_transfer(env: EnvView, auth: Effect, transfer: Effect, set: Effect)
    requires
        !(auth is Transfer),
        transfer is Transfer,
        !(set is Transfer),
    ensures
        env.with(env.storage, seq![auth, transfer, set]).requested_since(env)
            == seq![auth, transfer, set],
        seq![auth, transfer, set].filter(|e: Effect| e is Transfer) == seq![transfer],
{
    let is_transfer = |e: Effect| e is Transfer;
    let all = seq![auth, transfer, set];
    assert(env.with(env.storage, all).requested_since(env) =~= all);
    reveal_with_fuel(Seq::filter, 4);
    assert(all.drop_last() =~= seq![auth, transfer]);
    assert(all.drop_last().drop_last() =~= seq![auth]);
    assert(all.drop_last().drop_last().drop_last() =~= Seq::<Effect>::empty());
    assert(all.filter(is_transfer) =~= seq![transfer]);
}

/// Everything staked can be redeemed, and no more: while the contract is not
/// paused, a positive number of shares is redeemed exactly when the staker's
/// balance covers it. It is refused for want of a stake otherwise, or as not
/// initialized where no token is set. Redeeming the whole balance leaves nothing.
pub proof fn law_exactly_the_stake_is_redeemable(env: EnvView, staker: Address, shares: i128)
    requires
        env.storage.valid(),
        !env.storage.is_paused(),
        shares > 0,
    ensures
        shares <= env.storage.balance(staker) ==> env.storage.unstake_result(staker, shares)
            == Ok::<i128, StakingError>(shares),
        shares > env.storage.balance(staker) && env.storage.token is Some
            ==> env.storage.unstake_result(staker, shares) == Err::<i128, StakingError>(
            StakingError::InsufficientStake,
        ),
        env.storage.token is None ==> env.storage.unstake_result(staker, shares) == Err::<
            i128,
            StakingError,
        >(StakingError::NotInitialized),
        shares == env.storage.balance(staker) ==> env.after_unstake(
            staker,
            shares,
        ).storage.balance(staker) == 0,
{
}

/// Nothing is staked before the contract is configured: as long as no token is
/// set there are no stakes, and deposits and withdrawals are refused as not
/// initialized.
pub proof fn law_nothing_is_staked_before_configuration(
    storage: StorageView,
    staker: Address,
    amount: i128,
)
    requires
        storage.valid(),
        storage.token is None,
        !storage.is_paused(),
        amount > 0,
    ensures
        storage.balance(staker) == 0,
        storage.stake_result(amount) == Err::<i128, StakingError>(StakingError::NotInitialized),
        storage.unstake_result(staker, amount) == Err::<i128, StakingError>(
            StakingError::NotInitialized,
        ),
{
}

/// A paused contract neither stakes nor unstakes: every call is refused as
/// paused, asks nothing of the host and changes nothing.
pub proof fn law_pause_stops_staking(env: EnvView, staker: Address, amount: i128)
    ensures
        ({
            let paused = env.after_set_paused(true);
            &&& paused.storage.is_paused()
            &&& paused.storage.stake_result(amount) == Err::<i128, StakingError>(
                StakingError::Paused,
            )
            &&& paused.storage.unstake_result(staker, amount) == Err::<i128, StakingError>(
                StakingError::Paused,
            )
            &&& paused.after_stake(staker, amount) == paused
            &&& paused.after_unstake(staker, amount) == paused
        }),
{
}

/// Unpausing restores normal operation: a contract that was running, was
/// paused and was unpaused answers every stake and unstake as before.
pub proof fn law_unpause_restores_staking(env: EnvView, staker: Address, amount: i128)
    requires
        !env.storage.is_paused(),
    ensures
        ({
            let resumed = env.after_set_paused(true).after_set_paused(false).storage;
            &&& !resumed.is_paused()
            &&& resumed.balance(staker) == env.storage.balance(staker)
            &&& resumed.stake_result(amount) == env.storage.stake_result(amount)
            &&& resumed.unstake_result(staker, amount) == env.storage.unstake_result(
                staker,
                amount,
            )
        }),
{
}

/// A refused call leaves the storage alone and asks the host for the staker's
/// signature at most: no tokens move.
pub proof fn law_refusal_changes_nothing(env: EnvView, staker: Address, amount: i128)
    ensures
        env.storage.stake_result(amount) is Err ==> {
            &&& env.after_stake(staker, amount).storage == env.storage
            &&& forall|i: int|
                0 <= i < env.after_stake(staker, amount).requested_since(env).len()
                    ==> #[trigger] env.after_stake(staker, amount).requested_since(env)[i]
                    == Effect::RequireAuth(staker)
        },
        env.storage.unstake_result(staker, amount) is Err ==> {
            &&& env.after_unstake(staker, amount).storage == env.storage
            &&& forall|i: int|
                0 <= i < env.after_unstake(staker, amount).requested_since(env).len()
                    ==> #[trigger] env.after_unstake(staker, amount).requested_since(env)[i]
                    == Effect::RequireAuth(staker)
        },
{
}

/// Staking and unstaking touch one balance: the other stakers' balances, the
/// configuration and the pause flag stay as they are.
pub proof fn law_only_the_own_balance_changes(
    env: EnvView,
    staker: Address,
    amount: i128,
    other: Address,
)
    requires
        other != staker,
    ensures
        env.after_stake(staker, amount).storage.same_terms(env.storage),
        env.after_stake(staker, amount).storage.balance(other) == env.storage.balance(other),
        env.after_unstake(staker, amount).storage.same_terms(env.storage),
        env.after_unstake(staker, amount).storage.balance(other) == env.storage.balance(other),
{
}

/// Staking and unstaking look at one balance: two environments that agree on
/// the configuration, the pause flag and the staker's own balance get the same
/// answer and the same requests.
pub proof fn law_only_the_own_balance_matters(
    one: EnvView,
    two: EnvView,
    staker: Address,
    amount: i128,
)
    requires
        one.contract == two.contract,
        one.storage.same_terms(two.storage),
        one.storage.balance(staker) == two.storage.balance(staker),
    ensures
        one.storage.stake_result(amount) == two.storage.stake_result(amount),
        one.after_stake(staker, amount).requested_since(one) == two.after_stake(
            staker,
            amount,
        ).requested_since(two),
        one.storage.unstake_result(staker, amount) == two.storage.unstake_result(staker, amount),
        one.after_unstake(staker, amount).requested_since(one) == two.after_unstake(
            staker,
            amount,
        ).requested_since(two),
{
    assert(one.after_stake(staker, amount).requested_since(one) =~= two.after_stake(
        staker,
        amount,
    ).requested_since(two));
    assert(one.after_unstake(staker, amount).requested_since(one) =~= two.after_unstake(
        staker,
        amount,
    ).requested_since(two));
}

} // verus!
