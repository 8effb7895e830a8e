use vstd::prelude::*;

use crate::address::Address;
use crate::env::{Effect, Env, Topic};
use crate::error::StakingError;
use crate::model::{EnvView, StorageView};

verus! {

/// Of at most three requests, those that meet a condition, in order.
proof fn lemma_filter_few(requests: Seq<Effect>, wanted: spec_fn(Effect) -> bool)
    requires
        requests.len() <= 3,
    ensures
        requests.len() == 0 ==> requests.filter(wanted) == Seq::<Effect>::empty(),
        requests.len() == 1 ==> requests.filter(wanted) == (if wanted(requests[0]) {
            seq![requests[0]]
        } else {
            Seq::<Effect>::empty()
        }),
        requests.len() == 2 ==> requests.filter(wanted) == (if wanted(requests[0]) {
            seq![requests[0]]
        } else {
            Seq::<Effect>::empty()
        }) + (if wanted(requests[1]) {
            seq![requests[1]]
        } else {
            Seq::<Effect>::empty()
        }),
        requests.len() == 3 ==> requests.filter(wanted) == (if wanted(requests[0]) {
            seq![requests[0]]
        } else {
            Seq::<Effect>::empty()
        }) + (if wanted(requests[1]) {
            seq![requests[1]]
        } else {
            Seq::<Effect>::empty()
        }) + (if wanted(requests[2]) {
            seq![requests[2]]
        } else {
            Seq::<Effect>::empty()
        }),
{
    reveal_with_fuel(Seq::filter, 4);
}

/// A fresh deployment at any address has nothing stored and nothing requested.
pub proof fn law_deployment_is_blank(contract: Address, staker: Address)
    ensures
        EnvView::deployed(contract).contract == contract,
        EnvView::deployed(contract).storage.admin is None,
        EnvView::deployed(contract).storage.token is None,
        EnvView::deployed(contract).storage.paused is None,
        !EnvView::deployed(contract).storage.staked.contains_key(staker),
        EnvView::deployed(contract).effects.len() == 0,
{
}

/// An environment is seen as it is: no field is left out or altered.
pub proof fn law_view_shows_every_field(env: Env)
    ensures
        env@.contract == env.contract,
        env@.storage.admin == env.admin,
        env@.storage.token == env.token,
        env@.storage.paused == env.paused,
        env@.storage.staked == env.staked@,
        env@.effects == env.effects@,
{
}

/// What is stored is what is read: the contract is paused exactly when the flag
/// was stored as set, and a balance is the one stored, or zero if none was.
pub proof fn law_reads_give_back_what_is_stored(storage: StorageView, staker: Address)
    ensures
        storage.is_paused() <==> storage.paused == Some(true),
        storage.staked.contains_key(staker) ==> storage.balance(staker) == storage.staked[staker],
        !storage.staked.contains_key(staker) ==> storage.balance(staker) == 0,
{
}

/// Every deposit that fits is admitted: on a running, configured contract a
/// positive amount has room exactly when the stored balance and the amount add
/// up to at most the largest balance. Any other deposit always has room.
pub proof fn law_every_deposit_that_fits_has_room(
    storage: StorageView,
    staker: Address,
    amount: i128,
)
    ensures
        storage.paused != Some(true) && storage.token is Some && amount > 0
            && storage.staked.contains_key(staker) ==> (storage.has_room(staker, amount)
            <==> storage.staked[staker] + amount <= i128::MAX),
        storage.paused != Some(true) && storage.token is Some && amount > 0
            && !storage.staked.contains_key(staker) ==> storage.has_room(staker, amount),
        storage.paused == Some(true) || storage.token is None || amount <= 0 ==> storage.has_room(
            staker,
            amount,
        ),
{
}

/// Configuration is permissionless: it asks for no signature, moves no tokens
/// and publishes nothing. It asks the host to store the administrator and the
/// token, whatever the addresses, and nothing else.
pub proof fn law_initialize_is_permissionless(env: EnvView, admin: Address, token: Address)
    ensures
        ({
            let after = env.after_initialize(admin, token);
            let n = env.effects.len() as int;
            let requests = after.effects.skip(n);
            &&& after.effects.take(n) == env.effects
            &&& requests.filter(|e: Effect| e is RequireAuth) == Seq::<Effect>::empty()
            &&& requests.filter(|e: Effect| e is Transfer) == Seq::<Effect>::empty()
            &&& requests.filter(|e: Effect| e is Publish) == Seq::<Effect>::empty()
            &&& requests.filter(
                |e: Effect| e is SetAdmin || e is SetToken || e is SetPaused || e is SetStaked,
            ) == seq![Effect::SetAdmin(admin), Effect::SetToken(token)]
        }),
{
    let n = env.effects.len() as int;
    let requests = env.after_initialize(admin, token).effects.skip(n);
    assert(env.after_initialize(admin, token).effects.take(n) =~= env.effects);
    assert(requests =~= seq![Effect::SetAdmin(admin), Effect::SetToken(token)]);
    lemma_filter_few(requests, |e: Effect| e is RequireAuth);
    lemma_filter_few(requests, |e: Effect| e is Transfer);
    lemma_filter_few(requests, |e: Effect| e is Publish);
    lemma_filter_few(
        requests,
        |e: Effect| e is SetAdmin || e is SetToken || e is SetPaused || e is SetStaked,
    );
}

/// Configuration stores both addresses and leaves the pause flag and every
/// balance alone.
pub proof fn law_initialize_stores_the_configuration(env: EnvView, admin: Address, token: Address)
    ensures
        ({
            let after = env.after_initialize(admin, token);
            &&& after.contract == env.contract
            &&& after.storage.admin == Some(admin)
            &&& after.storage.token == Some(token)
            &&& after.storage.paused == env.storage.paused
            &&& after.storage.staked == env.storage.staked
        }),
{
}

/// A pause takes the administrator's signature and no other, first of all. It
/// publishes one event, that of a pause, last of all, whatever was stored
/// before. In between it asks the host to store the flag; no tokens move.
pub proof fn law_pause_is_signed_by_the_admin_and_announced(env: EnvView, admin: Address)
    requires
        env.storage.admin == Some(admin),
    ensures
        ({
            let after = env.after_set_paused(true);
            let n = env.effects.len() as int;
            let requests = after.effects.skip(n);
            &&& after.effects.take(n) == env.effects
            &&& requests.filter(|e: Effect| e is RequireAuth) == seq![Effect::RequireAuth(admin)]
            &&& requests.filter(|e: Effect| e is Transfer) == Seq::<Effect>::empty()
            &&& requests.filter(|e: Effect| e is Publish) == seq![Effect::Publish(Topic::Paused)]
            &&& requests.filter(
                |e: Effect| e is SetAdmin || e is SetToken || e is SetPaused || e is SetStaked,
            ) == seq![Effect::SetPaused(true)]
            &&& requests.first() is RequireAuth
            &&& requests.last() is Publish
        }),
{
    lemma_set_paused_requests(env, true);
}

/// An unpause takes the administrator's signature and no other, first of all.
/// It publishes one event, that of the end of a pause, last of all, whatever
/// was stored before. In between it asks the host to store the flag; no tokens
/// move.
pub proof fn law_unpause_is_signed_by_the_admin_and_announced(env: EnvView, admin: Address)
    requires
        env.storage.admin == Some(admin),
    ensures
        ({
            let after = env.after_set_paused(false);
            let n = env.effects.len() as int;
            let requests = after.effects.skip(n);
            &&& after.effects.take(n) == env.effects
            &&& requests.filter(|e: Effect| e is RequireAuth) == seq![Effect::RequireAuth(admin)]
            &&& requests.filter(|e: Effect| e is Transfer) == Seq::<Effect>::empty()
            &&& requests.filter(|e: Effect| e is Publish) == seq![Effect::Publish(Topic::Unpaused)]
            &&& requests.filter(
                |e: Effect| e is SetAdmin || e is SetToken || e is SetPaused || e is SetStaked,
            ) == seq![Effect::SetPaused(false)]
            &&& requests.first() is RequireAuth
            &&& requests.last() is Publish
        }),
{
    lemma_set_paused_requests(env, false);
}

/// The requests of a pause or an unpause, sorted by what they ask for.
proof fn lemma_set_paused_requests(env: EnvView, flag: bool)
    ensures
        ({
            let after = env.after_set_paused(flag);
            let n = env.effects.len() as int;
            let requests = after.effects.skip(n);
            let topic = if flag { Topic::Paused } else { Topic::Unpaused };
            &&& after.effects.take(n) == env.effects
            &&& requests.filter(|e: Effect| e is RequireAuth) == seq![
                Effect::RequireAuth(env.storage.admin->Some_0),
            ]
            &&& requests.filter(|e: Effect| e is Transfer) == Seq::<Effect>::empty()
            &&& requests.filter(|e: Effect| e is Publish) == seq![Effect::Publish(topic)]
            &&& requests.filter(
                |e: Effect| e is SetAdmin || e is SetToken || e is SetPaused || e is SetStaked,
            ) == seq![Effect::SetPaused(flag)]
            &&& requests.first() is RequireAuth
            &&& requests.last() is Publish
        }),
{
    let n = env.effects.len() as int;
    let requests = env.after_set_paused(flag).effects.skip(n);
    assert(env.after_set_paused(flag).effects.take(n) =~= env.effects);
    assert(requests.len() == 3);
    lemma_filter_few(requests, |e: Effect| e is RequireAuth);
    lemma_filter_few(requests, |e: Effect| e is Transfer);
    lemma_filter_few(requests, |e: Effect| e is Publish);
    lemma_filter_few(
        requests,
        |e: Effect| e is SetAdmin || e is SetToken || e is SetPaused || e is SetStaked,
    );
    let seen = requests.filter(|e: Effect| e is RequireAuth);
    assert(seen =~= seq![Effect::RequireAuth(env.storage.admin->Some_0)]);
}

/// A pause and an unpause store the flag and leave the configuration and every
/// balance alone.
pub proof fn law_pause_and_unpause_store_the_flag(env: EnvView, flag: bool)
    ensures
        ({
            let after = env.after_set_paused(flag);
            &&& after.contract == env.contract
            &&& after.storage.paused == Some(flag)
            &&& after.storage.admin == env.storage.admin
            &&& after.storage.token == env.storage.token
            &&& after.storage.staked == env.storage.staked
        }),
{
}

/// What a stake answers: refused as paused exactly while the flag is stored as
/// set; else as invalid exactly for an amount that is not positive; else as not
/// initialized exactly while no token is stored; else the amount, one share for
/// each token.
pub proof fn law_stake_answers(storage: StorageView, amount: i128)
    ensures
        ({
            let answer = storage.stake_result(amount);
            &&& answer == Err::<i128, StakingError>(StakingError::Paused) <==> storage.paused
                == Some(true)
            &&& answer == Err::<i128, StakingError>(StakingError::InvalidAmount)
                <==> storage.paused != Some(true) && amount <= 0
            &&& answer == Err::<i128, StakingError>(StakingError::NotInitialized)
                <==> storage.paused != Some(true) && amount > 0 && storage.token is None
            &&& answer is Ok <==> storage.paused != Some(true) && amount > 0
                && storage.token is Some
            &&& answer is Ok ==> answer == Ok::<i128, StakingError>(amount)
        }),
{
}

/// What an unstake answers: refused as paused exactly while the flag is stored
/// as set; else as invalid exactly for a number of shares that is not positive;
/// else as not initialized exactly while no token is stored; else for want of a
/// stake exactly when the stored balance is smaller; else the shares, one token
/// for each.
pub proof fn law_unstake_answers(storage: StorageView, staker: Address, shares: i128)
    ensures
        ({
            let answer = storage.unstake_result(staker, shares);
            let covered = storage.staked.contains_key(staker) && shares <= storage.staked[staker];
            &&& answer == Err::<i128, StakingError>(StakingError::Paused) <==> storage.paused
                == Some(true)
            &&& answer == Err::<i128, StakingError>(StakingError::InvalidAmount)
                <==> storage.paused != Some(true) && shares <= 0
            &&& answer == Err::<i128, StakingError>(StakingError::NotInitialized)
                <==> storage.paused != Some(true) && shares > 0 && storage.token is None
            &&& answer == Err::<i128, StakingError>(StakingError::InsufficientStake)
                <==> storage.paused != Some(true) && shares > 0 && storage.token is Some
                && !covered
            &&& answer is Ok <==> storage.paused != Some(true) && shares > 0
                && storage.token is Some && covered
            &&& answer is Ok ==> answer == Ok::<i128, StakingError>(shares)
        }),
{
}

/// A stake takes the staker's signature and no other, first of all, and none
/// while paused. Only an accepted one moves tokens: once, the amount asked for,
/// from the staker to the contract. Only then, and only after the transfer, does
/// it ask the host to store something: the staker's balance, grown by the
/// amount. It never publishes anything.
pub proof fn law_stake_requests(env: EnvView, staker: Address, amount: i128, token: Address)
    requires
        env.storage.token is Some ==> env.storage.token == Some(token),
        env.storage.paused != Some(true) && amount > 0 && env.storage.token is Some
            && env.storage.staked.contains_key(staker) ==> env.storage.staked[staker] + amount
            <= i128::MAX,
    ensures
        ({
            let after = env.after_stake(staker, amount);
            let n = env.effects.len() as int;
            let requests = after.effects.skip(n);
            let running = env.storage.paused != Some(true);
            let accepted = running && amount > 0 && env.storage.token is Some;
            let held = if env.storage.staked.contains_key(staker) {
                env.storage.staked[staker] as int
            } else {
                0
            };
            let writes = requests.filter(
                |e: Effect| e is SetAdmin || e is SetToken || e is SetPaused || e is SetStaked,
            );
            &&& after.effects.take(n) == env.effects
            &&& requests.filter(|e: Effect| e is RequireAuth) == (if running {
                seq![Effect::RequireAuth(staker)]
            } else {
                Seq::<Effect>::empty()
            })
            &&& requests.filter(|e: Effect| e is Publish) == Seq::<Effect>::empty()
            &&& requests.filter(|e: Effect| e is Transfer) == (if accepted {
                seq![Effect::Transfer { token, from: staker, to: env.contract, amount }]
            } else {
                Seq::<Effect>::empty()
            })
            &&& accepted ==> {
                &&& requests.first() is RequireAuth
                &&& requests.last() is SetStaked
                &&& writes.len() == 1
                &&& writes[0] matches Effect::SetStaked(whose, balance) && whose == staker
                    && balance == held + amount
            }
            &&& !accepted ==> writes.len() == 0
        }),
{
    let n = env.effects.len() as int;
    let requests = env.after_stake(staker, amount).effects.skip(n);
    assert(env.after_stake(staker, amount).effects.take(n) =~= env.effects);
    assert(requests.len() <= 3);
    lemma_filter_few(requests, |e: Effect| e is RequireAuth);
    lemma_filter_few(requests, |e: Effect| e is Transfer);
    lemma_filter_few(requests, |e: Effect| e is Publish);
    lemma_filter_few(
        requests,
        |e: Effect| e is SetAdmin || e is SetToken || e is SetPaused || e is SetStaked,
    );
}

/// An unstake takes the staker's signature and no other, first of all, and none
/// while paused. Only an accepted one moves tokens: once, as many as the shares
/// asked for, from the contract to the staker. Only then, and only after the
/// transfer, does it ask the host to store something: the staker's balance, less
/// the shares. It never publishes anything.
pub proof fn law_unstake_requests(env: EnvView, staker: Address, shares: i128, token: Address)
    requires
        env.storage.token is Some ==> env.storage.token == Some(token),
    ensures
        ({
            let after = env.after_unstake(staker, shares);
            let n = env.effects.len() as int;
            let requests = after.effects.skip(n);
            let running = env.storage.paused != Some(true);
            let accepted = running && shares > 0 && env.storage.token is Some
                && env.storage.staked.contains_key(staker) && shares
                <= env.storage.staked[staker];
            let writes = requests.filter(
                |e: Effect| e is SetAdmin || e is SetToken || e is SetPaused || e is SetStaked,
            );
            &&& after.effects.take(n) == env.effects
            &&& requests.filter(|e: Effect| e is RequireAuth) == (if running {
                seq![Effect::RequireAuth(staker)]
            } else {
                Seq::<Effect>::empty()
            })
            &&& requests.filter(|e: Effect| e is Publish) == Seq::<Effect>::empty()
            &&& requests.filter(|e: Effect| e is Transfer) == (if accepted {
                seq![Effect::Transfer { token, from: env.contract, to: staker, amount: shares }]
            } else {
                Seq::<Effect>::empty()
            })
            &&& accepted ==> {
                &&& requests.first() is RequireAuth
                &&& requests.last() is SetStaked
                &&& writes.len() == 1
                &&& writes[0] matches Effect::SetStaked(whose, balance) && whose == staker
                    && balance == env.storage.staked[staker] - shares
            }
            &&& !accepted ==> writes.len() == 0
        }),
{
    let n = env.effects.len() as int;
    let requests = env.after_unstake(staker, shares).effects.skip(n);
    assert(env.after_unstake(staker, shares).effects.take(n) =~= env.effects);
    assert(requests.len() <= 3);
    lemma_filter_few(requests, |e: Effect| e is RequireAuth);
    lemma_filter_few(requests, |e: Effect| e is Transfer);
    lemma_filter_few(requests, |e: Effect| e is Publish);
    lemma_filter_few(
        requests,
        |e: Effect| e is SetAdmin || e is SetToken || e is SetPaused || e is SetStaked,
    );
}

/// What a stake stores: an accepted one leaves an entry for the staker that is
/// greater by the amount than the one before, or than zero if there was none. No
/// stake touches another entry, the configuration or the pause flag, and a
/// refused one touches no entry at all.
pub proof fn law_stake_stores(env: EnvView, staker: Address, amount: i128, other: Address)
    requires
        env.storage.paused != Some(true) && amount > 0 && env.storage.token is Some
            && env.storage.staked.contains_key(staker) ==> env.storage.staked[staker] + amount
            <= i128::MAX,
        other != staker,
    ensures
        ({
            let before = env.storage;
            let after = env.after_stake(staker, amount).storage;
            let accepted = before.paused != Some(true) && amount > 0 && before.token is Some;
            let held = if before.staked.contains_key(staker) {
                before.staked[staker] as int
            } else {
                0
            };
            &&& env.after_stake(staker, amount).contract == env.contract
            &&& after.admin == before.admin
            &&& after.token == before.token
            &&& after.paused == before.paused
            &&& after.staked.contains_key(other) == before.staked.contains_key(other)
            &&& after.staked[other] == before.staked[other]
            &&& accepted ==> after.staked.contains_key(staker) && after.staked[staker] == held
                + amount
            &&& !accepted ==> after.staked == before.staked
        }),
{
}

/// What an unstake stores: an accepted one leaves an entry for the staker that
/// is smaller by the shares than the one before. No unstake touches another
/// entry, the configuration or the pause flag, and a refused one touches no
/// entry at all.
pub proof fn law_unstake_stores(env: EnvView, staker: Address, shares: i128, other: Address)
    requires
        other != staker,
    ensures
        ({
            let before = env.storage;
            let after = env.after_unstake(staker, shares).storage;
            let accepted = before.paused != Some(true) && shares > 0 && before.token is Some
                && before.staked.contains_key(staker) && shares <= before.staked[staker];
            &&& env.after_unstake(staker, shares).contract == env.contract
            &&& after.admin == before.admin
            &&& after.token == before.token
            &&& after.paused == before.paused
            &&& after.staked.contains_key(other) == before.staked.contains_key(other)
            &&& after.staked[other] == before.staked[other]
            &&& accepted ==> after.staked.contains_key(staker) && after.staked[staker]
                == before.staked[staker] - shares
            &&& !accepted ==> after.staked == before.staked
        }),
{
}

} // verus!
