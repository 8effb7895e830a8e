use vstd::prelude::*;

use crate::address::Address;
use crate::env::{Effect, Topic};
use crate::error::StakingError;
use crate::model::{EnvView, StorageView};

verus! {

/// A call that may change the contract's state.
pub enum Call {
    Initialize { admin: Address, token: Address },
    Pause,
    Unpause,
    Stake { staker: Address, amount: i128 },
    Unstake { staker: Address, shares: i128 },
}

impl Call {
    /// The address that stakes or unstakes in this call, if it does either.
    pub open spec fn staker(self) -> Option<Address> {
        match self {
            Call::Stake { staker, .. } => Some(staker),
            Call::Unstake { staker, .. } => Some(staker),
            _ => None,
        }
    }
}

impl EnvView {
    /// The contract can take the call: it is configured at most once, is paused
    /// and unpaused only by an administrator that exists, and has room for what
    /// it accepts.
    pub open spec fn admits(self, call: Call) -> bool {
        match call {
            Call::Initialize { .. } => self.storage.admin is None,
            Call::Pause | Call::Unpause => self.storage.admin is Some,
            Call::Stake { staker, amount } => self.storage.has_room(staker, amount),
            Call::Unstake { .. } => true,
        }
    }

    /// The environment after the call.
    pub open spec fn after_call(self, call: Call) -> EnvView {
        match call {
            Call::Initialize { admin, token } => self.after_initialize(admin, token),
            Call::Pause => self.after_set_paused(true),
            Call::Unpause => self.after_set_paused(false),
            Call::Stake { staker, amount } => self.after_stake(staker, amount),
            Call::Unstake { staker, shares } => self.after_unstake(staker, shares),
        }
    }

    /// The environment after the calls, in order.
    pub open spec fn after_calls(self, calls: Seq<Call>) -> EnvView
        decreases calls.len(),
    {
        if calls.len() == 0 {
            self
        } else {
            self.after_calls(calls.drop_last()).after_call(calls.last())
        }
    }

    /// The contract can take the calls one after the other.
    pub open spec fn admits_all(self, calls: Seq<Call>) -> bool
        decreases calls.len(),
    {
        calls.len() == 0 || {
            &&& self.admits_all(calls.drop_last())
            &&& self.after_calls(calls.drop_last()).admits(calls.last())
        }
    }

    /// What the accepted stakes among the calls add up to: those of `asked`, or
    /// all of them where nobody is asked about.
    pub open spec fn accepted_stakes(self, calls: Seq<Call>, asked: Option<Address>) -> int
        decreases calls.len(),
    {
        if calls.len() == 0 {
            0
        } else {
            let before = self.after_calls(calls.drop_last());
            self.accepted_stakes(calls.drop_last(), asked) + (match calls.last() {
                Call::Stake { staker, amount } => if meant(asked, staker)
                    && before.storage.stake_result(amount) is Ok {
                    amount as int
                } else {
                    0
                },
                _ => 0,
            })
        }
    }

    /// What the accepted unstakes among the calls add up to: those of `asked`,
    /// or all of them where nobody is asked about.
    pub open spec fn accepted_unstakes(self, calls: Seq<Call>, asked: Option<Address>) -> int
        decreases calls.len(),
    {
        if calls.len() == 0 {
            0
        } else {
            let before = self.after_calls(calls.drop_last());
            self.accepted_unstakes(calls.drop_last(), asked) + (match calls.last() {
                Call::Unstake { staker, shares } => if meant(asked, staker)
                    && before.storage.unstake_result(staker, shares) is Ok {
                    shares as int
                } else {
                    0
                },
                _ => 0,
            })
        }
    }

    /// Whose signature a call needs.
    pub open spec fn signer(self, call: Call) -> Option<Address> {
        match call {
            Call::Initialize { .. } => None,
            Call::Pause | Call::Unpause => self.storage.admin,
            Call::Stake { staker, .. } => Some(staker),
            Call::Unstake { staker, .. } => Some(staker),
        }
    }
}

/// Call `i` is a pause that no later call lifts.
pub open spec fn stands(calls: Seq<Call>, i: int) -> bool {
    &&& 0 <= i < calls.len()
    &&& calls[i] is Pause
    &&& forall|j: int| i < j < calls.len() ==> !(#[trigger] calls[j] is Unpause)
}

/// The topic of the last event published, if any was.
pub open spec fn last_topic(effects: Seq<Effect>) -> Option<Topic>
    decreases effects.len(),
{
    if effects.len() == 0 {
        None
    } else {
        match effects.last() {
            Effect::Publish(topic) => Some(topic),
            _ => last_topic(effects.drop_last()),
        }
    }
}

/// Whether `holder` is the one asked about, where none asked about means anyone.
pub open spec fn meant(asked: Option<Address>, holder: Address) -> bool {
    asked is None || asked == Some(holder)
}

/// Tokens that the requests move from `from` to `to`, where no address stands
/// for anyone.
pub open spec fn moved(
    effects: Seq<Effect>,
    from: Option<Address>,
    to: Option<Address>,
) -> int
    decreases effects.len(),
{
    if effects.len() == 0 {
        0
    } else {
        moved(effects.drop_last(), from, to) + (match effects.last() {
            Effect::Transfer { from: f, to: t, amount, .. } => if meant(from, f) && meant(to, t) {
                amount as int
            } else {
                0
            },
            _ => 0,
        })
    }
}

/// Tokens that the requests move from `from` to `to`.
pub open spec fn moved_between(effects: Seq<Effect>, from: Address, to: Address) -> int {
    moved(effects, Some(from), Some(to))
}

/// Tokens that the requests move to `holder`, from anyone.
pub open spec fn moved_to(effects: Seq<Effect>, holder: Address) -> int {
    moved(effects, None, Some(holder))
}

/// Tokens that the requests move away from `holder`, to anyone.
pub open spec fn moved_from(effects: Seq<Effect>, holder: Address) -> int {
    moved(effects, Some(holder), None)
}

/// The sum of all balances.
pub open spec fn total(staked: Map<Address, i128>) -> int
    decreases staked.dom().len(),
    when staked.dom().finite()
{
    if staked.dom().len() == 0 {
        0
    } else {
        let staker = staked.dom().choose();
        staked[staker] + total(staked.remove(staker))
    }
}

/// Any staker can be taken out of the sum first.
proof fn lemma_total_remove(staked: Map<Address, i128>, staker: Address)
    requires
        staked.dom().finite(),
        staked.contains_key(staker),
    ensures
        total(staked) == staked[staker] + total(staked.remove(staker)),
    decreases staked.dom().len(),
{
    let first = staked.dom().choose();
    assert(staked.dom().contains(first));
    if first != staker {
        let rest = staked.remove(first);
        lemma_total_remove(rest, staker);
        assert(rest.remove(staker) =~= staked.remove(staker).remove(first));
        lemma_total_remove(staked.remove(staker), first);
    }
}

/// Replacing a balance changes the sum by the difference.
proof fn lemma_total_insert(storage: StorageView, staker: Address, amount: i128)
    requires
        storage.staked.dom().finite(),
    ensures
        total(storage.staked.insert(staker, amount)) == total(storage.staked) - storage.balance(
            staker,
        ) + amount,
{
    let staked = storage.staked;
    let changed = staked.insert(staker, amount);
    lemma_total_remove(changed, staker);
    if staked.contains_key(staker) {
        lemma_total_remove(staked, staker);
        assert(changed.remove(staker) =~= staked.remove(staker));
    } else {
        assert(changed.remove(staker) =~= staked);
    }
}

/// A call changes the sum of all balances by the amount that it accepts.
proof fn lemma_total_after_call(env: EnvView, call: Call)
    requires
        env.storage.valid(),
        env.admits(call),
    ensures
        total(env.after_call(call).storage.staked) == total(env.storage.staked) + (match call {
            Call::Stake { amount, .. } => if env.storage.stake_result(amount) is Ok {
                amount as int
            } else {
                0
            },
            Call::Unstake { staker, shares } => if env.storage.unstake_result(
                staker,
                shares,
            ) is Ok {
                -(shares as int)
            } else {
                0
            },
            _ => 0,
        }),
{
    match call {
        Call::Stake { staker, amount } => {
            lemma_total_insert(
                env.storage,
                staker,
                (env.storage.balance(staker) + amount) as i128,
            );
        },
        Call::Unstake { staker, shares } => {
            lemma_total_insert(
                env.storage,
                staker,
                (env.storage.balance(staker) - shares) as i128,
            );
        },
        _ => {},
    }
}

/// Requests can be carried out in two batches.
proof fn lemma_replay_in_batches(storage: StorageView, first: Seq<Effect>, second: Seq<Effect>)
    ensures
        storage.after_all(first + second) == storage.after_all(first).after_all(second),
    decreases second.len(),
{
    if second.len() == 0 {
        assert(first + second =~= first);
    } else {
        lemma_replay_in_batches(storage, first, second.drop_last());
        assert((first + second).drop_last() =~= first + second.drop_last());
    }
}

/// What two batches of requests move is what each of them moves.
proof fn lemma_moved_in_batches(
    first: Seq<Effect>,
    second: Seq<Effect>,
    from: Option<Address>,
    to: Option<Address>,
)
    ensures
        moved(first + second, from, to) == moved(first, from, to) + moved(second, from, to),
    decreases second.len(),
{
    if second.len() == 0 {
        assert(first + second =~= first);
    } else {
        lemma_moved_in_batches(first, second.drop_last(), from, to);
        assert((first + second).drop_last() =~= first + second.drop_last());
    }
}

/// The calls before the last one.
proof fn lemma_previous_calls(env: EnvView, calls: Seq<Call>) -> (before: EnvView)
    requires
        env.admits_all(calls),
        calls.len() > 0,
    ensures
        env.admits_all(calls.drop_last()),
        before == env.after_calls(calls.drop_last()),
        before.admits(calls.last()),
        env.after_calls(calls) == before.after_call(calls.last()),
{
    env.after_calls(calls.drop_last())
}

/// A fresh deployment is valid.
pub proof fn law_deployment_is_valid(contract: Address)
    ensures
        EnvView::deployed(contract).storage.valid(),
{
}

/// Every call keeps the storage valid: configured as a whole or not at all,
/// without stakes before that, and without a negative balance.
pub proof fn law_calls_keep_storage_valid(env: EnvView, call: Call)
    requires
        env.storage.valid(),
        env.admits(call),
    ensures
        env.after_call(call).storage.valid(),
{
}

/// At every point of its life the storage of the contract is valid.
pub proof fn law_storage_is_always_valid(contract: Address, calls: Seq<Call>)
    requires
        EnvView::deployed(contract).admits_all(calls),
    ensures
        EnvView::deployed(contract).after_calls(calls).storage.valid(),
    decreases calls.len(),
{
    if calls.len() > 0 {
        let before = lemma_previous_calls(EnvView::deployed(contract), calls);
        law_storage_is_always_valid(contract, calls.drop_last());
        law_calls_keep_storage_valid(before, calls.last());
    }
}

/// The requests of a call tell the whole of what it stores: carried out in
/// order on the storage before the call, they give the storage after it.
pub proof fn law_requests_carry_out_the_call(env: EnvView, call: Call)
    ensures
        env.after_call(call).effects == env.effects + env.after_call(call).requested_since(env),
        env.storage.after_all(env.after_call(call).requested_since(env)) == env.after_call(
            call,
        ).storage,
{
    let after = env.after_call(call);
    let requests = after.requested_since(env);
    assert(after.effects =~= env.effects + requests);
    reveal_with_fuel(StorageView::after_all, 4);
    assert(env.storage.after_all(requests) =~= after.storage);
}

/// The requests tell the whole history: carried out in order on the blank
/// storage of a fresh deployment, they give what is stored at any later point.
pub proof fn law_requests_tell_the_history(contract: Address, calls: Seq<Call>)
    ensures
        StorageView::blank().after_all(EnvView::deployed(contract).after_calls(calls).effects)
            == EnvView::deployed(contract).after_calls(calls).storage,
    decreases calls.len(),
{
    if calls.len() > 0 {
        let before = EnvView::deployed(contract).after_calls(calls.drop_last());
        law_requests_tell_the_history(contract, calls.drop_last());
        law_requests_carry_out_the_call(before, calls.last());
        lemma_replay_in_batches(
            StorageView::blank(),
            before.effects,
            before.after_call(calls.last()).requested_since(before),
        );
    }
}

/// Nothing happens unsigned: except for the configuration, whatever a call
/// asks of the host comes after the check of the signature it needs, and a
/// call that asks nothing stores nothing.
pub proof fn law_signature_comes_first(env: EnvView, call: Call)
    requires
        !(call is Initialize),
        env.admits(call),
    ensures
        env.signer(call) is Some,
        env.after_call(call).requested_since(env).len() > 0 ==> env.after_call(
            call,
        ).requested_since(env)[0] == Effect::RequireAuth(env.signer(call)->Some_0),
        env.after_call(call).requested_since(env).len() == 0 ==> env.after_call(call) == env,
{
    let after = env.after_call(call);
    if after.requested_since(env).len() == 0 {
        assert(after =~= env);
    }
}

/// No call asks for a signature but its signer's: the administrator's for a
/// pause or an unpause, the staker's for a stake or an unstake, and nobody's for
/// the configuration. It asks for it at most once.
pub proof fn law_no_other_signature_is_asked_for(env: EnvView, call: Call, i: int, who: Address)
    requires
        env.admits(call),
        env.effects.len() <= i < env.after_call(call).effects.len(),
        env.after_call(call).effects[i] == Effect::RequireAuth(who),
    ensures
        match call {
            Call::Initialize { .. } => false,
            Call::Pause | Call::Unpause => env.storage.admin == Some(who),
            Call::Stake { staker, .. } => who == staker,
            Call::Unstake { staker, .. } => who == staker,
        },
        i == env.effects.len(),
{
}

/// What is admitted: a configuration exactly while there is no administrator, a
/// pause or an unpause exactly while there is one, every unstake, and every
/// stake that is refused or whose amount the stored balance has room for.
pub proof fn law_what_is_admitted(env: EnvView, a: Address, b: Address, amount: i128)
    ensures
        env.admits(Call::Initialize { admin: a, token: b }) <==> env.storage.admin is None,
        env.admits(Call::Pause) <==> env.storage.admin is Some,
        env.admits(Call::Unpause) <==> env.storage.admin is Some,
        env.admits(Call::Unstake { staker: a, shares: amount }),
        env.admits(Call::Stake { staker: a, amount }) <==> env.storage.paused == Some(true)
            || amount <= 0 || env.storage.token is None || !env.storage.staked.contains_key(a)
            || env.storage.staked[a] + amount <= i128::MAX,
{
}

/// The configuration is final: once the contract is configured, no later call
/// changes the administrator or the token, and it is never configured again.
pub proof fn law_configuration_is_final(env: EnvView, calls: Seq<Call>)
    requires
        env.storage.admin is Some,
        env.admits_all(calls),
    ensures
        env.after_calls(calls).storage.admin == env.storage.admin,
        env.after_calls(calls).storage.token == env.storage.token,
        forall|i: int| 0 <= i < calls.len() ==> !(#[trigger] calls[i] is Initialize),
    decreases calls.len(),
{
    if calls.len() > 0 {
        let before = lemma_previous_calls(env, calls);
        law_configuration_is_final(env, calls.drop_last());
        assert forall|i: int| 0 <= i < calls.len() implies !(#[trigger] calls[i] is Initialize) by {
            if i < calls.len() - 1 {
                assert(calls.drop_last()[i] == calls[i]);
            }
        }
    }
}

/// A pause lasts until it is lifted: as long as nobody unpauses the contract,
/// no balance changes, and every stake and unstake is refused as paused.
pub proof fn law_pause_lasts(env: EnvView, calls: Seq<Call>, staker: Address, amount: i128)
    requires
        env.storage.is_paused(),
        env.admits_all(calls),
        forall|i: int| 0 <= i < calls.len() ==> !(#[trigger] calls[i] is Unpause),
    ensures
        env.after_calls(calls).storage.is_paused(),
        env.after_calls(calls).storage.staked == env.storage.staked,
        env.after_calls(calls).storage.stake_result(amount) == Err::<i128, StakingError>(
            StakingError::Paused,
        ),
        env.after_calls(calls).storage.unstake_result(staker, amount) == Err::<
            i128,
            StakingError,
        >(StakingError::Paused),
    decreases calls.len(),
{
    if calls.len() > 0 {
        let before = lemma_previous_calls(env, calls);
        assert forall|i: int| 0 <= i < calls.drop_last().len() implies !(
        #[trigger] calls.drop_last()[i] is Unpause) by {
            assert(calls.drop_last()[i] == calls[i]);
        }
        law_pause_lasts(env, calls.drop_last(), staker, amount);
        assert(!(calls[calls.len() - 1] is Unpause));
    }
}

/// The pause flag follows the calls: at every point of its life the contract is
/// paused exactly when some pause has not been lifted since.
pub proof fn law_paused_while_a_pause_stands(contract: Address, calls: Seq<Call>)
    requires
        EnvView::deployed(contract).admits_all(calls),
    ensures
        EnvView::deployed(contract).after_calls(calls).storage.is_paused() <==> exists|i: int|
            stands(calls, i),
    decreases calls.len(),
{
    if calls.len() > 0 {
        let before = lemma_previous_calls(EnvView::deployed(contract), calls);
        let earlier = calls.drop_last();
        let last = calls.len() - 1;
        law_paused_while_a_pause_stands(contract, earlier);
        if calls[last] is Pause {
            assert(stands(calls, last));
        } else if calls[last] is Unpause {
            assert forall|i: int| !stands(calls, i) by {}
        } else {
            assert forall|i: int| stands(calls, i) == stands(earlier, i) by {
                if stands(calls, i) {
                    assert forall|j: int| i < j < earlier.len() implies !(
                    #[trigger] earlier[j] is Unpause) by {
                        assert(earlier[j] == calls[j]);
                    }
                }
                if stands(earlier, i) {
                    assert forall|j: int| i < j < calls.len() implies !(
                    #[trigger] calls[j] is Unpause) by {
                        if j < last {
                            assert(earlier[j] == calls[j]);
                        }
                    }
                }
            }
        }
    }
}

/// The last event tells the state: at every point of its life the contract is
/// paused exactly when the last event published is that of a pause, and the flag
/// was never stored exactly when no event was published.
pub proof fn law_last_event_tells_the_pause(contract: Address, calls: Seq<Call>)
    requires
        EnvView::deployed(contract).admits_all(calls),
    ensures
        ({
            let env = EnvView::deployed(contract).after_calls(calls);
            &&& env.storage.paused == Some(true) <==> last_topic(env.effects) == Some(Topic::Paused)
            &&& env.storage.paused == Some(false) <==> last_topic(env.effects) == Some(
                Topic::Unpaused,
            )
            &&& env.storage.paused is None <==> last_topic(env.effects) is None
        }),
    decreases calls.len(),
{
    if calls.len() > 0 {
        let before = lemma_previous_calls(EnvView::deployed(contract), calls);
        law_last_event_tells_the_pause(contract, calls.drop_last());
        let requests = before.after_call(calls.last()).requested_since(before);
        assert(before.after_call(calls.last()).effects =~= before.effects + requests);
        lemma_last_topic_in_batches(before.effects, requests);
        reveal_with_fuel(last_topic, 4);
    }
}

/// Of two batches, the second tells the last topic if it publishes anything.
proof fn lemma_last_topic_in_batches(first: Seq<Effect>, second: Seq<Effect>)
    ensures
        last_topic(first + second) == (if last_topic(second) is Some {
            last_topic(second)
        } else {
            last_topic(first)
        }),
    decreases second.len(),
{
    if second.len() == 0 {
        assert(first + second =~= first);
    } else {
        lemma_last_topic_in_batches(first, second.drop_last());
        assert((first + second).drop_last() =~= first + second.drop_last());
    }
}

/// The configuration comes from the calls: at every point of its life the
/// contract has an administrator and a token exactly when it has been
/// configured, and they are the ones it was configured with.
pub proof fn law_configuration_comes_from_initialize(contract: Address, calls: Seq<Call>)
    requires
        EnvView::deployed(contract).admits_all(calls),
    ensures
        ({
            let storage = EnvView::deployed(contract).after_calls(calls).storage;
            &&& storage.admin is Some <==> exists|i: int|
                0 <= i < calls.len() && #[trigger] calls[i] is Initialize
            &&& storage.token is Some <==> storage.admin is Some
            &&& forall|i: int|
                0 <= i < calls.len() ==> (#[trigger] calls[i] matches Call::Initialize {
                    admin,
                    token,
                } ==> storage.admin == Some(admin) && storage.token == Some(token))
        }),
    decreases calls.len(),
{
    if calls.len() > 0 {
        let before = lemma_previous_calls(EnvView::deployed(contract), calls);
        let earlier = calls.drop_last();
        let last = calls.len() - 1;
        law_configuration_comes_from_initialize(contract, earlier);
        if before.storage.admin is Some {
            let i = choose|i: int| 0 <= i < earlier.len() && #[trigger] earlier[i] is Initialize;
            assert(calls[i] is Initialize);
        }
        assert forall|i: int| 0 <= i < last implies #[trigger] calls[i] == earlier[i] by {}
    }
}

/// Every transfer is a positive amount of the configured token, into or out of
/// the contract.
pub proof fn law_transfers_are_of_the_token(contract: Address, calls: Seq<Call>, i: int)
    requires
        EnvView::deployed(contract).admits_all(calls),
        0 <= i < EnvView::deployed(contract).after_calls(calls).effects.len(),
    ensures
        EnvView::deployed(contract).after_calls(calls).effects[i] matches Effect::Transfer {
            token,
            from,
            to,
            amount,
        } ==> {
            &&& EnvView::deployed(contract).after_calls(calls).storage.token == Some(token)
            &&& amount > 0
            &&& from == contract || to == contract
        },
    decreases calls.len(),
{
    let deployed = EnvView::deployed(contract);
    if calls.len() > 0 {
        let before = lemma_previous_calls(deployed, calls);
        let last = calls.last();
        law_storage_is_always_valid(contract, calls.drop_last());
        lemma_contract_stays(deployed, calls.drop_last());
        if i < before.effects.len() {
            law_transfers_are_of_the_token(contract, calls.drop_last(), i);
            assert(before.after_call(last).effects[i] == before.effects[i]);
        } else {
            assert(before.after_call(last).effects[i] == before.after_call(last).requested_since(
                before,
            )[i - before.effects.len()]);
        }
    }
}

/// Calls do not move the contract.
proof fn lemma_contract_stays(env: EnvView, calls: Seq<Call>)
    ensures
        env.after_calls(calls).contract == env.contract,
    decreases calls.len(),
{
    if calls.len() > 0 {
        lemma_contract_stays(env, calls.drop_last());
    }
}

/// What a call adds to the tokens moved.
proof fn lemma_moved_by_call(
    env: EnvView,
    call: Call,
    from: Option<Address>,
    to: Option<Address>,
)
    ensures
        moved(env.after_call(call).effects, from, to) == moved(env.effects, from, to) + (
        match call {
            Call::Stake { staker, amount } => if env.storage.stake_result(amount) is Ok && meant(
                from,
                staker,
            ) && meant(to, env.contract) {
                amount as int
            } else {
                0
            },
            Call::Unstake { staker, shares } => if env.storage.unstake_result(
                staker,
                shares,
            ) is Ok && meant(from, env.contract) && meant(to, staker) {
                shares as int
            } else {
                0
            },
            _ => 0,
        }),
{
    let requests = env.after_call(call).requested_since(env);
    assert(env.after_call(call).effects =~= env.effects + requests);
    lemma_moved_in_batches(env.effects, requests, from, to);
    reveal_with_fuel(moved, 4);
}

/// A balance is what its staker had accepted: at every point of the contract's
/// life, the staked balance of any address is the sum of its accepted stakes
/// less the sum of its accepted unstakes.
pub proof fn law_balance_is_what_was_accepted(contract: Address, calls: Seq<Call>, staker: Address)
    requires
        EnvView::deployed(contract).admits_all(calls),
    ensures
        ({
            let deployed = EnvView::deployed(contract);
            deployed.after_calls(calls).storage.balance(staker) == deployed.accepted_stakes(
                calls,
                Some(staker),
            ) - deployed.accepted_unstakes(calls, Some(staker))
        }),
    decreases calls.len(),
{
    if calls.len() > 0 {
        let before = lemma_previous_calls(EnvView::deployed(contract), calls);
        law_balance_is_what_was_accepted(contract, calls.drop_last(), staker);
    }
}

/// The stakes add up to what was accepted: at every point of the contract's
/// life, the sum of all balances is the sum of all accepted stakes less the sum
/// of all accepted unstakes.
pub proof fn law_total_is_what_was_accepted(contract: Address, calls: Seq<Call>)
    requires
        EnvView::deployed(contract).admits_all(calls),
    ensures
        ({
            let deployed = EnvView::deployed(contract);
            total(deployed.after_calls(calls).storage.staked) == deployed.accepted_stakes(
                calls,
                None,
            ) - deployed.accepted_unstakes(calls, None)
        }),
    decreases calls.len(),
{
    if calls.len() > 0 {
        let before = lemma_previous_calls(EnvView::deployed(contract), calls);
        law_total_is_what_was_accepted(contract, calls.drop_last());
        law_storage_is_always_valid(contract, calls.drop_last());
        lemma_total_after_call(before, calls.last());
    }
}

/// A balance is what its staker has put in less what it has taken out: at every
/// point of the contract's life, the staked balance of an address other than
/// the contract itself is what was transferred from it to the contract less
/// what was transferred from the contract to it.
pub proof fn law_balance_is_net_deposit(contract: Address, calls: Seq<Call>, staker: Address)
    requires
        EnvView::deployed(contract).admits_all(calls),
        staker != contract,
    ensures
        ({
            let env = EnvView::deployed(contract).after_calls(calls);
            env.storage.balance(staker) == moved_between(env.effects, staker, contract)
                - moved_between(env.effects, contract, staker)
        }),
    decreases calls.len(),
{
    let deployed = EnvView::deployed(contract);
    if calls.len() > 0 {
        let before = lemma_previous_calls(deployed, calls);
        law_balance_is_net_deposit(contract, calls.drop_last(), staker);
        law_storage_is_always_valid(contract, calls);
        lemma_contract_stays(deployed, calls.drop_last());
        lemma_moved_by_call(before, calls.last(), Some(staker), Some(contract));
        lemma_moved_by_call(before, calls.last(), Some(contract), Some(staker));
    }
}

/// The stakes are covered: as long as the contract does not stake with itself,
/// the balances add up to what was transferred to the contract less what was
/// transferred away from it.
pub proof fn law_stakes_are_covered(contract: Address, calls: Seq<Call>)
    requires
        EnvView::deployed(contract).admits_all(calls),
        forall|i: int| 0 <= i < calls.len() ==> (#[trigger] calls[i]).staker() != Some(contract),
    ensures
        ({
            let env = EnvView::deployed(contract).after_calls(calls);
            total(env.storage.staked) == moved_to(env.effects, contract) - moved_from(
                env.effects,
                contract,
            )
        }),
    decreases calls.len(),
{
    let deployed = EnvView::deployed(contract);
    if calls.len() > 0 {
        let before = lemma_previous_calls(deployed, calls);
        let last = calls.last();
        assert forall|i: int| 0 <= i < calls.drop_last().len() implies (
        #[trigger] calls.drop_last()[i]).staker() != Some(contract) by {
            assert(calls.drop_last()[i] == calls[i]);
        }
        assert(calls[calls.len() - 1].staker() != Some(contract));
        law_stakes_are_covered(contract, calls.drop_last());
        law_storage_is_always_valid(contract, calls.drop_last());
        lemma_contract_stays(deployed, calls.drop_last());
        lemma_moved_by_call(before, last, None, Some(contract));
        lemma_moved_by_call(before, last, Some(contract), None);
        lemma_total_after_call(before, last);
    }
}

} // verus!
