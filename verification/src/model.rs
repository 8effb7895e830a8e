use vstd::prelude::*;

use crate::address::Address;
use crate::env::{Effect, Topic};
use crate::error::StakingError;

verus! {

/// The contract's storage.
#[verifier::ext_equal]
pub struct StorageView {
    pub admin: Option<Address>,
    pub token: Option<Address>,
    pub paused: Option<bool>,
    pub staked: Map<Address, i128>,
}

impl StorageView {
    /// Storage that nothing has been written to.
    pub open spec fn blank() -> Self {
        StorageView { admin: None, token: None, paused: None, staked: Map::empty() }
    }

    /// Staking and unstaking are suspended. A flag never written counts as off.
    pub open spec fn is_paused(self) -> bool {
        self.paused == Some(true)
    }

    /// What `staker` has staked. A balance never written counts as zero.
    pub open spec fn balance(self, staker: Address) -> i128 {
        if self.staked.contains_key(staker) {
            self.staked[staker]
        } else {
            0
        }
    }

    /// Storage as a run of the contract leaves it: the administrator and the
    /// token are configured together, stakes exist only once they are, and no
    /// balance is negative.
    pub open spec fn valid(self) -> bool {
        &&& self.admin is Some <==> self.token is Some
        &&& forall|staker: Address| #[trigger]
            self.staked.contains_key(staker) ==> self.token is Some && self.staked[staker] >= 0
        &&& self.staked.dom().finite()
    }

    /// The configuration and the pause flag are those of `other`.
    pub open spec fn same_terms(self, other: Self) -> bool {
        &&& self.admin == other.admin
        &&& self.token == other.token
        &&& self.paused == other.paused
    }

    /// What staking returns: the amount staked, or the first reason to refuse.
    pub open spec fn stake_result(self, amount: i128) -> Result<i128, StakingError> {
        if self.is_paused() {
            Err(StakingError::Paused)
        } else if amount <= 0 {
            Err(StakingError::InvalidAmount)
        } else if self.token is None {
            Err(StakingError::NotInitialized)
        } else {
            Ok(amount)
        }
    }

    /// What unstaking returns: the amount handed back, or the first reason to
    /// refuse.
    pub open spec fn unstake_result(self, staker: Address, shares: i128) -> Result<
        i128,
        StakingError,
    > {
        if self.is_paused() {
            Err(StakingError::Paused)
        } else if shares <= 0 {
            Err(StakingError::InvalidAmount)
        } else if self.token is None {
            Err(StakingError::NotInitialized)
        } else if self.balance(staker) < shares {
            Err(StakingError::InsufficientStake)
        } else {
            Ok(shares)
        }
    }

    /// The balance of `staker` can hold a deposit of `amount`, unless the
    /// deposit is refused anyway.
    pub open spec fn has_room(self, staker: Address, amount: i128) -> bool {
        self.stake_result(amount) is Ok ==> self.balance(staker) + amount <= i128::MAX
    }

    /// The storage after one request has been carried out.
    pub open spec fn after(self, effect: Effect) -> Self {
        match effect {
            Effect::SetAdmin(admin) => StorageView { admin: Some(admin), ..self },
            Effect::SetToken(token) => StorageView { token: Some(token), ..self },
            Effect::SetPaused(flag) => StorageView { paused: Some(flag), ..self },
            Effect::SetStaked(staker, amount) => StorageView {
                staked: self.staked.insert(staker, amount),
                ..self
            },
            Effect::RequireAuth(_) | Effect::Transfer { .. } | Effect::Publish(_) => self,
        }
    }

    /// The storage after the requests have been carried out in order.
    pub open spec fn after_all(self, effects: Seq<Effect>) -> Self
        decreases effects.len(),
    {
        if effects.len() == 0 {
            self
        } else {
            self.after_all(effects.drop_last()).after(effects.last())
        }
    }
}

/// The environment of a call: whose storage it is, what is stored, and what
/// has been requested of the host so far.
#[verifier::ext_equal]
pub struct EnvView {
    pub contract: Address,
    pub storage: StorageView,
    pub effects: Seq<Effect>,
}

impl EnvView {
    /// A contract that has just been deployed.
    pub open spec fn deployed(contract: Address) -> Self {
        EnvView { contract, storage: StorageView::blank(), effects: Seq::empty() }
    }

    /// The environment with `storage` in place of what was stored and
    /// `requests` added to what was requested.
    pub open spec fn with(self, storage: StorageView, requests: Seq<Effect>) -> Self {
        EnvView { contract: self.contract, storage, effects: self.effects + requests }
    }

    /// What has been requested since `earlier`.
    pub open spec fn requested_since(self, earlier: Self) -> Seq<Effect> {
        self.effects.skip(earlier.effects.len() as int)
    }

    /// Configuration stores the administrator and the token, and asks for no
    /// signature.
    pub open spec fn after_initialize(self, admin: Address, token: Address) -> EnvView {
        self.with(
            StorageView { admin: Some(admin), token: Some(token), ..self.storage },
            seq![Effect::SetAdmin(admin), Effect::SetToken(token)],
        )
    }

    /// Pausing and unpausing take the administrator's signature, store the flag
    /// and publish the event.
    pub open spec fn after_set_paused(self, flag: bool) -> EnvView
        recommends
            self.storage.admin is Some,
    {
        self.with(
            StorageView { paused: Some(flag), ..self.storage },
            seq![
                Effect::RequireAuth(self.storage.admin->Some_0),
                Effect::SetPaused(flag),
                Effect::Publish(if flag { Topic::Paused } else { Topic::Unpaused }),
            ],
        )
    }

    /// Where staking is refused nothing is stored, and the staker's signature is
    /// asked for unless the contract is paused. Otherwise the tokens move from the
    /// staker to the contract and the staker's balance grows by the amount.
    pub open spec fn after_stake(self, staker: Address, amount: i128) -> EnvView {
        match self.storage.stake_result(amount) {
            Ok(_) => {
                let balance = (self.storage.balance(staker) + amount) as i128;
                self.with(
                    StorageView {
                        staked: self.storage.staked.insert(staker, balance),
                        ..self.storage
                    },
                    seq![
                        Effect::RequireAuth(staker),
                        Effect::Transfer {
                            token: self.storage.token->Some_0,
                            from: staker,
                            to: self.contract,
                            amount,
                        },
                        Effect::SetStaked(staker, balance),
                    ],
                )
            },
            Err(StakingError::Paused) => self,
            Err(_) => self.with(self.storage, seq![Effect::RequireAuth(staker)]),
        }
    }

    /// Where unstaking is refused nothing is stored, and the staker's signature is
    /// asked for unless the contract is paused. Otherwise the tokens move from the
    /// contract to the staker and the staker's balance shrinks by the amount.
    pub open spec fn after_unstake(self, staker: Address, shares: i128) -> EnvView {
        match self.storage.unstake_result(staker, shares) {
            Ok(_) => {
                let balance = (self.storage.balance(staker) - shares) as i128;
                self.with(
                    StorageView {
                        staked: self.storage.staked.insert(staker, balance),
                        ..self.storage
                    },
                    seq![
                        Effect::RequireAuth(staker),
                        Effect::Transfer {
                            token: self.storage.token->Some_0,
                            from: self.contract,
                            to: staker,
                            amount: shares,
                        },
                        Effect::SetStaked(staker, balance),
                    ],
                )
            },
            Err(StakingError::Paused) => self,
            Err(_) => self.with(self.storage, seq![Effect::RequireAuth(staker)]),
        }
    }
}

} // verus!
