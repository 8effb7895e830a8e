use vstd::prelude::*;

use crate::address::Address;
use crate::balances::StakedBalances;
use crate::model::{EnvView, StorageView};

verus! {

/// The symbol of the administrator's slot.
pub const ADMIN_KEY: &'static str = "ADMIN";

/// The symbol of the pause flag's slot.
pub const PAUSED_KEY: &'static str = "PAUSED";

/// The symbol of the token's slot.
pub const TOKEN_KEY: &'static str = "TOKEN";

/// The symbol of the event for a pause.
pub const TOPIC_PAUSED: &'static str = "PAUSED";

/// The symbol of the event for the end of a pause.
pub const TOPIC_UNPAUSED: &'static str = "UNPAUSED";

/// A slot of the contract's instance storage.
#[derive(Clone, Copy, Debug, PartialEq, Eq, Structural)]
pub enum InstanceKey {
    /// The administrator's address.
    Admin,
    /// Whether the contract is paused.
    Paused,
    /// The address of the staked token.
    Token,
}

impl InstanceKey {
    /// The symbol that names the slot on the ledger.
    pub open spec fn spec_symbol(self) -> Seq<char> {
        match self {
            InstanceKey::Admin => "ADMIN"@,
            InstanceKey::Paused => "PAUSED"@,
            InstanceKey::Token => "TOKEN"@,
        }
    }

    /// Returns the symbol that names the slot on the ledger.
    pub fn symbol(self) -> (symbol: &'static str)
        ensures
            symbol@ == self.spec_symbol(),
            self is Admin ==> symbol@ == "ADMIN"@,
            self is Paused ==> symbol@ == "PAUSED"@,
            self is Token ==> symbol@ == "TOKEN"@,
    {
        match self {
            InstanceKey::Admin => ADMIN_KEY,
            InstanceKey::Paused => PAUSED_KEY,
            InstanceKey::Token => TOKEN_KEY,
        }
    }
}

/// The topic of an event that the contract publishes.
#[derive(Clone, Copy, Debug, PartialEq, Eq, Structural)]
pub enum Topic {
    /// The contract was paused.
    Paused,
    /// The contract was unpaused.
    Unpaused,
}

impl Topic {
    /// The symbol that the event carries.
    pub open spec fn spec_symbol(self) -> Seq<char> {
        match self {
            Topic::Paused => "PAUSED"@,
            Topic::Unpaused => "UNPAUSED"@,
        }
    }

    /// Returns the symbol that the event carries.
    pub fn symbol(self) -> (symbol: &'static str)
        ensures
            symbol@ == self.spec_symbol(),
            self is Paused ==> symbol@ == "PAUSED"@,
            self is Unpaused ==> symbol@ == "UNPAUSED"@,
    {
        match self {
            Topic::Paused => TOPIC_PAUSED,
            Topic::Unpaused => TOPIC_UNPAUSED,
        }
    }
}

/// Slots and topics do not collide: two slots with the same symbol are the same
/// slot, and two topics with the same symbol are the same topic.
pub proof fn law_symbols_are_distinct(a: InstanceKey, b: InstanceKey, s: Topic, t: Topic)
    ensures
        a.spec_symbol() == b.spec_symbol() <==> a == b,
        s.spec_symbol() == t.spec_symbol() <==> s == t,
{
    reveal_strlit("ADMIN");
    reveal_strlit("PAUSED");
    reveal_strlit("TOKEN");
    reveal_strlit("UNPAUSED");
    assert("ADMIN"@[0] != "TOKEN"@[0]);
    assert("PAUSED"@.len() != "UNPAUSED"@.len());
}

/// One request to the host.
///
/// The host carries requests out in order. Where it cannot carry one out (a
/// missing signature, a transfer that the token refuses) it abandons the whole
/// call, and nothing that the call did takes hold.
#[derive(Clone, Copy, Debug, PartialEq, Eq, Structural)]
pub enum Effect {
    /// Check that the address has authorized the current call.
    RequireAuth(Address),
    /// Move `amount` units of `token` from one holder to another.
    Transfer { token: Address, from: Address, to: Address, amount: i128 },
    /// Store the administrator's address.
    SetAdmin(Address),
    /// Store the address of the staked token.
    SetToken(Address),
    /// Store whether the contract is paused.
    SetPaused(bool),
    /// Store the staked balance of an address.
    SetStaked(Address, i128),
    /// Publish an event that carries this topic and no data.
    Publish(Topic),
}

/// What the contract knows of the ledger while a call runs, and what it asks
/// of the host.
pub struct Env {
    /// The contract's own address, which holds the staked tokens.
    pub contract: Address,
    /// The stored administrator, if any.
    pub admin: Option<Address>,
    /// The stored token address, if any.
    pub token: Option<Address>,
    /// The stored pause flag, if any.
    pub paused: Option<bool>,
    /// The stored balances.
    pub staked: StakedBalances,
    /// The requests to the host so far, oldest first.
    pub effects: Vec<Effect>,
}

impl View for Env {
    type V = EnvView;

    open spec fn view(&self) -> EnvView {
        EnvView {
            contract: self.contract,
            storage: StorageView {
                admin: self.admin,
                token: self.token,
                paused: self.paused,
                staked: self.staked@,
            },
            effects: self.effects@,
        }
    }
}

impl Env {
    /// The environment of a contract that has just been deployed at `contract`:
    /// nothing is stored and nothing has been requested.
    pub fn new(contract: Address) -> (env: Self)
        ensures
            env@ == EnvView::deployed(contract),
    {
        Env {
            contract,
            admin: None,
            token: None,
            paused: None,
            staked: StakedBalances::new(),
            effects: Vec::new(),
        }
    }
}

} // verus!
