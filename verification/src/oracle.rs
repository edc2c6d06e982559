//! The value oracle actor: a thin proxy that owns a manager address. Its
//! only decision logic is the owner guard on changing the manager; the
//! request round trip itself is plain message passing and stays with the
//! caller.

use vstd::prelude::*;

use crate::ActorId;
use crate::Error;

verus! {

/// What the oracle is configured with at birth.
#[derive(Debug, Clone, Copy, PartialEq, Eq, Structural)]
pub struct InitConfig {
    /// The principal allowed to change the manager.
    pub owner: ActorId,
    /// The actor asked for fresh values.
    pub manager: ActorId,
}

/// One inbound command.
#[derive(Debug, Clone, Copy, PartialEq, Eq, Structural)]
pub enum Action {
    RequestValue,
    ChangeManager(ActorId),
}

/// The terminal reply event of a successful command.
#[derive(Debug, Clone, Copy, PartialEq, Eq, Structural)]
pub enum Event {
    NewValue { value: u128 },
    NewManager(ActorId),
}

/// One read-only query.
#[derive(Debug, Clone, Copy, PartialEq, Eq, Structural)]
pub enum StateQuery {
    GetOwner,
    GetManager,
}

/// The answer to a query.
#[derive(Debug, Clone, Copy, PartialEq, Eq, Structural)]
pub enum StateResponse {
    Owner(ActorId),
    Manager(ActorId),
}

/// The oracle's state.
#[derive(Debug, Clone, Copy, PartialEq, Eq, Structural)]
pub struct Oracle {
    /// The principal allowed to change the manager.
    pub owner: ActorId,
    /// The actor asked for fresh values.
    pub manager: ActorId,
}

impl Oracle {
    /// A fresh oracle with the configured principals.
    pub fn new(config: InitConfig) -> (r: Oracle)
        ensures
            r.owner == config.owner,
            r.manager == config.manager,
    {
        Oracle { owner: config.owner, manager: config.manager }
    }

    /// Only the owner administers.
    pub fn assert_only_owner(&self, caller: ActorId) -> (r: Result<(), Error>)
        ensures
            caller == self.owner ==> r == Ok::<(), Error>(()),
            caller != self.owner ==> r == Err::<(), Error>(Error::Unauthorized),
    {
        if caller == self.owner {
            Ok(())
        } else {
            Err(Error::Unauthorized)
        }
    }

    /// Hands the manager role to another principal. Only the owner.
    pub fn change_manager(&mut self, caller: ActorId, new_manager: ActorId) -> (r: Result<
        Event,
        Error,
    >)
        ensures
            caller != old(self).owner ==> r == Err::<Event, Error>(Error::Unauthorized) && *final(self) == *old(self),
            caller == old(self).owner ==> r == Ok::<Event, Error>(Event::NewManager(new_manager))
                && *final(self) == (Oracle { manager: new_manager, ..*old(self) }),
    {
        match self.assert_only_owner(caller) {
            Ok(()) => (),
            Err(e) => {
                return Err(e);
            },
        }
        self.manager = new_manager;
        Ok(Event::NewManager(new_manager))
    }

    /// Answers a read-only query.
    pub fn meta_state(&self, query: StateQuery) -> (r: StateResponse)
        ensures
            query is GetOwner ==> r == StateResponse::Owner(self.owner),
            query is GetManager ==> r == StateResponse::Manager(self.manager),
    {
        match query {
            StateQuery::GetOwner => StateResponse::Owner(self.owner),
            StateQuery::GetManager => StateResponse::Manager(self.manager),
        }
    }
}

} // verus!
