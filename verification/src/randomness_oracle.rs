//! The randomness oracle actor: a round-indexed store of random values that
//! a manager feeds and anyone may read. Rounds only move forward; a value,
//! once stored, is never overwritten.

use vstd::prelude::*;

use crate::ActorId;
use crate::Error;

verus! {

/// A random value's raw material.
pub type RandomSeed = (u128, u128);

/// One stored random value: the seed itself and the signatures that came
/// with it (opaque bytes to this actor).
#[derive(Debug, PartialEq, Eq)]
pub struct Random {
    /// The random seed.
    pub randomness: RandomSeed,
    /// The round's signature, as delivered.
    pub signature: Vec<u8>,
    /// The previous round's signature, as delivered.
    pub prev_signature: Vec<u8>,
}

/// Two random values observe alike.
pub open spec fn random_models(a: Random, b: Random) -> bool {
    &&& a.randomness == b.randomness
    &&& a.signature@ == b.signature@
    &&& a.prev_signature@ == b.prev_signature@
}

impl Clone for Random {
    /// A copy that observes as the original.
    fn clone(&self) -> (r: Self)
        ensures
            random_models(r, *self),
    {
        Random {
            randomness: self.randomness,
            signature: clone_bytes(&self.signature),
            prev_signature: clone_bytes(&self.prev_signature),
        }
    }
}

/// Copies a byte string.
fn clone_bytes(v: &Vec<u8>) -> (r: Vec<u8>)
    ensures
        r@ == v@,
{
    let n: usize = v.len();
    let mut r: Vec<u8> = Vec::new();
    let mut i: usize = 0;
    while i < n
        invariant
            i <= n,
            r@.len() == i,
            forall|j: int| 0 <= j < i ==> r@[j] == v@[j],
        decreases n - i,
    {
        r.push(v[i]);
        i = i + 1;
    }
    proof {
        assert(r@ =~= v@);
    }
    r
}

/// What the actor is configured with at birth.
#[derive(Debug, Clone, Copy, PartialEq, Eq, Structural)]
pub struct InitConfig {
    /// The principal allowed to feed values.
    pub manager: ActorId,
}

/// One inbound command.
#[derive(Debug)]
pub enum Action {
    SetRandomValue { round: u128, value: Random },
    UpdateManager(ActorId),
}

/// The terminal reply event of a successful command.
#[derive(Debug, PartialEq, Eq)]
pub enum Event {
    NewRandomValue { round: u128, value: Random },
    NewManager(ActorId),
}

/// One read-only query.
#[derive(Debug, Clone, Copy, PartialEq, Eq, Structural)]
pub enum StateQuery {
    GetOwner,
    GetManager,
    GetValues,
    GetValue(u128),
    GetLastRound,
    GetLastRandomValue,
    GetRandomValueFromRound(u128),
}

/// The answer to a query.
#[derive(Debug, PartialEq, Eq)]
pub enum StateResponse {
    Owner(ActorId),
    Manager(ActorId),
    Values(Vec<(u128, Random)>),
    Value(Random),
    LastRound(u128),
    LastRandomValue(RandomSeed),
    RandomValueFromRound(RandomSeed),
}

/// There is a value stored for that round.
pub open spec fn has_round(values: Seq<(u128, Random)>, round: u128) -> bool {
    exists|i: int| 0 <= i < values.len() && (#[trigger] values[i]).0 == round
}

/// The index of that round's value (meaningful when the round occurs; the
/// rounds are unique by the store's invariant).
pub open spec fn round_index(values: Seq<(u128, Random)>, round: u128) -> int {
    choose|i: int| 0 <= i < values.len() && (#[trigger] values[i]).0 == round
}

/// The randomness oracle's state.
#[derive(Debug)]
pub struct RandomnessOracle {
    /// The principal allowed to change the manager.
    pub owner: ActorId,
    /// The stored values, in the order the rounds arrived.
    pub values: Vec<(u128, Random)>,
    /// The highest round fed so far.
    pub last_round: u128,
    /// The principal allowed to feed values.
    pub manager: ActorId,
}

impl RandomnessOracle {
    /// Well-formedness: rounds arrive strictly increasing, so the store is
    /// sorted, duplicate-free, and bounded by the last round.
    pub open spec fn wf(self) -> bool {
        &&& forall|i: int, j: int|
            0 <= i < j < self.values@.len() ==> (#[trigger] self.values@[i]).0 < (
            #[trigger] self.values@[j]).0
        &&& forall|i: int| 0 <= i < self.values@.len() ==> (#[trigger] self.values@[i]).0 <= self.last_round
    }

    /// A fresh store: no values, round zero, the caller recorded as owner.
    pub fn new(owner: ActorId, config: InitConfig) -> (r: RandomnessOracle)
        ensures
            r.wf(),
            r.owner == owner,
            r.manager == config.manager,
            r.values@.len() == 0,
            r.last_round == 0,
    {
        RandomnessOracle { owner, values: Vec::new(), last_round: 0, manager: config.manager }
    }

    /// Stores the value for a fresh round. Only the manager, and only for a
    /// round beyond every round seen so far: no value is ever overwritten.
    pub fn set_random_value(&mut self, caller: ActorId, round: u128, value: &Random) -> (r: Result<
        Event,
        Error,
    >)
        requires
            old(self).wf(),
        ensures
            final(self).wf(),
            caller != old(self).manager ==> r == Err::<Event, Error>(Error::Unauthorized) && *final(self) == *old(self),
            caller == old(self).manager && round <= old(self).last_round ==> r == Err::<
                Event,
                Error,
            >(Error::InvalidStage) && *final(self) == *old(self),
            caller == old(self).manager && round > old(self).last_round ==> {
                &&& (r matches Ok(ev) && ev matches Event::NewRandomValue { round: r2, value: v2 }
                    && r2 == round && random_models(v2, *value))
                &&& final(self).last_round == round
                &&& final(self).values@.len() == old(self).values@.len() + 1
                &&& forall|i: int|
                    0 <= i < old(self).values@.len() ==> final(self).values@[i] == old(self).values@[i]
                &&& final(self).values@.last().0 == round
                &&& random_models(final(self).values@.last().1, *value)
                &&& final(self).owner == old(self).owner
                &&& final(self).manager == old(self).manager
            },
    {
        match self.assert_manager(caller) {
            Ok(()) => (),
            Err(e) => {
                return Err(e);
            },
        }
        if round <= self.last_round {
            return Err(Error::InvalidStage);
        }
        self.last_round = round;
        self.values.push((round, value.clone()));
        Ok(Event::NewRandomValue { round, value: value.clone() })
    }

    /// Hands the manager role to another principal. Only the owner.
    pub fn update_manager(&mut self, caller: ActorId, new_manager: &ActorId) -> (r: Result<
        Event,
        Error,
    >)
        requires
            old(self).wf(),
        ensures
            final(self).wf(),
            caller != old(self).owner ==> r == Err::<Event, Error>(Error::Unauthorized) && *final(self) == *old(self),
            caller == old(self).owner ==> {
                &&& r == Ok::<Event, Error>(Event::NewManager(*new_manager))
                &&& final(self).manager == *new_manager
                &&& final(self).owner == old(self).owner
                &&& final(self).last_round == old(self).last_round
                &&& final(self).values@ == old(self).values@
            },
    {
        match self.assert_owner(caller) {
            Ok(()) => (),
            Err(e) => {
                return Err(e);
            },
        }
        self.manager = *new_manager;
        Ok(Event::NewManager(*new_manager))
    }

    /// The value stored for a round.
    pub fn get_value(&self, round: u128) -> (r: Result<Random, Error>)
        requires
            self.wf(),
        ensures
            !has_round(self.values@, round) ==> r == Err::<Random, Error>(Error::NotFound),
            has_round(self.values@, round) ==> (r matches Ok(v) && random_models(
                v,
                self.values@[round_index(self.values@, round)].1,
            )),
    {
        let n: usize = self.values.len();
        let mut i: usize = 0;
        while i < n
            invariant
                i <= n,
                forall|j: int| 0 <= j < i ==> (#[trigger] self.values@[j]).0 != round,
            decreases n - i,
        {
            if self.values[i].0 == round {
                proof {
                    lemma_round_index_unique(self.values@, round, i as int);
                }
                return Ok(self.values[i].1.clone());
            }
            i = i + 1;
        }
        Err(Error::NotFound)
    }

    /// Every stored value, cloned, paired with its round.
    pub fn get_values(&self) -> (r: Vec<(u128, Random)>)
        ensures
            r@.len() == self.values@.len(),
            forall|i: int|
                0 <= i < self.values@.len() ==> (#[trigger] r@[i]).0 == self.values@[i].0
                    && random_models(r@[i].1, self.values@[i].1),
    {
        let n: usize = self.values.len();
        let mut r: Vec<(u128, Random)> = Vec::new();
        let mut i: usize = 0;
        while i < n
            invariant
                i <= n,
                r@.len() == i,
                forall|j: int|
                    0 <= j < i ==> (#[trigger] r@[j]).0 == self.values@[j].0 && random_models(
                        r@[j].1,
                        self.values@[j].1,
                    ),
            decreases n - i,
        {
            let entry = &self.values[i];
            r.push((entry.0, entry.1.clone()));
            i = i + 1;
        }
        r
    }

    /// The random seed stored for a round.
    pub fn get_random_value(&self, round: u128) -> (r: Result<RandomSeed, Error>)
        requires
            self.wf(),
        ensures
            !has_round(self.values@, round) ==> r == Err::<RandomSeed, Error>(Error::NotFound),
            has_round(self.values@, round) ==> r == Ok::<RandomSeed, Error>(
                self.values@[round_index(self.values@, round)].1.randomness,
            ),
    {
        match self.get_value(round) {
            Ok(v) => Ok(v.randomness),
            Err(e) => Err(e),
        }
    }

    /// Only the manager feeds values.
    fn assert_manager(&self, caller: ActorId) -> (r: Result<(), Error>)
        ensures
            caller == self.manager ==> r == Ok::<(), Error>(()),
            caller != self.manager ==> r == Err::<(), Error>(Error::Unauthorized),
    {
        if caller == self.manager {
            Ok(())
        } else {
            Err(Error::Unauthorized)
        }
    }

    /// Only the owner administers.
    fn assert_owner(&self, caller: ActorId) -> (r: Result<(), Error>)
        ensures
            caller == self.owner ==> r == Ok::<(), Error>(()),
            caller != self.owner ==> r == Err::<(), Error>(Error::Unauthorized),
    {
        if caller == self.owner {
            Ok(())
        } else {
            Err(Error::Unauthorized)
        }
    }

    /// Answers a read-only query. Only a query that names an unknown round
    /// fails.
    pub fn meta_state(&self, query: StateQuery) -> (r: Result<StateResponse, Error>)
        requires
            self.wf(),
        ensures
            query is GetOwner ==> r == Ok::<StateResponse, Error>(StateResponse::Owner(self.owner)),
            query is GetManager ==> r == Ok::<StateResponse, Error>(
                StateResponse::Manager(self.manager),
            ),
            query is GetValues ==> (r matches Ok(resp) && resp matches StateResponse::Values(v) && {
                &&& v@.len() == self.values@.len()
                &&& forall|i: int|
                    0 <= i < self.values@.len() ==> (#[trigger] v@[i]).0 == self.values@[i].0
                        && random_models(v@[i].1, self.values@[i].1)
            }),
            query matches StateQuery::GetValue(round) ==> {
                &&& !has_round(self.values@, round) ==> r == Err::<StateResponse, Error>(
                    Error::NotFound,
                )
                &&& has_round(self.values@, round) ==> (r matches Ok(resp) && resp matches
                    StateResponse::Value(v) && random_models(
                    v,
                    self.values@[round_index(self.values@, round)].1,
                ))
            },
            query is GetLastRound ==> r == Ok::<StateResponse, Error>(
                StateResponse::LastRound(self.last_round),
            ),
            query is GetLastRandomValue ==> {
                &&& !has_round(self.values@, self.last_round) ==> r == Err::<StateResponse, Error>(
                    Error::NotFound,
                )
                &&& has_round(self.values@, self.last_round) ==> r == Ok::<StateResponse, Error>(
                    StateResponse::LastRandomValue(
                        self.values@[round_index(self.values@, self.last_round)].1.randomness,
                    ),
                )
            },
            query matches StateQuery::GetRandomValueFromRound(round) ==> {
                &&& !has_round(self.values@, round) ==> r == Err::<StateResponse, Error>(
                    Error::NotFound,
                )
                &&& has_round(self.values@, round) ==> r == Ok::<StateResponse, Error>(
                    StateResponse::RandomValueFromRound(
                        self.values@[round_index(self.values@, round)].1.randomness,
                    ),
                )
            },
    {
        match query {
            StateQuery::GetOwner => Ok(StateResponse::Owner(self.owner)),
            StateQuery::GetManager => Ok(StateResponse::Manager(self.manager)),
            StateQuery::GetValues => Ok(StateResponse::Values(self.get_values())),
            StateQuery::GetValue(round) => {
                match self.get_value(round) {
                    Ok(v) => Ok(StateResponse::Value(v)),
                    Err(e) => Err(e),
                }
            },
            StateQuery::GetLastRound => Ok(StateResponse::LastRound(self.last_round)),
            StateQuery::GetLastRandomValue => {
                match self.get_random_value(self.last_round) {
                    Ok(seed) => Ok(StateResponse::LastRandomValue(seed)),
                    Err(e) => Err(e),
                }
            },
            StateQuery::GetRandomValueFromRound(round) => {
                match self.get_random_value(round) {
                    Ok(seed) => Ok(StateResponse::RandomValueFromRound(seed)),
                    Err(e) => Err(e),
                }
            },
        }
    }
}

/// With strictly increasing rounds, any index holding `round` is the chosen
/// `round_index`.
pub proof fn lemma_round_index_unique(values: Seq<(u128, Random)>, round: u128, i: int)
    requires
        forall|a: int, b: int|
            0 <= a < b < values.len() ==> (#[trigger] values[a]).0 < (#[trigger] values[b]).0,
        0 <= i < values.len(),
        values[i].0 == round,
    ensures
        has_round(values, round),
        round_index(values, round) == i,
{
    assert(has_round(values, round));
    let c = round_index(values, round);
    if c < i {
        assert(values[c].0 < values[i].0);
    } else if c > i {
        assert(values[i].0 < values[c].0);
    }
}

} // verus!
