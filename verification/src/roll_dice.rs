//! The dice-rolling actor: it records one roll per oracle request and
//! resolves each roll to even or odd once the oracle's value arrives.

use vstd::prelude::*;

use crate::ActorId;
use crate::Error;

verus! {

/// One inbound command.
#[derive(Debug, Clone, Copy, PartialEq, Eq, Structural)]
pub enum Action {
    Roll,
}

/// The terminal reply event of a successful command.
#[derive(Debug, Clone, Copy, PartialEq, Eq)]
pub enum Event {
    RollValueRequested(u128),
    RollFinished((u128, u128)),
}

/// One read-only query.
#[derive(Debug, Clone, Copy, PartialEq, Eq, Structural)]
pub enum StateQuery {
    GetUsersData,
}

/// The answer to a query.
#[derive(Debug)]
pub enum StateResponse {
    UsersData(Vec<(u128, ActorId, RollStatus)>),
}

/// Where one roll stands.
#[derive(Debug, Clone, Copy, PartialEq, Eq, Structural)]
pub enum RollStatus {
    /// The oracle's value is still outstanding.
    Rolling,
    /// The roll came out; `true` means the value was even.
    Finished(bool),
}

/// What the actor is configured with at birth.
#[derive(Debug, Clone, Copy, PartialEq, Eq, Structural)]
pub struct InitConfig {
    /// The oracle asked for random values.
    pub oracle: ActorId,
}

/// There is a roll recorded under that request id.
pub open spec fn has_roll(rolls: Seq<(u128, (ActorId, RollStatus))>, id: u128) -> bool {
    exists|i: int| 0 <= i < rolls.len() && (#[trigger] rolls[i]).0 == id
}

/// The index of that roll (meaningful when the ids are unique and the id
/// occurs).
pub open spec fn roll_index(rolls: Seq<(u128, (ActorId, RollStatus))>, id: u128) -> int {
    choose|i: int| 0 <= i < rolls.len() && (#[trigger] rolls[i]).0 == id
}

/// The dice-rolling actor's state.
#[derive(Debug)]
pub struct RollDice {
    /// One roll per oracle request id.
    pub users_data: Vec<(u128, (ActorId, RollStatus))>,
    /// The oracle asked for random values.
    pub oracle: ActorId,
}

impl RollDice {
    /// Well-formedness: one roll per request id.
    pub open spec fn wf(self) -> bool {
        forall|i: int, j: int|
            0 <= i < j < self.users_data@.len() ==> (#[trigger] self.users_data@[i]).0 != (
            #[trigger] self.users_data@[j]).0
    }

    /// A fresh actor with no rolls.
    pub fn new(config: InitConfig) -> (r: RollDice)
        ensures
            r.wf(),
            r.oracle == config.oracle,
            r.users_data@.len() == 0,
    {
        RollDice { users_data: Vec::new(), oracle: config.oracle }
    }

    /// Records `user`'s roll under the request id the oracle handed out,
    /// as still rolling, and acknowledges with the id. A repeated id
    /// overwrites its record, as a fresh request supersedes it.
    pub fn roll(&mut self, user: ActorId, request_id: u128) -> (ev: Event)
        requires
            old(self).wf(),
        ensures
            final(self).wf(),
            ev == Event::RollValueRequested(request_id),
            final(self).oracle == old(self).oracle,
            has_roll(old(self).users_data@, request_id) ==> final(self).users_data@ == old(
                self,
            ).users_data@.update(
                roll_index(old(self).users_data@, request_id),
                (request_id, (user, RollStatus::Rolling)),
            ),
            !has_roll(old(self).users_data@, request_id) ==> final(self).users_data@ == old(
                self,
            ).users_data@.push((request_id, (user, RollStatus::Rolling))),
    {
        let n: usize = self.users_data.len();
        let mut i: usize = 0;
        while i < n
            invariant
                i <= n,
                *self == *old(self),
                n == self.users_data@.len(),
                forall|j: int| 0 <= j < i ==> (#[trigger] self.users_data@[j]).0 != request_id,
            decreases n - i,
        {
            if self.users_data[i].0 == request_id {
                proof {
                    lemma_roll_index_unique(self.users_data@, request_id, i as int);
                }
                self.users_data.set(i, (request_id, (user, RollStatus::Rolling)));
                return Event::RollValueRequested(request_id);
            }
            i = i + 1;
        }
        self.users_data.push((request_id, (user, RollStatus::Rolling)));
        Event::RollValueRequested(request_id)
    }

    /// Resolves the roll recorded under `id` with the oracle's value: even
    /// wins, odd loses. An unknown id is refused.
    pub fn roll_finished(&mut self, id: u128, value: u128) -> (r: Result<Event, Error>)
        requires
            old(self).wf(),
        ensures
            final(self).wf(),
            final(self).oracle == old(self).oracle,
            !has_roll(old(self).users_data@, id) ==> r == Err::<Event, Error>(Error::NotFound)
                && *final(self) == *old(self),
            has_roll(old(self).users_data@, id) ==> {
                let k = roll_index(old(self).users_data@, id);
                &&& r == Ok::<Event, Error>(Event::RollFinished((id, value)))
                &&& final(self).users_data@ == old(self).users_data@.update(
                    k,
                    (
                        id,
                        (old(self).users_data@[k].1.0, RollStatus::Finished(value % 2 == 0)),
                    ),
                )
            },
    {
        let n: usize = self.users_data.len();
        let mut i: usize = 0;
        while i < n
            invariant
                i <= n,
                *self == *old(self),
                n == self.users_data@.len(),
                forall|j: int| 0 <= j < i ==> (#[trigger] self.users_data@[j]).0 != id,
            decreases n - i,
        {
            if self.users_data[i].0 == id {
                proof {
                    lemma_roll_index_unique(self.users_data@, id, i as int);
                }
                let user: ActorId = self.users_data[i].1.0;
                self.users_data.set(i, (id, (user, RollStatus::Finished(value % 2 == 0))));
                return Ok(Event::RollFinished((id, value)));
            }
            i = i + 1;
        }
        Err(Error::NotFound)
    }

    /// Answers a read-only query.
    pub fn meta_state(&self, query: StateQuery) -> (r: StateResponse)
        ensures
            query is GetUsersData ==> (r matches StateResponse::UsersData(v) && {
                &&& v@.len() == self.users_data@.len()
                &&& forall|i: int|
                    0 <= i < self.users_data@.len() ==> (#[trigger] v@[i]).0
                        == self.users_data@[i].0 && v@[i].1 == self.users_data@[i].1.0 && v@[i].2
                        == self.users_data@[i].1.1
            }),
    {
        match query {
            StateQuery::GetUsersData => {
                let n: usize = self.users_data.len();
                let mut v: Vec<(u128, ActorId, RollStatus)> = Vec::new();
                let mut i: usize = 0;
                while i < n
                    invariant
                        i <= n,
                        v@.len() == i,
                        forall|j: int|
                            0 <= j < i ==> (#[trigger] v@[j]).0 == self.users_data@[j].0 && v@[j].1
                                == self.users_data@[j].1.0 && v@[j].2 == self.users_data@[j].1.1,
                    decreases n - i,
                {
                    let entry = &self.users_data[i];
                    v.push((entry.0, entry.1.0, entry.1.1));
                    i = i + 1;
                }
                StateResponse::UsersData(v)
            },
        }
    }
}

/// With unique request ids, any index holding `id` is the chosen
/// `roll_index`.
pub proof fn lemma_roll_index_unique(rolls: Seq<(u128, (ActorId, RollStatus))>, id: u128, i: int)
    requires
        forall|a: int, b: int|
            0 <= a < b < rolls.len() ==> (#[trigger] rolls[a]).0 != (#[trigger] rolls[b]).0,
        0 <= i < rolls.len(),
        rolls[i].0 == id,
    ensures
        has_roll(rolls, id),
        roll_index(rolls, id) == i,
{
    assert(has_roll(rolls, id));
    let c = roll_index(rolls, id);
    if c < i {
        assert(rolls[c].0 != rolls[i].0);
    } else if c > i {
        assert(rolls[i].0 != rolls[c].0);
    }
}

} // verus!
