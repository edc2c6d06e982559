//! The betting actor itself: the registry of runs, the configured
//! principals, and the guarded operations of the command surface.
//!
//! Run identifiers are assigned from 1 upwards, one per created run and
//! never reused, so the registry is a vector whose entry `k` is the run
//! with identifier `k + 1`; `run_nonce` is the highest identifier handed
//! out. At most one run — the latest — is ever in a non-terminal stage.
//!
//! The callers' side of each operation (the caller's identity and the
//! current time) comes in as plain values; replies, token transfers and the
//! oracle round trip are the caller's business. Ledger state is committed
//! before any transfer is made, so a failed transfer leaves the ledger
//! debited; every error reported here, by contrast, leaves the state
//! exactly as it was.

use vstd::prelude::*;

use crate::fee::{apply_fee, spec_fee, validate_fee_bps, MAX_BPS};
use crate::run::{
    bidder_deposit_on, bidder_total, deposit_applied, has_bidder, has_horse, horse_index,
    losing_pool, run_models, withdrawn, Horse, HorseSlot, Run,
};
use crate::run_status::{lifecycle_step, RunStatus};
use crate::settlement::{profit_of, share_bps_of, spec_select_winner};
use crate::ActorId;
use crate::Error;

verus! {

/// What the actor is configured with at birth.
#[derive(Debug, Clone, Copy, PartialEq, Eq, Structural)]
pub struct InitConfig {
    /// The manager: the only principal allowed to administer runs.
    pub manager: ActorId,
    /// The fungible-token contract that escrows the stakes.
    pub token: ActorId,
    /// The randomness oracle contract.
    pub oracle: ActorId,
    /// The protocol fee, in basis points.
    pub fee_bps: u16,
}

/// One inbound command.
#[derive(Debug)]
pub enum Action {
    UpdateFeeBps(u16),
    UpdateManager(ActorId),
    UpdateOracle(ActorId),
    CreateRun { bidding_duration_ms: u64, horses: Vec<(String, Horse)> },
    ProgressLastRun,
    CancelLastRun,
    Bid { horse_name: String, amount: u128 },
    WithdrawCanceled(u128),
    WithdrawFinished(u128),
}

/// The terminal reply event of a successful command.
#[derive(Debug, PartialEq, Eq)]
pub enum Event {
    FeeBpsUpdated(u16),
    ManagerUpdated(ActorId),
    OracleUpdated(ActorId),
    RunCreated { run_id: u128, bidding_duration_ms: u64, horses: Vec<(String, Horse)> },
    LastRunProgressed(u128),
    LastRunCanceled(u128),
    LastRunFinished { run_id: u128, winner: (String, Horse, u128) },
    NewBid { horse_name: String, amount: u128 },
    NewWithdrawCanceled { user: ActorId, run_id: u128, amount: u128 },
    NewWithdrawFinished { user: ActorId, run_id: u128, amount: u128, profit_amount: u128 },
}

/// One read-only query.
#[derive(Debug, Clone, Copy, PartialEq, Eq, Structural)]
pub enum StateQuery {
    GetRuns,
    GetHorses(u128),
    GetManager,
    GetOwner,
    GetToken,
    GetOracle,
    GetFeeBps,
    GetRunNonce,
    GetRun(u128),
}

/// The answer to a query.
#[derive(Debug, PartialEq, Eq)]
pub enum StateResponse {
    Runs(Vec<(u128, Run)>),
    Horses(Vec<(String, Horse, u128)>),
    Manager(ActorId),
    Owner(ActorId),
    Token(ActorId),
    Oracle(ActorId),
    FeeBps(u16),
    RunNonce(u128),
    Run(Run),
}

/// What a bid committed: the fee charged and the net stake recorded.
#[derive(Debug, Clone, Copy, PartialEq, Eq, Structural)]
pub struct BidReceipt {
    /// The fee deducted, owed to the manager.
    pub fee_amount: u128,
    /// The net stake recorded in the ledger, owed to the vault.
    pub net_amount: u128,
}

/// What a withdrawal from a finished run pays.
#[derive(Debug, Clone, Copy, PartialEq, Eq, Structural)]
pub struct WithdrawReceipt {
    /// The bidder's own recorded stake, returned in full.
    pub amount: u128,
    /// The bidder's pro-rata cut of the losing pool.
    pub profit_amount: u128,
    /// The sum of the two: what the token contract must transfer.
    pub payout: u128,
}

/// The betting actor's state.
#[derive(Debug, PartialEq, Eq)]
pub struct HorseRaces {
    /// All runs ever created; entry `k` is run `k + 1`.
    pub runs: Vec<Run>,
    /// The administering principal.
    pub manager: ActorId,
    /// The principal that instantiated the actor.
    pub owner: ActorId,
    /// The escrow token contract.
    pub token: ActorId,
    /// The randomness oracle contract.
    pub oracle: ActorId,
    /// The protocol fee in basis points.
    pub fee_bps: u16,
    /// The highest run identifier handed out.
    pub run_nonce: u128,
}

impl HorseRaces {
    /// Well-formedness: the nonce counts the runs, the fee is in range,
    /// every run is well formed, and every run but the latest is terminal.
    pub open spec fn wf(self) -> bool {
        &&& self.run_nonce == self.runs@.len()
        &&& self.fee_bps <= MAX_BPS
        &&& forall|k: int| 0 <= k < self.runs@.len() ==> (#[trigger] self.runs@[k]).wf()
        &&& forall|k: int|
            0 <= k < self.runs@.len() - 1 ==> (#[trigger] self.runs@[k]).status.is_terminal()
    }

    /// There is at least one run.
    pub open spec fn has_last_run(self) -> bool {
        self.runs@.len() > 0
    }

    /// The latest run: the only one that may still be live.
    pub open spec fn last_run(self) -> Run {
        self.runs@.last()
    }

    /// The latest run, if any, is terminal: the precondition of every
    /// administrative change and of creating the next run.
    pub open spec fn last_run_ended(self) -> bool {
        self.runs@.len() == 0 || self.runs@.last().status.is_terminal()
    }

    /// `run_id` names a run of the registry.
    pub open spec fn has_run(self, run_id: u128) -> bool {
        1 <= run_id <= self.runs@.len()
    }

    /// The run `run_id` names.
    pub open spec fn run_of(self, run_id: u128) -> Run {
        self.runs@[run_id as int - 1]
    }

    /// The configured principals and fee, unchanged between two states.
    pub open spec fn same_config(self, other: HorseRaces) -> bool {
        &&& other.manager == self.manager
        &&& other.owner == self.owner
        &&& other.token == self.token
        &&& other.oracle == self.oracle
        &&& other.fee_bps == self.fee_bps
    }

    /// The two states observe alike: same principals, fee, nonce and runs.
    /// (What a failed operation leaves behind.)
    pub open spec fn same_state(self, other: HorseRaces) -> bool {
        &&& self.same_config(other)
        &&& other.run_nonce == self.run_nonce
        &&& other.runs@ == self.runs@
    }

    /// Every run of `self` still exists in `other` and its status has only
    /// moved along the lifecycle relation.
    pub open spec fn runs_stepped(self, other: HorseRaces) -> bool {
        &&& other.runs@.len() >= self.runs@.len()
        &&& forall|k: int|
            0 <= k < self.runs@.len() ==> lifecycle_step(
                (#[trigger] self.runs@[k]).status,
                other.runs@[k].status,
            )
    }

    /// A fresh actor: no runs yet, the caller recorded as owner. The
    /// configured fee must be in range, or the construction is refused.
    pub fn new(owner: ActorId, config: InitConfig) -> (r: Result<HorseRaces, Error>)
        ensures
            config.fee_bps > MAX_BPS ==> r == Err::<HorseRaces, Error>(Error::InvalidFeeBps),
            config.fee_bps <= MAX_BPS ==> (r matches Ok(h) && {
                &&& h.wf()
                &&& h.runs@.len() == 0
                &&& h.run_nonce == 0
                &&& h.owner == owner
                &&& h.manager == config.manager
                &&& h.token == config.token
                &&& h.oracle == config.oracle
                &&& h.fee_bps == config.fee_bps
            }),
    {
        let fee_bps: u16 = match validate_fee_bps(config.fee_bps) {
            Ok(v) => v,
            Err(e) => {
                return Err(e);
            },
        };
        Ok(
            HorseRaces {
                runs: Vec::new(),
                manager: config.manager,
                owner,
                token: config.token,
                oracle: config.oracle,
                fee_bps,
                run_nonce: 0,
            },
        )
    }

    /// Only the manager administers.
    fn assert_manager(&self, caller: ActorId) -> (r: Result<(), Error>)
        ensures
            caller == self.manager ==> r == Ok::<(), Error>(()),
            caller != self.manager ==> r == Err::<(), Error>(Error::Unauthorized),
    {
        if caller == self.manager {
            Ok(())
        } else {
            Err(Error::Unauthorized)
        }
    }

    /// Only the oracle resolves runs.
    fn assert_oracle(&self, caller: ActorId) -> (r: Result<(), Error>)
        ensures
            caller == self.oracle ==> r == Ok::<(), Error>(()),
            caller != self.oracle ==> r == Err::<(), Error>(Error::Unauthorized),
    {
        if caller == self.oracle {
            Ok(())
        } else {
            Err(Error::Unauthorized)
        }
    }

    /// The manager may not bet.
    fn assert_not_manager(&self, caller: ActorId) -> (r: Result<(), Error>)
        ensures
            caller != self.manager ==> r == Ok::<(), Error>(()),
            caller == self.manager ==> r == Err::<(), Error>(Error::Unauthorized),
    {
        if caller == self.manager {
            Err(Error::Unauthorized)
        } else {
            Ok(())
        }
    }

    /// The latest run, if any, must be terminal.
    fn assert_last_run_ended(&self) -> (r: Result<(), Error>)
        requires
            self.wf(),
        ensures
            self.last_run_ended() ==> r == Ok::<(), Error>(()),
            !self.last_run_ended() ==> r == Err::<(), Error>(Error::InvalidStage),
    {
        if self.runs.len() == 0 {
            return Ok(());
        }
        let last = &self.runs[self.runs.len() - 1];
        match last.status {
            RunStatus::Canceled => Ok(()),
            RunStatus::Finished { .. } => Ok(()),
            _ => Err(Error::InvalidStage),
        }
    }

    /// Bidding on the latest run must be open: the run exists, is in
    /// `Created`, and its bidding close lies in the future.
    fn assert_last_run_bidding(&self, now: u64) -> (r: Result<(), Error>)
        requires
            self.wf(),
        ensures
            !self.has_last_run() ==> r == Err::<(), Error>(Error::NotFound),
            self.has_last_run() && !(self.last_run().status is Created) ==> r == Err::<(), Error>(
                Error::InvalidStage,
            ),
            self.has_last_run() && self.last_run().status is Created
                && self.last_run().end_bidding_timestamp <= now ==> r == Err::<(), Error>(
                Error::InvalidStage,
            ),
            self.has_last_run() && self.last_run().status is Created
                && self.last_run().end_bidding_timestamp > now ==> r == Ok::<(), Error>(()),
    {
        if self.runs.len() == 0 {
            return Err(Error::NotFound);
        }
        let last = &self.runs[self.runs.len() - 1];
        match last.status {
            RunStatus::Created => {
                if last.end_bidding_timestamp <= now {
                    Err(Error::InvalidStage)
                } else {
                    Ok(())
                }
            },
            _ => Err(Error::InvalidStage),
        }
    }

    /// Bidding on the latest run must have closed while the run is still in
    /// `Created`: the window for progressing or canceling it.
    fn assert_last_run_bidding_finished(&self, now: u64) -> (r: Result<(), Error>)
        requires
            self.wf(),
        ensures
            !self.has_last_run() ==> r == Err::<(), Error>(Error::NotFound),
            self.has_last_run() && !(self.last_run().status is Created) ==> r == Err::<(), Error>(
                Error::InvalidStage,
            ),
            self.has_last_run() && self.last_run().status is Created
                && self.last_run().end_bidding_timestamp > now ==> r == Err::<(), Error>(
                Error::InvalidStage,
            ),
            self.has_last_run() && self.last_run().status is Created
                && self.last_run().end_bidding_timestamp <= now ==> r == Ok::<(), Error>(()),
    {
        if self.runs.len() == 0 {
            return Err(Error::NotFound);
        }
        let last = &self.runs[self.runs.len() - 1];
        match last.status {
            RunStatus::Created => {
                if last.end_bidding_timestamp > now {
                    Err(Error::InvalidStage)
                } else {
                    Ok(())
                }
            },
            _ => Err(Error::InvalidStage),
        }
    }

    /// The latest run must be awaiting the oracle.
    fn assert_last_run_in_progress(&self) -> (r: Result<(), Error>)
        requires
            self.wf(),
        ensures
            !self.has_last_run() ==> r == Err::<(), Error>(Error::NotFound),
            self.has_last_run() && !(self.last_run().status is InProgress) ==> r == Err::<
                (),
                Error,
            >(Error::InvalidStage),
            self.has_last_run() && self.last_run().status is InProgress ==> r == Ok::<(), Error>(
                (),
            ),
    {
        if self.runs.len() == 0 {
            return Err(Error::NotFound);
        }
        let last = &self.runs[self.runs.len() - 1];
        match last.status {
            RunStatus::InProgress => Ok(()),
            _ => Err(Error::InvalidStage),
        }
    }

    /// The named run must exist and be canceled.
    fn assert_canceled(&self, run_id: u128) -> (r: Result<(), Error>)
        requires
            self.wf(),
        ensures
            !self.has_run(run_id) ==> r == Err::<(), Error>(Error::NotFound),
            self.has_run(run_id) && !(self.run_of(run_id).status is Canceled) ==> r == Err::<
                (),
                Error,
            >(Error::InvalidStage),
            self.has_run(run_id) && self.run_of(run_id).status is Canceled ==> r == Ok::<
                (),
                Error,
            >(()),
    {
        if run_id == 0 || run_id > self.runs.len() as u128 {
            return Err(Error::NotFound);
        }
        let idx: usize = (run_id - 1) as usize;
        match self.runs[idx].status {
            RunStatus::Canceled => Ok(()),
            _ => Err(Error::InvalidStage),
        }
    }

    /// The named run must exist and be finished.
    fn assert_finished(&self, run_id: u128) -> (r: Result<(), Error>)
        requires
            self.wf(),
        ensures
            !self.has_run(run_id) ==> r == Err::<(), Error>(Error::NotFound),
            self.has_run(run_id) && !(self.run_of(run_id).status is Finished) ==> r == Err::<
                (),
                Error,
            >(Error::InvalidStage),
            self.has_run(run_id) && self.run_of(run_id).status is Finished ==> r == Ok::<
                (),
                Error,
            >(()),
    {
        if run_id == 0 || run_id > self.runs.len() as u128 {
            return Err(Error::NotFound);
        }
        let idx: usize = (run_id - 1) as usize;
        match self.runs[idx].status {
            RunStatus::Finished { .. } => Ok(()),
            _ => Err(Error::InvalidStage),
        }
    }

    /// Updates the protocol fee. Only the manager, only between runs, and
    /// only to a value within the whole; anything else is refused with the
    /// fee unchanged.
    pub fn update_fee_bps(&mut self, caller: ActorId, new_fee_bps: u16) -> (r: Result<(), Error>)
        requires
            old(self).wf(),
        ensures
            final(self).wf(),
            r is Err ==> *final(self) == *old(self),
            caller != old(self).manager ==> r == Err::<(), Error>(Error::Unauthorized),
            caller == old(self).manager && !old(self).last_run_ended() ==> r == Err::<(), Error>(
                Error::InvalidStage,
            ),
            caller == old(self).manager && old(self).last_run_ended() && new_fee_bps > MAX_BPS
                ==> r == Err::<(), Error>(Error::InvalidFeeBps),
            caller == old(self).manager && old(self).last_run_ended() && new_fee_bps <= MAX_BPS
                ==> r == Ok::<(), Error>(()) && *final(self) == (HorseRaces {
                fee_bps: new_fee_bps,
                ..*old(self)
            }),
    {
        match self.assert_manager(caller) {
            Ok(()) => (),
            Err(e) => {
                return Err(e);
            },
        }
        match self.assert_last_run_ended() {
            Ok(()) => (),
            Err(e) => {
                return Err(e);
            },
        }
        let fee_bps: u16 = match validate_fee_bps(new_fee_bps) {
            Ok(v) => v,
            Err(e) => {
                return Err(e);
            },
        };
        self.fee_bps = fee_bps;
        Ok(())
    }

    /// Hands the manager role to another principal. Only the manager, only
    /// between runs.
    pub fn update_manager(&mut self, caller: ActorId, new_manager: ActorId) -> (r: Result<
        (),
        Error,
    >)
        requires
            old(self).wf(),
        ensures
            final(self).wf(),
            r is Err ==> *final(self) == *old(self),
            caller != old(self).manager ==> r == Err::<(), Error>(Error::Unauthorized),
            caller == old(self).manager && !old(self).last_run_ended() ==> r == Err::<(), Error>(
                Error::InvalidStage,
            ),
            caller == old(self).manager && old(self).last_run_ended() ==> r == Ok::<(), Error>(())
                && *final(self) == (HorseRaces { manager: new_manager, ..*old(self) }),
    {
        match self.assert_manager(caller) {
            Ok(()) => (),
            Err(e) => {
                return Err(e);
            },
        }
        match self.assert_last_run_ended() {
            Ok(()) => (),
            Err(e) => {
                return Err(e);
            },
        }
        self.manager = new_manager;
        Ok(())
    }

    /// Points the actor at another oracle. Only the manager, only between
    /// runs.
    pub fn update_oracle(&mut self, caller: ActorId, new_oracle: ActorId) -> (r: Result<(), Error>)
        requires
            old(self).wf(),
        ensures
            final(self).wf(),
            r is Err ==> *final(self) == *old(self),
            caller != old(self).manager ==> r == Err::<(), Error>(Error::Unauthorized),
            caller == old(self).manager && !old(self).last_run_ended() ==> r == Err::<(), Error>(
                Error::InvalidStage,
            ),
            caller == old(self).manager && old(self).last_run_ended() ==> r == Ok::<(), Error>(())
                && *final(self) == (HorseRaces { oracle: new_oracle, ..*old(self) }),
    {
        match self.assert_manager(caller) {
            Ok(()) => (),
            Err(e) => {
                return Err(e);
            },
        }
        match self.assert_last_run_ended() {
            Ok(()) => (),
            Err(e) => {
                return Err(e);
            },
        }
        self.oracle = new_oracle;
        Ok(())
    }

    /// The latest run, cloned, or nothing when none was created yet.
    pub fn get_last_run(&self) -> (r: Option<Run>)
        ensures
            !self.has_last_run() ==> r is None,
            self.has_last_run() ==> (r matches Some(run) && run_models(run, self.last_run())),
    {
        if self.runs.len() == 0 {
            None
        } else {
            Some(self.runs[self.runs.len() - 1].clone())
        }
    }

    /// The horses of the named run with their aggregate deposits.
    pub fn get_horses(&self, run_id: u128) -> (r: Result<Vec<(String, Horse, u128)>, Error>)
        ensures
            !self.has_run(run_id) ==> r == Err::<Vec<(String, Horse, u128)>, Error>(
                Error::NotFound,
            ),
            self.has_run(run_id) ==> (r matches Ok(v) && {
                let horses = self.run_of(run_id).horses@;
                &&& v@.len() == horses.len()
                &&& forall|j: int|
                    0 <= j < horses.len() ==> (#[trigger] v@[j]).0@ == horses[j].name@
                        && v@[j].1 == horses[j].horse && v@[j].2 == horses[j].total_deposit
            }),
    {
        if run_id == 0 || run_id > self.runs.len() as u128 {
            return Err(Error::NotFound);
        }
        let idx: usize = (run_id - 1) as usize;
        let run = &self.runs[idx];
        let n: usize = run.horses.len();
        let mut v: Vec<(String, Horse, u128)> = Vec::new();
        let mut j: usize = 0;
        while j < n
            invariant
                j <= n,
                v@.len() == j,
                forall|x: int|
                    0 <= x < j ==> (#[trigger] v@[x]).0@ == run.horses@[x].name@ && v@[x].1
                        == run.horses@[x].horse && v@[x].2 == run.horses@[x].total_deposit,
            decreases n - j,
        {
            let slot = &run.horses[j];
            v.push((slot.name.clone(), slot.horse, slot.total_deposit));
            j = j + 1;
        }
        Ok(v)
    }

    /// Every run ever created, cloned, paired with its identifier.
    pub fn get_runs(&self) -> (r: Vec<(u128, Run)>)
        ensures
            r@.len() == self.runs@.len(),
            forall|k: int|
                0 <= k < self.runs@.len() ==> (#[trigger] r@[k]).0 == k + 1 && run_models(
                    r@[k].1,
                    self.runs@[k],
                ),
    {
        let n: usize = self.runs.len();
        let mut v: Vec<(u128, Run)> = Vec::new();
        let mut k: usize = 0;
        while k < n
            invariant
                k <= n,
                v@.len() == k,
                forall|x: int|
                    0 <= x < k ==> (#[trigger] v@[x]).0 == x + 1 && run_models(
                        v@[x].1,
                        self.runs@[x],
                    ),
            decreases n - k,
        {
            v.push(((k as u128) + 1, self.runs[k].clone()));
            k = k + 1;
        }
        v
    }

    /// Opens the next run. Only the manager, only once the previous run is
    /// terminal; the horse list must be non-empty with unique names, and
    /// the bidding window must fit the clock. The new run gets the next
    /// identifier, starts now, and closes for bidding after the given
    /// duration.
    pub fn create_run(
        &mut self,
        caller: ActorId,
        now: u64,
        bidding_duration_ms: u64,
        horses: &Vec<(String, Horse)>,
    ) -> (r: Result<u128, Error>)
        requires
            old(self).wf(),
        ensures
            final(self).wf(),
            r is Err ==> *final(self) == *old(self),
            old(self).runs_stepped(*final(self)),
            caller != old(self).manager ==> r == Err::<u128, Error>(Error::Unauthorized),
            caller == old(self).manager && !old(self).last_run_ended() ==> r == Err::<u128, Error>(
                Error::InvalidStage,
            ),
            caller == old(self).manager && old(self).last_run_ended() && !horses_input_valid(
                horses@,
            ) ==> r == Err::<u128, Error>(Error::InvalidHorses),
            caller == old(self).manager && old(self).last_run_ended() && horses_input_valid(
                horses@,
            ) && now + bidding_duration_ms > u64::MAX ==> r == Err::<u128, Error>(Error::Overflow),
            caller == old(self).manager && old(self).last_run_ended() && horses_input_valid(
                horses@,
            ) && now + bidding_duration_ms <= u64::MAX ==> {
                &&& r == Ok::<u128, Error>((old(self).run_nonce + 1) as u128)
                &&& final(self).run_nonce == old(self).run_nonce + 1
                &&& final(self).runs@.len() == old(self).runs@.len() + 1
                &&& forall|k: int|
                    0 <= k < old(self).runs@.len() ==> final(self).runs@[k] == old(self).runs@[k]
                &&& old(self).same_config(*final(self))
                &&& ({
                    let run = final(self).runs@.last();
                    &&& run.status is Created
                    &&& run.start_timestamp == now
                    &&& run.end_bidding_timestamp == now + bidding_duration_ms
                    &&& run.bidders@.len() == 0
                    &&& run.horses@.len() == horses@.len()
                    &&& forall|j: int|
                        0 <= j < horses@.len() ==> (#[trigger] run.horses@[j]).name@
                            == horses@[j].0@ && run.horses@[j].horse == horses@[j].1
                            && run.horses@[j].total_deposit == 0
                })
            },
    {
        match self.assert_manager(caller) {
            Ok(()) => (),
            Err(e) => {
                return Err(e);
            },
        }
        match self.assert_last_run_ended() {
            Ok(()) => (),
            Err(e) => {
                return Err(e);
            },
        }
        let n: usize = horses.len();
        if n == 0 {
            return Err(Error::InvalidHorses);
        }
        let mut i: usize = 1;
        while i < n
            invariant
                1 <= i <= n,
                forall|a: int, b: int|
                    0 <= a < b < i ==> (#[trigger] horses@[a]).0@ != (#[trigger] horses@[b]).0@,
            decreases n - i,
        {
            let mut j: usize = 0;
            while j < i
                invariant
                    j <= i < n,
                    forall|b: int| 0 <= b < j ==> (#[trigger] horses@[b]).0@ != horses@[i as int].0@,
                decreases i - j,
            {
                if horses[j].0 == horses[i].0 {
                    return Err(Error::InvalidHorses);
                }
                j = j + 1;
            }
            i = i + 1;
        }
        if bidding_duration_ms > u64::MAX - now {
            return Err(Error::Overflow);
        }
        let mut slots: Vec<HorseSlot> = Vec::new();
        let mut j: usize = 0;
        while j < n
            invariant
                j <= n,
                slots@.len() == j,
                forall|x: int|
                    0 <= x < j ==> (#[trigger] slots@[x]).name@ == horses@[x].0@ && slots@[x].horse
                        == horses@[x].1 && slots@[x].total_deposit == 0,
            decreases n - j,
        {
            slots.push(
                HorseSlot { name: horses[j].0.clone(), horse: horses[j].1, total_deposit: 0 },
            );
            j = j + 1;
        }
        let run = Run {
            start_timestamp: now,
            end_bidding_timestamp: now + bidding_duration_ms,
            horses: slots,
            bidders: Vec::new(),
            status: RunStatus::Created,
        };
        self.runs.push(run);
        // The registry's length bounds the nonce well under its type's limit.
        let count: usize = self.runs.len();
        proof {
            assert(self.run_nonce + 1 == count);
        }
        self.run_nonce = self.run_nonce + 1;
        Ok(self.run_nonce)
    }

    /// Moves the latest run into `InProgress` once its bidding window has
    /// closed. Only the manager. The caller then requests a random seed
    /// from the oracle; the oracle's reply later resolves the run through
    /// `finish_last_run`.
    pub fn progress_last_run(&mut self, caller: ActorId, now: u64) -> (r: Result<u128, Error>)
        requires
            old(self).wf(),
        ensures
            final(self).wf(),
            r is Err ==> *final(self) == *old(self),
            old(self).runs_stepped(*final(self)),
            old(self).same_config(*final(self)),
            final(self).run_nonce == old(self).run_nonce,
            caller != old(self).manager ==> r == Err::<u128, Error>(Error::Unauthorized),
            caller == old(self).manager && !old(self).has_last_run() ==> r == Err::<u128, Error>(
                Error::NotFound,
            ),
            caller == old(self).manager && old(self).has_last_run() && !(old(self).last_run().status
                is Created) ==> r == Err::<u128, Error>(Error::InvalidStage),
            caller == old(self).manager && old(self).has_last_run() && old(self).last_run().status
                is Created && old(self).last_run().end_bidding_timestamp > now ==> r == Err::<
                u128,
                Error,
            >(Error::InvalidStage),
            caller == old(self).manager && old(self).has_last_run() && old(self).last_run().status
                is Created && old(self).last_run().end_bidding_timestamp <= now ==> {
                &&& r == Ok::<u128, Error>(old(self).run_nonce)
                &&& final(self).runs@.len() == old(self).runs@.len()
                &&& forall|k: int|
                    0 <= k < old(self).runs@.len() - 1 ==> final(self).runs@[k] == old(self).runs@[k]
                &&& final(self).last_run().status is InProgress
                &&& final(self).last_run().horses@ == old(self).last_run().horses@
                &&& final(self).last_run().bidders@ == old(self).last_run().bidders@
                &&& final(self).last_run().start_timestamp == old(self).last_run().start_timestamp
                &&& final(self).last_run().end_bidding_timestamp == old(self).last_run().end_bidding_timestamp
            },
    {
        match self.assert_manager(caller) {
            Ok(()) => (),
            Err(e) => {
                return Err(e);
            },
        }
        match self.assert_last_run_bidding_finished(now) {
            Ok(()) => (),
            Err(e) => {
                return Err(e);
            },
        }
        let idx: usize = self.runs.len() - 1;
        let run = &mut self.runs[idx];
        run.progress();
        Ok(self.run_nonce)
    }

    /// Cancels the latest run once its bidding window has closed but before
    /// it was progressed. Only the manager. Stakes become refundable
    /// through `withdraw_canceled`.
    pub fn cancel_last_run(&mut self, caller: ActorId, now: u64) -> (r: Result<u128, Error>)
        requires
            old(self).wf(),
        ensures
            final(self).wf(),
            r is Err ==> *final(self) == *old(self),
            old(self).runs_stepped(*final(self)),
            old(self).same_config(*final(self)),
            final(self).run_nonce == old(self).run_nonce,
            caller != old(self).manager ==> r == Err::<u128, Error>(Error::Unauthorized),
            caller == old(self).manager && !old(self).has_last_run() ==> r == Err::<u128, Error>(
                Error::NotFound,
            ),
            caller == old(self).manager && old(self).has_last_run() && !(old(self).last_run().status
                is Created) ==> r == Err::<u128, Error>(Error::InvalidStage),
            caller == old(self).manager && old(self).has_last_run() && old(self).last_run().status
                is Created && old(self).last_run().end_bidding_timestamp > now ==> r == Err::<
                u128,
                Error,
            >(Error::InvalidStage),
            caller == old(self).manager && old(self).has_last_run() && old(self).last_run().status
                is Created && old(self).last_run().end_bidding_timestamp <= now ==> {
                &&& r == Ok::<u128, Error>(old(self).run_nonce)
                &&& final(self).runs@.len() == old(self).runs@.len()
                &&& forall|k: int|
                    0 <= k < old(self).runs@.len() - 1 ==> final(self).runs@[k] == old(self).runs@[k]
                &&& final(self).last_run().status is Canceled
                &&& final(self).last_run().horses@ == old(self).last_run().horses@
                &&& final(self).last_run().bidders@ == old(self).last_run().bidders@
                &&& final(self).last_run().start_timestamp == old(self).last_run().start_timestamp
                &&& final(self).last_run().end_bidding_timestamp == old(self).last_run().end_bidding_timestamp
            },
    {
        match self.assert_manager(caller) {
            Ok(()) => (),
            Err(e) => {
                return Err(e);
            },
        }
        match self.assert_last_run_bidding_finished(now) {
            Ok(()) => (),
            Err(e) => {
                return Err(e);
            },
        }
        let idx: usize = self.runs.len() - 1;
        let run = &mut self.runs[idx];
        run.cancel();
        Ok(self.run_nonce)
    }

    /// Resolves the latest run with the oracle's seed. Only the configured
    /// oracle may deliver it. The seed, folded with the run's identifier,
    /// deterministically picks the winner among the horses, weighted by
    /// their declared weights; the reply carries the winner and its pool.
    pub fn finish_last_run(&mut self, caller: ActorId, seed: u128) -> (r: Result<
        (u128, (String, Horse, u128)),
        Error,
    >)
        requires
            old(self).wf(),
        ensures
            final(self).wf(),
            r is Err ==> *final(self) == *old(self),
            old(self).runs_stepped(*final(self)),
            old(self).same_config(*final(self)),
            final(self).run_nonce == old(self).run_nonce,
            caller != old(self).oracle ==> r == Err::<(u128, (String, Horse, u128)), Error>(
                Error::Unauthorized,
            ),
            caller == old(self).oracle && !old(self).has_last_run() ==> r == Err::<
                (u128, (String, Horse, u128)),
                Error,
            >(Error::NotFound),
            caller == old(self).oracle && old(self).has_last_run() && !(old(self).last_run().status
                is InProgress) ==> r == Err::<(u128, (String, Horse, u128)), Error>(
                Error::InvalidStage,
            ),
            caller == old(self).oracle && old(self).has_last_run() && old(self).last_run().status
                is InProgress ==> ({
                let wi = spec_select_winner(
                    old(self).last_run().horses@,
                    seed,
                    old(self).run_nonce,
                );
                &&& r matches Ok(t) && t.0 == old(self).run_nonce && t.1.0@ == old(self).last_run().horses@[wi].name@ && t.1.1 == old(self).last_run().horses@[wi].horse
                    && t.1.2 == old(self).last_run().horses@[wi].total_deposit
                &&& final(self).runs@.len() == old(self).runs@.len()
                &&& forall|k: int|
                    0 <= k < old(self).runs@.len() - 1 ==> final(self).runs@[k] == old(self).runs@[k]
                &&& (final(self).last_run().status matches RunStatus::Finished {
                    horse_name,
                    run_id,
                } && horse_name@ == old(self).last_run().horses@[wi].name@ && run_id == old(self).run_nonce)
                &&& final(self).last_run().horses@ == old(self).last_run().horses@
                &&& final(self).last_run().bidders@ == old(self).last_run().bidders@
                &&& final(self).last_run().start_timestamp == old(self).last_run().start_timestamp
                &&& final(self).last_run().end_bidding_timestamp == old(
                    self,
                ).last_run().end_bidding_timestamp
            }),
    {
        match self.assert_oracle(caller) {
            Ok(()) => (),
            Err(e) => {
                return Err(e);
            },
        }
        match self.assert_last_run_in_progress() {
            Ok(()) => (),
            Err(e) => {
                return Err(e);
            },
        }
        let run_id: u128 = self.run_nonce;
        let idx: usize = self.runs.len() - 1;
        let run = &mut self.runs[idx];
        run.finish(seed, run_id);
        let winner: (String, Horse, u128) = match self.runs[idx].get_winner_horse() {
            Some(t) => t,
            None => {
                // wf rules this out: a finished run names one of its horses.
                return Err(Error::NotFound);
            },
        };
        proof {
            crate::run::lemma_horse_index_unique(
                self.runs@[idx as int].horses@,
                self.runs@[idx as int].status->Finished_horse_name@,
                spec_select_winner(old(self).last_run().horses@, seed, old(self).run_nonce),
            );
        }
        Ok((run_id, winner))
    }

    /// Places a bid on a horse of the latest run. Anyone but the manager,
    /// while bidding is open. The protocol fee is deducted from the gross
    /// amount and the net stake is recorded against the horse; the receipt
    /// names both, and the caller owes the two token transfers (fee to the
    /// manager, net stake into the vault). The ledger is committed before
    /// any transfer: a failed transfer does not roll it back.
    pub fn bid(&mut self, caller: ActorId, now: u64, horse_name: &String, amount: u128) -> (r:
        Result<BidReceipt, Error>)
        requires
            old(self).wf(),
        ensures
            final(self).wf(),
            r is Err ==> old(self).same_state(*final(self)),
            old(self).runs_stepped(*final(self)),
            old(self).same_config(*final(self)),
            final(self).run_nonce == old(self).run_nonce,
            caller == old(self).manager ==> r == Err::<BidReceipt, Error>(Error::Unauthorized),
            caller != old(self).manager && !old(self).has_last_run() ==> r == Err::<
                BidReceipt,
                Error,
            >(Error::NotFound),
            caller != old(self).manager && old(self).has_last_run() && !(old(self).last_run().status is Created) ==> r == Err::<BidReceipt, Error>(Error::InvalidStage),
            caller != old(self).manager && old(self).has_last_run() && old(self).last_run().status
                is Created && old(self).last_run().end_bidding_timestamp <= now ==> r == Err::<
                BidReceipt,
                Error,
            >(Error::InvalidStage),
            caller != old(self).manager && old(self).has_last_run() && old(self).last_run().status
                is Created && old(self).last_run().end_bidding_timestamp > now ==> ({
                let fee = spec_fee(amount as int, old(self).fee_bps as int);
                let net = amount - fee;
                &&& amount * old(self).fee_bps > u128::MAX ==> r == Err::<BidReceipt, Error>(
                    Error::Overflow,
                )
                &&& amount * old(self).fee_bps <= u128::MAX ==> {
                    &&& !has_horse(old(self).last_run().horses@, horse_name@) ==> r == Err::<
                        BidReceipt,
                        Error,
                    >(Error::NotFound)
                    &&& has_horse(old(self).last_run().horses@, horse_name@) ==> ({
                        let i = horse_index(old(self).last_run().horses@, horse_name@);
                        &&& old(self).last_run().horses@[i].total_deposit + net > u128::MAX ==> r
                            == Err::<BidReceipt, Error>(Error::Overflow)
                        &&& old(self).last_run().horses@[i].total_deposit + net <= u128::MAX ==> {
                            &&& r == Ok::<BidReceipt, Error>(
                                BidReceipt {
                                    fee_amount: fee as u128,
                                    net_amount: net as u128,
                                },
                            )
                            &&& final(self).runs@.len() == old(self).runs@.len()
                            &&& forall|k: int|
                                0 <= k < old(self).runs@.len() - 1 ==> final(self).runs@[k] == old(self).runs@[k]
                            &&& deposit_applied(
                                old(self).last_run(),
                                final(self).last_run(),
                                caller,
                                horse_name@,
                                net as u128,
                            )
                        }
                    })
                }
            }),
    {
        match self.assert_not_manager(caller) {
            Ok(()) => (),
            Err(e) => {
                return Err(e);
            },
        }
        match self.assert_last_run_bidding(now) {
            Ok(()) => (),
            Err(e) => {
                return Err(e);
            },
        }
        let (fee_amount, net_amount): (u128, u128) = match apply_fee(amount, self.fee_bps) {
            Ok(p) => p,
            Err(e) => {
                return Err(e);
            },
        };
        let idx: usize = self.runs.len() - 1;
        let run = &mut self.runs[idx];
        match run.deposit(caller, horse_name, net_amount) {
            Ok(()) => (),
            Err(e) => {
                proof {
                    assert(self.runs@ =~= old(self).runs@);
                }
                return Err(e);
            },
        }
        Ok(BidReceipt { fee_amount, net_amount })
    }

    /// Refunds the caller's full recorded stake from a canceled run and
    /// zeroes it; fees collected at bid time are not refunded. Withdrawing
    /// again, or without a stake, refunds zero. The caller owes the token
    /// transfer of the returned amount; the ledger is committed first.
    pub fn withdraw_canceled(&mut self, caller: ActorId, run_id: u128) -> (r: Result<u128, Error>)
        requires
            old(self).wf(),
        ensures
            final(self).wf(),
            r is Err ==> old(self).same_state(*final(self)),
            old(self).runs_stepped(*final(self)),
            old(self).same_config(*final(self)),
            final(self).run_nonce == old(self).run_nonce,
            !old(self).has_run(run_id) ==> r == Err::<u128, Error>(Error::NotFound),
            old(self).has_run(run_id) && !(old(self).run_of(run_id).status is Canceled) ==> r
                == Err::<u128, Error>(Error::InvalidStage),
            old(self).has_run(run_id) && old(self).run_of(run_id).status is Canceled ==> ({
                let run = old(self).run_of(run_id);
                &&& bidder_total(run.bidders@, caller) > u128::MAX ==> r == Err::<u128, Error>(
                    Error::Overflow,
                )
                &&& bidder_total(run.bidders@, caller) <= u128::MAX ==> {
                    &&& r == Ok::<u128, Error>(bidder_total(run.bidders@, caller) as u128)
                    &&& final(self).runs@.len() == old(self).runs@.len()
                    &&& forall|k: int|
                        0 <= k < old(self).runs@.len() && k != run_id - 1 ==> final(self).runs@[k]
                            == old(self).runs@[k]
                    &&& withdrawn(
                        run.bidders@,
                        final(self).run_of(run_id).bidders@,
                        caller,
                    )
                    &&& bidder_total(final(self).run_of(run_id).bidders@, caller) == 0
                    &&& final(self).run_of(run_id).horses@ == run.horses@
                    &&& final(self).run_of(run_id).status == run.status
                    &&& final(self).run_of(run_id).start_timestamp == run.start_timestamp
                    &&& final(self).run_of(run_id).end_bidding_timestamp
                        == run.end_bidding_timestamp
                }
            }),
    {
        match self.assert_canceled(run_id) {
            Ok(()) => (),
            Err(e) => {
                return Err(e);
            },
        }
        let count: usize = self.runs.len();
        proof {
            assert(run_id <= count);
        }
        let idx: usize = (run_id - 1) as usize;
        let run = &mut self.runs[idx];
        let amount: u128 = match run.withdraw_all(caller) {
            Ok(a) => a,
            Err(e) => {
                proof {
                    assert(self.runs@ =~= old(self).runs@);
                }
                return Err(e);
            },
        };
        Ok(amount)
    }
    /// Pays the caller out of a finished run: the full stake back plus the
    /// pro-rata cut of the losing pool, computed by the parimutuel formula,
    /// and zeroes the caller's ledger rows. A caller who backed only losing
    /// horses gets nothing and an error; withdrawing twice pays once. The
    /// caller owes the token transfer of the receipt's payout; the ledger
    /// is committed first.
    pub fn withdraw_finished(&mut self, caller: ActorId, run_id: u128) -> (r: Result<
        WithdrawReceipt,
        Error,
    >)
        requires
            old(self).wf(),
        ensures
            final(self).wf(),
            r is Err ==> old(self).same_state(*final(self)),
            old(self).runs_stepped(*final(self)),
            old(self).same_config(*final(self)),
            final(self).run_nonce == old(self).run_nonce,
            !old(self).has_run(run_id) ==> r == Err::<WithdrawReceipt, Error>(Error::NotFound),
            old(self).has_run(run_id) && !(old(self).run_of(run_id).status is Finished) ==> r
                == Err::<WithdrawReceipt, Error>(Error::InvalidStage),
            old(self).has_run(run_id) && old(self).run_of(run_id).status is Finished ==> ({
                let run = old(self).run_of(run_id);
                let wi = run.spec_winner_index();
                let w = run.horses@[wi].total_deposit as int;
                let d = bidder_deposit_on(run.bidders@, caller, wi);
                let tot = bidder_total(run.bidders@, caller);
                let l = losing_pool(run.horses@, wi);
                &&& !has_bidder(run.bidders@, caller) ==> r == Err::<WithdrawReceipt, Error>(
                    Error::NotFound,
                )
                &&& has_bidder(run.bidders@, caller) && tot == 0 ==> r == Err::<
                    WithdrawReceipt,
                    Error,
                >(Error::ZeroDeposit)
                &&& has_bidder(run.bidders@, caller) && tot > 0 && d == 0 ==> r == Err::<
                    WithdrawReceipt,
                    Error,
                >(Error::NotAWinner)
                &&& has_bidder(run.bidders@, caller) && d > 0 ==> {
                    &&& d * (MAX_BPS as int) > u128::MAX ==> r == Err::<WithdrawReceipt, Error>(
                        Error::Overflow,
                    )
                    &&& d * (MAX_BPS as int) <= u128::MAX ==> {
                        let sh = share_bps_of(d, w);
                        let p = profit_of(d, w, l);
                        &&& l > u128::MAX ==> r == Err::<WithdrawReceipt, Error>(Error::Overflow)
                        &&& l <= u128::MAX && l * sh > u128::MAX ==> r == Err::<
                            WithdrawReceipt,
                            Error,
                        >(Error::Overflow)
                        &&& l <= u128::MAX && l * sh <= u128::MAX ==> {
                            &&& tot > u128::MAX ==> r == Err::<WithdrawReceipt, Error>(
                                Error::Overflow,
                            )
                            &&& tot <= u128::MAX && tot + p > u128::MAX ==> r == Err::<
                                WithdrawReceipt,
                                Error,
                            >(Error::Overflow)
                            &&& tot <= u128::MAX && tot + p <= u128::MAX ==> {
                                &&& r == Ok::<WithdrawReceipt, Error>(
                                    WithdrawReceipt {
                                        amount: tot as u128,
                                        profit_amount: p as u128,
                                        payout: (tot + p) as u128,
                                    },
                                )
                                &&& final(self).runs@.len() == old(self).runs@.len()
                                &&& forall|k: int|
                                    0 <= k < old(self).runs@.len() && k != run_id - 1 ==> final(self).runs@[k] == old(self).runs@[k]
                                &&& withdrawn(
                                    run.bidders@,
                                    final(self).run_of(run_id).bidders@,
                                    caller,
                                )
                                &&& bidder_total(final(self).run_of(run_id).bidders@, caller) == 0
                                &&& final(self).run_of(run_id).horses@ == run.horses@
                                &&& final(self).run_of(run_id).status == run.status
                                &&& final(self).run_of(run_id).start_timestamp
                                    == run.start_timestamp
                                &&& final(self).run_of(run_id).end_bidding_timestamp
                                    == run.end_bidding_timestamp
                            }
                        }
                    }
                }
            }),
    {
        match self.assert_finished(run_id) {
            Ok(()) => (),
            Err(e) => {
                return Err(e);
            },
        }
        let count: usize = self.runs.len();
        proof {
            assert(run_id <= count);
        }
        let idx: usize = (run_id - 1) as usize;
        let run_ref = &self.runs[idx];
        let winner: (String, Horse, u128) = match run_ref.get_winner_horse() {
            Some(t) => t,
            None => {
                // wf rules this out: a finished run names one of its horses.
                return Err(Error::NotFound);
            },
        };
        let wi: usize = match crate::run::find_horse(&run_ref.horses, &winner.0) {
            Some(i) => i,
            None => {
                return Err(Error::NotFound);
            },
        };
        proof {
            crate::run::lemma_horse_index_unique(run_ref.horses@, winner.0@, wi as int);
            crate::run::lemma_horse_index_unique(
                run_ref.horses@,
                winner.0@,
                run_ref.spec_winner_index(),
            );
        }
        let k: usize = match crate::run::find_bidder(&run_ref.bidders, caller) {
            Some(k) => k,
            None => {
                return Err(Error::NotFound);
            },
        };
        proof {
            crate::run::lemma_bidder_index_unique(run_ref.bidders@, caller, k as int);
        }
        let width: usize = run_ref.bidders[k].deposits.len();
        let d: u128 = run_ref.bidders[k].deposits[wi];
        if d == 0 {
            let mut j: usize = 0;
            while j < width
                invariant
                    j <= width,
                    forall|x: int| 0 <= x < j ==> run_ref.bidders@[k as int].deposits@[x] == 0,
                decreases width - j,
            {
                if run_ref.bidders[k].deposits[j] > 0 {
                    proof {
                        crate::run::lemma_sum_amounts_to_bounds(
                            run_ref.bidders@[k as int].deposits@,
                            width as int,
                        );
                    }
                    return Err(Error::NotAWinner);
                }
                j = j + 1;
            }
            proof {
                crate::run::lemma_sum_amounts_to_zero(
                    run_ref.bidders@[k as int].deposits@,
                    width as int,
                );
            }
            return Err(Error::ZeroDeposit);
        }
        let w_amt: u128 = run_ref.horses[wi].total_deposit;
        proof {
            // The entry is at most the column sum, which the aggregate
            // bounds, so the winning pool is positive; the entry also
            // bounds the bidder's total from below.
            crate::run::lemma_deposits_at_to_bounds(
                run_ref.bidders@,
                wi as int,
                run_ref.bidders@.len() as int,
            );
            crate::run::lemma_sum_amounts_to_bounds(
                run_ref.bidders@[k as int].deposits@,
                width as int,
            );
        }
        let bps: u128 = MAX_BPS as u128;
        if d > u128::MAX / bps {
            proof {
                crate::fee::lemma_mul_fits_iff(d as int, bps as int, u128::MAX as int);
            }
            return Err(Error::Overflow);
        }
        proof {
            crate::fee::lemma_mul_fits_iff(d as int, bps as int, u128::MAX as int);
        }
        let sh: u128 = d * bps / w_amt;
        let l: u128 = match run_ref.sum_deposits_except_winner() {
            Ok(l) => l,
            Err(e) => {
                return Err(e);
            },
        };
        proof {
            crate::run::lemma_losing_pool_to_monotonic(
                run_ref.horses@,
                run_ref.spec_winner_index(),
                0,
                run_ref.horses@.len() as int,
            );
        }
        let profit: u128 = if sh == 0 {
            proof {
                assert((l as int) * 0 == 0);
            }
            0
        } else {
            if l > u128::MAX / sh {
                proof {
                    crate::fee::lemma_mul_fits_iff(l as int, sh as int, u128::MAX as int);
                }
                return Err(Error::Overflow);
            }
            proof {
                crate::fee::lemma_mul_fits_iff(l as int, sh as int, u128::MAX as int);
            }
            l * sh / bps
        };
        let amount: u128 = match run_ref.bidder_total_amount(caller) {
            Ok(a) => a,
            Err(e) => {
                return Err(e);
            },
        };
        if profit > u128::MAX - amount {
            return Err(Error::Overflow);
        }
        let run = &mut self.runs[idx];
        let paid: u128 = match run.withdraw_all(caller) {
            Ok(a) => a,
            Err(e) => {
                // Ruled out above: the total was just summed within range.
                proof {
                    assert(self.runs@ =~= old(self).runs@);
                }
                return Err(e);
            },
        };
        Ok(WithdrawReceipt { amount: paid, profit_amount: profit, payout: paid + profit })
    }
    /// Answers a read-only query. Only a query that names a run that was
    /// never created fails.
    pub fn meta_state(&self, query: StateQuery) -> (r: Result<StateResponse, Error>)
        ensures
            query is GetRuns ==> (r matches Ok(resp) && resp matches StateResponse::Runs(v) && {
                &&& v@.len() == self.runs@.len()
                &&& forall|k: int|
                    0 <= k < self.runs@.len() ==> (#[trigger] v@[k]).0 == k + 1 && run_models(
                        v@[k].1,
                        self.runs@[k],
                    )
            }),
            query matches StateQuery::GetHorses(run_id) ==> {
                &&& !self.has_run(run_id) ==> r == Err::<StateResponse, Error>(Error::NotFound)
                &&& self.has_run(run_id) ==> (r matches Ok(resp) && resp matches
                    StateResponse::Horses(v) && {
                    let horses = self.run_of(run_id).horses@;
                    &&& v@.len() == horses.len()
                    &&& forall|j: int|
                        0 <= j < horses.len() ==> (#[trigger] v@[j]).0@ == horses[j].name@
                            && v@[j].1 == horses[j].horse && v@[j].2 == horses[j].total_deposit
                })
            },
            query is GetManager ==> r == Ok::<StateResponse, Error>(
                StateResponse::Manager(self.manager),
            ),
            query is GetOwner ==> r == Ok::<StateResponse, Error>(StateResponse::Owner(self.owner)),
            query is GetToken ==> r == Ok::<StateResponse, Error>(StateResponse::Token(self.token)),
            query is GetOracle ==> r == Ok::<StateResponse, Error>(
                StateResponse::Oracle(self.oracle),
            ),
            query is GetFeeBps ==> r == Ok::<StateResponse, Error>(
                StateResponse::FeeBps(self.fee_bps),
            ),
            query is GetRunNonce ==> r == Ok::<StateResponse, Error>(
                StateResponse::RunNonce(self.run_nonce),
            ),
            query matches StateQuery::GetRun(run_id) ==> {
                &&& !self.has_run(run_id) ==> r == Err::<StateResponse, Error>(Error::NotFound)
                &&& self.has_run(run_id) ==> (r matches Ok(resp) && resp matches
                    StateResponse::Run(run) && run_models(run, self.run_of(run_id)))
            },
    {
        match query {
            StateQuery::GetRuns => Ok(StateResponse::Runs(self.get_runs())),
            StateQuery::GetHorses(run_id) => {
                match self.get_horses(run_id) {
                    Ok(v) => Ok(StateResponse::Horses(v)),
                    Err(e) => Err(e),
                }
            },
            StateQuery::GetManager => Ok(StateResponse::Manager(self.manager)),
            StateQuery::GetOwner => Ok(StateResponse::Owner(self.owner)),
            StateQuery::GetToken => Ok(StateResponse::Token(self.token)),
            StateQuery::GetOracle => Ok(StateResponse::Oracle(self.oracle)),
            StateQuery::GetFeeBps => Ok(StateResponse::FeeBps(self.fee_bps)),
            StateQuery::GetRunNonce => Ok(StateResponse::RunNonce(self.run_nonce)),
            StateQuery::GetRun(run_id) => {
                if run_id == 0 || run_id > self.runs.len() as u128 {
                    Err(Error::NotFound)
                } else {
                    let idx: usize = (run_id - 1) as usize;
                    Ok(StateResponse::Run(self.runs[idx].clone()))
                }
            },
        }
    }
}

/// A valid horse list for a new run: non-empty, with pairwise distinct
/// names.
pub open spec fn horses_input_valid(horses: Seq<(String, Horse)>) -> bool {
    &&& horses.len() >= 1
    &&& forall|a: int, b: int|
        0 <= a < b < horses.len() ==> (#[trigger] horses[a]).0@ != (#[trigger] horses[b]).0@
}

} // verus!
