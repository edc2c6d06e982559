//! One betting run: its horses, its bid ledger, and the ledger operations.
//!
//! The ledger is held as plain vectors. A run is well formed when its horse
//! names are unique, every bidder row spans all horses, bidder identities are
//! unique, and each horse's recorded aggregate accounts for the bidders'
//! deposits on it: exactly while bidding or awaiting resolution, and as an
//! upper bound once the run is terminal and withdrawals may have zeroed rows.

use vstd::prelude::*;

use crate::ActorId;
use crate::Error;
use crate::run_status::RunStatus;

verus! {

/// A horse as declared at run creation: only its selection weight matters to
/// the engine. The weight biases winner selection, never the payout.
#[derive(Debug, Clone, Copy, PartialEq, Eq, Structural)]
pub struct Horse {
    /// Relative chance of winning, in arbitrary units.
    pub weight: u32,
}

/// One horse of a run together with the aggregate stake recorded on it.
#[derive(Debug, PartialEq, Eq)]
pub struct HorseSlot {
    /// The horse's name, unique within the run.
    pub name: String,
    /// The declared horse.
    pub horse: Horse,
    /// Aggregate net deposit recorded against this horse.
    pub total_deposit: u128,
}

/// One bidder's row of the ledger: a net deposit per horse of the run.
#[derive(Debug, PartialEq, Eq)]
pub struct BidderSlot {
    /// The bidder.
    pub id: ActorId,
    /// Net deposit per horse, indexed like `Run::horses`.
    pub deposits: Vec<u128>,
}

/// One betting run.
#[derive(Debug, PartialEq, Eq)]
pub struct Run {
    /// When the run was created.
    pub start_timestamp: u64,
    /// When bidding closes.
    pub end_bidding_timestamp: u64,
    /// The horses of this run with their aggregate deposits.
    pub horses: Vec<HorseSlot>,
    /// The bid ledger, one row per bidder.
    pub bidders: Vec<BidderSlot>,
    /// The stage the run is in.
    pub status: RunStatus,
}

/// Sum of the first `n` amounts of `s`.
pub open spec fn sum_amounts_to(s: Seq<u128>, n: int) -> int
    decreases n,
{
    if n <= 0 {
        0
    } else {
        sum_amounts_to(s, n - 1) + s[n - 1]
    }
}

/// Sum of a row of amounts.
pub open spec fn sum_amounts(s: Seq<u128>) -> int {
    sum_amounts_to(s, s.len() as int)
}

/// Sum, over the first `n` bidders, of the deposit each records on horse `i`.
pub open spec fn deposits_at_to(bidders: Seq<BidderSlot>, i: int, n: int) -> int
    decreases n,
{
    if n <= 0 {
        0
    } else {
        deposits_at_to(bidders, i, n - 1) + bidders[n - 1].deposits@[i]
    }
}

/// Sum, over all bidders, of the deposit each records on horse `i`.
pub open spec fn deposits_at(bidders: Seq<BidderSlot>, i: int) -> int {
    deposits_at_to(bidders, i, bidders.len() as int)
}

/// There is a horse of that name.
pub open spec fn has_horse(horses: Seq<HorseSlot>, name: Seq<char>) -> bool {
    exists|i: int| 0 <= i < horses.len() && (#[trigger] horses[i]).name@ == name
}

/// The index of the horse of that name (meaningful when the names are
/// unique and the name occurs).
pub open spec fn horse_index(horses: Seq<HorseSlot>, name: Seq<char>) -> int {
    choose|i: int| 0 <= i < horses.len() && (#[trigger] horses[i]).name@ == name
}

/// The index of the bidder row of `id`, if any.
pub open spec fn has_bidder(bidders: Seq<BidderSlot>, id: ActorId) -> bool {
    exists|k: int| 0 <= k < bidders.len() && (#[trigger] bidders[k]).id == id
}

/// The index of the bidder row of `id` (meaningful when the identities are
/// unique and the row exists).
pub open spec fn bidder_index(bidders: Seq<BidderSlot>, id: ActorId) -> int {
    choose|k: int| 0 <= k < bidders.len() && (#[trigger] bidders[k]).id == id
}

/// The net deposit `id` records on horse `i`: zero when the bidder has no row.
pub open spec fn bidder_deposit_on(bidders: Seq<BidderSlot>, id: ActorId, i: int) -> int {
    if has_bidder(bidders, id) {
        bidders[bidder_index(bidders, id)].deposits@[i] as int
    } else {
        0
    }
}

/// How one bidder's withdrawal leaves the ledger: every other bidder's row
/// is untouched, and every row of the withdrawing bidder is zeroed without
/// changing its shape.
pub open spec fn withdrawn(before: Seq<BidderSlot>, after: Seq<BidderSlot>, id: ActorId) -> bool {
    &&& after.len() == before.len()
    &&& forall|l: int|
        0 <= l < before.len() && (#[trigger] before[l]).id != id ==> after[l] == before[l]
    &&& forall|l: int|
        0 <= l < before.len() && (#[trigger] before[l]).id == id ==> {
            &&& after[l].id == id
            &&& after[l].deposits@.len() == before[l].deposits@.len()
            &&& forall|j: int| 0 <= j < after[l].deposits@.len() ==> after[l].deposits@[j] == 0
        }
}

/// The bidder's total stake across all horses: zero when the bidder has no row.
pub open spec fn bidder_total(bidders: Seq<BidderSlot>, id: ActorId) -> int {
    if has_bidder(bidders, id) {
        sum_amounts(bidders[bidder_index(bidders, id)].deposits@)
    } else {
        0
    }
}

impl Run {
    /// The names of the run's horses are pairwise distinct.
    pub open spec fn names_unique(self) -> bool {
        forall|i: int, j: int|
            0 <= i < j < self.horses@.len() ==> (#[trigger] self.horses@[i]).name@ != (
            #[trigger] self.horses@[j]).name@
    }

    /// Every bidder row spans exactly the run's horses, and no bidder has
    /// two rows.
    pub open spec fn bidders_wf(self) -> bool {
        &&& forall|k: int|
            0 <= k < self.bidders@.len() ==> (#[trigger] self.bidders@[k]).deposits@.len()
                == self.horses@.len()
        &&& forall|k: int, l: int|
            0 <= k < l < self.bidders@.len() ==> (#[trigger] self.bidders@[k]).id != (
            #[trigger] self.bidders@[l]).id
    }

    /// Each horse's aggregate accounts for the bidders' deposits on it:
    /// never less than their sum, and exactly their sum while the run is
    /// still live (withdrawals, allowed only on terminal runs, zero rows
    /// without touching the frozen aggregates).
    pub open spec fn ledger_consistent(self) -> bool {
        &&& forall|i: int|
            0 <= i < self.horses@.len() ==> deposits_at(self.bidders@, i) <= (
            #[trigger] self.horses@[i]).total_deposit
        &&& (self.status is Created || self.status is InProgress) ==> forall|i: int|
            0 <= i < self.horses@.len() ==> deposits_at(self.bidders@, i) == (
            #[trigger] self.horses@[i]).total_deposit
    }

    /// Well-formedness of a run; established at creation and preserved by
    /// every operation.
    pub open spec fn wf(self) -> bool {
        &&& self.horses@.len() >= 1
        &&& self.names_unique()
        &&& self.bidders_wf()
        &&& self.ledger_consistent()
        &&& (self.status matches RunStatus::Finished { horse_name, .. } ==> has_horse(
            self.horses@,
            horse_name@,
        ))
    }
}

/// The first `n` summands are each at most the sum, the sum is nonnegative,
/// and it only reads the first `n` rows.
pub proof fn lemma_deposits_at_to_bounds(bidders: Seq<BidderSlot>, i: int, n: int)
    ensures
        0 <= deposits_at_to(bidders, i, n),
        forall|k: int|
            0 <= k < n ==> (#[trigger] bidders[k]).deposits@[i] <= deposits_at_to(bidders, i, n),
    decreases n,
{
    if n > 0 {
        lemma_deposits_at_to_bounds(bidders, i, n - 1);
    }
}

/// Two ledgers that agree, entry by entry, on horse `i` over their first `n`
/// rows have the same partial sum there.
pub proof fn lemma_deposits_at_to_congruence(
    a: Seq<BidderSlot>,
    b: Seq<BidderSlot>,
    i: int,
    n: int,
)
    requires
        forall|k: int| 0 <= k < n ==> (#[trigger] a[k]).deposits@[i] == (#[trigger] b[k]).deposits@[i],
    ensures
        deposits_at_to(a, i, n) == deposits_at_to(b, i, n),
    decreases n,
{
    if n > 0 {
        lemma_deposits_at_to_congruence(a, b, i, n - 1);
    }
}

/// Replacing row `k` changes the partial sum on horse `i` by exactly the
/// change of that row's entry.
pub proof fn lemma_deposits_at_to_update(
    bidders: Seq<BidderSlot>,
    k: int,
    b2: BidderSlot,
    i: int,
    n: int,
)
    requires
        0 <= k < n <= bidders.len(),
    ensures
        deposits_at_to(bidders.update(k, b2), i, n) == deposits_at_to(bidders, i, n)
            - bidders[k].deposits@[i] + b2.deposits@[i],
    decreases n,
{
    let updated = bidders.update(k, b2);
    if k == n - 1 {
        lemma_deposits_at_to_congruence(updated, bidders, i, n - 1);
    } else {
        lemma_deposits_at_to_update(bidders, k, b2, i, n - 1);
    }
}

/// Appending a row leaves the partial sums over the existing rows unchanged.
pub proof fn lemma_deposits_at_to_push(bidders: Seq<BidderSlot>, b: BidderSlot, i: int, n: int)
    requires
        n <= bidders.len(),
    ensures
        deposits_at_to(bidders.push(b), i, n) == deposits_at_to(bidders, i, n),
{
    lemma_deposits_at_to_congruence(bidders.push(b), bidders, i, n);
}

/// The first `n` amounts are each at most the partial sum, and it is
/// nonnegative.
pub proof fn lemma_sum_amounts_to_bounds(s: Seq<u128>, n: int)
    ensures
        0 <= sum_amounts_to(s, n),
        forall|j: int| 0 <= j < n ==> #[trigger] s[j] <= sum_amounts_to(s, n),
    decreases n,
{
    if n > 0 {
        lemma_sum_amounts_to_bounds(s, n - 1);
    }
}

/// A row of zeros sums to zero.
pub proof fn lemma_sum_amounts_to_zero(s: Seq<u128>, n: int)
    requires
        forall|j: int| 0 <= j < n ==> s[j] == 0,
    ensures
        sum_amounts_to(s, n) == 0,
    decreases n,
{
    if n > 0 {
        lemma_sum_amounts_to_zero(s, n - 1);
    }
}

/// Looks a horse up by name.
pub fn find_horse(horses: &Vec<HorseSlot>, name: &String) -> (r: Option<usize>)
    ensures
        r matches Some(i) ==> 0 <= i < horses@.len() && horses@[i as int].name@ == name@,
        r is None ==> !has_horse(horses@, name@),
{
    let n: usize = horses.len();
    let mut i: usize = 0;
    while i < n
        invariant
            n == horses@.len(),
            i <= n,
            forall|j: int| 0 <= j < i ==> (#[trigger] horses@[j]).name@ != name@,
        decreases n - i,
    {
        if horses[i].name == *name {
            return Some(i);
        }
        i = i + 1;
    }
    None
}

/// Looks a bidder's ledger row up.
pub fn find_bidder(bidders: &Vec<BidderSlot>, id: ActorId) -> (r: Option<usize>)
    ensures
        r matches Some(k) ==> 0 <= k < bidders@.len() && bidders@[k as int].id == id,
        r is None ==> !has_bidder(bidders@, id),
{
    let n: usize = bidders.len();
    let mut k: usize = 0;
    while k < n
        invariant
            n == bidders@.len(),
            k <= n,
            forall|l: int| 0 <= l < k ==> (#[trigger] bidders@[l]).id != id,
        decreases n - k,
    {
        if bidders[k].id == id {
            return Some(k);
        }
        k = k + 1;
    }
    None
}

/// How a successful deposit of `amount` by `bidder` on the horse named
/// `name` changes a run: the addressed aggregate and the bidder's entry on
/// that horse both grow by `amount` (a bidder without a row gets a fresh
/// one), and nothing else moves.
pub open spec fn deposit_applied(
    before: Run,
    after: Run,
    bidder: ActorId,
    name: Seq<char>,
    amount: u128,
) -> bool {
    let i = horse_index(before.horses@, name);
    &&& has_horse(before.horses@, name)
    &&& after.horses@.len() == before.horses@.len()
    &&& forall|j: int|
        0 <= j < before.horses@.len() && j != i ==> after.horses@[j] == before.horses@[j]
    &&& after.horses@[i].name@ == name
    &&& after.horses@[i].horse == before.horses@[i].horse
    &&& after.horses@[i].total_deposit == before.horses@[i].total_deposit + amount
    &&& bidder_deposit_on(after.bidders@, bidder, i) == bidder_deposit_on(before.bidders@, bidder, i)
        + amount
    &&& has_bidder(before.bidders@, bidder) ==> {
        let k = bidder_index(before.bidders@, bidder);
        &&& after.bidders@.len() == before.bidders@.len()
        &&& forall|l: int|
            0 <= l < before.bidders@.len() && l != k ==> after.bidders@[l] == before.bidders@[l]
        &&& after.bidders@[k].id == bidder
        &&& after.bidders@[k].deposits@ == before.bidders@[k].deposits@.update(
            i,
            (before.bidders@[k].deposits@[i] + amount) as u128,
        )
    }
    &&& !has_bidder(before.bidders@, bidder) ==> {
        &&& after.bidders@.len() == before.bidders@.len() + 1
        &&& forall|l: int|
            0 <= l < before.bidders@.len() ==> after.bidders@[l] == before.bidders@[l]
        &&& after.bidders@.last().id == bidder
        &&& after.bidders@.last().deposits@[i] == amount
        &&& forall|j: int|
            0 <= j < before.horses@.len() && j != i ==> after.bidders@.last().deposits@[j] == 0
    }
    &&& after.status == before.status
    &&& after.start_timestamp == before.start_timestamp
    &&& after.end_bidding_timestamp == before.end_bidding_timestamp
}

impl Run {
    /// Records a net deposit of `amount` by `bidder` on the named horse:
    /// the bidder's entry and the horse's aggregate both grow by `amount`.
    /// Only the addressed entry and aggregate change. The caller has already
    /// checked the stage and timing guards and deducted the fee.
    pub fn deposit(&mut self, bidder: ActorId, horse_name: &String, amount: u128) -> (r: Result<
        (),
        Error,
    >)
        requires
            old(self).wf(),
            old(self).status is Created,
        ensures
            final(self).wf(),
            final(self).status == old(self).status,
            final(self).start_timestamp == old(self).start_timestamp,
            final(self).end_bidding_timestamp == old(self).end_bidding_timestamp,
            !has_horse(old(self).horses@, horse_name@) ==> r == Err::<(), Error>(Error::NotFound)
                && *final(self) == *old(self),
            has_horse(old(self).horses@, horse_name@) ==> {
                let i = horse_index(old(self).horses@, horse_name@);
                &&& old(self).horses@[i].total_deposit + amount > u128::MAX ==> r == Err::<
                    (),
                    Error,
                >(Error::Overflow) && *final(self) == *old(self)
                &&& old(self).horses@[i].total_deposit + amount <= u128::MAX ==> r == Ok::<
                    (),
                    Error,
                >(()) && deposit_applied(*old(self), *final(self), bidder, horse_name@, amount)
            },
    {
        let ghost old_run = *old(self);
        let hi: usize = match find_horse(&self.horses, horse_name) {
            Some(i) => i,
            None => {
                return Err(Error::NotFound);
            },
        };
        proof {
            // The found index is the unique index of that name.
            assert(has_horse(self.horses@, horse_name@));
            lemma_horse_index_unique(self.horses@, horse_name@, hi as int);
        }
        let total: u128 = self.horses[hi].total_deposit;
        if amount > u128::MAX - total {
            return Err(Error::Overflow);
        }
        let slot = &mut self.horses[hi];
        slot.total_deposit = total + amount;
        match find_bidder(&self.bidders, bidder) {
            Some(k) => {
                proof {
                    lemma_bidder_index_unique(self.bidders@, bidder, k as int);
                    // The bidder's entry fits: it is bounded by the old
                    // aggregate, which together with `amount` fits.
                    lemma_deposits_at_to_bounds(
                        old_run.bidders@,
                        hi as int,
                        old_run.bidders@.len() as int,
                    );
                }
                let row = &mut self.bidders[k];
                let entry: u128 = row.deposits[hi];
                row.deposits.set(hi, entry + amount);
                proof {
                    lemma_deposit_update_wf(old_run, *self, hi as int, k as int, amount);
                }
            },
            None => {
                let width: usize = self.horses.len();
                let mut fresh: Vec<u128> = Vec::new();
                let mut j: usize = 0;
                while j < width
                    invariant
                        j <= width,
                        fresh@.len() == j,
                        forall|x: int| 0 <= x < j ==> fresh@[x] == 0,
                    decreases width - j,
                {
                    fresh.push(0);
                    j = j + 1;
                }
                fresh.set(hi, amount);
                self.bidders.push(BidderSlot { id: bidder, deposits: fresh });
                proof {
                    lemma_deposit_push_wf(old_run, *self, hi as int, bidder, amount);
                }
            },
        }
        Ok(())
    }

    /// The bidder's total stake across all horses, read without changing
    /// anything.
    pub fn bidder_total_amount(&self, bidder: ActorId) -> (r: Result<u128, Error>)
        requires
            self.wf(),
        ensures
            bidder_total(self.bidders@, bidder) <= u128::MAX ==> r == Ok::<u128, Error>(
                bidder_total(self.bidders@, bidder) as u128,
            ),
            bidder_total(self.bidders@, bidder) > u128::MAX ==> r == Err::<u128, Error>(
                Error::Overflow,
            ),
    {
        let k: usize = match find_bidder(&self.bidders, bidder) {
            Some(k) => k,
            None => {
                return Ok(0);
            },
        };
        proof {
            lemma_bidder_index_unique(self.bidders@, bidder, k as int);
        }
        let width: usize = self.bidders[k].deposits.len();
        let mut acc: u128 = 0;
        let mut j: usize = 0;
        while j < width
            invariant
                j <= width,
                width == self.bidders@[k as int].deposits@.len(),
                acc == sum_amounts_to(self.bidders@[k as int].deposits@, j as int),
            decreases width - j,
        {
            let entry: u128 = self.bidders[k].deposits[j];
            if entry > u128::MAX - acc {
                proof {
                    lemma_sum_amounts_to_monotonic(
                        self.bidders@[k as int].deposits@,
                        j as int + 1,
                        width as int,
                    );
                }
                return Err(Error::Overflow);
            }
            acc = acc + entry;
            j = j + 1;
        }
        Ok(acc)
    }

    /// Sums the bidder's deposits across all horses of the run, zeroes them,
    /// and returns the sum. A bidder without a row, or one who has already
    /// withdrawn, gets zero: the operation is idempotent. The horses'
    /// aggregates stay frozen, so payout shares of other winners are
    /// unaffected; only a terminal run may be drained.
    pub fn withdraw_all(&mut self, bidder: ActorId) -> (r: Result<u128, Error>)
        requires
            old(self).wf(),
            old(self).status.is_terminal(),
        ensures
            final(self).wf(),
            final(self).status == old(self).status,
            final(self).start_timestamp == old(self).start_timestamp,
            final(self).end_bidding_timestamp == old(self).end_bidding_timestamp,
            final(self).horses@ == old(self).horses@,
            bidder_total(old(self).bidders@, bidder) > u128::MAX ==> r == Err::<u128, Error>(
                Error::Overflow,
            ) && *final(self) == *old(self),
            bidder_total(old(self).bidders@, bidder) <= u128::MAX ==> {
                &&& r == Ok::<u128, Error>(bidder_total(old(self).bidders@, bidder) as u128)
                &&& bidder_total(final(self).bidders@, bidder) == 0
                &&& withdrawn(old(self).bidders@, final(self).bidders@, bidder)
            },
    {
        let ghost old_run = *old(self);
        let k: usize = match find_bidder(&self.bidders, bidder) {
            Some(k) => k,
            None => {
                proof {
                    assert(bidder_total(self.bidders@, bidder) == 0);
                }
                return Ok(0);
            },
        };
        proof {
            lemma_bidder_index_unique(self.bidders@, bidder, k as int);
        }
        let width: usize = {
            let row = &self.bidders[k];
            row.deposits.len()
        };
        let mut acc: u128 = 0;
        let mut j: usize = 0;
        while j < width
            invariant
                old_run.wf(),
                0 <= k < self.bidders@.len(),
                *self == old_run,
                width == self.bidders@[k as int].deposits@.len(),
                j <= width,
                acc == sum_amounts_to(self.bidders@[k as int].deposits@, j as int),
            decreases width - j,
        {
            let entry: u128 = self.bidders[k].deposits[j];
            if entry > u128::MAX - acc {
                proof {
                    // A partial sum that already overflows bounds the total.
                    lemma_sum_amounts_to_monotonic(
                        self.bidders@[k as int].deposits@,
                        j as int + 1,
                        width as int,
                    );
                }
                return Err(Error::Overflow);
            }
            acc = acc + entry;
            j = j + 1;
        }
        let mut zeros: Vec<u128> = Vec::new();
        let mut z: usize = 0;
        while z < width
            invariant
                z <= width,
                zeros@.len() == z,
                forall|x: int| 0 <= x < z ==> zeros@[x] == 0,
            decreases width - z,
        {
            zeros.push(0);
            z = z + 1;
        }
        let row = &mut self.bidders[k];
        row.deposits = zeros;
        proof {
            lemma_withdraw_wf(old_run, *self, k as int);
            lemma_sum_amounts_to_zero(
                self.bidders@[k as int].deposits@,
                self.bidders@[k as int].deposits@.len() as int,
            );
        }
        Ok(acc)
    }
}

/// Two ledgers carry the same rows: same bidders in the same order with the
/// same deposits.
pub open spec fn bidders_like(a: Seq<BidderSlot>, b: Seq<BidderSlot>) -> bool {
    &&& a.len() == b.len()
    &&& forall|k: int|
        0 <= k < a.len() ==> (#[trigger] a[k]).id == b[k].id && a[k].deposits@ == b[k].deposits@
}

/// Two runs carry the same observable state, field for field.
pub open spec fn run_models(a: Run, b: Run) -> bool {
    &&& a.start_timestamp == b.start_timestamp
    &&& a.end_bidding_timestamp == b.end_bidding_timestamp
    &&& a.horses@ == b.horses@
    &&& bidders_like(a.bidders@, b.bidders@)
    &&& a.status == b.status
}

impl Clone for HorseSlot {
    /// An exact copy.
    fn clone(&self) -> (r: Self)
        ensures
            r == *self,
    {
        HorseSlot { name: self.name.clone(), horse: self.horse, total_deposit: self.total_deposit }
    }
}

/// Copies a row of amounts.
fn clone_amounts(v: &Vec<u128>) -> (r: Vec<u128>)
    ensures
        r@ == v@,
{
    let n: usize = v.len();
    let mut r: Vec<u128> = Vec::new();
    let mut i: usize = 0;
    while i < n
        invariant
            i <= n,
            r@.len() == i,
            forall|j: int| 0 <= j < i ==> r@[j] == v@[j],
        decreases n - i,
    {
        r.push(v[i]);
        i = i + 1;
    }
    proof {
        assert(r@ =~= v@);
    }
    r
}

impl Clone for BidderSlot {
    /// A copy with the same bidder and the same deposits.
    fn clone(&self) -> (r: Self)
        ensures
            r.id == self.id,
            r.deposits@ == self.deposits@,
    {
        BidderSlot { id: self.id, deposits: clone_amounts(&self.deposits) }
    }
}

impl Clone for Run {
    /// A copy that observes as the original: same timestamps, horses,
    /// ledger rows and status.
    fn clone(&self) -> (r: Self)
        ensures
            run_models(r, *self),
    {
        let n: usize = self.horses.len();
        let mut horses: Vec<HorseSlot> = Vec::new();
        let mut i: usize = 0;
        while i < n
            invariant
                i <= n,
                horses@.len() == i,
                forall|j: int| 0 <= j < i ==> horses@[j] == self.horses@[j],
            decreases n - i,
        {
            horses.push(self.horses[i].clone());
            i = i + 1;
        }
        proof {
            assert(horses@ =~= self.horses@);
        }
        let m: usize = self.bidders.len();
        let mut bidders: Vec<BidderSlot> = Vec::new();
        let mut k: usize = 0;
        while k < m
            invariant
                k <= m,
                bidders@.len() == k,
                forall|j: int|
                    0 <= j < k ==> (#[trigger] bidders@[j]).id == self.bidders@[j].id
                        && bidders@[j].deposits@ == self.bidders@[j].deposits@,
            decreases m - k,
        {
            bidders.push(self.bidders[k].clone());
            k = k + 1;
        }
        Run {
            start_timestamp: self.start_timestamp,
            end_bidding_timestamp: self.end_bidding_timestamp,
            horses,
            bidders,
            status: self.status.clone(),
        }
    }
}

/// With unique names, any index holding `name` is the chosen `horse_index`.
pub proof fn lemma_horse_index_unique(horses: Seq<HorseSlot>, name: Seq<char>, i: int)
    requires
        forall|a: int, b: int|
            0 <= a < b < horses.len() ==> (#[trigger] horses[a]).name@ != (
            #[trigger] horses[b]).name@,
        0 <= i < horses.len(),
        horses[i].name@ == name,
    ensures
        has_horse(horses, name),
        horse_index(horses, name) == i,
{
    assert(has_horse(horses, name));
    let c = horse_index(horses, name);
    if c < i {
        assert(horses[c].name@ != horses[i].name@);
    } else if c > i {
        assert(horses[i].name@ != horses[c].name@);
    }
}

/// With unique identities, any index holding `id` is the chosen `bidder_index`.
pub proof fn lemma_bidder_index_unique(bidders: Seq<BidderSlot>, id: ActorId, k: int)
    requires
        forall|a: int, b: int|
            0 <= a < b < bidders.len() ==> (#[trigger] bidders[a]).id != (#[trigger] bidders[b]).id,
        0 <= k < bidders.len(),
        bidders[k].id == id,
    ensures
        has_bidder(bidders, id),
        bidder_index(bidders, id) == k,
{
    assert(has_bidder(bidders, id));
    let c = bidder_index(bidders, id);
    if c < k {
        assert(bidders[c].id != bidders[k].id);
    } else if c > k {
        assert(bidders[k].id != bidders[c].id);
    }
}

/// Partial sums grow with the count of summands.
pub proof fn lemma_sum_amounts_to_monotonic(s: Seq<u128>, m: int, n: int)
    requires
        0 <= m <= n,
    ensures
        sum_amounts_to(s, m) <= sum_amounts_to(s, n),
    decreases n,
{
    if m < n {
        lemma_sum_amounts_to_monotonic(s, m, n - 1);
    }
}

/// A deposit into an existing row keeps the run well formed: the changed
/// column's sum grows by exactly the deposited amount, every other column
/// is untouched.
proof fn lemma_deposit_update_wf(before: Run, after: Run, i: int, k: int, amount: u128)
    requires
        before.wf(),
        before.status is Created,
        0 <= i < before.horses@.len(),
        0 <= k < before.bidders@.len(),
        after.status == before.status,
        after.horses@.len() == before.horses@.len(),
        forall|j: int|
            0 <= j < before.horses@.len() && j != i ==> after.horses@[j] == before.horses@[j],
        after.horses@[i].name@ == before.horses@[i].name@,
        after.horses@[i].total_deposit == before.horses@[i].total_deposit + amount,
        after.bidders@ == before.bidders@.update(
            k,
            BidderSlot {
                id: before.bidders@[k].id,
                deposits: after.bidders@[k].deposits,
            },
        ),
        after.bidders@[k].deposits@ == before.bidders@[k].deposits@.update(
            i,
            (before.bidders@[k].deposits@[i] + amount) as u128,
        ),
        before.bidders@[k].deposits@[i] + amount <= u128::MAX,
    ensures
        after.wf(),
{
    assert forall|j: int| 0 <= j < after.horses@.len() implies deposits_at(after.bidders@, j) == (
    #[trigger] after.horses@[j]).total_deposit by {
        let n = before.bidders@.len() as int;
        if j == i {
            lemma_deposits_at_to_update(
                before.bidders@,
                k,
                after.bidders@[k],
                i,
                n,
            );
        } else {
            assert forall|l: int| 0 <= l < n implies (#[trigger] after.bidders@[l]).deposits@[j]
                == before.bidders@[l].deposits@[j] by {
                if l == k {
                    assert(after.bidders@[k].deposits@[j] == before.bidders@[k].deposits@[j]);
                }
            }
            lemma_deposits_at_to_congruence(after.bidders@, before.bidders@, j, n);
        }
    }
}

/// A deposit that opens a new row keeps the run well formed: the new row
/// contributes `amount` to the changed column and nothing elsewhere.
proof fn lemma_deposit_push_wf(before: Run, after: Run, i: int, bidder: ActorId, amount: u128)
    requires
        before.wf(),
        before.status is Created,
        0 <= i < before.horses@.len(),
        !has_bidder(before.bidders@, bidder),
        after.status == before.status,
        after.horses@.len() == before.horses@.len(),
        forall|j: int|
            0 <= j < before.horses@.len() && j != i ==> after.horses@[j] == before.horses@[j],
        after.horses@[i].name@ == before.horses@[i].name@,
        after.horses@[i].total_deposit == before.horses@[i].total_deposit + amount,
        after.bidders@ == before.bidders@.push(after.bidders@.last()),
        after.bidders@.last().id == bidder,
        after.bidders@.last().deposits@.len() == before.horses@.len(),
        after.bidders@.last().deposits@[i] == amount,
        forall|j: int|
            0 <= j < before.horses@.len() && j != i ==> after.bidders@.last().deposits@[j] == 0,
    ensures
        after.wf(),
{
    let n = before.bidders@.len() as int;
    assert forall|j: int| 0 <= j < after.horses@.len() implies deposits_at(after.bidders@, j) == (
    #[trigger] after.horses@[j]).total_deposit by {
        lemma_deposits_at_to_push(before.bidders@, after.bidders@.last(), j, n);
        lemma_deposits_at_to_congruence(after.bidders@, before.bidders@.push(after.bidders@.last()), j, n);
        assert(deposits_at_to(after.bidders@, j, n + 1) == deposits_at_to(after.bidders@, j, n)
            + after.bidders@[n].deposits@[j]);
    }
    assert forall|a: int, b: int| 0 <= a < b < after.bidders@.len() implies (
    #[trigger] after.bidders@[a]).id != (#[trigger] after.bidders@[b]).id by {
        if b == n {
            assert(!(0 <= a < before.bidders@.len() && (before.bidders@[a]).id == bidder));
        }
    }
}

/// Sum of the aggregates of the first `n` horses, skipping horse `win`.
pub open spec fn losing_pool_to(horses: Seq<HorseSlot>, win: int, n: int) -> int
    decreases n,
{
    if n <= 0 {
        0
    } else if n - 1 == win {
        losing_pool_to(horses, win, n - 1)
    } else {
        losing_pool_to(horses, win, n - 1) + horses[n - 1].total_deposit
    }
}

/// The losing pool: the aggregates of every horse but the winner.
pub open spec fn losing_pool(horses: Seq<HorseSlot>, win: int) -> int {
    losing_pool_to(horses, win, horses.len() as int)
}

/// Partial losing pools grow with the count of summands.
pub proof fn lemma_losing_pool_to_monotonic(horses: Seq<HorseSlot>, win: int, m: int, n: int)
    requires
        0 <= m <= n,
    ensures
        losing_pool_to(horses, win, m) <= losing_pool_to(horses, win, n),
    decreases n,
{
    if m < n {
        lemma_losing_pool_to_monotonic(horses, win, m, n - 1);
    }
}

impl Run {
    /// Moves a run whose bidding has closed into `InProgress`; it then
    /// awaits the oracle's randomness. Only the status changes.
    pub fn progress(&mut self)
        requires
            old(self).wf(),
            old(self).status is Created,
        ensures
            final(self).wf(),
            final(self).status is InProgress,
            crate::run_status::lifecycle_step(old(self).status, final(self).status),
            final(self).horses@ == old(self).horses@,
            final(self).bidders@ == old(self).bidders@,
            final(self).start_timestamp == old(self).start_timestamp,
            final(self).end_bidding_timestamp == old(self).end_bidding_timestamp,
    {
        self.status = RunStatus::InProgress;
    }

    /// Cancels a run whose bidding has closed; stakes become refundable.
    /// Only the status changes.
    pub fn cancel(&mut self)
        requires
            old(self).wf(),
            old(self).status is Created,
        ensures
            final(self).wf(),
            final(self).status is Canceled,
            crate::run_status::lifecycle_step(old(self).status, final(self).status),
            final(self).horses@ == old(self).horses@,
            final(self).bidders@ == old(self).bidders@,
            final(self).start_timestamp == old(self).start_timestamp,
            final(self).end_bidding_timestamp == old(self).end_bidding_timestamp,
    {
        self.status = RunStatus::Canceled;
    }

    /// Resolves a run in progress: the externally supplied seed, folded with
    /// the run's id, deterministically picks the winning horse, weighted by
    /// the declared weights. Only the status changes.
    pub fn finish(&mut self, seed: u128, run_id: u128)
        requires
            old(self).wf(),
            old(self).status is InProgress,
        ensures
            final(self).wf(),
            crate::run_status::lifecycle_step(old(self).status, final(self).status),
            0 <= crate::settlement::spec_select_winner(old(self).horses@, seed, run_id) < old(
                self,
            ).horses@.len(),
            final(self).status matches RunStatus::Finished { horse_name, run_id: rid }
                && horse_name@ == old(self).horses@[crate::settlement::spec_select_winner(
                old(self).horses@,
                seed,
                run_id,
            )].name@ && rid == run_id,
            final(self).horses@ == old(self).horses@,
            final(self).bidders@ == old(self).bidders@,
            final(self).start_timestamp == old(self).start_timestamp,
            final(self).end_bidding_timestamp == old(self).end_bidding_timestamp,
    {
        let idx: usize = crate::settlement::select_winner(&self.horses, seed, run_id);
        let name: String = self.horses[idx].name.clone();
        self.status = RunStatus::Finished { horse_name: name, run_id };
    }

    /// The index of the winning horse of a finished run.
    pub open spec fn spec_winner_index(self) -> int {
        horse_index(self.horses@, self.status->Finished_horse_name@)
    }

    /// The winning horse of a finished run: its name, the horse, and the
    /// aggregate stake that was bet on it.
    pub fn get_winner_horse(&self) -> (r: Option<(String, Horse, u128)>)
        requires
            self.wf(),
        ensures
            !(self.status is Finished) ==> r is None,
            self.status is Finished ==> (r matches Some(t) && {
                let i = self.spec_winner_index();
                &&& 0 <= i < self.horses@.len()
                &&& t.0@ == self.horses@[i].name@
                &&& t.1 == self.horses@[i].horse
                &&& t.2 == self.horses@[i].total_deposit
            }),
    {
        let name: String = match &self.status {
            RunStatus::Finished { horse_name, .. } => horse_name.clone(),
            _ => {
                return None;
            },
        };
        let idx: usize = match find_horse(&self.horses, &name) {
            Some(i) => i,
            None => {
                // wf rules this out: a finished run names one of its horses.
                proof {
                    assert(has_horse(self.horses@, name@));
                }
                return None;
            },
        };
        proof {
            lemma_horse_index_unique(self.horses@, name@, idx as int);
        }
        let slot = &self.horses[idx];
        Some((slot.name.clone(), slot.horse, slot.total_deposit))
    }

    /// The informational leader board query: a horse carrying the largest
    /// aggregate stake. This is not the winner selection.
    pub fn max_deposit_horse(&self) -> (r: (String, Horse, u128))
        requires
            self.wf(),
        ensures
            exists|i: int|
                0 <= i < self.horses@.len() && (#[trigger] self.horses@[i]).name@ == r.0@
                    && self.horses@[i].horse == r.1 && self.horses@[i].total_deposit == r.2,
            forall|j: int|
                0 <= j < self.horses@.len() ==> (#[trigger] self.horses@[j]).total_deposit <= r.2,
    {
        let n: usize = self.horses.len();
        let mut best: usize = 0;
        let mut i: usize = 1;
        while i < n
            invariant
                1 <= i <= n,
                0 <= best < i,
                forall|j: int|
                    0 <= j < i ==> (#[trigger] self.horses@[j]).total_deposit <= self.horses@[
                        best as int].total_deposit,
            decreases n - i,
        {
            if self.horses[i].total_deposit > self.horses[best].total_deposit {
                best = i;
            }
            i = i + 1;
        }
        let slot = &self.horses[best];
        (slot.name.clone(), slot.horse, slot.total_deposit)
    }

    /// The net deposit a bidder has recorded on the named horse: zero when
    /// either is unknown or nothing was recorded.
    pub fn get_user_deposit(&self, bidder: ActorId, horse_name: &String) -> (r: u128)
        requires
            self.wf(),
        ensures
            has_horse(self.horses@, horse_name@) ==> r == bidder_deposit_on(
                self.bidders@,
                bidder,
                horse_index(self.horses@, horse_name@),
            ),
            !has_horse(self.horses@, horse_name@) ==> r == 0,
    {
        let i: usize = match find_horse(&self.horses, horse_name) {
            Some(i) => i,
            None => {
                return 0;
            },
        };
        proof {
            lemma_horse_index_unique(self.horses@, horse_name@, i as int);
        }
        let k: usize = match find_bidder(&self.bidders, bidder) {
            Some(k) => k,
            None => {
                return 0;
            },
        };
        proof {
            lemma_bidder_index_unique(self.bidders@, bidder, k as int);
        }
        self.bidders[k].deposits[i]
    }

    /// The winning bidder's pro-rata share of the winning pool, in basis
    /// points, for a finished run.
    pub fn get_user_deposit_bps(&self, user: ActorId) -> (r: Result<u128, Error>)
        requires
            self.wf(),
            self.status is Finished,
        ensures
            ({
                let wi = self.spec_winner_index();
                let w = self.horses@[wi].total_deposit as int;
                let d = bidder_deposit_on(self.bidders@, user, wi);
                &&& !has_bidder(self.bidders@, user) ==> r == Err::<u128, Error>(Error::NotFound)
                &&& has_bidder(self.bidders@, user) && w == 0 ==> r == Err::<u128, Error>(
                    Error::ZeroDeposit,
                )
                &&& has_bidder(self.bidders@, user) && w > 0 && d * (crate::fee::MAX_BPS as int)
                    > u128::MAX ==> r == Err::<u128, Error>(Error::Overflow)
                &&& has_bidder(self.bidders@, user) && w > 0 && d * (crate::fee::MAX_BPS as int)
                    <= u128::MAX ==> r == Ok::<u128, Error>(
                    crate::settlement::share_bps_of(d, w) as u128,
                )
            }),
    {
        let winner: (String, Horse, u128) = match self.get_winner_horse() {
            Some(t) => t,
            None => {
                return Err(Error::NotFound);
            },
        };
        let wi: usize = match find_horse(&self.horses, &winner.0) {
            Some(i) => i,
            None => {
                return Err(Error::NotFound);
            },
        };
        proof {
            lemma_horse_index_unique(self.horses@, winner.0@, wi as int);
        }
        let k: usize = match find_bidder(&self.bidders, user) {
            Some(k) => k,
            None => {
                return Err(Error::NotFound);
            },
        };
        proof {
            lemma_bidder_index_unique(self.bidders@, user, k as int);
        }
        let w: u128 = self.horses[wi].total_deposit;
        if w == 0 {
            return Err(Error::ZeroDeposit);
        }
        let d: u128 = self.bidders[k].deposits[wi];
        let bps: u128 = crate::fee::MAX_BPS as u128;
        if d > u128::MAX / bps {
            proof {
                crate::fee::lemma_mul_fits_iff(d as int, bps as int, u128::MAX as int);
            }
            return Err(Error::Overflow);
        }
        proof {
            crate::fee::lemma_mul_fits_iff(d as int, bps as int, u128::MAX as int);
        }
        Ok(d * bps / w)
    }

    /// The losing pool of a finished run: the summed aggregates of every
    /// horse but the winner.
    pub fn sum_deposits_except_winner(&self) -> (r: Result<u128, Error>)
        requires
            self.wf(),
            self.status is Finished,
        ensures
            ({
                let l = losing_pool(self.horses@, self.spec_winner_index());
                &&& l <= u128::MAX ==> r == Ok::<u128, Error>(l as u128)
                &&& l > u128::MAX ==> r == Err::<u128, Error>(Error::Overflow)
            }),
    {
        let winner: (String, Horse, u128) = match self.get_winner_horse() {
            Some(t) => t,
            None => {
                return Err(Error::NotFound);
            },
        };
        let wi: usize = match find_horse(&self.horses, &winner.0) {
            Some(i) => i,
            None => {
                return Err(Error::NotFound);
            },
        };
        proof {
            lemma_horse_index_unique(self.horses@, winner.0@, wi as int);
        }
        let n: usize = self.horses.len();
        let mut acc: u128 = 0;
        let mut j: usize = 0;
        while j < n
            invariant
                j <= n,
                wi < n,
                wi as int == self.spec_winner_index(),
                acc == losing_pool_to(self.horses@, wi as int, j as int),
            decreases n - j,
        {
            if j != wi {
                let t: u128 = self.horses[j].total_deposit;
                if t > u128::MAX - acc {
                    proof {
                        lemma_losing_pool_to_monotonic(
                            self.horses@,
                            wi as int,
                            j as int + 1,
                            n as int,
                        );
                    }
                    return Err(Error::Overflow);
                }
                acc = acc + t;
            }
            j = j + 1;
        }
        Ok(acc)
    }
}

/// While a run is live — bidding open or awaiting resolution — every
/// horse's recorded aggregate is exactly the sum of the bidders'
/// individual net deposits on it: however many deposits, in whatever
/// order, produced the ledger. (Once the run is terminal, withdrawals
/// zero rows while the aggregates stay frozen, and the sum can only fall
/// below the aggregate.)
pub proof fn lemma_live_aggregates_are_deposit_sums(run: Run, i: int)
    requires
        run.wf(),
        run.status is Created || run.status is InProgress,
        0 <= i < run.horses@.len(),
    ensures
        run.horses@[i].total_deposit == deposits_at(run.bidders@, i),
{
}

/// A withdrawal is idempotent: after one withdrawal the bidder's total is
/// zero, so a second withdrawal pays zero and leaves every ledger row
/// exactly as the first one left it. Other bidders' totals are never
/// touched by either withdrawal.
pub proof fn lemma_withdraw_all_idempotent(
    b0: Seq<BidderSlot>,
    b1: Seq<BidderSlot>,
    b2: Seq<BidderSlot>,
    bidder: ActorId,
)
    requires
        forall|a: int, b: int| 0 <= a < b < b0.len() ==> (#[trigger] b0[a]).id != (#[trigger] b0[b]).id,
        withdrawn(b0, b1, bidder),
        withdrawn(b1, b2, bidder),
    ensures
        bidder_total(b1, bidder) == 0,
        forall|l: int|
            0 <= l < b1.len() ==> (#[trigger] b2[l]).id == b1[l].id && b2[l].deposits@
                == b1[l].deposits@,
        forall|other: ActorId| other != bidder ==> bidder_total(b1, other) == bidder_total(b0, other),
{
    lemma_bidder_ids_preserved(b0, b1, bidder);
    assert(bidder_total(b1, bidder) == 0) by {
        if has_bidder(b1, bidder) {
            let k = bidder_index(b1, bidder);
            assert(b1[k].id == bidder);
            if b0[k].id == bidder {
                lemma_sum_amounts_to_zero(b1[k].deposits@, b1[k].deposits@.len() as int);
            } else {
                assert(b1[k] == b0[k]);
            }
        }
    }
    assert forall|l: int| 0 <= l < b1.len() implies (#[trigger] b2[l]).id == b1[l].id
        && b2[l].deposits@ == b1[l].deposits@ by {
        if b1[l].id == bidder {
            if b0[l].id == bidder {
                assert(b2[l].deposits@ =~= b1[l].deposits@);
            } else {
                assert(b1[l] == b0[l]);
                assert(b2[l].deposits@ =~= b1[l].deposits@);
            }
        } else {
            if b0[l].id == bidder {
                assert(b1[l].id == bidder);
            }
            assert(b2[l] == b1[l]);
        }
    }
    assert forall|other: ActorId| other != bidder implies bidder_total(b1, other) == bidder_total(
        b0,
        other,
    ) by {
        if has_bidder(b1, other) {
            let k1 = bidder_index(b1, other);
            assert(b1[k1].id == other);
            assert(b0[k1].id == other);
            lemma_bidder_index_unique(b0, other, k1);
            assert(b1[k1] == b0[k1]);
        } else {
            assert(!has_bidder(b0, other));
        }
    }
}

/// A withdrawal never changes which bidders have rows, nor their order.
proof fn lemma_bidder_ids_preserved(b0: Seq<BidderSlot>, b1: Seq<BidderSlot>, bidder: ActorId)
    requires
        withdrawn(b0, b1, bidder),
    ensures
        forall|l: int| 0 <= l < b0.len() ==> (#[trigger] b1[l]).id == b0[l].id,
        forall|other: ActorId| has_bidder(b0, other) <==> has_bidder(b1, other),
{
    assert forall|l: int| 0 <= l < b0.len() implies (#[trigger] b1[l]).id == b0[l].id by {
        if b0[l].id == bidder {
        } else {
            assert(b1[l] == b0[l]);
        }
    }
    assert forall|other: ActorId| has_bidder(b0, other) implies has_bidder(b1, other) by {
        let k = bidder_index(b0, other);
        assert(b1[k].id == other);
    }
    assert forall|other: ActorId| has_bidder(b1, other) implies has_bidder(b0, other) by {
        let k = bidder_index(b1, other);
        assert(b0[k].id == other);
    }
}

/// Zeroing one bidder's row keeps the run well formed: every column's sum
/// can only shrink, and a terminal run only bounds the sums from above.
proof fn lemma_withdraw_wf(before: Run, after: Run, k: int)
    requires
        before.wf(),
        before.status.is_terminal(),
        0 <= k < before.bidders@.len(),
        after.status == before.status,
        after.horses@ == before.horses@,
        after.start_timestamp == before.start_timestamp,
        after.end_bidding_timestamp == before.end_bidding_timestamp,
        after.bidders@ == before.bidders@.update(
            k,
            BidderSlot {
                id: before.bidders@[k].id,
                deposits: after.bidders@[k].deposits,
            },
        ),
        after.bidders@[k].deposits@.len() == before.bidders@[k].deposits@.len(),
        forall|j: int|
            0 <= j < after.bidders@[k].deposits@.len() ==> after.bidders@[k].deposits@[j] == 0,
    ensures
        after.wf(),
{
    let n = before.bidders@.len() as int;
    assert forall|j: int| 0 <= j < after.horses@.len() implies deposits_at(after.bidders@, j) <= (
    #[trigger] after.horses@[j]).total_deposit by {
        lemma_deposits_at_to_update(before.bidders@, k, after.bidders@[k], j, n);
        lemma_deposits_at_to_bounds(before.bidders@, j, n);
        assert(after.bidders@[k].deposits@[j] == 0);
    }
}

} // verus!
