//! The betting engine: run lifecycle, bidding, settlement and withdrawal.

use horse_races::races::{HorseRaces, InitConfig, StateQuery, StateResponse};
use horse_races::run::Horse;
use horse_races::run_status::RunStatus;
use horse_races::settlement::{compute_payout, select_winner};
use horse_races::Error;

const OWNER: u64 = 3;
const MANAGER: u64 = 4;
const USER1: u64 = 5;
const USER2: u64 = 6;
const USER3: u64 = 7;
const TOKEN: u64 = 50;
const ORACLE: u64 = 100;

fn new_engine(fee_bps: u16) -> HorseRaces {
    HorseRaces::new(
        OWNER,
        InitConfig { manager: MANAGER, token: TOKEN, oracle: ORACLE, fee_bps },
    )
    .unwrap()
}

fn two_horses() -> Vec<(String, Horse)> {
    vec![
        ("A".to_string(), Horse { weight: 1 }),
        ("B".to_string(), Horse { weight: 1 }),
    ]
}

/// With two horses of equal weight in run 1, a seed of 1 mixes to zero and
/// the first horse wins.
const SEED_FIRST_HORSE_WINS: u128 = 1;

#[test]
fn parimutuel_round_trip() {
    let mut hr = new_engine(500);
    let run_id = hr.create_run(MANAGER, 0, 1_000, &two_horses()).unwrap();
    assert_eq!(run_id, 1);

    let a = "A".to_string();
    let b = "B".to_string();
    let r1 = hr.bid(USER1, 10, &a, 100).unwrap();
    assert_eq!((r1.fee_amount, r1.net_amount), (5, 95));
    let r2 = hr.bid(USER2, 10, &b, 300).unwrap();
    assert_eq!((r2.fee_amount, r2.net_amount), (15, 285));
    let r3 = hr.bid(USER3, 10, &a, 100).unwrap();
    assert_eq!((r3.fee_amount, r3.net_amount), (5, 95));

    let horses = hr.get_horses(1).unwrap();
    assert_eq!(horses[0], ("A".to_string(), Horse { weight: 1 }, 190));
    assert_eq!(horses[1], ("B".to_string(), Horse { weight: 1 }, 285));

    hr.progress_last_run(MANAGER, 1_000).unwrap();
    let (finished_id, winner) = hr.finish_last_run(ORACLE, SEED_FIRST_HORSE_WINS).unwrap();
    assert_eq!(finished_id, 1);
    assert_eq!(winner, ("A".to_string(), Horse { weight: 1 }, 190));

    // user1: share_bps = 95 * 10000 / 190 = 5000, profit = 285 * 5000 / 10000 = 142.
    let w1 = hr.withdraw_finished(USER1, 1).unwrap();
    assert_eq!((w1.amount, w1.profit_amount, w1.payout), (95, 142, 237));
    let w3 = hr.withdraw_finished(USER3, 1).unwrap();
    assert_eq!((w3.amount, w3.profit_amount, w3.payout), (95, 142, 237));

    // Conservation: 474 paid out of the 475 pool; the dust stays behind.
    assert_eq!(w1.payout + w3.payout, 474);
    assert!(w1.payout + w3.payout <= 190 + 285);
}

#[test]
fn losing_bidder_is_no_winner() {
    let mut hr = new_engine(500);
    hr.create_run(MANAGER, 0, 1_000, &two_horses()).unwrap();
    hr.bid(USER1, 10, &"A".to_string(), 100).unwrap();
    hr.bid(USER2, 10, &"B".to_string(), 300).unwrap();
    hr.progress_last_run(MANAGER, 1_000).unwrap();
    hr.finish_last_run(ORACLE, SEED_FIRST_HORSE_WINS).unwrap();

    // user2 backed only the losing horse: refused, nothing paid or zeroed.
    assert_eq!(hr.withdraw_finished(USER2, 1), Err(Error::NotAWinner));
    // The stake is still recorded.
    match hr.meta_state(StateQuery::GetRun(1)).unwrap() {
        StateResponse::Run(run) => {
            assert_eq!(run.bidders[1].deposits, vec![0, 285]);
        }
        _ => panic!("expected a run"),
    }
}

#[test]
fn create_run_needs_terminal_predecessor() {
    let mut hr = new_engine(500);
    hr.create_run(MANAGER, 0, 1_000, &two_horses()).unwrap();

    // The first run is still open: no second run, and the counter holds.
    assert_eq!(hr.create_run(MANAGER, 5, 1_000, &two_horses()), Err(Error::InvalidStage));
    assert_eq!(hr.meta_state(StateQuery::GetRunNonce).unwrap(), StateResponse::RunNonce(1));
    assert_eq!(hr.get_runs().len(), 1);
}

#[test]
fn update_fee_bps_rejects_out_of_range() {
    let mut hr = new_engine(500);
    assert_eq!(hr.update_fee_bps(MANAGER, 20_000), Err(Error::InvalidFeeBps));
    assert_eq!(hr.meta_state(StateQuery::GetFeeBps).unwrap(), StateResponse::FeeBps(500));
    assert_eq!(hr.update_fee_bps(MANAGER, 250), Ok(()));
    assert_eq!(hr.meta_state(StateQuery::GetFeeBps).unwrap(), StateResponse::FeeBps(250));
}

#[test]
fn withdraw_canceled_refunds_once() {
    let mut hr = new_engine(500);
    hr.create_run(MANAGER, 0, 1_000, &two_horses()).unwrap();
    hr.bid(USER1, 10, &"A".to_string(), 100).unwrap();
    hr.cancel_last_run(MANAGER, 1_000).unwrap();

    // The full net stake comes back once; afterwards there is nothing left.
    assert_eq!(hr.withdraw_canceled(USER1, 1), Ok(95));
    assert_eq!(hr.withdraw_canceled(USER1, 1), Ok(0));
    // A bidder who never bet is also refunded zero.
    assert_eq!(hr.withdraw_canceled(USER2, 1), Ok(0));
}

#[test]
fn second_withdraw_finished_has_zero_stake() {
    let mut hr = new_engine(500);
    hr.create_run(MANAGER, 0, 1_000, &two_horses()).unwrap();
    hr.bid(USER1, 10, &"A".to_string(), 100).unwrap();
    hr.bid(USER2, 10, &"B".to_string(), 300).unwrap();
    hr.progress_last_run(MANAGER, 1_000).unwrap();
    hr.finish_last_run(ORACLE, SEED_FIRST_HORSE_WINS).unwrap();

    // The sole winner takes the whole losing pool on top of the stake.
    assert_eq!(hr.withdraw_finished(USER1, 1).unwrap().payout, 380);
    assert_eq!(hr.withdraw_finished(USER1, 1), Err(Error::ZeroDeposit));
}

#[test]
fn lifecycle_guards() {
    let mut hr = new_engine(500);

    // Nothing exists yet.
    assert_eq!(hr.progress_last_run(MANAGER, 0), Err(Error::NotFound));
    assert_eq!(hr.cancel_last_run(MANAGER, 0), Err(Error::NotFound));

    hr.create_run(MANAGER, 0, 1_000, &two_horses()).unwrap();

    // Bidding still open: neither progress nor cancel.
    assert_eq!(hr.progress_last_run(MANAGER, 500), Err(Error::InvalidStage));
    assert_eq!(hr.cancel_last_run(MANAGER, 500), Err(Error::InvalidStage));

    // Bidding closed: no more bids.
    assert_eq!(hr.bid(USER1, 1_000, &"A".to_string(), 100), Err(Error::InvalidStage));

    hr.progress_last_run(MANAGER, 1_000).unwrap();

    // In progress: cannot cancel, cannot progress again, only the oracle
    // finishes.
    assert_eq!(hr.cancel_last_run(MANAGER, 1_000), Err(Error::InvalidStage));
    assert_eq!(hr.progress_last_run(MANAGER, 1_000), Err(Error::InvalidStage));
    assert_eq!(hr.finish_last_run(MANAGER, 7), Err(Error::Unauthorized));

    hr.finish_last_run(ORACLE, 7).unwrap();

    // Terminal: nothing moves the status any more.
    assert_eq!(hr.progress_last_run(MANAGER, 2_000), Err(Error::InvalidStage));
    assert_eq!(hr.cancel_last_run(MANAGER, 2_000), Err(Error::InvalidStage));
    match hr.meta_state(StateQuery::GetRun(1)).unwrap() {
        StateResponse::Run(run) => assert!(matches!(run.status, RunStatus::Finished { .. })),
        _ => panic!("expected a run"),
    }
}

#[test]
fn authorization_guards() {
    let mut hr = new_engine(500);
    assert_eq!(hr.create_run(USER1, 0, 1_000, &two_horses()), Err(Error::Unauthorized));
    assert_eq!(hr.update_fee_bps(USER1, 100), Err(Error::Unauthorized));
    assert_eq!(hr.update_manager(USER1, USER1), Err(Error::Unauthorized));
    assert_eq!(hr.update_oracle(USER1, USER1), Err(Error::Unauthorized));

    hr.create_run(MANAGER, 0, 1_000, &two_horses()).unwrap();
    // The manager may not bet.
    assert_eq!(hr.bid(MANAGER, 10, &"A".to_string(), 100), Err(Error::Unauthorized));
    // Administration is locked while the run lives.
    assert_eq!(hr.update_fee_bps(MANAGER, 100), Err(Error::InvalidStage));
    assert_eq!(hr.update_manager(MANAGER, USER1), Err(Error::InvalidStage));
    assert_eq!(hr.update_oracle(MANAGER, USER1), Err(Error::InvalidStage));
}

#[test]
fn admin_updates_between_runs() {
    let mut hr = new_engine(500);
    assert_eq!(hr.update_manager(MANAGER, USER1), Ok(()));
    assert_eq!(hr.meta_state(StateQuery::GetManager).unwrap(), StateResponse::Manager(USER1));
    assert_eq!(hr.update_oracle(USER1, 101), Ok(()));
    assert_eq!(hr.meta_state(StateQuery::GetOracle).unwrap(), StateResponse::Oracle(101));
    assert_eq!(hr.meta_state(StateQuery::GetOwner).unwrap(), StateResponse::Owner(OWNER));
    assert_eq!(hr.meta_state(StateQuery::GetToken).unwrap(), StateResponse::Token(TOKEN));
}

#[test]
fn create_run_validates_horses() {
    let mut hr = new_engine(500);
    assert_eq!(hr.create_run(MANAGER, 0, 1_000, &Vec::new()), Err(Error::InvalidHorses));
    let dup = vec![
        ("A".to_string(), Horse { weight: 1 }),
        ("A".to_string(), Horse { weight: 2 }),
    ];
    assert_eq!(hr.create_run(MANAGER, 0, 1_000, &dup), Err(Error::InvalidHorses));
    assert_eq!(
        hr.create_run(MANAGER, u64::MAX, 1, &two_horses()),
        Err(Error::Overflow)
    );
    assert_eq!(hr.meta_state(StateQuery::GetRunNonce).unwrap(), StateResponse::RunNonce(0));
}

#[test]
fn bids_validate_inputs() {
    let mut hr = new_engine(500);
    assert_eq!(hr.bid(USER1, 0, &"A".to_string(), 100), Err(Error::NotFound));
    hr.create_run(MANAGER, 0, 1_000, &two_horses()).unwrap();
    assert_eq!(hr.bid(USER1, 10, &"C".to_string(), 100), Err(Error::NotFound));
    assert_eq!(hr.bid(USER1, 10, &"A".to_string(), u128::MAX), Err(Error::Overflow));
}

#[test]
fn repeated_bids_accumulate() {
    let mut hr = new_engine(0);
    hr.create_run(MANAGER, 0, 1_000, &two_horses()).unwrap();
    hr.bid(USER1, 10, &"A".to_string(), 40).unwrap();
    hr.bid(USER1, 11, &"A".to_string(), 2).unwrap();
    hr.bid(USER1, 12, &"B".to_string(), 8).unwrap();
    let horses = hr.get_horses(1).unwrap();
    assert_eq!(horses[0].2, 42);
    assert_eq!(horses[1].2, 8);
    match hr.meta_state(StateQuery::GetRun(1)).unwrap() {
        StateResponse::Run(run) => {
            assert_eq!(run.bidders.len(), 1);
            assert_eq!(run.bidders[0].deposits, vec![42, 8]);
        }
        _ => panic!("expected a run"),
    }
}

#[test]
fn withdraw_addresses_must_exist() {
    let mut hr = new_engine(500);
    assert_eq!(hr.withdraw_canceled(USER1, 1), Err(Error::NotFound));
    assert_eq!(hr.withdraw_finished(USER1, 1), Err(Error::NotFound));
    hr.create_run(MANAGER, 0, 1_000, &two_horses()).unwrap();
    // Wrong stage for either kind of withdrawal.
    assert_eq!(hr.withdraw_canceled(USER1, 1), Err(Error::InvalidStage));
    assert_eq!(hr.withdraw_finished(USER1, 1), Err(Error::InvalidStage));
    hr.bid(USER2, 10, &"A".to_string(), 100).unwrap();
    hr.progress_last_run(MANAGER, 1_000).unwrap();
    hr.finish_last_run(ORACLE, SEED_FIRST_HORSE_WINS).unwrap();
    // A bidder with no record at all.
    assert_eq!(hr.withdraw_finished(USER3, 1), Err(Error::NotFound));
}

#[test]
fn winner_selection_is_weighted_and_deterministic() {
    let slots = vec![
        horse_races::run::HorseSlot {
            name: "slow".to_string(),
            horse: Horse { weight: 1 },
            total_deposit: 0,
        },
        horse_races::run::HorseSlot {
            name: "fast".to_string(),
            horse: Horse { weight: 3 },
            total_deposit: 0,
        },
    ];
    // Total weight 4: residue 0 falls to the first horse, 1..=3 to the
    // second — the horse with three times the weight owns three of the
    // four residues.
    assert_eq!(select_winner(&slots, 0, 0), 0);
    assert_eq!(select_winner(&slots, 1, 0), 1);
    assert_eq!(select_winner(&slots, 2, 0), 1);
    assert_eq!(select_winner(&slots, 3, 0), 1);
    // Deterministic: the same seed picks the same horse again.
    assert_eq!(select_winner(&slots, 2, 0), select_winner(&slots, 2, 0));
    // The run id folds into the draw, so a seed is not reused across runs.
    assert_eq!(select_winner(&slots, 1, 1), 0);
}

#[test]
fn winner_selection_with_zero_weights_falls_back_to_index() {
    let slots = vec![
        horse_races::run::HorseSlot {
            name: "x".to_string(),
            horse: Horse { weight: 0 },
            total_deposit: 0,
        },
        horse_races::run::HorseSlot {
            name: "y".to_string(),
            horse: Horse { weight: 0 },
            total_deposit: 0,
        },
    ];
    assert_eq!(select_winner(&slots, 6, 0), 0);
    assert_eq!(select_winner(&slots, 7, 0), 1);
}

#[test]
fn compute_payout_matches_withdrawal() {
    let mut hr = new_engine(500);
    hr.create_run(MANAGER, 0, 1_000, &two_horses()).unwrap();
    hr.bid(USER1, 10, &"A".to_string(), 100).unwrap();
    hr.bid(USER2, 10, &"B".to_string(), 300).unwrap();
    hr.bid(USER3, 10, &"A".to_string(), 100).unwrap();
    hr.progress_last_run(MANAGER, 1_000).unwrap();
    hr.finish_last_run(ORACLE, SEED_FIRST_HORSE_WINS).unwrap();

    let runs = hr.get_runs();
    let run = &runs[0].1;
    assert_eq!(compute_payout(run, USER1), Ok(237));
    assert_eq!(compute_payout(run, USER3), Ok(237));
    assert_eq!(compute_payout(run, USER2), Err(Error::NotAWinner));
    assert_eq!(compute_payout(run, OWNER), Err(Error::NotFound));
}

#[test]
fn get_last_run_and_registry_queries() {
    let mut hr = new_engine(500);
    assert!(hr.get_last_run().is_none());
    assert_eq!(hr.get_horses(1), Err(Error::NotFound));
    assert_eq!(hr.meta_state(StateQuery::GetRun(1)), Err(Error::NotFound));

    hr.create_run(MANAGER, 7, 1_000, &two_horses()).unwrap();
    let last = hr.get_last_run().unwrap();
    assert_eq!(last.start_timestamp, 7);
    assert_eq!(last.end_bidding_timestamp, 1_007);
    assert!(matches!(last.status, RunStatus::Created));

    match hr.meta_state(StateQuery::GetRuns).unwrap() {
        StateResponse::Runs(runs) => {
            assert_eq!(runs.len(), 1);
            assert_eq!(runs[0].0, 1);
        }
        _ => panic!("expected runs"),
    }
}

#[test]
fn max_deposit_horse_is_informational() {
    let mut hr = new_engine(500);
    hr.create_run(MANAGER, 0, 1_000, &two_horses()).unwrap();
    hr.bid(USER1, 10, &"A".to_string(), 100).unwrap();
    hr.bid(USER2, 10, &"B".to_string(), 300).unwrap();
    let last = hr.get_last_run().unwrap();
    let leader = last.max_deposit_horse();
    assert_eq!(leader, ("B".to_string(), Horse { weight: 1 }, 285));
}

#[test]
fn tiny_stakes_leave_more_dust() {
    const USER4: u64 = 8;
    let mut hr = new_engine(0);
    hr.create_run(MANAGER, 0, 1_000, &two_horses()).unwrap();
    let a = "A".to_string();
    hr.bid(USER1, 10, &a, 1).unwrap();
    hr.bid(USER2, 10, &a, 1).unwrap();
    hr.bid(USER3, 10, &a, 1).unwrap();
    hr.bid(USER4, 10, &"B".to_string(), 30_000).unwrap();
    hr.progress_last_run(MANAGER, 1_000).unwrap();
    hr.finish_last_run(ORACLE, SEED_FIRST_HORSE_WINS).unwrap();

    // Each winner's share is floor(1 * 10000 / 3) = 3333 bps, cut
    // floor(30000 * 3333 / 10000) = 9999: one unit of dust per winner.
    let mut paid = 0u128;
    for user in [USER1, USER2, USER3] {
        let w = hr.withdraw_finished(user, 1).unwrap();
        assert_eq!((w.amount, w.profit_amount, w.payout), (1, 9_999, 10_000));
        paid += w.payout;
    }
    assert_eq!(paid, 30_000);
    assert!(paid <= 3 + 30_000);
}

#[test]
fn per_bidder_deposit_lookup() {
    let mut hr = new_engine(500);
    hr.create_run(MANAGER, 0, 1_000, &two_horses()).unwrap();
    hr.bid(USER1, 10, &"A".to_string(), 100).unwrap();
    let run = hr.get_last_run().unwrap();
    assert_eq!(run.get_user_deposit(USER1, &"A".to_string()), 95);
    assert_eq!(run.get_user_deposit(USER1, &"B".to_string()), 0);
    assert_eq!(run.get_user_deposit(USER2, &"A".to_string()), 0);
    assert_eq!(run.get_user_deposit(USER1, &"C".to_string()), 0);
}

#[test]
fn engine_rejects_invalid_initial_fee() {
    let r = HorseRaces::new(
        OWNER,
        InitConfig { manager: MANAGER, token: TOKEN, oracle: ORACLE, fee_bps: 10_001 },
    );
    assert_eq!(r, Err(Error::InvalidFeeBps));
}
