//! The collaborating actors: the value oracle, the randomness oracle and
//! the dice roller.

use horse_races::oracle;
use horse_races::randomness_oracle;
use horse_races::roll_dice;
use horse_races::Error;

const OWNER: u64 = 3;
const MANAGER: u64 = 4;
const USER: u64 = 5;
const NEW_MANAGER: u64 = 6;
const FAKE_OWNER: u64 = 7;
const FAKE_MANAGER: u64 = 8;
const ORACLE_ID: u64 = 100;

#[test]
fn it_works() {}

#[test]
fn oracle_success_init() {
    let oracle = oracle::Oracle::new(oracle::InitConfig {
        owner: OWNER,
        manager: MANAGER,
    });

    match oracle.meta_state(oracle::StateQuery::GetOwner) {
        oracle::StateResponse::Owner(owner) => assert_eq!(owner, OWNER),
        _ => panic!("Invalid StateResponse!"),
    }

    match oracle.meta_state(oracle::StateQuery::GetManager) {
        oracle::StateResponse::Manager(manager) => assert_eq!(manager, MANAGER),
        _ => panic!("Invalid StateResponse!"),
    }
}

#[test]
fn success_change_manager() {
    let mut oracle = oracle::Oracle::new(oracle::InitConfig {
        owner: OWNER,
        manager: MANAGER,
    });

    let result = oracle.change_manager(OWNER, NEW_MANAGER);
    assert_eq!(result, Ok(oracle::Event::NewManager(NEW_MANAGER)));
    assert_eq!(oracle.manager, NEW_MANAGER);

    let result = oracle.change_manager(OWNER, OWNER);
    assert_eq!(result, Ok(oracle::Event::NewManager(OWNER)));
    assert_eq!(oracle.manager, OWNER);
}

#[test]
fn fail_change_manager_invalid_owner() {
    let mut oracle = oracle::Oracle::new(oracle::InitConfig {
        owner: OWNER,
        manager: MANAGER,
    });

    let result = oracle.change_manager(FAKE_OWNER, FAKE_MANAGER);
    assert_eq!(result, Err(Error::Unauthorized));
    assert_eq!(oracle.manager, MANAGER);
}

#[test]
fn randomness_oracle_success_init() {
    let oracle = randomness_oracle::RandomnessOracle::new(
        OWNER,
        randomness_oracle::InitConfig { manager: MANAGER },
    );

    match oracle.meta_state(randomness_oracle::StateQuery::GetOwner) {
        Ok(randomness_oracle::StateResponse::Owner(owner)) => assert_eq!(owner, OWNER),
        _ => panic!("Invalid StateResponse!"),
    }

    match oracle.meta_state(randomness_oracle::StateQuery::GetManager) {
        Ok(randomness_oracle::StateResponse::Manager(manager)) => assert_eq!(manager, MANAGER),
        _ => panic!("Invalid StateResponse!"),
    }

    match oracle.meta_state(randomness_oracle::StateQuery::GetValues) {
        Ok(randomness_oracle::StateResponse::Values(values)) => assert!(values.is_empty()),
        _ => panic!("Invalid StateResponse!"),
    }

    match oracle.meta_state(randomness_oracle::StateQuery::GetLastRound) {
        Ok(randomness_oracle::StateResponse::LastRound(last_round)) => assert_eq!(last_round, 0),
        _ => panic!("Invalid StateResponse!"),
    }
}

#[test]
fn success_update_manager() {
    let mut oracle = randomness_oracle::RandomnessOracle::new(
        OWNER,
        randomness_oracle::InitConfig { manager: MANAGER },
    );

    let result = oracle.update_manager(OWNER, &NEW_MANAGER);
    assert_eq!(result, Ok(randomness_oracle::Event::NewManager(NEW_MANAGER)));

    let result = oracle.update_manager(OWNER, &OWNER);
    assert_eq!(result, Ok(randomness_oracle::Event::NewManager(OWNER)));
}

#[test]
fn success_set_random_value() {
    let mut oracle = randomness_oracle::RandomnessOracle::new(
        OWNER,
        randomness_oracle::InitConfig { manager: MANAGER },
    );

    let value = randomness_oracle::Random {
        randomness: (1337, 133700000000001337),
        signature: Vec::new(),
        prev_signature: Vec::new(),
    };

    let result = oracle.set_random_value(MANAGER, 1, &value);
    match result {
        Ok(randomness_oracle::Event::NewRandomValue { round, value: v }) => {
            assert_eq!(round, 1);
            assert_eq!(v.randomness, (1337, 133700000000001337));
            assert!(v.signature.is_empty());
            assert!(v.prev_signature.is_empty());
        }
        _ => panic!("Invalid event!"),
    }
    assert_eq!(oracle.last_round, 1);
    assert_eq!(oracle.get_random_value(1), Ok((1337, 133700000000001337)));
}

#[test]
fn fail_set_random_value_invalid_manager() {
    let mut oracle = randomness_oracle::RandomnessOracle::new(
        OWNER,
        randomness_oracle::InitConfig { manager: MANAGER },
    );

    let value = randomness_oracle::Random {
        randomness: (0, 0),
        signature: Vec::new(),
        prev_signature: Vec::new(),
    };

    let result = oracle.set_random_value(FAKE_MANAGER, 1, &value);
    assert_eq!(result, Err(Error::Unauthorized));
}

#[test]
fn fail_set_random_value_invalid_round() {
    let mut oracle = randomness_oracle::RandomnessOracle::new(
        OWNER,
        randomness_oracle::InitConfig { manager: MANAGER },
    );

    let value = randomness_oracle::Random {
        randomness: (0, 0),
        signature: Vec::new(),
        prev_signature: Vec::new(),
    };

    let result = oracle.set_random_value(MANAGER, 1, &value);
    assert!(result.is_ok());

    let value = randomness_oracle::Random {
        randomness: (0, 0),
        signature: Vec::new(),
        prev_signature: Vec::new(),
    };
    let result = oracle.set_random_value(MANAGER, 1, &value);
    assert_eq!(result, Err(Error::InvalidStage));
}

#[test]
fn fail_update_manager_invalid_owner() {
    let mut oracle = randomness_oracle::RandomnessOracle::new(
        OWNER,
        randomness_oracle::InitConfig { manager: MANAGER },
    );

    let result = oracle.update_manager(FAKE_OWNER, &NEW_MANAGER);
    assert_eq!(result, Err(Error::Unauthorized));
    assert_eq!(oracle.manager, MANAGER);
}

#[test]
fn success_roll() {
    let mut roll_dice = roll_dice::RollDice::new(roll_dice::InitConfig { oracle: ORACLE_ID });

    let event = roll_dice.roll(USER, 1);
    assert_eq!(event, roll_dice::Event::RollValueRequested(1));
}

#[test]
fn success_roll_finished() {
    let mut roll_dice = roll_dice::RollDice::new(roll_dice::InitConfig { oracle: ORACLE_ID });

    let event = roll_dice.roll(USER, 1);
    assert_eq!(event, roll_dice::Event::RollValueRequested(1));

    match roll_dice.meta_state(roll_dice::StateQuery::GetUsersData) {
        roll_dice::StateResponse::UsersData(users_data) => {
            assert_eq!(users_data[0].0, 1u128);
            assert_eq!(users_data[0].1, USER);
            assert_eq!(users_data[0].2, roll_dice::RollStatus::Rolling);
        }
    }

    let result = roll_dice.roll_finished(1, 1337);
    assert_eq!(result, Ok(roll_dice::Event::RollFinished((1, 1337))));

    match roll_dice.meta_state(roll_dice::StateQuery::GetUsersData) {
        roll_dice::StateResponse::UsersData(users_data) => {
            assert_eq!(users_data[0].0, 1u128);
            assert_eq!(users_data[0].1, USER);
            assert_eq!(users_data[0].2, roll_dice::RollStatus::Finished(false));
        }
    }
}

#[test]
fn roll_finished_unknown_id_is_refused() {
    let mut roll_dice = roll_dice::RollDice::new(roll_dice::InitConfig { oracle: ORACLE_ID });
    assert_eq!(roll_dice.roll_finished(9, 10), Err(Error::NotFound));
}

#[test]
fn roll_even_value_wins() {
    let mut roll_dice = roll_dice::RollDice::new(roll_dice::InitConfig { oracle: ORACLE_ID });
    roll_dice.roll(USER, 2);
    roll_dice.roll_finished(2, 42).unwrap();
    match roll_dice.meta_state(roll_dice::StateQuery::GetUsersData) {
        roll_dice::StateResponse::UsersData(users_data) => {
            assert_eq!(users_data[0].2, roll_dice::RollStatus::Finished(true));
        }
    }
}

#[test]
fn randomness_oracle_unknown_round_is_refused() {
    let oracle = randomness_oracle::RandomnessOracle::new(
        OWNER,
        randomness_oracle::InitConfig { manager: MANAGER },
    );
    match oracle.get_value(5) {
        Err(Error::NotFound) => (),
        _ => panic!("expected NotFound"),
    }
    match oracle.meta_state(randomness_oracle::StateQuery::GetLastRandomValue) {
        Err(Error::NotFound) => (),
        _ => panic!("expected NotFound"),
    }
}
