use spectrum::deployer::{add_contract, check_migrate, update_contract, CodeInfo};
use spectrum::error::{ContractError, RatioField};
use spectrum::math::Decimal;
use spectrum::platform::{instantiate, update_config, upsert_board, PlatformConfigUpdate, State};

#[test]
fn platform_config_and_board() {
    let owner = b"owner".to_vec();
    assert!(matches!(instantiate(owner.clone(), Decimal::percent(120), Decimal::percent(50), 0, 0, 0), Err(ContractError::PercentageOutOfRange(RatioField::Quorum))));
    assert!(matches!(instantiate(owner.clone(), Decimal::percent(30), Decimal::percent(120), 0, 0, 0), Err(ContractError::PercentageOutOfRange(RatioField::Threshold))));
    let (mut config, mut state) = instantiate(owner.clone(), Decimal::percent(30), Decimal::percent(50), 0, 0, 0).unwrap();
    assert_eq!(state, State { poll_count: 0, total_weight: 0 });

    let update = |t: Option<Decimal>| PlatformConfigUpdate {
        owner: None,
        quorum: None,
        threshold: t,
        voting_period: Some(10000),
        effective_delay: Some(10000),
        expiration_period: Some(20000),
    };
    assert_eq!(update_config(&mut config, &b"voter".to_vec(), update(None)), Err(ContractError::Unauthorized));
    assert_eq!(update_config(&mut config, &owner, update(None)), Ok(()));
    assert_eq!(config.voting_period, 10000);
    assert_eq!(config.expiration_period, 20000);
    assert_eq!(update_config(&mut config, &owner, update(Some(Decimal::percent(120)))), Err(ContractError::PercentageOutOfRange(RatioField::Threshold)));
    assert_eq!(config.threshold, Decimal::percent(50));

    assert_eq!(upsert_board(&config, &mut state, &b"voter1".to_vec(), 0, 25), Err(ContractError::Unauthorized));
    assert_eq!(upsert_board(&config, &mut state, &owner, 0, 25), Ok(true));
    assert_eq!(state.total_weight, 25);
    assert_eq!(upsert_board(&config, &mut state, &owner, 0, 75), Ok(true));
    assert_eq!(state.total_weight, 100);
    // setting a weight back restores the total; weight zero removes the member
    assert_eq!(upsert_board(&config, &mut state, &owner, 75, 0), Ok(false));
    assert_eq!(state.total_weight, 25);
}

#[test]
fn tests_test() {
    // configuration
    let creator = b"creator".to_vec();
    let contract = b"cosmos2contract".to_vec();
    assert!(instantiate(contract.clone(), Decimal::percent(120), Decimal::percent(50), 0, 0, 0).is_err());
    assert!(instantiate(contract.clone(), Decimal::percent(30), Decimal::percent(120), 0, 0, 0).is_err());
    let (mut config, mut state) = instantiate(contract.clone(), Decimal::percent(30), Decimal::percent(50), 0, 0, 0).unwrap();
    assert_eq!(config.owner, contract);
    assert_eq!(config.quorum, Decimal::percent(30));
    assert_eq!(config.threshold, Decimal::percent(50));
    assert_eq!(state, State { poll_count: 0, total_weight: 0 });
    let update = |t: Option<Decimal>| PlatformConfigUpdate {
        owner: None,
        quorum: None,
        threshold: t,
        voting_period: Some(10000),
        effective_delay: Some(10000),
        expiration_period: Some(20000),
    };
    assert!(update_config(&mut config, &creator, update(None)).is_err());
    assert!(update_config(&mut config, &contract, update(None)).is_ok());
    assert_eq!(config.voting_period, 10000);
    assert_eq!(config.effective_delay, 10000);
    assert_eq!(config.expiration_period, 20000);
    let no_periods = PlatformConfigUpdate {
        owner: None,
        quorum: None,
        threshold: Some(Decimal::percent(120)),
        voting_period: None,
        effective_delay: None,
        expiration_period: None,
    };
    assert!(update_config(&mut config, &contract, no_periods).is_err());

    // board
    assert!(upsert_board(&config, &mut state, &b"voter1".to_vec(), 0, 25).is_err());
    assert!(upsert_board(&config, &mut state, &contract, 0, 25).is_ok());
    assert_eq!(state.total_weight, 25);
    assert!(upsert_board(&config, &mut state, &contract, 0, 75).is_ok());
    assert_eq!(state.total_weight, 100);
}

#[test]
fn deployer_time_lock() {
    let config = spectrum::deployer::Config {
        owner: b"owner".to_vec(),
        manager: b"manager".to_vec(),
        operator: b"operator".to_vec(),
        time_lock: 100,
    };
    assert_eq!(add_contract(&config, &b"x".to_vec(), 7, 1000), Err(ContractError::Unauthorized));
    let code = add_contract(&config, &b"manager".to_vec(), 7, 1000).unwrap();
    assert_eq!(code, CodeInfo { code_id: 7, created_time: 1000 });
    assert_eq!(update_contract(&config, &b"manager".to_vec(), Some(8), 1200), Ok(Some(CodeInfo { code_id: 8, created_time: 1200 })));
    assert_eq!(update_contract(&config, &b"manager".to_vec(), None, 1200), Ok(None));
    assert_eq!(check_migrate(&config, &b"manager".to_vec(), Some(code), 2000), Err(ContractError::Unauthorized));
    assert_eq!(check_migrate(&config, &b"operator".to_vec(), None, 2000), Err(ContractError::CodeNotFound));
    assert_eq!(check_migrate(&config, &b"operator".to_vec(), Some(code), 1099), Err(ContractError::TimelockActive));
    assert_eq!(check_migrate(&config, &b"operator".to_vec(), Some(code), 1100), Ok(()));
}

#[test]
fn deployer_update_config() {
    let mut config = spectrum::deployer::Config {
        owner: b"owner".to_vec(),
        manager: b"manager".to_vec(),
        operator: b"operator".to_vec(),
        time_lock: 100,
    };
    assert_eq!(spectrum::deployer::update_config(&mut config, &b"x".to_vec(), None, None, Some(5)), Err(ContractError::Unauthorized));
    assert_eq!(config.time_lock, 100);
    assert_eq!(spectrum::deployer::update_config(&mut config, &b"owner".to_vec(), None, Some(b"op2".to_vec()), Some(5)), Ok(()));
    assert_eq!(config.time_lock, 5);
    assert_eq!(config.operator, b"op2".to_vec());
}
