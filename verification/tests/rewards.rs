use tezedge::address_map::AddressMap;
use tezedge::mutez::{InvalidAmount, Mutez};
use tezedge::rewards::credits::{active_delegates, apply_credits, block_credits, check_readable};
use tezedge::rewards::distribution::{get_delegator_reward_share, read_balance, DelegatePayout};
use tezedge::rewards::error::RewardsError;
use tezedge::rewards::receipts::{
    anonymous_operations, anonymous_pass, block_balance_updates, find_balance_updates,
    read_balance_updates,
};
use tezedge::rewards::requests::{
    balance_request, delegate_request, get_routed_request, snapshot_request, RpcMethod,
};
use tezedge::rewards::schedule::{
    check_levels_fit, check_snapshot_fits, cycle_range, get_cycle_era, get_snapshot_block,
    read_snapshot, CycleEra, CycleRange,
};
use tezedge::rewards::types::{
    BalanceUpdateCategory, BalanceUpdateKind, BalanceUpdateOrigin, BareOperationKind, ContractKind,
    CycleRewards, CycleRewardsInt, DelegateInfo, DelegateInfoInt, DelegateRewardDistribution,
    DelegatorInfo, FreezerKind, MintedKind, OperationKind, OperationMetadata,
    OperationRepresentation,
};

fn mutez(text: &str) -> Mutez {
    Mutez::parse(text).unwrap()
}

fn contract(contract: &str, change: &str) -> BalanceUpdateKind {
    BalanceUpdateKind::Contract(ContractKind {
        contract: contract.to_owned(),
        change: change.to_owned(),
        origin: BalanceUpdateOrigin::Block,
    })
}

fn freezer(delegate: &str, change: &str, category: BalanceUpdateCategory) -> BalanceUpdateKind {
    BalanceUpdateKind::Freezer(FreezerKind {
        delegate: delegate.to_owned(),
        change: change.to_owned(),
        origin: BalanceUpdateOrigin::Block,
        category,
    })
}

fn operation(kind: OperationKind, updates: Vec<BalanceUpdateKind>) -> OperationRepresentation {
    OperationRepresentation {
        protocol: "p".to_owned(),
        chain_id: "c".to_owned(),
        hash: "h".to_owned(),
        branch: "b".to_owned(),
        contents: vec![BareOperationKind {
            kind,
            metadata: OperationMetadata { balance_updates: updates },
        }],
    }
}

fn eras() -> Option<Vec<CycleEra>> {
    Some(vec![
        CycleEra { first_cycle: 388, first_level: 1589249, blocks_per_cycle: 8192 },
        CycleEra { first_cycle: 0, first_level: 1, blocks_per_cycle: 4096 },
    ])
}

fn info(staking_balance: &str, delegated_balance: &str, delegators: &[&str]) -> DelegateInfo {
    DelegateInfo {
        full_balance: "10".to_owned(),
        current_frozen_deposits: "1".to_owned(),
        frozen_deposits: "2".to_owned(),
        staking_balance: staking_balance.to_owned(),
        delegated_contracts: delegators.iter().map(|d| (*d).to_owned()).collect(),
        delegated_balance: delegated_balance.to_owned(),
        deactivated: false,
        grace_period: 5,
        voting_power: 7,
    }
}

#[test]
fn the_first_era_that_began_earlier_is_chosen() {
    assert_eq!(get_cycle_era(&eras(), 468).unwrap().first_cycle, 388);
    assert_eq!(get_cycle_era(&eras(), 389).unwrap().first_cycle, 388);
    assert_eq!(get_cycle_era(&eras(), 388).unwrap().first_cycle, 0);
    assert_eq!(get_cycle_era(&eras(), 1).unwrap().first_cycle, 0);
    let error = get_cycle_era(&eras(), 0).unwrap_err();
    assert!(matches!(error, RewardsError::NoMatchingCycleEra));
    assert_eq!(error.message(), "No matching cycle era found");
    let error = get_cycle_era(&None, 468).unwrap_err();
    assert!(matches!(error, RewardsError::NoSavedCycleEras));
    assert_eq!(error.message(), "No saved cycle eras found for protocol");
}

#[test]
fn a_cycle_has_a_range_of_levels() {
    let era = get_cycle_era(&eras(), 468).unwrap();
    assert_eq!(cycle_range(&era, 468), CycleRange { start: 2244609, end: 2252800 });
    assert_eq!(cycle_range(&era, 469).start, cycle_range(&era, 468).end + 1);
    assert!(check_levels_fit(&era, 468));
    assert!(!check_levels_fit(&era, 2147483647));
    let wide = CycleEra { first_cycle: -2147483648, first_level: 0, blocks_per_cycle: 1 };
    assert!(!check_levels_fit(&wide, 0));
}

#[test]
fn snapshots_are_read() {
    assert_eq!(read_snapshot("15\n\n"), Ok(15));
    assert_eq!(read_snapshot("-1"), Ok(-1));
    assert!(read_snapshot("15 \n").is_err());
}

#[test]
fn snapshots_are_evenly_spaced() {
    assert_eq!(get_snapshot_block(2244609, 15), 2248704);
    assert_eq!(get_snapshot_block(1, 0), 256);
    assert_eq!(get_snapshot_block(1, 1) - get_snapshot_block(1, 0), 256);
    assert!(check_snapshot_fits(1, 15));
    assert!(!check_snapshot_fits(1, 2147483647));
    assert!(!check_snapshot_fits(2147483647, 0));
}

#[test]
fn requests_name_the_block() {
    let request = get_routed_request("chains/main/");
    assert_eq!(request.context_path, "chains/main");
    assert_eq!(request.body, "");
    assert_eq!(request.meth, RpcMethod::GET);
    assert!(request.content_type.is_none());
    assert!(request.accept.is_none());
    assert_eq!(
        snapshot_request(22, 10).context_path,
        "chains/main/blocks/22/context/selected_snapshot?cycle=10"
    );
    assert_eq!(
        delegate_request(268, "tz1a").context_path,
        "chains/main/blocks/268/context/delegates/tz1a"
    );
    assert_eq!(
        balance_request(268, "KT1x").context_path,
        "chains/main/blocks/268/context/raw/json/contracts/index/KT1x/balance"
    );
}

#[test]
fn receipts_are_taken_apart() {
    let updates =
        block_balance_updates("{\"a\": 1, \"balance_updates\": [ {\"kind\": \"burned\"}, 2 ]}");
    assert_eq!(updates.unwrap(), vec!["{\"kind\":\"burned\"}".to_owned(), "2".to_owned()]);
    assert!(matches!(
        block_balance_updates("{\"a\": 1}").unwrap_err(),
        RewardsError::BalanceUpdatesNotFound
    ));
    assert!(matches!(
        block_balance_updates("no json").unwrap_err(),
        RewardsError::BalanceUpdatesNotFound
    ));
    assert!(matches!(
        block_balance_updates("{\"balance_updates\": {}}").unwrap_err(),
        RewardsError::BalanceUpdatesNotArray
    ));
    assert_eq!(
        anonymous_operations("[[], [1], [ {\"x\": 2},3 ], []]").unwrap(),
        vec!["{\"x\": 2}".to_owned(), "3".to_owned()]
    );
    assert!(anonymous_operations("[[], []]").is_none());
    assert!(anonymous_operations("no json").is_none());
}

#[test]
fn parsed_receipts_are_looked_through() {
    let members = vec![
        ("balance_updates".to_owned(), "[1]".to_owned()),
        ("other".to_owned(), "2".to_owned()),
    ];
    assert_eq!(find_balance_updates(Some(members)).unwrap(), "[1]");
    assert!(find_balance_updates(Some(vec![("other".to_owned(), "2".to_owned())])).is_none());
    assert!(find_balance_updates(None).is_none());
    assert_eq!(
        RewardsError::BalanceUpdatesNotFound.message(),
        read_balance_updates(false, Some(vec![])).unwrap_err().message()
    );
    assert_eq!(
        RewardsError::BalanceUpdatesNotArray.message(),
        read_balance_updates(true, None).unwrap_err().message()
    );
    assert_eq!(read_balance_updates(true, Some(vec!["1".to_owned()])).unwrap().len(), 1);
    let passes = vec![vec![], vec![], vec!["a".to_owned()], vec!["b".to_owned()]];
    assert_eq!(anonymous_pass(Some(passes)).unwrap(), vec!["a".to_owned()]);
    assert!(anonymous_pass(Some(vec![vec![], vec![]])).is_none());
    assert!(anonymous_pass(None).is_none());
}

#[test]
fn only_contracts_and_deposits_are_credited() {
    let updates = vec![
        Some(contract("tz1a", "1000")),
        Some(contract("tz1b", "-500")),
        Some(freezer("tz1b", "500", BalanceUpdateCategory::Deposits)),
        Some(freezer("tz1c", "9", BalanceUpdateCategory::BlockFees)),
        Some(BalanceUpdateKind::Minted(MintedKind {
            category: BalanceUpdateCategory::Minted,
            change: "no number".to_owned(),
            origin: BalanceUpdateOrigin::Subsidy,
        })),
        Some(BalanceUpdateKind::Burned),
        None,
    ];
    let operations = vec![
        Ok(operation(OperationKind::SeedNonceRevelation, vec![contract("tz1a", "125")])),
        Ok(operation(OperationKind::DoubleBakingEvidence, vec![contract("tz1d", "7")])),
        Ok(operation(OperationKind::DoubleEndorsementEvidence, vec![contract("tz1d", "7")])),
        Ok(operation(OperationKind::DoublePreendorsementEvidence, vec![contract("tz1d", "7")])),
        Ok(operation(OperationKind::ActivateAccount, vec![contract("tz1e", "1")])),
        Ok(operation(OperationKind::Ballot, vec![contract("tz1e", "1")])),
        Ok(operation(
            OperationKind::SeedNonceRevelation,
            vec![freezer("tz1e", "1", BalanceUpdateCategory::Deposits)],
        )),
    ];
    let steps = block_credits(&updates, &operations);
    assert!(check_readable(&steps));
    let mut table: AddressMap<CycleRewardsInt> = AddressMap::new();
    assert!(apply_credits(&mut table, &steps).is_ok());
    assert_eq!(table.len(), 3);
    let active = active_delegates(&table);
    assert_eq!(active.len(), 2);
    assert_eq!(active[0].0, "tz1a");
    assert_eq!(active[0].1.to_text(), "1125");
    assert_eq!(active[1].0, "tz1d");
    assert_eq!(active[1].1.to_text(), "21");
    assert!(apply_credits(&mut table, &steps).is_ok());
    assert_eq!(active_delegates(&table)[0].1.to_text(), "2250");
}

#[test]
fn unreadable_credits_are_refused() {
    let mut table: AddressMap<CycleRewardsInt> = AddressMap::new();
    let steps = block_credits(&vec![Some(contract("tz1a", "x"))], &vec![]);
    assert!(!check_readable(&steps));
    let error = apply_credits(&mut table, &steps).unwrap_err();
    assert!(matches!(
        error,
        RewardsError::InvalidAmount { error: InvalidAmount::InvalidDigit }
    ));
    let steps = block_credits(&vec![Some(contract("tz1a", "1"))], &vec![Err("no operation".to_owned())]);
    assert!(!check_readable(&steps));
    let error = apply_credits(&mut table, &steps).unwrap_err();
    assert!(matches!(error, RewardsError::InvalidOperation { .. }));
    assert_eq!(error.message(), "no operation");
}

#[test]
fn rewards_are_written_as_texts() {
    let rewards = CycleRewardsInt {
        fees: mutez("1"),
        baking_rewards: mutez("2"),
        baking_bonuses: mutez("3"),
        endorsement_rewards: mutez("4"),
        sum: mutez("10"),
    };
    let written = CycleRewards::from(rewards);
    assert_eq!(written.fees, "1");
    assert_eq!(written.baking_rewards, "2");
    assert_eq!(written.baking_bonuses, "3");
    assert_eq!(written.endorsement_rewards, "4");
    assert_eq!(written.sum, "10");
    assert!(CycleRewardsInt::default().sum.is_zero());
    assert_eq!(CycleRewards::default().sum, "");
    assert!(DelegateInfoInt::default().staking_balance.is_zero());
    assert_eq!(DelegateInfoInt::default().delegator_balances.len(), 0);
    assert!(matches!(BalanceUpdateKind::default(), BalanceUpdateKind::Unknown));
}

#[test]
fn delegates_are_read() {
    let read = DelegateInfoInt::try_from(info("4500", "2250", &["tz1a", "KT1x"])).unwrap();
    assert_eq!(read.full_balance.to_text(), "10");
    assert_eq!(read.current_frozen_deposits.to_text(), "1");
    assert_eq!(read.frozen_deposits.to_text(), "2");
    assert_eq!(read.staking_balance.to_text(), "4500");
    assert_eq!(read.delegated_balance.to_text(), "2250");
    assert_eq!(read.delegated_contracts, vec!["tz1a".to_owned(), "KT1x".to_owned()]);
    assert!(!read.deactivated);
    assert_eq!(read.grace_period, 5);
    assert_eq!(read.voting_power, 7);
    assert_eq!(read.delegator_balances.len(), 0);
    let error = DelegateInfoInt::try_from(info("4500", "much", &[])).unwrap_err();
    assert!(matches!(
        error,
        RewardsError::InvalidAmount { error: InvalidAmount::InvalidDigit }
    ));
    let error = DelegateInfoInt::try_from(info("", "much", &[])).unwrap_err();
    assert!(matches!(error, RewardsError::InvalidAmount { error: InvalidAmount::Empty }));
}

#[test]
fn shares_follow_the_balance() {
    let total = mutez("1125");
    let stake = mutez("4500");
    assert_eq!(get_delegator_reward_share(&stake, &total, &mutez("2250")).to_text(), "563");
    assert_eq!(get_delegator_reward_share(&stake, &total, &stake).to_text(), "1125");
    assert_eq!(get_delegator_reward_share(&stake, &total, &mutez("0")).to_text(), "0");
    assert_eq!(read_balance("\"250\"\n").to_text(), "250");
    assert_eq!(read_balance("250").to_text(), "250");
    assert_eq!(read_balance("\"oops\"\n").to_text(), "0");
    assert_eq!(read_balance("250 \n").to_text(), "0");
}

#[test]
fn a_delegate_shares_with_all_but_itself() {
    let read =
        DelegateInfoInt::try_from(info("4500", "2250", &["KT1x", "tz1a", "KT1y", "KT1x"])).unwrap();
    let payout = DelegatePayout::begin(&"tz1a".to_owned(), &mutez("1125"), read);
    assert!(!payout.is_complete());
    assert_eq!(payout.delegator(), "KT1x");
    let payout = payout.add_balance(mutez("2250"));
    assert_eq!(payout.delegator(), "KT1y");
    let payout = payout.add_balance(mutez("0"));
    assert_eq!(payout.delegator(), "KT1x");
    let payout = payout.add_balance(mutez("4"));
    assert!(payout.is_complete());
    assert_eq!(payout.info.delegator_balances.len(), 2);
    assert_eq!(payout.info.delegator_balances.get("KT1x").unwrap().to_text(), "4");
    let (distribution, check) = payout.finish();
    assert_eq!(distribution.address, "tz1a");
    assert_eq!(distribution.total_rewards, "1125");
    assert_eq!(distribution.staking_balance, "4500");
    assert_eq!(distribution.delegator_rewards.len(), 3);
    assert_eq!(distribution.delegator_rewards[0].address, "KT1x");
    assert_eq!(distribution.delegator_rewards[0].balance, "2250");
    assert_eq!(distribution.delegator_rewards[0].reward, "563");
    assert_eq!(distribution.delegator_rewards[1].reward, "0");
    assert_eq!(distribution.delegator_rewards[2].reward, "1");
    assert!(!check.matches);
    assert_eq!(check.delegate, "tz1a");
    assert_eq!(check.delegated.to_text(), "2250");
    assert_eq!(check.summed.to_text(), "2254");
    assert_eq!(check.difference.to_text(), "4");
}

#[test]
fn a_delegate_without_delegators_keeps_all() {
    let read = DelegateInfoInt::try_from(info("0", "0", &["tz1a"])).unwrap();
    let payout = DelegatePayout::begin(&"tz1a".to_owned(), &mutez("5"), read);
    assert!(payout.is_complete());
    let (distribution, check) = payout.finish();
    assert!(distribution.delegator_rewards.is_empty());
    assert!(check.matches);
    assert!(check.difference.is_zero());
}

#[test]
fn distributions_grow_at_the_end() {
    let mut distribution =
        DelegateRewardDistribution::new("tz1a".to_owned(), "5".to_owned(), "9".to_owned());
    distribution.insert_delegator_reward("KT1x", DelegatorInfo::new(
        "KT1x".to_owned(),
        "3".to_owned(),
        "2".to_owned(),
    ));
    distribution.insert_delegator_reward("KT1y", DelegatorInfo::new(
        "KT1y".to_owned(),
        "4".to_owned(),
        "3".to_owned(),
    ));
    assert_eq!(distribution.delegator_rewards[0].address, "KT1x");
    assert_eq!(distribution.delegator_rewards[1].balance, "4");
    assert_eq!(distribution.delegator_rewards[1].reward, "3");
}

#[test]
fn errors_say_what_is_wrong() {
    assert_eq!(RewardsError::HeadUnavailable.message(), "Cannot access current head");
    assert_eq!(
        RewardsError::UnsupportedProtocol { protocol: "PtHangz2".to_owned() }.message(),
        "Protocol PtHangz2 is not yet supported!"
    );
    assert_eq!(RewardsError::BalanceUpdatesNotFound.message(), "Balance updates not found");
    assert_eq!(RewardsError::BalanceUpdatesNotArray.message(), "Balance updates not an array");
    assert_eq!(
        RewardsError::InvalidAmount { error: InvalidAmount::Empty }.message(),
        "cannot parse integer from empty string"
    );
    assert_eq!(
        RewardsError::InvalidOperation { message: "no operation".to_owned() }.message(),
        "no operation"
    );
    for reply in ["\n", "x\n", "99999999999", "-99999999999"] {
        assert_eq!(
            RewardsError::InvalidSnapshot { reply: reply.to_owned() }.message(),
            reply.trim_end_matches('\n').parse::<i32>().unwrap_err().to_string()
        );
    }
    assert_eq!(RewardsError::InvalidSnapshot { reply: "5\n".to_owned() }.message(), "");
    assert_eq!(
        RewardsError::InvalidDelegateInfo { message: "no delegate".to_owned() }.message(),
        "no delegate"
    );
    assert_eq!(RewardsError::Service { message: "gone".to_owned() }.message(), "gone");
}
