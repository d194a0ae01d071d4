use tezedge::rewards::error::RewardsError;
use tezedge::rewards::run::{get_cycle_rewards, HeadProtocol, Reply, Request, RewardsRun};
use tezedge::rewards::schedule::CycleEra;
use tezedge::rewards::types::{
    BalanceUpdateCategory, BalanceUpdateKind, BalanceUpdateOrigin, BareOperationKind, ContractKind,
    DelegateInfo, FreezerKind, OperationKind, OperationMetadata, OperationRepresentation,
};

fn contract(contract: &str, change: &str) -> BalanceUpdateKind {
    BalanceUpdateKind::Contract(ContractKind {
        contract: contract.to_owned(),
        change: change.to_owned(),
        origin: BalanceUpdateOrigin::Block,
    })
}

fn deposit(delegate: &str, change: &str) -> BalanceUpdateKind {
    BalanceUpdateKind::Freezer(FreezerKind {
        delegate: delegate.to_owned(),
        change: change.to_owned(),
        origin: BalanceUpdateOrigin::Block,
        category: BalanceUpdateCategory::Deposits,
    })
}

fn revelation(contract_address: &str, change: &str) -> OperationRepresentation {
    OperationRepresentation {
        protocol: "p".to_owned(),
        chain_id: "c".to_owned(),
        hash: "h".to_owned(),
        branch: "b".to_owned(),
        contents: vec![BareOperationKind {
            kind: OperationKind::SeedNonceRevelation,
            metadata: OperationMetadata {
                balance_updates: vec![contract(contract_address, change)],
            },
        }],
    }
}

fn delegate(staking_balance: &str) -> DelegateInfo {
    DelegateInfo {
        full_balance: "1".to_owned(),
        current_frozen_deposits: "1".to_owned(),
        frozen_deposits: "1".to_owned(),
        staking_balance: staking_balance.to_owned(),
        delegated_contracts: vec!["tz1a".to_owned(), "KT1x".to_owned(), "KT1y".to_owned()],
        delegated_balance: "2250".to_owned(),
        deactivated: false,
        grace_period: 1,
        voting_power: 1,
    }
}

fn head(number: Option<u16>) -> Reply {
    Reply::Head(Some(HeadProtocol { number, hash: "Psithaca".to_owned() }))
}

fn eras() -> Reply {
    Reply::CycleEras(Some(vec![CycleEra { first_cycle: 0, first_level: 1, blocks_per_cycle: 2 }]))
}

fn failed() -> Reply {
    Reply::Failed { message: "gone".to_owned() }
}

fn next(run: RewardsRun, reply: Reply) -> RewardsRun {
    assert!(run.check_tolerates(&reply));
    run.advance(reply)
}

fn error_of(run: RewardsRun) -> RewardsError {
    assert!(matches!(run.request(), Request::Finished));
    run.outcome().unwrap().0.unwrap_err()
}

/// A query for the tenth cycle, which has the levels 21 and 22, with both blocks read.
fn surveyed(first: Option<Vec<usize>>, second: Option<Vec<usize>>) -> RewardsRun {
    let run = get_cycle_rewards(10);
    assert!(matches!(run.request(), Request::ReadHead));
    let run = next(run, head(Some(12)));
    assert!(matches!(run.request(), Request::ReadCycleEras { protocol: 11 }));
    let run = next(run, eras());
    assert!(matches!(run.request(), Request::ResolveBlock { level: 22 }));
    let run = next(run, Reply::BlockHash(vec![22]));
    assert!(matches!(run.request(), Request::ReadBlock { level: 21 }));
    let run = next(run, Reply::Block(first));
    assert!(matches!(run.request(), Request::ReadBlock { level: 22 }));
    let run = next(run, Reply::Block(second));
    assert!(matches!(run.request(), Request::Connect));
    next(run, Reply::Connected)
}

/// A query in which the delegate `tz1a` earned 1125 and no other one earned anything.
fn counted() -> RewardsRun {
    let run = surveyed(Some(vec![0, 0, 1, 0]), Some(vec![0, 0, 0, 0]));
    assert!(matches!(run.request(), Request::ReadMetadata { level: 21 }));
    let run = next(run, Reply::Metadata("{\"balance_updates\": [1, 2, 3]}".to_owned()));
    assert!(matches!(run.request(), Request::ReadOperations { level: 21 }));
    let run = next(run, Reply::Operations("[[], [], [4], []]".to_owned()));
    match run.request() {
        Request::Decode { updates, operations } => {
            assert_eq!(updates, vec!["1".to_owned(), "2".to_owned(), "3".to_owned()]);
            assert_eq!(operations, vec!["4".to_owned()]);
        }
        other => panic!("{:?}", other),
    }
    let run = next(
        run,
        Reply::Decoded {
            updates: vec![
                Some(contract("tz1a", "1000")),
                Some(contract("tz1b", "-500")),
                Some(deposit("tz1b", "500")),
            ],
            operations: vec![Ok(revelation("tz1a", "125"))],
        },
    );
    assert!(matches!(run.request(), Request::ReadMetadata { level: 22 }));
    let run = next(run, Reply::Metadata("{\"balance_updates\": []}".to_owned()));
    let run = next(run, Reply::Decoded { updates: vec![], operations: vec![] });
    assert!(matches!(run.request(), Request::ReadCycleEras { protocol: 11 }));
    run
}

/// The same query when the delegate is asked for.
fn frozen() -> RewardsRun {
    let run = next(counted(), eras());
    assert!(matches!(run.request(), Request::ResolveBlock { level: 14 }));
    let run = next(run, Reply::BlockHash(vec![14]));
    match run.request() {
        Request::Get { request, block_hash } => {
            assert_eq!(
                request.context_path,
                "chains/main/blocks/22/context/selected_snapshot?cycle=10"
            );
            assert_eq!(block_hash, vec![22]);
        }
        other => panic!("{:?}", other),
    }
    let run = next(run, Reply::Routed("0\n".to_owned()));
    assert!(matches!(run.request(), Request::ResolveBlock { level: 268 }));
    let run = next(run, Reply::BlockHash(vec![1, 12]));
    match run.request() {
        Request::GetDelegate { request, block_hash } => {
            assert_eq!(
                request.context_path,
                "chains/main/blocks/268/context/delegates/tz1a"
            );
            assert_eq!(block_hash, vec![1, 12]);
        }
        other => panic!("{:?}", other),
    }
    run
}

#[test]
fn the_rewards_of_a_cycle_are_shared_out() {
    let run = next(frozen(), Reply::Delegate(Ok(delegate("4500"))));
    match run.request() {
        Request::Get { request, block_hash } => {
            assert_eq!(
                request.context_path,
                "chains/main/blocks/268/context/raw/json/contracts/index/KT1x/balance"
            );
            assert_eq!(block_hash, vec![1, 12]);
        }
        other => panic!("{:?}", other),
    }
    let run = next(run, Reply::Routed("\"2250\"\n".to_owned()));
    match run.request() {
        Request::Get { request, .. } => assert_eq!(
            request.context_path,
            "chains/main/blocks/268/context/raw/json/contracts/index/KT1y/balance"
        ),
        other => panic!("{:?}", other),
    }
    let run = next(run, Reply::Routed("unreadable".to_owned()));
    assert!(matches!(run.request(), Request::Finished));
    let run = next(run, failed());
    let (outcome, checks) = run.outcome().unwrap();
    let distribution = outcome.unwrap();
    assert_eq!(distribution.len(), 1);
    assert_eq!(distribution[0].address, "tz1a");
    assert_eq!(distribution[0].total_rewards, "1125");
    assert_eq!(distribution[0].staking_balance, "4500");
    let shares: Vec<(&str, &str, &str)> = distribution[0]
        .delegator_rewards
        .iter()
        .map(|d| (d.address.as_str(), d.balance.as_str(), d.reward.as_str()))
        .collect();
    assert_eq!(shares, vec![("KT1x", "2250", "563"), ("KT1y", "0", "0")]);
    assert_eq!(checks.len(), 1);
    assert!(checks[0].matches);
}

#[test]
fn a_query_begins_without_an_outcome() {
    assert!(get_cycle_rewards(10).outcome().is_none());
}

#[test]
fn an_answer_that_was_not_asked_for_changes_nothing() {
    let run = next(get_cycle_rewards(10), Reply::Connected);
    assert!(matches!(run.request(), Request::ReadHead));
}

#[test]
fn the_head_has_to_be_known() {
    let error = error_of(next(get_cycle_rewards(10), Reply::Head(None)));
    assert!(matches!(error, RewardsError::HeadUnavailable));
    for number in [None, Some(11), Some(13)] {
        let error = error_of(next(get_cycle_rewards(10), head(number)));
        assert_eq!(error.message(), "Protocol Psithaca is not yet supported!");
    }
    let error = error_of(next(get_cycle_rewards(10), failed()));
    assert_eq!(error.message(), "gone");
}

#[test]
fn the_eras_have_to_be_known() {
    let run = next(get_cycle_rewards(10), head(Some(12)));
    let error = error_of(next(run, Reply::CycleEras(None)));
    assert!(matches!(error, RewardsError::NoSavedCycleEras));
    let run = next(get_cycle_rewards(0), head(Some(12)));
    let error = error_of(next(run, eras()));
    assert!(matches!(error, RewardsError::NoMatchingCycleEra));
    let run = next(get_cycle_rewards(4), head(Some(12)));
    let run = next(run, eras());
    let run = next(run, Reply::BlockHash(vec![]));
    let run = next(run, Reply::Block(None));
    let run = next(run, Reply::Block(None));
    let run = next(run, Reply::Connected);
    let error = error_of(next(run, eras()));
    assert!(matches!(error, RewardsError::NoMatchingCycleEra));
}

#[test]
fn blocks_that_cannot_be_had_are_passed_over() {
    let run = surveyed(None, Some(vec![0, 0, 1, 0]));
    assert!(matches!(run.request(), Request::ReadMetadata { level: 22 }));
    let run = next(run, failed());
    assert!(matches!(run.request(), Request::ReadCycleEras { .. }));
    let run = surveyed(Some(vec![0, 0, 1, 0]), Some(vec![0, 0, 0, 0]));
    let run = next(run, Reply::Metadata("{}".to_owned()));
    let run = next(run, failed());
    assert!(matches!(run.request(), Request::ReadMetadata { level: 22 }));
}

#[test]
fn a_block_that_cannot_be_had_counts_as_an_empty_one() {
    let receipt = || Reply::Metadata("{\"balance_updates\": [1]}".to_owned());
    let none = || Reply::Decoded { updates: vec![], operations: vec![] };
    let passes = || Some(vec![0, 0, 1, 0]);
    let runs = vec![
        surveyed(None, passes()),
        next(surveyed(Some(vec![]), passes()), failed()),
        next(next(surveyed(passes(), passes()), receipt()), failed()),
        next(next(surveyed(Some(vec![0, 0, 0, 0]), passes()), receipt()), none()),
    ];
    for run in runs {
        assert!(matches!(run.request(), Request::ReadMetadata { level: 22 }));
        let run = next(run, receipt());
        let run = next(run, Reply::Operations("[[], [], []]".to_owned()));
        let run = next(
            run,
            Reply::Decoded { updates: vec![Some(contract("tz1a", "7"))], operations: vec![] },
        );
        let run = next(next(run, eras()), Reply::BlockHash(vec![]));
        let run = next(next(run, Reply::Routed("0".to_owned())), Reply::BlockHash(vec![]));
        let run = next(run, Reply::Delegate(Ok(delegate("4500"))));
        let run = next(run, Reply::Routed("4500".to_owned()));
        let run = next(run, Reply::Routed("0".to_owned()));
        let distribution = run.outcome().unwrap().0.unwrap();
        assert_eq!(distribution.len(), 1);
        assert_eq!(distribution[0].total_rewards, "7");
        assert_eq!(distribution[0].staking_balance, "4500");
        let addresses: Vec<&str> =
            distribution[0].delegator_rewards.iter().map(|d| d.address.as_str()).collect();
        assert_eq!(addresses, vec!["KT1x", "KT1y"]);
    }
}

#[test]
fn receipts_have_to_hold_balance_updates() {
    let run = surveyed(Some(vec![0, 0, 0, 0]), None);
    let error = error_of(next(run, Reply::Metadata("{}".to_owned())));
    assert!(matches!(error, RewardsError::BalanceUpdatesNotFound));
    let run = surveyed(Some(vec![0, 0, 0, 0]), None);
    let error = error_of(next(run, Reply::Metadata("{\"balance_updates\": 1}".to_owned())));
    assert!(matches!(error, RewardsError::BalanceUpdatesNotArray));
    let run = surveyed(Some(vec![0, 0, 0, 0]), None);
    let run = next(run, Reply::Metadata("{\"balance_updates\": [1]}".to_owned()));
    let error = error_of(next(
        run,
        Reply::Decoded { updates: vec![Some(contract("tz1a", "1e3"))], operations: vec![] },
    ));
    assert!(matches!(error, RewardsError::InvalidAmount { .. }));
    let run = surveyed(Some(vec![0, 0, 1, 0]), None);
    let run = next(run, Reply::Metadata("{\"balance_updates\": []}".to_owned()));
    let run = next(run, Reply::Operations("[[], [], [1]]".to_owned()));
    let error = error_of(next(run, Reply::Decoded { updates: vec![], operations: vec![Err("no operation".to_owned())] }));
    assert!(matches!(error, RewardsError::InvalidOperation { .. }));
    assert_eq!(error.message(), "no operation");
}

#[test]
fn snapshots_and_delegates_have_to_be_readable() {
    let run = next(next(counted(), eras()), Reply::BlockHash(vec![]));
    let error = error_of(next(run, Reply::Routed("none".to_owned())));
    assert!(matches!(error, RewardsError::InvalidSnapshot { .. }));
    assert_eq!(error.message(), "none".parse::<i32>().unwrap_err().to_string());
    let error = error_of(next(frozen(), Reply::Delegate(Err("no delegate".to_owned()))));
    assert!(matches!(error, RewardsError::InvalidDelegateInfo { .. }));
    assert_eq!(error.message(), "no delegate");
    let error = error_of(next(frozen(), Reply::Delegate(Ok(delegate("some")))));
    assert!(matches!(error, RewardsError::InvalidAmount { .. }));
    let error = error_of(next(frozen(), failed()));
    assert_eq!(error.message(), "gone");
}

#[test]
fn answers_that_cannot_be_worked_with_are_told() {
    let run = next(get_cycle_rewards(2147483647), head(Some(12)));
    assert!(!run.check_tolerates(&eras()));
    let run = next(next(get_cycle_rewards(10), head(Some(12))), Reply::CycleEras(Some(vec![
        CycleEra { first_cycle: 0, first_level: 1, blocks_per_cycle: -1 },
    ])));
    assert!(!run.check_tolerates(&Reply::BlockHash(vec![])));
    let run = surveyed(Some(vec![0, 0]), None);
    assert!(!run.check_tolerates(&Reply::Metadata("{}".to_owned())));
    let run = surveyed(Some(vec![0, 0, 1]), None);
    let run = next(run, Reply::Metadata("{\"balance_updates\": []}".to_owned()));
    let run = next(run, Reply::Operations("[]".to_owned()));
    assert!(!run.check_tolerates(&Reply::Decoded { updates: vec![], operations: vec![] }));
    assert!(run.check_tolerates(&Reply::Decoded {
        updates: vec![Some(contract("tz1a", "x"))],
        operations: vec![],
    }));
    let run = next(next(counted(), eras()), Reply::BlockHash(vec![]));
    assert!(!run.check_tolerates(&Reply::Routed("2147483647".to_owned())));
    let run = next(frozen(), Reply::Delegate(Ok(delegate("0"))));
    assert!(!run.check_tolerates(&Reply::Routed("1".to_owned())));
}
