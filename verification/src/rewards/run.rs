//! The course of a query for the rewards of a cycle: what is asked next, and what follows from the
//! answer.
use crate::address_map::AddressMap;
use crate::mutez::Mutez;
use crate::rewards::credits::{
    active_delegates, active_rewards, after_steps, apply_credits, block_credits, block_steps,
    check_readable, readable_steps, rewards_view, steps_view, updates_steps, RewardEntries,
};
use crate::rewards::distribution::{
    balance_check, payout_begun, payout_continued, read_balance, reported_balance, BalanceCheck,
    BalanceCheckView, DelegatePayout, DelegatePayoutView,
};
use crate::rewards::error::RewardsError;
use crate::rewards::receipts::{
    anonymous_operations, balance_update_texts, block_balance_updates, json_lists, pass_texts,
    ANONYMOUS_PASS,
};
use crate::rewards::requests::{
    balance_path, balance_request, delegate_path, delegate_request, snapshot_path,
    snapshot_request, RpcRequest,
};
use crate::rewards::schedule::{
    check_levels_fit, check_snapshot_fits, cycle_end, cycle_range, cycle_start, fits,
    frozen_cycle, get_cycle_era, get_snapshot_block, levels_fit, read_snapshot, saved_era,
    saved_eras, snapshot_block, snapshot_fits, snapshot_index, CycleEra, CycleRange, PRESERVED_CYCLES,
};
use crate::rewards::types::{
    BalanceUpdateKind, CycleRewardDistribution, CycleRewardsInt, DelegateInfo, DelegateInfoInt,
    DelegateRewardDistribution, DelegateRewardDistributionView, OperationRepresentation,
};
use crate::text::texts;
use vstd::prelude::*;

verus! {

/// The number of the protocol whose rewards are known.
pub const REWARDS_PROTOCOL: u16 = 12;

/// The number of the protocol under which the cycle eras are saved.
pub const ERAS_PROTOCOL: u16 = 11;

/// The protocol of the current head.
#[derive(Debug)]
pub struct HeadProtocol {
    /// The number of the protocol, if it is a supported one.
    pub number: Option<u16>,
    /// The hash of the protocol.
    pub hash: String,
}

/// A block of the cycle that is in storage.
#[derive(Clone, Copy, Debug)]
pub struct FoundBlock {
    pub level: i32,
    /// Whether it has anonymous operations; nothing if it lacks that validation pass.
    pub anonymous: Option<bool>,
}

/// What is asked next.
#[derive(Debug)]
pub enum Request {
    /// The protocol of the current head.
    ReadHead,
    /// The cycle eras that are saved under a protocol.
    ReadCycleEras { protocol: u16 },
    /// The hash of the block at a level.
    ResolveBlock { level: i32 },
    /// The block at a level with its operations.
    ReadBlock { level: i32 },
    /// A connection to the protocol.
    Connect,
    /// The receipt of a block that was read.
    ReadMetadata { level: i32 },
    /// The receipts of the operations of a block that was read.
    ReadOperations { level: i32 },
    /// The balance updates and the operations that some JSON texts hold.
    Decode { updates: Vec<String>, operations: Vec<String> },
    /// The reply of the protocol to a request about a block.
    Get { request: RpcRequest, block_hash: Vec<u8> },
    /// The delegate that the reply of the protocol to a request about a block describes.
    GetDelegate { request: RpcRequest, block_hash: Vec<u8> },
    /// Nothing: the query is at its end.
    Finished,
}

/// The answer to what was asked.
#[derive(Debug)]
pub enum Reply {
    /// What was asked for could not be had.
    Failed { message: String },
    /// The protocol of the current head; nothing if the head cannot be accessed.
    Head(Option<HeadProtocol>),
    /// The saved cycle eras, if there are any.
    CycleEras(Option<Vec<CycleEra>>),
    /// The hash of a block.
    BlockHash(Vec<u8>),
    /// The number of operations in each validation pass of a block; nothing if the block or its
    /// additional data is not in storage.
    Block(Option<Vec<usize>>),
    /// There is a connection to the protocol.
    Connected,
    /// The receipt of a block.
    Metadata(String),
    /// The receipts of the operations of a block.
    Operations(String),
    /// What the texts hold, in their order; nothing for a balance update that cannot be read, and
    /// why for an operation that cannot be read.
    Decoded {
        updates: Vec<Option<BalanceUpdateKind>>,
        operations: Vec<Result<OperationRepresentation, String>>,
    },
    /// The reply of the protocol.
    Routed(String),
    /// A delegate, or why the reply of the protocol describes none.
    Delegate(Result<DelegateInfo, String>),
}

/// The blocks of the cycle and the rewards so far.
#[derive(Debug)]
struct Survey {
    range: CycleRange,
    end_hash: Vec<u8>,
    found: Vec<FoundBlock>,
    index: usize,
    table: AddressMap<CycleRewardsInt>,
}

/// The rewards of the cycle.
#[derive(Debug)]
struct Frozen {
    range: CycleRange,
    end_hash: Vec<u8>,
    rewards: Vec<(String, Mutez)>,
}

/// The rewards of the cycle and what is paid out so far.
#[derive(Debug)]
struct Payout {
    rewards: Vec<(String, Mutez)>,
    level: i32,
    hash: Vec<u8>,
    done: Vec<DelegateRewardDistribution>,
    checks: Vec<BalanceCheck>,
}

/// How far the query has come.
#[derive(Debug)]
enum Stage {
    Head,
    Eras,
    EndHash { range: CycleRange },
    Block { range: CycleRange, end_hash: Vec<u8>, level: i32, found: Vec<FoundBlock> },
    Connect { survey: Survey },
    Metadata { survey: Survey },
    Operations { survey: Survey, receipt: String },
    Decode { survey: Survey, updates: Vec<String>, operations: Vec<String>, short: bool },
    FrozenEras { frozen: Frozen },
    FrozenEnd { frozen: Frozen, frozen_range: CycleRange },
    Snapshot { frozen: Frozen, frozen_range: CycleRange },
    SnapshotHash { rewards: Vec<(String, Mutez)>, level: i32 },
    DelegateInfo { payout: Payout },
    DelegatorBalance { payout: Payout, delegate: DelegatePayout },
    Done {
        outcome: Result<CycleRewardDistribution, RewardsError>,
        checks: Vec<BalanceCheck>,
    },
}

/// The blocks of the cycle and the rewards so far, as numbers.
#[verifier::ext_equal]
pub struct SurveyView {
    pub range: CycleRange,
    pub end_hash: Seq<u8>,
    pub found: Seq<FoundBlock>,
    pub index: nat,
    pub entries: RewardEntries,
}

/// The rewards of the cycle, as numbers.
#[verifier::ext_equal]
pub struct FrozenView {
    pub range: CycleRange,
    pub end_hash: Seq<u8>,
    pub rewards: Seq<(Seq<char>, int)>,
}

/// The rewards of the cycle and what is paid out so far, as texts and numbers.
#[verifier::ext_equal]
pub struct PayoutView {
    pub rewards: Seq<(Seq<char>, int)>,
    pub level: i32,
    pub hash: Seq<u8>,
    pub done: Seq<DelegateRewardDistributionView>,
    pub checks: Seq<BalanceCheckView>,
}

/// How far the query has come, as texts and numbers.
#[verifier::ext_equal]
pub enum StageView {
    Head,
    Eras,
    EndHash { range: CycleRange },
    Block { range: CycleRange, end_hash: Seq<u8>, level: i32, found: Seq<FoundBlock> },
    Connect { survey: SurveyView },
    Metadata { survey: SurveyView },
    Operations { survey: SurveyView, receipt: Seq<char> },
    Decode {
        survey: SurveyView,
        updates: Seq<Seq<char>>,
        operations: Seq<Seq<char>>,
        short: bool,
    },
    FrozenEras { frozen: FrozenView },
    FrozenEnd { frozen: FrozenView, frozen_range: CycleRange },
    Snapshot { frozen: FrozenView, frozen_range: CycleRange },
    SnapshotHash { rewards: Seq<(Seq<char>, int)>, level: i32 },
    DelegateInfo { payout: PayoutView },
    DelegatorBalance { payout: PayoutView, delegate: DelegatePayoutView },
    Done {
        outcome: Result<Seq<DelegateRewardDistributionView>, RewardsError>,
        checks: Seq<BalanceCheckView>,
    },
}

/// The texts of several distributions.
pub open spec fn distribution_views(done: Seq<DelegateRewardDistribution>) -> Seq<
    DelegateRewardDistributionView,
> {
    done.map_values(|d: DelegateRewardDistribution| d@)
}

/// The texts and numbers of several checks.
pub open spec fn check_views(checks: Seq<BalanceCheck>) -> Seq<BalanceCheckView> {
    checks.map_values(|c: BalanceCheck| c@)
}

/// The texts of an outcome.
pub open spec fn outcome_view(outcome: Result<CycleRewardDistribution, RewardsError>) -> Result<
    Seq<DelegateRewardDistributionView>,
    RewardsError,
> {
    match outcome {
        Ok(done) => Ok(distribution_views(done@)),
        Err(e) => Err(e),
    }
}

impl Survey {
    spec fn v(&self) -> SurveyView {
        SurveyView {
            range: self.range,
            end_hash: self.end_hash@,
            found: self.found@,
            index: self.index as nat,
            entries: self.table@,
        }
    }
}

impl Frozen {
    spec fn v(&self) -> FrozenView {
        FrozenView {
            range: self.range,
            end_hash: self.end_hash@,
            rewards: rewards_view(self.rewards@),
        }
    }
}

impl Payout {
    spec fn v(&self) -> PayoutView {
        PayoutView {
            rewards: rewards_view(self.rewards@),
            level: self.level,
            hash: self.hash@,
            done: distribution_views(self.done@),
            checks: check_views(self.checks@),
        }
    }
}

impl Stage {
    spec fn v(&self) -> StageView {
        match *self {
            Stage::Head => StageView::Head,
            Stage::Eras => StageView::Eras,
            Stage::EndHash { range } => StageView::EndHash { range },
            Stage::Block { range, end_hash, level, found } => StageView::Block {
                range,
                end_hash: end_hash@,
                level,
                found: found@,
            },
            Stage::Connect { survey } => StageView::Connect { survey: survey.v() },
            Stage::Metadata { survey } => StageView::Metadata { survey: survey.v() },
            Stage::Operations { survey, receipt } => StageView::Operations {
                survey: survey.v(),
                receipt: receipt@,
            },
            Stage::Decode { survey, updates, operations, short } => StageView::Decode {
                survey: survey.v(),
                updates: texts(updates@),
                operations: texts(operations@),
                short,
            },
            Stage::FrozenEras { frozen } => StageView::FrozenEras { frozen: frozen.v() },
            Stage::FrozenEnd { frozen, frozen_range } => StageView::FrozenEnd {
                frozen: frozen.v(),
                frozen_range,
            },
            Stage::Snapshot { frozen, frozen_range } => StageView::Snapshot {
                frozen: frozen.v(),
                frozen_range,
            },
            Stage::SnapshotHash { rewards, level } => StageView::SnapshotHash {
                rewards: rewards_view(rewards@),
                level,
            },
            Stage::DelegateInfo { payout } => StageView::DelegateInfo { payout: payout.v() },
            Stage::DelegatorBalance { payout, delegate } => StageView::DelegatorBalance {
                payout: payout.v(),
                delegate: delegate@,
            },
            Stage::Done { outcome, checks } => StageView::Done {
                outcome: outcome_view(outcome),
                checks: check_views(checks@),
            },
        }
    }

    /// The invariant of a stage.
    spec fn wf(&self) -> bool {
        match *self {
            Stage::Connect { survey } => survey.table.wf(),
            Stage::Metadata { survey } => survey.table.wf() && survey.index < survey.found@.len(),
            Stage::Operations { survey, .. } => survey.table.wf() && survey.index
                < survey.found@.len(),
            Stage::Decode { survey, .. } => survey.table.wf() && survey.index < survey.found@.len(),
            Stage::DelegateInfo { payout } => payout.done@.len() < payout.rewards@.len(),
            Stage::DelegatorBalance { payout, delegate } => payout.done@.len()
                < payout.rewards@.len() && delegate.wf() && !delegate@.complete(),
            _ => true,
        }
    }
}

/// The end of a query that failed.
pub open spec fn failed(error: RewardsError) -> StageView {
    StageView::Done { outcome: Err(error), checks: Seq::empty() }
}

/// The levels of a cycle.
pub open spec fn range_of(era: CycleEra, cycle_num: i32) -> CycleRange {
    CycleRange {
        start: cycle_start(era, cycle_num as int) as i32,
        end: cycle_end(era, cycle_num as int) as i32,
    }
}

/// Whether a block has anonymous operations.
pub open spec fn anonymous_in(passes: Seq<usize>) -> Option<bool> {
    if passes.len() > ANONYMOUS_PASS {
        Some(passes[ANONYMOUS_PASS as int] != 0)
    } else {
        None
    }
}

/// The blocks of the cycle before any receipt is read.
pub open spec fn survey_begun(range: CycleRange, end_hash: Seq<u8>, found: Seq<FoundBlock>)
    -> SurveyView {
    SurveyView { range, end_hash, found, index: 0, entries: Seq::empty() }
}

/// The next block, or the next part of the query if there is none.
pub open spec fn survey_next(survey: SurveyView) -> StageView {
    if survey.index < survey.found.len() {
        StageView::Metadata { survey }
    } else {
        StageView::FrozenEras {
            frozen: FrozenView {
                range: survey.range,
                end_hash: survey.end_hash,
                rewards: active_rewards(survey.entries),
            },
        }
    }
}

/// The block is passed over.
pub open spec fn block_skipped(survey: SurveyView) -> StageView {
    survey_next(SurveyView { index: survey.index + 1, ..survey })
}

/// The receipts of the block are taken apart.
pub open spec fn receipts_read(
    survey: SurveyView,
    receipt: Seq<char>,
    operations: Seq<Seq<char>>,
    short: bool,
) -> StageView {
    match balance_update_texts(receipt) {
        Ok(updates) => StageView::Decode { survey, updates, operations, short },
        Err(e) => failed(e),
    }
}

/// The next delegate, or the end of the query if there is none.
pub open spec fn payout_next(payout: PayoutView) -> StageView {
    if payout.done.len() < payout.rewards.len() {
        StageView::DelegateInfo { payout }
    } else {
        StageView::Done { outcome: Ok(payout.done), checks: payout.checks }
    }
}

/// The next delegator, or the next delegate if there is none.
pub open spec fn delegate_next(payout: PayoutView, delegate: DelegatePayoutView) -> StageView {
    if delegate.complete() {
        payout_next(
            PayoutView {
                done: payout.done.push(delegate.distribution),
                checks: payout.checks.push(
                    balance_check(
                        delegate.distribution.address,
                        delegate.info.delegated_balance,
                        delegate.balance_sum,
                    ),
                ),
                ..payout
            },
        )
    } else {
        StageView::DelegatorBalance { payout, delegate }
    }
}

/// What follows from a failure.
pub open spec fn after_failure(stage: StageView, message: String) -> StageView {
    let error = RewardsError::Service { message };
    match stage {
        StageView::Metadata { survey } => block_skipped(survey),
        StageView::Operations { survey, .. } => block_skipped(survey),
        StageView::DelegateInfo { payout } => StageView::Done {
            outcome: Err(error),
            checks: payout.checks,
        },
        StageView::DelegatorBalance { payout, .. } => StageView::Done {
            outcome: Err(error),
            checks: payout.checks,
        },
        StageView::Done { .. } => stage,
        _ => failed(error),
    }
}

/// What follows from an answer. One that does not belong to what was asked changes nothing.
pub open spec fn transition(cycle_num: i32, stage: StageView, reply: Reply) -> StageView {
    match (stage, reply) {
        (_, Reply::Failed { message }) => after_failure(stage, message),
        (StageView::Head, Reply::Head(None)) => failed(RewardsError::HeadUnavailable),
        (StageView::Head, Reply::Head(Some(head))) => if head.number == Some(REWARDS_PROTOCOL) {
            StageView::Eras
        } else {
            failed(RewardsError::UnsupportedProtocol { protocol: head.hash })
        },
        (StageView::Eras, Reply::CycleEras(eras)) => match saved_era(
            saved_eras(eras),
            cycle_num,
        ) {
            Ok(era) => StageView::EndHash { range: range_of(era, cycle_num) },
            Err(e) => failed(e),
        },
        (StageView::EndHash { range }, Reply::BlockHash(hash)) => if range.start <= range.end {
            StageView::Block {
                range,
                end_hash: hash@,
                level: range.start,
                found: Seq::empty(),
            }
        } else {
            StageView::Connect { survey: survey_begun(range, hash@, Seq::empty()) }
        },
        (StageView::Block { range, end_hash, level, found }, Reply::Block(block)) => {
            let all = match block {
                Some(passes) => found.push(
                    FoundBlock { level, anonymous: anonymous_in(passes@) },
                ),
                None => found,
            };
            if level < range.end {
                StageView::Block { range, end_hash, level: (level + 1) as i32, found: all }
            } else {
                StageView::Connect { survey: survey_begun(range, end_hash, all) }
            }
        },
        (StageView::Connect { survey }, Reply::Connected) => survey_next(survey),
        (StageView::Metadata { survey }, Reply::Metadata(receipt)) => if survey.found[survey.index as int].anonymous
            == Some(true) {
            StageView::Operations { survey, receipt: receipt@ }
        } else {
            receipts_read(survey, receipt@, Seq::empty(), false)
        },
        (StageView::Operations { survey, receipt }, Reply::Operations(operations)) => {
            let passes = pass_texts(json_lists(operations@));
            if passes.len() > ANONYMOUS_PASS {
                receipts_read(survey, receipt, passes[ANONYMOUS_PASS as int], false)
            } else {
                receipts_read(survey, receipt, Seq::empty(), true)
            }
        },
        (
            StageView::Decode { survey, .. },
            Reply::Decoded { updates, operations },
        ) => match after_steps(survey.entries, block_steps(updates@, operations@)) {
            Ok(entries) => survey_next(SurveyView { index: survey.index + 1, entries, ..survey }),
            Err(e) => failed(e),
        },
        (StageView::FrozenEras { frozen }, Reply::CycleEras(eras)) => match saved_era(
            saved_eras(eras),
            frozen_cycle(cycle_num as int) as i32,
        ) {
            Ok(era) => StageView::FrozenEnd {
                frozen,
                frozen_range: range_of(era, frozen_cycle(cycle_num as int) as i32),
            },
            Err(e) => failed(e),
        },
        (StageView::FrozenEnd { frozen, frozen_range }, Reply::BlockHash(_)) => {
            StageView::Snapshot { frozen, frozen_range }
        },
        (StageView::Snapshot { frozen, frozen_range }, Reply::Routed(text)) => match snapshot_index(
            text@,
        ) {
            Some(index) => StageView::SnapshotHash {
                rewards: frozen.rewards,
                level: snapshot_block(frozen_range.start as int, index as int) as i32,
            },
            None => failed(RewardsError::InvalidSnapshot { reply: text }),
        },
        (StageView::SnapshotHash { rewards, level }, Reply::BlockHash(hash)) => payout_next(
            PayoutView {
                rewards,
                level,
                hash: hash@,
                done: Seq::empty(),
                checks: Seq::empty(),
            },
        ),
        (StageView::DelegateInfo { payout }, Reply::Delegate(Err(message))) => StageView::Done {
            outcome: Err(RewardsError::InvalidDelegateInfo { message }),
            checks: payout.checks,
        },
        (
            StageView::DelegateInfo { payout },
            Reply::Delegate(Ok(info)),
        ) => if info.amounts_readable() {
            let (delegate, total) = payout.rewards[payout.done.len() as int];
            delegate_next(payout, payout_begun(delegate, total, info.numbers()))
        } else {
            StageView::Done {
                outcome: Err(RewardsError::InvalidAmount { error: info.refusal() }),
                checks: payout.checks,
            }
        },
        (
            StageView::DelegatorBalance { payout, delegate },
            Reply::Routed(text),
        ) => delegate_next(payout, payout_continued(delegate, reported_balance(text@))),
        _ => stage,
    }
}

/// Whether an answer can be worked with: every level fits 32 bits, the number of blocks in the
/// cycle is not negative, a block has the validation pass of the anonymous operations where it is
/// looked at, and a stake that is shared out is not zero.
pub open spec fn tolerates(cycle_num: i32, stage: StageView, reply: Reply) -> bool {
    match (stage, reply) {
        (StageView::Eras, Reply::CycleEras(eras)) => saved_era(
            saved_eras(eras),
            cycle_num,
        ) matches Ok(era) ==> levels_fit(era, cycle_num),
        (StageView::EndHash { range }, Reply::BlockHash(_)) => range.start <= range.end + 1,
        (StageView::Metadata { survey }, Reply::Metadata(_)) => {
            survey.found[survey.index as int].anonymous is Some
        },
        (StageView::Decode { short, .. }, Reply::Decoded { updates, .. }) => short
            ==> !readable_steps(updates_steps(updates@)),
        (StageView::FrozenEras { .. }, Reply::CycleEras(eras)) => fits(
            frozen_cycle(cycle_num as int),
        ) && (saved_era(saved_eras(eras), frozen_cycle(cycle_num as int) as i32) matches Ok(era)
            ==> levels_fit(era, frozen_cycle(cycle_num as int) as i32)),
        (StageView::FrozenEras { .. }, _) => fits(frozen_cycle(cycle_num as int)),
        (StageView::Snapshot { frozen_range, .. }, Reply::Routed(text)) => snapshot_index(
            text@,
        ) matches Some(index) ==> snapshot_fits(frozen_range.start, index),
        (StageView::DelegatorBalance { delegate, .. }, Reply::Routed(_)) => {
            delegate.info.staking_balance != 0
        },
        _ => true,
    }
}

impl Request {
    /// Whether the request asks for what is due at a stage.
    pub open spec fn asks(&self, cycle_num: i32, stage: StageView) -> bool {
        match stage {
            StageView::Head => *self == Request::ReadHead,
            StageView::Eras => *self == (Request::ReadCycleEras { protocol: ERAS_PROTOCOL }),
            StageView::EndHash { range } => *self == (Request::ResolveBlock { level: range.end }),
            StageView::Block { level, .. } => *self == (Request::ReadBlock { level }),
            StageView::Connect { .. } => *self == Request::Connect,
            StageView::Metadata { survey } => *self == (Request::ReadMetadata {
                level: survey.found[survey.index as int].level,
            }),
            StageView::Operations { survey, .. } => *self == (Request::ReadOperations {
                level: survey.found[survey.index as int].level,
            }),
            StageView::Decode { updates, operations, .. } => {
                &&& *self matches Request::Decode { updates: u, operations: o }
                &&& texts(u@) == updates
                &&& texts(o@) == operations
            },
            StageView::FrozenEras { .. } => *self == (Request::ReadCycleEras {
                protocol: ERAS_PROTOCOL,
            }),
            StageView::FrozenEnd { frozen_range, .. } => *self == (Request::ResolveBlock {
                level: frozen_range.end,
            }),
            StageView::Snapshot { frozen, .. } => {
                &&& *self matches Request::Get { request, block_hash }
                &&& request.gets(snapshot_path(frozen.range.end as int, cycle_num as int))
                &&& block_hash@ == frozen.end_hash
            },
            StageView::SnapshotHash { level, .. } => *self == (Request::ResolveBlock { level }),
            StageView::DelegateInfo { payout } => {
                &&& *self matches Request::GetDelegate { request, block_hash }
                &&& request.gets(
                    delegate_path(
                        payout.level as int,
                        payout.rewards[payout.done.len() as int].0,
                    ),
                )
                &&& block_hash@ == payout.hash
            },
            StageView::DelegatorBalance { payout, delegate } => {
                &&& *self matches Request::Get { request, block_hash }
                &&& request.gets(
                    balance_path(
                        payout.level as int,
                        delegate.info.delegated_contracts[delegate.position as int],
                    ),
                )
                &&& block_hash@ == payout.hash
            },
            StageView::Done { .. } => *self == Request::Finished,
        }
    }
}

/// A query for the rewards of a cycle.
#[derive(Debug)]
pub struct RewardsRun {
    cycle_num: i32,
    stage: Stage,
}

impl View for RewardsRun {
    type V = StageView;

    closed spec fn view(&self) -> StageView {
        self.stage.v()
    }
}

/// A failed query.
fn fail(error: RewardsError) -> (r: Stage)
    ensures
        r.wf(),
        r.v() == failed(error),
{
    let r = Stage::Done { outcome: Err(error), checks: Vec::new() };
    assert(check_views(Seq::<BalanceCheck>::empty()) =~= Seq::<BalanceCheckView>::empty());
    r
}

/// The next block, or the next part of the query if there is none.
fn continue_survey(survey: Survey) -> (r: Stage)
    requires
        survey.table.wf(),
    ensures
        r.wf(),
        r.v() == survey_next(survey.v()),
{
    if survey.index < survey.found.len() {
        Stage::Metadata { survey }
    } else {
        let rewards = active_delegates(&survey.table);
        Stage::FrozenEras {
            frozen: Frozen { range: survey.range, end_hash: survey.end_hash, rewards },
        }
    }
}

/// The block is passed over.
fn skip_block(survey: Survey) -> (r: Stage)
    requires
        survey.table.wf(),
        survey.index < survey.found@.len(),
    ensures
        r.wf(),
        r.v() == block_skipped(survey.v()),
{
    let count: usize = survey.found.len();
    let index: usize = survey.index + 1;
    let next = Survey { index, ..survey };
    assert(next.v() == (SurveyView { index: survey.v().index + 1, ..survey.v() }));
    continue_survey(next)
}

/// The receipts of the block are taken apart.
fn read_receipts(survey: Survey, receipt: &String, operations: Vec<String>, short: bool) -> (r:
    Stage)
    requires
        survey.table.wf(),
        survey.index < survey.found@.len(),
    ensures
        r.wf(),
        r.v() == receipts_read(survey.v(), receipt@, texts(operations@), short),
{
    match block_balance_updates(receipt.as_str()) {
        Ok(updates) => Stage::Decode { survey, updates, operations, short },
        Err(e) => fail(e),
    }
}

/// The next delegate, or the end of the query if there is none.
fn continue_payout(payout: Payout) -> (r: Stage)
    ensures
        r.wf(),
        r.v() == payout_next(payout.v()),
{
    if payout.done.len() < payout.rewards.len() {
        Stage::DelegateInfo { payout }
    } else {
        Stage::Done { outcome: Ok(payout.done), checks: payout.checks }
    }
}

/// The next delegator, or the next delegate if there is none.
fn continue_delegate(payout: Payout, delegate: DelegatePayout) -> (r: Stage)
    requires
        payout.done@.len() < payout.rewards@.len(),
        delegate.wf(),
    ensures
        r.wf(),
        r.v() == delegate_next(payout.v(), delegate@),
{
    if delegate.is_complete() {
        let mut payout = payout;
        let ghost before = payout.v();
        let (distribution, check) = delegate.finish();
        payout.done.push(distribution);
        payout.checks.push(check);
        assert(payout.v().done =~= before.done.push(distribution@));
        assert(payout.v().checks =~= before.checks.push(check@));
        continue_payout(payout)
    } else {
        Stage::DelegatorBalance { payout, delegate }
    }
}

/// What follows from a failure.
fn on_failure(stage: Stage, message: String) -> (r: Stage)
    requires
        stage.wf(),
    ensures
        r.wf(),
        r.v() == after_failure(stage.v(), message),
{
    match stage {
        Stage::Metadata { survey } => skip_block(survey),
        Stage::Operations { survey, .. } => skip_block(survey),
        Stage::DelegateInfo { payout } => Stage::Done {
            outcome: Err(RewardsError::Service { message }),
            checks: payout.checks,
        },
        Stage::DelegatorBalance { payout, .. } => Stage::Done {
            outcome: Err(RewardsError::Service { message }),
            checks: payout.checks,
        },
        Stage::Done { outcome, checks } => Stage::Done { outcome, checks },
        _ => fail(RewardsError::Service { message }),
    }
}

/// What follows from the protocol of the current head.
fn on_head(head: Option<HeadProtocol>) -> (r: Stage)
    ensures
        r.wf(),
        forall|cycle_num: i32|
            r.v() == #[trigger] transition(cycle_num, StageView::Head, Reply::Head(head)),
{
    match head {
        None => fail(RewardsError::HeadUnavailable),
        Some(head) => match head.number {
            Some(number) => if number == REWARDS_PROTOCOL {
                Stage::Eras
            } else {
                fail(RewardsError::UnsupportedProtocol { protocol: head.hash })
            },
            None => fail(RewardsError::UnsupportedProtocol { protocol: head.hash }),
        },
    }
}

/// What follows from the presence of a block.
fn on_block(
    range: CycleRange,
    end_hash: Vec<u8>,
    level: i32,
    found: Vec<FoundBlock>,
    block: Option<Vec<usize>>,
) -> (r: Stage)
    ensures
        r.wf(),
        forall|cycle_num: i32|
            r.v() == #[trigger] transition(
                cycle_num,
                StageView::Block { range, end_hash: end_hash@, level, found: found@ },
                Reply::Block(block),
            ),
{
    let mut found = found;
    if let Some(passes) = &block {
        let anonymous: Option<bool> = if passes.len() > ANONYMOUS_PASS {
            Some(passes[ANONYMOUS_PASS] != 0)
        } else {
            None
        };
        found.push(FoundBlock { level, anonymous });
    }
    if level < range.end {
        Stage::Block { range, end_hash, level: level + 1, found }
    } else {
        Stage::Connect {
            survey: Survey { range, end_hash, found, index: 0, table: AddressMap::new() },
        }
    }
}

/// What follows from what the receipts of a block hold.
fn on_decoded(
    survey: Survey,
    updates: Vec<Option<BalanceUpdateKind>>,
    operations: Vec<Result<OperationRepresentation, String>>,
) -> (r: Stage)
    requires
        survey.table.wf(),
        survey.index < survey.found@.len(),
    ensures
        r.wf(),
        r.v() == (match after_steps(survey.v().entries, block_steps(updates@, operations@)) {
            Ok(entries) => survey_next(
                SurveyView { index: survey.v().index + 1, entries, ..survey.v() },
            ),
            Err(e) => failed(e),
        }),
{
    let steps = block_credits(&updates, &operations);
    let count: usize = survey.found.len();
    let mut next = survey;
    match apply_credits(&mut next.table, &steps) {
        Ok(_) => {
            next.index = next.index + 1;
            continue_survey(next)
        },
        Err(e) => fail(e),
    }
}

/// Begins a query for the rewards of a cycle.
pub fn get_cycle_rewards(cycle_num: i32) -> (r: RewardsRun)
    ensures
        r.wf(),
        r.cycle() == cycle_num,
        r@ == StageView::Head,
{
    RewardsRun { cycle_num, stage: Stage::Head }
}

impl RewardsRun {
    /// The invariant of a query.
    pub closed spec fn wf(&self) -> bool {
        self.stage.wf()
    }

    /// The cycle that the query is about.
    pub closed spec fn cycle(&self) -> i32 {
        self.cycle_num
    }

    /// What is asked next.
    pub fn request(&self) -> (r: Request)
        requires
            self.wf(),
        ensures
            r.asks(self.cycle(), self@),
    {
        match &self.stage {
            Stage::Head => Request::ReadHead,
            Stage::Eras => Request::ReadCycleEras { protocol: ERAS_PROTOCOL },
            Stage::EndHash { range } => Request::ResolveBlock { level: range.end },
            Stage::Block { level, .. } => Request::ReadBlock { level: *level },
            Stage::Connect { .. } => Request::Connect,
            Stage::Metadata { survey } => Request::ReadMetadata {
                level: survey.found[survey.index].level,
            },
            Stage::Operations { survey, .. } => Request::ReadOperations {
                level: survey.found[survey.index].level,
            },
            Stage::Decode { updates, operations, .. } => {
                let u = updates.clone();
                let o = operations.clone();
                assert(texts(u@) =~= texts(updates@));
                assert(texts(o@) =~= texts(operations@));
                Request::Decode { updates: u, operations: o }
            },
            Stage::FrozenEras { .. } => Request::ReadCycleEras { protocol: ERAS_PROTOCOL },
            Stage::FrozenEnd { frozen_range, .. } => Request::ResolveBlock {
                level: frozen_range.end,
            },
            Stage::Snapshot { frozen, .. } => {
                let block_hash = frozen.end_hash.clone();
                assert(block_hash@ =~= frozen.end_hash@);
                Request::Get {
                    request: snapshot_request(frozen.range.end, self.cycle_num),
                    block_hash,
                }
            },
            Stage::SnapshotHash { level, .. } => Request::ResolveBlock { level: *level },
            Stage::DelegateInfo { payout } => {
                let block_hash = payout.hash.clone();
                assert(block_hash@ =~= payout.hash@);
                let delegate: &String = &payout.rewards[payout.done.len()].0;
                Request::GetDelegate {
                    request: delegate_request(payout.level, delegate.as_str()),
                    block_hash,
                }
            },
            Stage::DelegatorBalance { payout, delegate } => {
                let block_hash = payout.hash.clone();
                assert(block_hash@ =~= payout.hash@);
                Request::Get {
                    request: balance_request(payout.level, delegate.delegator().as_str()),
                    block_hash,
                }
            },
            Stage::Done { .. } => Request::Finished,
        }
    }

    /// Whether an answer can be worked with.
    pub fn check_tolerates(&self, reply: &Reply) -> (r: bool)
        requires
            self.wf(),
        ensures
            r == tolerates(self.cycle(), self@, *reply),
    {
        match (&self.stage, reply) {
            (Stage::Eras, Reply::CycleEras(eras)) => match get_cycle_era(eras, self.cycle_num) {
                Ok(era) => check_levels_fit(&era, self.cycle_num),
                Err(_) => true,
            },
            (Stage::EndHash { range }, Reply::BlockHash(_)) => range.start <= range.end
                || range.start - 1 == range.end,
            (Stage::Metadata { survey }, Reply::Metadata(_)) => {
                survey.found[survey.index].anonymous.is_some()
            },
            (Stage::Decode { short, .. }, Reply::Decoded { updates, .. }) => {
                if *short {
                    let none: Vec<Result<OperationRepresentation, String>> = Vec::new();
                    let steps = block_credits(updates, &none);
                    assert(steps_view(steps@) =~= updates_steps(updates@));
                    !check_readable(&steps)
                } else {
                    true
                }
            },
            (Stage::FrozenEras { .. }, reply) => {
                if self.cycle_num < -2147483644 {
                    false
                } else {
                    let frozen: i32 = self.cycle_num - PRESERVED_CYCLES - 1;
                    match reply {
                        Reply::CycleEras(eras) => match get_cycle_era(eras, frozen) {
                            Ok(era) => check_levels_fit(&era, frozen),
                            Err(_) => true,
                        },
                        _ => true,
                    }
                }
            },
            (Stage::Snapshot { frozen_range, .. }, Reply::Routed(text)) => match read_snapshot(
                text.as_str(),
            ) {
                Ok(index) => check_snapshot_fits(frozen_range.start, index),
                Err(_) => true,
            },
            (Stage::DelegatorBalance { delegate, .. }, Reply::Routed(_)) => {
                !delegate.info.staking_balance.is_zero()
            },
            _ => true,
        }
    }

    /// Takes in an answer.
    pub fn advance(self, reply: Reply) -> (r: Self)
        requires
            self.wf(),
            tolerates(self.cycle(), self@, reply),
        ensures
            r.wf(),
            r.cycle() == self.cycle(),
            r@ == transition(self.cycle(), self@, reply),
    {
        let cycle_num: i32 = self.cycle_num;
        let stage = match (self.stage, reply) {
            (stage, Reply::Failed { message }) => on_failure(stage, message),
            (Stage::Head, Reply::Head(head)) => on_head(head),
            (Stage::Eras, Reply::CycleEras(eras)) => match get_cycle_era(&eras, cycle_num) {
                Ok(era) => Stage::EndHash { range: cycle_range(&era, cycle_num) },
                Err(e) => fail(e),
            },
            (Stage::EndHash { range }, Reply::BlockHash(hash)) => if range.start <= range.end {
                Stage::Block { range, end_hash: hash, level: range.start, found: Vec::new() }
            } else {
                Stage::Connect {
                    survey: Survey {
                        range,
                        end_hash: hash,
                        found: Vec::new(),
                        index: 0,
                        table: AddressMap::new(),
                    },
                }
            },
            (Stage::Block { range, end_hash, level, found }, Reply::Block(block)) => {
                on_block(range, end_hash, level, found, block)
            },
            (Stage::Connect { survey }, Reply::Connected) => continue_survey(survey),
            (Stage::Metadata { survey }, Reply::Metadata(receipt)) => {
                match survey.found[survey.index].anonymous {
                    Some(true) => Stage::Operations { survey, receipt },
                    _ => {
                        let none: Vec<String> = Vec::new();
                        assert(texts(none@) =~= Seq::<Seq<char>>::empty());
                        read_receipts(survey, &receipt, none, false)
                    },
                }
            },
            (Stage::Operations { survey, receipt }, Reply::Operations(operations)) => {
                match anonymous_operations(operations.as_str()) {
                    Some(list) => read_receipts(survey, &receipt, list, false),
                    None => {
                        let none: Vec<String> = Vec::new();
                        assert(texts(none@) =~= Seq::<Seq<char>>::empty());
                        read_receipts(survey, &receipt, none, true)
                    },
                }
            },
            (Stage::Decode { survey, .. }, Reply::Decoded { updates, operations }) => {
                on_decoded(survey, updates, operations)
            },
            (Stage::FrozenEras { frozen }, Reply::CycleEras(eras)) => {
                let cycle: i32 = cycle_num - PRESERVED_CYCLES - 1;
                match get_cycle_era(&eras, cycle) {
                    Ok(era) => Stage::FrozenEnd { frozen, frozen_range: cycle_range(&era, cycle) },
                    Err(e) => fail(e),
                }
            },
            (Stage::FrozenEnd { frozen, frozen_range }, Reply::BlockHash(_)) => {
                Stage::Snapshot { frozen, frozen_range }
            },
            (Stage::Snapshot { frozen, frozen_range }, Reply::Routed(text)) => {
                match read_snapshot(text.as_str()) {
                    Ok(index) => Stage::SnapshotHash {
                        rewards: frozen.rewards,
                        level: get_snapshot_block(frozen_range.start, index),
                    },
                    Err(_) => fail(RewardsError::InvalidSnapshot { reply: text }),
                }
            },
            (Stage::SnapshotHash { rewards, level }, Reply::BlockHash(hash)) => {
                let payout = Payout {
                    rewards,
                    level,
                    hash,
                    done: Vec::new(),
                    checks: Vec::new(),
                };
                assert(payout.v().done =~= Seq::<DelegateRewardDistributionView>::empty());
                assert(payout.v().checks =~= Seq::<BalanceCheckView>::empty());
                continue_payout(payout)
            },
            (Stage::DelegateInfo { payout }, Reply::Delegate(Err(message))) => Stage::Done {
                outcome: Err(RewardsError::InvalidDelegateInfo { message }),
                checks: payout.checks,
            },
            (Stage::DelegateInfo { payout }, Reply::Delegate(Ok(info))) => {
                match DelegateInfoInt::try_from(info) {
                    Ok(info) => {
                        let at: usize = payout.done.len();
                        let delegate = DelegatePayout::begin(
                            &payout.rewards[at].0,
                            &payout.rewards[at].1,
                            info,
                        );
                        continue_delegate(payout, delegate)
                    },
                    Err(error) => Stage::Done {
                        outcome: Err(error),
                        checks: payout.checks,
                    },
                }
            },
            (Stage::DelegatorBalance { payout, delegate }, Reply::Routed(text)) => {
                let balance = read_balance(text.as_str());
                continue_delegate(payout, delegate.add_balance(balance))
            },
            (stage, _) => stage,
        };
        RewardsRun { cycle_num, stage }
    }

    /// What came of the query, if it is at its end, and how the reported balances of the delegates
    /// compare with the balances of their delegators.
    pub fn outcome(self) -> (r: Option<
        (Result<CycleRewardDistribution, RewardsError>, Vec<BalanceCheck>),
    >)
        ensures
            match self@ {
                StageView::Done { outcome, checks } => r is Some && outcome_view(r->Some_0.0)
                    == outcome && check_views(r->Some_0.1@) == checks,
                _ => r is None,
            },
    {
        match self.stage {
            Stage::Done { outcome, checks } => Some((outcome, checks)),
            _ => None,
        }
    }
}

} // verus!
