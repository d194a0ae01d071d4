//! What holds of every query for the rewards of a cycle.
use crate::address_map::{ascending, lemma_lookup_absent, lemma_lookup_entry, lookup};
use crate::rewards::credits::{
    active_rewards, after_steps, block_steps, law_active_delegates, law_blocks_add_up,
    law_rewards_are_totals, rewards_at, total_credit, CreditStepView, RewardEntries,
};
use crate::rewards::distribution::{
    delegators, fair_so_far, fairly_shared, law_complete_payout_covers_all, law_payout_begins_fair,
    law_payout_begins_in_order, law_payout_stays_fair, law_payout_stays_in_order, paid_in_order,
    payout_begun, payout_continued, reported_balance, shared_addresses, DelegatePayoutView,
};
use crate::rewards::error::RewardsError;
use crate::rewards::run::{
    anonymous_in, block_skipped, transition, FoundBlock, PayoutView, Reply, StageView,
    SurveyView,
};
use crate::rewards::schedule::CycleRange;
use crate::rewards::types::{DelegateInfoView, DelegateRewardDistributionView};
use crate::text::{decimal, precedes};
use vstd::prelude::*;

verus! {

/// How far a query has come after some answers.
pub open spec fn reached(cycle_num: i32, replies: Seq<Reply>) -> StageView
    decreases replies.len(),
{
    if replies.len() == 0 {
        StageView::Head
    } else {
        transition(cycle_num, reached(cycle_num, replies.drop_last()), replies.last())
    }
}

/// What the receipts that a query took in credit.
pub open spec fn counted(cycle_num: i32, replies: Seq<Reply>) -> Seq<CreditStepView>
    decreases replies.len(),
{
    if replies.len() == 0 {
        Seq::empty()
    } else {
        let before = counted(cycle_num, replies.drop_last());
        match (reached(cycle_num, replies.drop_last()), replies.last()) {
            (StageView::Decode { .. }, Reply::Decoded { updates, operations }) => before
                + block_steps(updates@, operations@),
            _ => before,
        }
    }
}

/// The delegates that a query was told of, in the order in which it asked for them.
pub open spec fn described(cycle_num: i32, replies: Seq<Reply>) -> Seq<DelegateInfoView>
    decreases replies.len(),
{
    if replies.len() == 0 {
        Seq::empty()
    } else {
        let before = described(cycle_num, replies.drop_last());
        match (reached(cycle_num, replies.drop_last()), replies.last()) {
            (StageView::DelegateInfo { .. }, Reply::Delegate(Ok(info))) => before.push(
                info.numbers(),
            ),
            _ => before,
        }
    }
}

/// The rewards that some credits come to, if all of them can be read.
pub open spec fn credited(steps: Seq<CreditStepView>) -> RewardEntries {
    after_steps(Seq::empty(), steps)->Ok_0
}

/// Whether the rewards are those that some credits come to.
pub open spec fn rewards_of(rewards: Seq<(Seq<char>, int)>, steps: Seq<CreditStepView>) -> bool {
    after_steps(Seq::empty(), steps) is Ok && rewards == active_rewards(credited(steps))
}

/// Whether a distribution is that of a delegate as it was described: it tells the stake of the
/// delegate, and the shares are those of all its delegators, in the order in which it lists them.
pub open spec fn shared_as_described(
    d: DelegateRewardDistributionView,
    info: DelegateInfoView,
) -> bool {
    &&& d.staking_balance == decimal(info.staking_balance)
    &&& shared_addresses(d) == delegators(info.delegated_contracts, d.address)
}

/// Whether the distributions are those of the first delegates in a list of rewards, as they were
/// described.
pub open spec fn pays(
    done: Seq<DelegateRewardDistributionView>,
    rewards: Seq<(Seq<char>, int)>,
    infos: Seq<DelegateInfoView>,
) -> bool {
    &&& done.len() <= rewards.len()
    &&& done.len() <= infos.len()
    &&& forall|i: int|
        0 <= i < done.len() ==> (#[trigger] done[i]).address == rewards[i].0
            && done[i].total_rewards == decimal(rewards[i].1) && fairly_shared(done[i])
            && shared_as_described(done[i], infos[i])
}

/// Whether the blocks that were found stand at ascending levels of the cycle.
pub open spec fn levels_ascend(found: Seq<FoundBlock>, range: CycleRange) -> bool {
    &&& forall|i: int|
        0 <= i < found.len() ==> range.start <= (#[trigger] found[i]).level <= range.end
    &&& forall|i: int, j: int|
        0 <= i < j < found.len() ==> (#[trigger] found[i]).level < (#[trigger] found[j]).level
}

/// Whether a stage fits the credits that were counted and the delegates that were described so
/// far.
pub open spec fn consistent(
    stage: StageView,
    steps: Seq<CreditStepView>,
    infos: Seq<DelegateInfoView>,
) -> bool {
    match stage {
        StageView::Head => steps.len() == 0 && infos.len() == 0,
        StageView::Eras => steps.len() == 0 && infos.len() == 0,
        StageView::EndHash { .. } => steps.len() == 0 && infos.len() == 0,
        StageView::Block { range, level, found, .. } => {
            &&& steps.len() == 0
            &&& infos.len() == 0
            &&& range.start <= level <= range.end
            &&& levels_ascend(found, range)
            &&& forall|i: int| 0 <= i < found.len() ==> (#[trigger] found[i]).level < level
        },
        StageView::Connect { survey } => steps.len() == 0 && surveyed(survey, steps)
            && infos.len() == 0,
        StageView::Metadata { survey } => surveyed(survey, steps) && infos.len() == 0,
        StageView::Operations { survey, .. } => surveyed(survey, steps) && infos.len() == 0,
        StageView::Decode { survey, .. } => surveyed(survey, steps) && infos.len() == 0,
        StageView::FrozenEras { frozen } => rewards_of(frozen.rewards, steps) && infos.len() == 0,
        StageView::FrozenEnd { frozen, .. } => rewards_of(frozen.rewards, steps) && infos.len()
            == 0,
        StageView::Snapshot { frozen, .. } => rewards_of(frozen.rewards, steps) && infos.len() == 0,
        StageView::SnapshotHash { rewards, .. } => rewards_of(rewards, steps) && infos.len() == 0,
        StageView::DelegateInfo { payout } => {
            &&& paying(payout, steps, infos)
            &&& payout.done.len() < payout.rewards.len()
            &&& payout.done.len() == infos.len()
        },
        StageView::DelegatorBalance { payout, delegate } => {
            &&& paying(payout, steps, infos)
            &&& payout.done.len() < payout.rewards.len()
            &&& payout.done.len() + 1 == infos.len()
            &&& delegate.distribution.address == payout.rewards[payout.done.len() as int].0
            &&& delegate.distribution.total_rewards == decimal(
                payout.rewards[payout.done.len() as int].1,
            )
            &&& delegate.info.delegated_contracts == infos.last().delegated_contracts
            &&& delegate.info.staking_balance == infos.last().staking_balance
            &&& paid_in_order(delegate)
            &&& fair_so_far(delegate)
            &&& !delegate.complete()
        },
        StageView::Done { outcome, checks } => outcome matches Ok(done) ==> {
            &&& after_steps(Seq::empty(), steps) is Ok
            &&& pays(done, active_rewards(credited(steps)), infos)
            &&& done.len() == active_rewards(credited(steps)).len()
            &&& done.len() == infos.len()
            &&& done.len() == checks.len()
        },
    }
}

/// Whether the rewards so far are those that the counted credits come to.
pub open spec fn surveyed(survey: SurveyView, steps: Seq<CreditStepView>) -> bool {
    &&& levels_ascend(survey.found, survey.range)
    &&& after_steps(Seq::empty(), steps) == Ok::<RewardEntries, RewardsError>(survey.entries)
}

/// Whether the distributions so far are those of the first delegates.
pub open spec fn paying(
    payout: PayoutView,
    steps: Seq<CreditStepView>,
    infos: Seq<DelegateInfoView>,
) -> bool {
    &&& rewards_of(payout.rewards, steps)
    &&& pays(payout.done, payout.rewards, infos)
    &&& payout.done.len() == payout.checks.len()
}

/// A query that is at its end stays there.
pub proof fn law_end_is_final(cycle_num: i32, stage: StageView, reply: Reply)
    requires
        stage is Done,
    ensures
        transition(cycle_num, stage, reply) == stage,
{
}

/// A failure ends the query with that failure, except where the receipts of a block were asked
/// for: such a block is passed over, and the rewards stay as they were.
pub proof fn law_failures(cycle_num: i32, stage: StageView, message: String)
    requires
        !(stage is Done),
    ensures
        ({
            let next = transition(cycle_num, stage, Reply::Failed { message });
            match stage {
                StageView::Metadata { survey } => next == block_skipped(survey),
                StageView::Operations { survey, .. } => next == block_skipped(survey),
                _ => next is Done && next->Done_outcome == Err::<
                    Seq<DelegateRewardDistributionView>,
                    RewardsError,
                >(RewardsError::Service { message }),
            }
        }),
{
}

/// A finished delegate is paid what it earned.
proof fn lemma_paid(
    payout: PayoutView,
    delegate: DelegatePayoutView,
    infos: Seq<DelegateInfoView>,
)
    requires
        pays(payout.done, payout.rewards, infos),
        payout.done.len() < payout.rewards.len(),
        payout.done.len() + 1 == infos.len(),
        delegate.distribution.address == payout.rewards[payout.done.len() as int].0,
        delegate.distribution.total_rewards == decimal(
            payout.rewards[payout.done.len() as int].1,
        ),
        delegate.info.delegated_contracts == infos.last().delegated_contracts,
        delegate.info.staking_balance == infos.last().staking_balance,
        fair_so_far(delegate),
        paid_in_order(delegate),
        delegate.complete(),
    ensures
        pays(payout.done.push(delegate.distribution), payout.rewards, infos),
{
    law_complete_payout_covers_all(delegate);
    let done = payout.done.push(delegate.distribution);
    assert forall|i: int| 0 <= i < done.len() implies (#[trigger] done[i]).address
        == payout.rewards[i].0 && done[i].total_rewards == decimal(payout.rewards[i].1)
        && fairly_shared(done[i]) && shared_as_described(done[i], infos[i]) by {
        if i < payout.done.len() {
            assert(done[i] == payout.done[i]);
        }
    }
}

/// What was paid stays so when another delegate is described.
proof fn lemma_described_next(payout: PayoutView, infos: Seq<DelegateInfoView>, info: DelegateInfoView)
    requires
        pays(payout.done, payout.rewards, infos),
    ensures
        pays(payout.done, payout.rewards, infos.push(info)),
{
    let done = payout.done;
    assert forall|i: int| 0 <= i < done.len() implies (#[trigger] done[i]).address
        == payout.rewards[i].0 && done[i].total_rewards == decimal(payout.rewards[i].1)
        && fairly_shared(done[i]) && shared_as_described(done[i], infos.push(info)[i]) by {
        assert(infos.push(info)[i] == infos[i]);
    }
}

/// Every answer keeps a stage fitting to what was counted and described.
proof fn lemma_transition_consistent(
    cycle_num: i32,
    stage: StageView,
    reply: Reply,
    steps: Seq<CreditStepView>,
    infos: Seq<DelegateInfoView>,
)
    requires
        consistent(stage, steps, infos),
    ensures
        ({
            let all = match (stage, reply) {
                (StageView::Decode { .. }, Reply::Decoded { updates, operations }) => steps
                    + block_steps(updates@, operations@),
                _ => steps,
            };
            let told = match (stage, reply) {
                (StageView::DelegateInfo { .. }, Reply::Delegate(Ok(info))) => infos.push(
                    info.numbers(),
                ),
                _ => infos,
            };
            consistent(transition(cycle_num, stage, reply), all, told)
        }),
{
    match (stage, reply) {
        (StageView::EndHash { range }, Reply::BlockHash(_)) => {
            assert(steps =~= Seq::empty());
        },
        (StageView::Block { range, level, found, .. }, Reply::Block(Some(passes))) => {
            assert(steps =~= Seq::empty());
            let block = FoundBlock {
                level,
                anonymous: anonymous_in(passes@),
            };
            let all = found.push(block);
            assert forall|i: int, j: int| 0 <= i < j < all.len() implies (
            #[trigger] all[i]).level < (#[trigger] all[j]).level by {
                assert(all[i] == found[i]);
                if j < found.len() {
                    assert(all[j] == found[j]);
                }
            }
            assert forall|i: int| 0 <= i < all.len() implies range.start <= (
            #[trigger] all[i]).level <= range.end by {
                if i < found.len() {
                    assert(all[i] == found[i]);
                }
            }
            assert forall|i: int| 0 <= i < all.len() implies (#[trigger] all[i]).level < level
                + 1 by {
                if i < found.len() {
                    assert(all[i] == found[i]);
                }
            }
        },
        (StageView::Block { range, level, found, .. }, Reply::Block(None)) => {
            assert(steps =~= Seq::empty());
        },
        (StageView::Decode { survey, .. }, Reply::Decoded { updates, operations }) => {
            law_blocks_add_up(Seq::empty(), steps, block_steps(updates@, operations@));
        },
        (StageView::DelegateInfo { payout }, Reply::Delegate(Ok(info))) => {
            if info.amounts_readable() {
                let (delegate, total) = payout.rewards[payout.done.len() as int];
                let begun = payout_begun(
                    delegate,
                    total,
                    info.numbers(),
                );
                law_payout_begins_in_order(delegate, total, info.numbers());
                law_payout_begins_fair(delegate, total, info.numbers());
                lemma_described_next(payout, infos, info.numbers());
                if begun.complete() {
                    lemma_paid(payout, begun, infos.push(info.numbers()));
                }
            }
        },
        (StageView::DelegatorBalance { payout, delegate }, Reply::Routed(text)) => {
            let balance = reported_balance(text@);
            let next = payout_continued(delegate, balance);
            law_payout_stays_in_order(delegate, balance);
            law_payout_stays_fair(delegate, balance);
            if next.complete() {
                lemma_paid(payout, next, infos);
            }
        },
        _ => {},
    }
}

/// Whatever answers a query gets, it fits the credits that it counted and the delegates that it was
/// told of at every point.
pub proof fn law_query_is_consistent(cycle_num: i32, replies: Seq<Reply>)
    ensures
        consistent(
            reached(cycle_num, replies),
            counted(cycle_num, replies),
            described(cycle_num, replies),
        ),
    decreases replies.len(),
{
    if replies.len() > 0 {
        law_query_is_consistent(cycle_num, replies.drop_last());
        lemma_transition_consistent(
            cycle_num,
            reached(cycle_num, replies.drop_last()),
            replies.last(),
            counted(cycle_num, replies.drop_last()),
            described(cycle_num, replies.drop_last()),
        );
    }
}

/// A query that succeeds pays every address exactly what the counted receipts credit to it in all:
/// each address with a total other than zero has one entry, no other address has one, the entries
/// are in alphabetical order, and every delegator of the delegate that was described has its fair
/// share in the stake that was described.
pub proof fn law_payout_is_the_total_of_the_receipts(cycle_num: i32, replies: Seq<Reply>)
    requires
        reached(cycle_num, replies) is Done,
        reached(cycle_num, replies)->Done_outcome is Ok,
    ensures
        ({
            let done = reached(cycle_num, replies)->Done_outcome->Ok_0;
            let steps = counted(cycle_num, replies);
            let infos = described(cycle_num, replies);
            &&& done.len() == infos.len()
            &&& forall|i: int|
                0 <= i < done.len() ==> {
                    let entry = #[trigger] done[i];
                    &&& total_credit(steps, entry.address) != 0
                    &&& entry.total_rewards == decimal(total_credit(steps, entry.address))
                    &&& fairly_shared(entry)
                    &&& shared_as_described(entry, infos[i])
                }
            &&& forall|i: int, j: int|
                0 <= i < j < done.len() ==> precedes(
                    (#[trigger] done[i]).address,
                    (#[trigger] done[j]).address,
                )
            &&& forall|address: Seq<char>| #[trigger]
                total_credit(steps, address) != 0 ==> exists|i: int|
                    0 <= i < done.len() && (#[trigger] done[i]).address == address
        }),
{
    let done = reached(cycle_num, replies)->Done_outcome->Ok_0;
    let steps = counted(cycle_num, replies);
    let infos = described(cycle_num, replies);
    law_query_is_consistent(cycle_num, replies);
    let entries = credited(steps);
    let rewards = active_rewards(entries);
    let none: RewardEntries = Seq::empty();
    assert(ascending(none));
    law_rewards_are_totals(none, steps, Seq::empty());
    law_active_delegates(entries, Seq::empty());
    assert forall|address: Seq<char>| true implies #[trigger] total_credit(steps, address)
        == rewards_at(entries, address).sum && lookup(rewards, address) == (if total_credit(
        steps,
        address,
    ) != 0 {
        Some(total_credit(steps, address))
    } else {
        None
    }) by {
        lemma_lookup_absent(none, address);
        law_rewards_are_totals(none, steps, address);
        law_active_delegates(entries, address);
    }
    assert forall|i: int| 0 <= i < done.len() implies ({
        let entry = #[trigger] done[i];
        &&& total_credit(steps, entry.address) != 0
        &&& entry.total_rewards == decimal(total_credit(steps, entry.address))
        &&& fairly_shared(entry)
        &&& shared_as_described(entry, infos[i])
    }) by {
        lemma_lookup_entry(rewards, i);
        assert(done[i].address == rewards[i].0);
        assert(lookup(rewards, rewards[i].0) == Some(rewards[i].1));
        let t = total_credit(steps, done[i].address);
    }
    assert forall|i: int, j: int| 0 <= i < j < done.len() implies precedes(
        (#[trigger] done[i]).address,
        (#[trigger] done[j]).address,
    ) by {
        assert(precedes(rewards[i].0, rewards[j].0));
    }
    assert forall|address: Seq<char>| #[trigger] total_credit(steps, address) != 0 implies exists|
        i: int,
    |
        0 <= i < done.len() && (#[trigger] done[i]).address == address by {
        assert(lookup(rewards, address) is Some);
        let i = crate::address_map::rank(rewards, address) as int;
        assert(rewards[i].0 == address);
        assert(done[i].address == address);
    }
}

} // verus!
