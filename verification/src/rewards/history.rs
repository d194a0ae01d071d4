//! What a query makes of the answers that it was given, told by the answers themselves.
use crate::address_map::{
    ascending, has_entry, lemma_lookup_absent, lemma_lookup_entry, lookup, rank,
};
use crate::mutez::{amount_of, magnitude};
use crate::rewards::block_totals::{
    law_block_adds_the_sum_of_its_changes, operations_change, updates_change,
};
use crate::rewards::credits::{
    after_steps, block_steps, law_active_delegates, law_rewards_are_totals, rewards_at,
    RewardEntries,
};
use crate::rewards::distribution::{
    delegators, law_complete_payout_covers_all, law_payout_begins_in_order,
    law_payout_stays_in_order, law_rounding_goes_to_the_nearest, law_told_balance_is_read,
    paid_in_order, payout_begun, payout_continued, reported_balance, shared_addresses,
    BalanceCheck, BalanceCheckView, DelegatePayoutView,
};
use crate::rewards::laws::reached;
use crate::rewards::receipts::{json_items, json_lists, json_members};
use crate::rewards::requests::{
    balance_path, delegate_path, law_request_asks_for_its_path, snapshot_path,
};
use crate::rewards::run::{
    check_views, outcome_view, transition, FoundBlock, PayoutView, Reply, Request, StageView,
    SurveyView,
};
use crate::rewards::schedule::{
    law_chosen_era, matching_era, snapshot_index, CycleEra, CycleRange,
};
use crate::rewards::types::{
    BalanceUpdateKind, CycleRewardDistribution, DelegateInfo, DelegateRewardDistributionView,
    OperationRepresentation,
};
use crate::text::{
    all_digits, decimal, is_digit, law_int32_text_read_back, law_trim_end, lemma_decimal_chars,
    lemma_trim_end_run, precedes, signed_value, texts, trim_end, unsigned_part,
};
use vstd::prelude::*;

verus! {

/// What a query was told of a block that is in storage.
pub enum BlockTold {
    /// Its receipts could not be had.
    Nothing,
    /// What its receipts hold.
    Receipts {
        updates: Seq<Option<BalanceUpdateKind>>,
        operations: Seq<Result<OperationRepresentation, String>>,
    },
}

/// The answers that a query was given to what it asked for.
#[verifier::ext_equal]
pub struct History {
    /// The cycle eras of the cycle.
    pub eras: Option<Seq<CycleEra>>,
    /// The hash of the last block of the cycle.
    pub end_hash: Option<Seq<u8>>,
    /// The numbers of operations of each block that was asked for, if it is in storage.
    pub blocks: Seq<Option<Seq<usize>>>,
    /// The receipt of the block at hand.
    pub receipt: Option<Seq<char>>,
    /// The receipts of the operations of the block at hand.
    pub operations: Option<Seq<char>>,
    /// What was told of the blocks in storage.
    pub told: Seq<BlockTold>,
    /// The cycle eras of the cycle at whose end the stake was settled.
    pub frozen_eras: Option<Seq<CycleEra>>,
    /// The reply that tells the snapshot.
    pub snapshot: Option<Seq<char>>,
    /// The hash of the block of the snapshot.
    pub snapshot_hash: Option<Seq<u8>>,
    /// The descriptions of the delegates.
    pub infos: Seq<DelegateInfo>,
    /// The replies that tell the balances of the delegators of each delegate.
    pub balances: Seq<Seq<Seq<char>>>,
}

/// No answers.
pub open spec fn no_history() -> History {
    History {
        eras: None,
        end_hash: None,
        blocks: Seq::empty(),
        receipt: None,
        operations: None,
        told: Seq::empty(),
        frozen_eras: None,
        snapshot: None,
        snapshot_hash: None,
        infos: Seq::empty(),
        balances: Seq::empty(),
    }
}

/// The answers with one more of them, to what is asked for at a stage.
pub open spec fn recorded(h: History, stage: StageView, reply: Reply) -> History {
    match (stage, reply) {
        (StageView::Eras, Reply::CycleEras(Some(eras))) => History { eras: Some(eras@), ..h },
        (StageView::EndHash { .. }, Reply::BlockHash(hash)) => History {
            end_hash: Some(hash@),
            ..h
        },
        (StageView::Block { .. }, Reply::Block(Some(passes))) => History {
            blocks: h.blocks.push(Some(passes@)),
            ..h
        },
        (StageView::Block { .. }, Reply::Block(None)) => History {
            blocks: h.blocks.push(None),
            ..h
        },
        (StageView::Metadata { .. }, Reply::Metadata(receipt)) => History {
            receipt: Some(receipt@),
            operations: None,
            ..h
        },
        (StageView::Metadata { .. }, Reply::Failed { .. }) => History {
            told: h.told.push(BlockTold::Nothing),
            ..h
        },
        (StageView::Operations { .. }, Reply::Operations(operations)) => History {
            operations: Some(operations@),
            ..h
        },
        (StageView::Operations { .. }, Reply::Failed { .. }) => History {
            told: h.told.push(BlockTold::Nothing),
            ..h
        },
        (StageView::Decode { .. }, Reply::Decoded { updates, operations }) => History {
            told: h.told.push(
                BlockTold::Receipts { updates: updates@, operations: operations@ },
            ),
            ..h
        },
        (StageView::FrozenEras { .. }, Reply::CycleEras(Some(eras))) => History {
            frozen_eras: Some(eras@),
            ..h
        },
        (StageView::Snapshot { .. }, Reply::Routed(text)) => History {
            snapshot: Some(text@),
            ..h
        },
        (StageView::SnapshotHash { .. }, Reply::BlockHash(hash)) => History {
            snapshot_hash: Some(hash@),
            ..h
        },
        (StageView::DelegateInfo { .. }, Reply::Delegate(Ok(info))) => History {
            infos: h.infos.push(info),
            balances: h.balances.push(Seq::empty()),
            ..h
        },
        (StageView::DelegatorBalance { .. }, Reply::Routed(text)) => History {
            balances: h.balances.drop_last().push(h.balances.last().push(text@)),
            ..h
        },
        _ => h,
    }
}

/// The answers that a query was given to what it asked for.
pub open spec fn history(cycle_num: i32, replies: Seq<Reply>) -> History
    decreases replies.len(),
{
    if replies.len() == 0 {
        no_history()
    } else {
        let earlier = replies.drop_last();
        recorded(history(cycle_num, earlier), reached(cycle_num, earlier), replies.last())
    }
}

/// Whether a number fits 32 bits.
pub open spec fn in_32_bits(v: int) -> bool {
    -0x8000_0000 <= v <= 0x7fff_ffff
}

/// Whether an era is the first in a list that began before a cycle.
pub open spec fn is_first_before(eras: Seq<CycleEra>, cycle: int, era: CycleEra) -> bool {
    exists|i: int|
        0 <= i < eras.len() && #[trigger] eras[i] == era && era.first_cycle < cycle && forall|j: int|
            0 <= j < i ==> #[trigger] eras[j].first_cycle >= cycle
}

/// The first level of a cycle in an era.
pub open spec fn first_level(era: CycleEra, cycle: int) -> int {
    era.first_level + (cycle - era.first_cycle) * era.blocks_per_cycle
}

/// Whether a range is that of a cycle, for the saved eras.
pub open spec fn is_range_of(range: CycleRange, eras: Option<Seq<CycleEra>>, cycle: int) -> bool {
    eras matches Some(eras) && forall|era: CycleEra| #[trigger]
        is_first_before(eras, cycle, era) ==> range.start == first_level(era, cycle) as i32
            && range.end == (first_level(era, cycle) + era.blocks_per_cycle - 1) as i32
}

/// The blocks in storage among those that were asked for, from a level on: the level of each, and
/// whether it has anonymous operations, which are its third kind.
pub open spec fn stored_blocks(blocks: Seq<Option<Seq<usize>>>, start: int) -> Seq<FoundBlock>
    decreases blocks.len(),
{
    if blocks.len() == 0 {
        Seq::empty()
    } else {
        let before = stored_blocks(blocks.drop_last(), start);
        match blocks.last() {
            Some(passes) => before.push(
                FoundBlock {
                    level: (start + blocks.len() - 1) as i32,
                    anonymous: if passes.len() > 2 {
                        Some(passes[2] != 0)
                    } else {
                        None
                    },
                },
            ),
            None => before,
        }
    }
}

/// What all that was told changes for an address.
pub open spec fn told_change(told: Seq<BlockTold>, address: Seq<char>) -> int
    decreases told.len(),
{
    if told.len() == 0 {
        0
    } else {
        let before = told_change(told.drop_last(), address);
        match told.last() {
            BlockTold::Nothing => before,
            BlockTold::Receipts { updates, operations } => before + updates_change(updates, address)
                + operations_change(operations, address),
        }
    }
}

/// Whether every block of the cycle was asked for.
pub open spec fn all_asked_for(range: CycleRange, h: History) -> bool {
    h.blocks.len() == if range.start <= range.end {
        range.end - range.start + 1
    } else {
        0
    }
}

/// Whether the blocks so far are those that were told of.
pub open spec fn survey_fits(cycle: int, survey: SurveyView, h: History) -> bool {
    &&& is_range_of(survey.range, h.eras, cycle)
    &&& h.end_hash == Some(survey.end_hash)
    &&& all_asked_for(survey.range, h)
    &&& survey.found == stored_blocks(h.blocks, survey.range.start as int)
    &&& survey.index == h.told.len()
    &&& h.told.len() <= survey.found.len()
    &&& ascending(survey.entries)
    &&& forall|address: Seq<char>| #[trigger]
        rewards_at(survey.entries, address).sum == told_change(h.told, address)
    &&& h.infos.len() == 0
    &&& h.balances.len() == 0
}

/// Whether the rewards are what all that was told changes.
pub open spec fn rewards_fit(rewards: Seq<(Seq<char>, int)>, h: History) -> bool {
    &&& ascending(rewards)
    &&& forall|address: Seq<char>| #[trigger]
        lookup(rewards, address) == (if told_change(h.told, address) != 0 {
            Some(told_change(h.told, address))
        } else {
            None
        })
}

/// Whether a range is that of the cycle, and all its blocks were asked for and told of.
pub open spec fn all_told(cycle: int, range: CycleRange, h: History) -> bool {
    &&& is_range_of(range, h.eras, cycle)
    &&& all_asked_for(range, h)
    &&& h.told.len() == stored_blocks(h.blocks, range.start as int).len()
}

/// The receipt holds these balance updates: the items of its first member of that name.
pub open spec fn holds_updates(receipt: Seq<char>, updates: Seq<Seq<char>>) -> bool {
    json_members(receipt) matches Some(members) && exists|i: int|
        0 <= i < members.len() && (#[trigger] members[i]).0 == "balance_updates"@ && json_items(
            members[i].1,
        ) == Some(updates) && forall|j: int|
            0 <= j < i ==> (#[trigger] members[j]).0 != "balance_updates"@
}

/// Whether a reply tells a number: its decimal notation, or any other text of digits behind an
/// optional sign that stands for it, and line ends behind it.
pub open spec fn tells(text: Seq<char>, v: int) -> bool {
    exists|body: Seq<char>, ends: Seq<char>|
        {
            &&& text == #[trigger] (body + ends)
            &&& forall|i: int| 0 <= i < ends.len() ==> #[trigger] ends[i] == '\n'
            &&& body == decimal(v) || (all_digits(unsigned_part(body)) && signed_value(body) == v)
        }
}

/// The number of a snapshot is the one that the reply tells.
pub proof fn law_snapshot_is_the_told_number(text: Seq<char>, v: int)
    requires
        in_32_bits(v),
    ensures
        snapshot_index(text) == Some(v as i32) <==> tells(text, v),
{
    if tells(text, v) {
        let (body, ends) = choose|body: Seq<char>, ends: Seq<char>|
            {
                &&& text == #[trigger] (body + ends)
                &&& forall|i: int| 0 <= i < ends.len() ==> #[trigger] ends[i] == '\n'
                &&& body == decimal(v) || (all_digits(unsigned_part(body)) && signed_value(body)
                    == v)
            };
        if body == decimal(v) {
            lemma_decimal_chars(v);
            law_int32_text_read_back(v as i32);
        } else {
            let part = unsigned_part(body);
            assert(is_digit(part[part.len() - 1]));
            assert(body.last() == part.last());
        }
        lemma_trim_end_run(body, ends, '\n');
    }
    if snapshot_index(text) == Some(v as i32) {
        law_trim_end(text, '\n');
        let body = trim_end(text, '\n');
        let ends = text.skip(body.len() as int);
        assert(text =~= body + ends);
        assert forall|i: int| 0 <= i < ends.len() implies #[trigger] ends[i] == '\n' by {
            assert(text[body.len() + i] == '\n');
        }
    }
}

/// Whether a level is that of the snapshot that was drawn: the last block of the stretch of 256
/// blocks with its number, counted from the first level of the fourth cycle before.
pub open spec fn is_drawn(level: i32, cycle: int, h: History) -> bool {
    h.frozen_eras matches Some(eras) && h.snapshot matches Some(text) && forall|
        era: CycleEra,
        i: int,
    |
        #[trigger] is_first_before(eras, cycle - 4, era) && #[trigger] tells(text, i)
            && in_32_bits(i) && in_32_bits(first_level(era, cycle - 4)) ==> level == (first_level(
            era,
            cycle - 4,
        ) + (i + 1) * 256 - 1) as i32
}

/// Whether a number of mutez is the part of a total that a balance is of a stake, to the nearest
/// mutez, half-way cases away from zero.
pub open spec fn is_nearest_part(part: int, total: int, balance: int, stake: int) -> bool {
    let off = magnitude(part * stake - total * balance);
    &&& 2 * off <= magnitude(stake)
    &&& 2 * off == magnitude(stake) ==> magnitude(part * stake) > magnitude(total * balance)
}

/// Whether the shares in a distribution are those of the first delegators of a delegate, by the
/// balances that were told for them.
pub open spec fn shares_fit(
    d: DelegateRewardDistributionView,
    total: int,
    info: DelegateInfo,
    balances: Seq<Seq<char>>,
) -> bool {
    &&& d.total_rewards == decimal(total)
    &&& amount_of(info.staking_balance@) matches Some(stake) && d.staking_balance == decimal(stake)
    &&& d.delegator_rewards.len() == balances.len()
    &&& forall|k: int|
        0 <= k < balances.len() ==> share_fits(
            (#[trigger] d.delegator_rewards[k]).balance,
            d.delegator_rewards[k].reward,
            total,
            amount_of(info.staking_balance@).unwrap(),
            balances[k],
        )
}

/// Whether a share tells the balance that was told, and a reward in proportion to it.
pub open spec fn share_fits(
    balance: Seq<char>,
    reward: Seq<char>,
    total: int,
    stake: int,
    told: Seq<char>,
) -> bool {
    &&& balance == decimal(reported_balance(told))
    &&& stake != 0 ==> exists|part: int|
        reward == #[trigger] decimal(part) && is_nearest_part(
            part,
            total,
            reported_balance(told),
            stake,
        )
}

/// The sum of the balances that were told.
pub open spec fn balances_sum(balances: Seq<Seq<char>>) -> int
    decreases balances.len(),
{
    if balances.len() == 0 {
        0
    } else {
        balances_sum(balances.drop_last()) + reported_balance(balances.last())
    }
}

/// Whether a check compares the balance in a description with the sum of the balances that were
/// told.
pub open spec fn check_fits(
    check: BalanceCheckView,
    delegate: Seq<char>,
    info: DelegateInfo,
    balances: Seq<Seq<char>>,
) -> bool {
    &&& check.delegate == delegate
    &&& Some(check.delegated) == amount_of(info.delegated_balance@)
    &&& check.summed == balances_sum(balances)
    &&& check.matches <==> check.delegated == check.summed
    &&& check.difference >= 0
    &&& check.difference == check.delegated - check.summed || check.difference == check.summed
        - check.delegated
}

/// Whether a finished distribution is what was described and told.
pub open spec fn entry_fits(
    d: DelegateRewardDistributionView,
    check: BalanceCheckView,
    reward: (Seq<char>, int),
    info: DelegateInfo,
    balances: Seq<Seq<char>>,
) -> bool {
    &&& d.address == reward.0
    &&& shares_fit(d, reward.1, info, balances)
    &&& shared_addresses(d) == delegators(texts(info.delegated_contracts@), d.address)
    &&& check_fits(check, d.address, info, balances)
}

/// Whether the distributions so far are what was described and told.
pub open spec fn done_fits(
    done: Seq<DelegateRewardDistributionView>,
    checks: Seq<BalanceCheckView>,
    rewards: Seq<(Seq<char>, int)>,
    h: History,
) -> bool {
    &&& done.len() <= rewards.len()
    &&& done.len() == checks.len()
    &&& done.len() <= h.infos.len()
    &&& h.infos.len() == h.balances.len()
    &&& forall|i: int|
        0 <= i < done.len() ==> entry_fits(
            #[trigger] done[i],
            checks[i],
            rewards[i],
            h.infos[i],
            h.balances[i],
        )
}

/// Whether the delegate at hand is what was described and told.
pub open spec fn delegate_fits(
    delegate: DelegatePayoutView,
    reward: (Seq<char>, int),
    info: DelegateInfo,
    balances: Seq<Seq<char>>,
) -> bool {
    &&& delegate.distribution.address == reward.0
    &&& delegate.total == reward.1
    &&& shares_fit(delegate.distribution, reward.1, info, balances)
    &&& paid_in_order(delegate)
    &&& delegate.info.delegated_contracts == texts(info.delegated_contracts@)
    &&& Some(delegate.info.staking_balance) == amount_of(info.staking_balance@)
    &&& Some(delegate.info.delegated_balance) == amount_of(info.delegated_balance@)
    &&& delegate.balance_sum == balances_sum(balances)
}

/// Whether what is paid out so far fits what was told.
pub open spec fn payout_fits(cycle: int, payout: PayoutView, h: History) -> bool {
    &&& rewards_fit(payout.rewards, h)
    &&& is_drawn(payout.level, cycle, h)
    &&& h.snapshot_hash == Some(payout.hash)
    &&& payout.done.len() < payout.rewards.len()
    &&& done_fits(payout.done, payout.checks, payout.rewards, h)
    &&& exists|range: CycleRange| #[trigger] all_told(cycle, range, h)
}

/// Whether a stage of a query is what its answers make it.
pub open spec fn stage_fits(cycle: int, stage: StageView, h: History) -> bool {
    match stage {
        StageView::Head => h == no_history(),
        StageView::Eras => h == no_history(),
        StageView::EndHash { range } => {
            &&& is_range_of(range, h.eras, cycle)
            &&& h == (History { eras: h.eras, ..no_history() })
        },
        StageView::Block { range, end_hash, level, found } => {
            &&& is_range_of(range, h.eras, cycle)
            &&& h == (History {
                eras: h.eras,
                end_hash: Some(end_hash),
                blocks: h.blocks,
                ..no_history()
            })
            &&& level == range.start + h.blocks.len()
            &&& level <= range.end
            &&& found == stored_blocks(h.blocks, range.start as int)
        },
        StageView::Connect { survey } => survey_fits(cycle, survey, h) && h.told.len() == 0,
        StageView::Metadata { survey } => survey_fits(cycle, survey, h) && h.told.len()
            < survey.found.len(),
        StageView::Operations { survey, receipt } => {
            &&& survey_fits(cycle, survey, h)
            &&& h.told.len() < survey.found.len()
            &&& survey.found[survey.index as int].anonymous == Some(true)
            &&& h.receipt == Some(receipt)
        },
        StageView::Decode { survey, updates, operations, short } => {
            &&& survey_fits(cycle, survey, h)
            &&& h.told.len() < survey.found.len()
            &&& h.receipt matches Some(receipt) && holds_updates(receipt, updates)
            &&& if survey.found[survey.index as int].anonymous == Some(true) {
                h.operations matches Some(text) && match json_lists(text) {
                    Some(lists) => if lists.len() > 2 {
                        operations == lists[2] && !short
                    } else {
                        operations.len() == 0 && short
                    },
                    None => operations.len() == 0 && short,
                }
            } else {
                operations.len() == 0 && !short
            }
        },
        StageView::FrozenEras { frozen } => {
            &&& all_told(cycle, frozen.range, h)
            &&& h.end_hash == Some(frozen.end_hash)
            &&& rewards_fit(frozen.rewards, h)
            &&& h.infos.len() == 0
            &&& h.balances.len() == 0
        },
        StageView::FrozenEnd { frozen, frozen_range } => {
            &&& all_told(cycle, frozen.range, h)
            &&& h.end_hash == Some(frozen.end_hash)
            &&& rewards_fit(frozen.rewards, h)
            &&& is_range_of(frozen_range, h.frozen_eras, cycle - 4)
            &&& h.infos.len() == 0
            &&& h.balances.len() == 0
        },
        StageView::Snapshot { frozen, frozen_range } => {
            &&& all_told(cycle, frozen.range, h)
            &&& h.end_hash == Some(frozen.end_hash)
            &&& rewards_fit(frozen.rewards, h)
            &&& is_range_of(frozen_range, h.frozen_eras, cycle - 4)
            &&& h.infos.len() == 0
            &&& h.balances.len() == 0
        },
        StageView::SnapshotHash { rewards, level } => {
            &&& rewards_fit(rewards, h)
            &&& is_drawn(level, cycle, h)
            &&& h.infos.len() == 0
            &&& h.balances.len() == 0
            &&& exists|range: CycleRange| #[trigger] all_told(cycle, range, h)
        },
        StageView::DelegateInfo { payout } => payout_fits(cycle, payout, h) && h.infos.len()
            == payout.done.len(),
        StageView::DelegatorBalance { payout, delegate } => {
            &&& payout_fits(cycle, payout, h)
            &&& h.infos.len() == payout.done.len() + 1
            &&& !delegate.complete()
            &&& delegate_fits(
                delegate,
                payout.rewards[payout.done.len() as int],
                h.infos.last(),
                h.balances.last(),
            )
        },
        StageView::Done { outcome, checks } => outcome matches Ok(done) ==> {
            &&& exists|range: CycleRange| #[trigger] all_told(cycle, range, h)
            &&& h.infos.len() == done.len()
            &&& exists|rewards: Seq<(Seq<char>, int)>|
                {
                    &&& #[trigger] rewards_fit(rewards, h)
                    &&& rewards.len() == done.len()
                    &&& done_fits(done, checks, rewards, h)
                }
        },
    }
}

/// At most one era is the first that began before a cycle, and there is one if any began before it.
pub proof fn lemma_first_before(eras: Seq<CycleEra>, cycle_num: i32)
    ensures
        match matching_era(eras, cycle_num) {
            Some(chosen) => is_first_before(eras, cycle_num as int, chosen) && forall|era: CycleEra| #[trigger]
                is_first_before(eras, cycle_num as int, era) ==> era == chosen,
            None => forall|era: CycleEra| !(#[trigger] is_first_before(eras, cycle_num as int, era)),
        },
{
    law_chosen_era(eras, cycle_num);
    if let Some(chosen) = matching_era(eras, cycle_num) {
        let i = choose|i: int|
            0 <= i < eras.len() && #[trigger] eras[i] == chosen && chosen.first_cycle < cycle_num
                && forall|j: int| 0 <= j < i ==> #[trigger] eras[j].first_cycle >= cycle_num;
        assert forall|era: CycleEra| #[trigger]
            is_first_before(eras, cycle_num as int, era) implies era == chosen by {
            let k = choose|k: int|
                0 <= k < eras.len() && #[trigger] eras[k] == era && era.first_cycle < cycle_num
                    && forall|j: int| 0 <= j < k ==> #[trigger] eras[j].first_cycle >= cycle_num;
            if i < k {
                assert(eras[i].first_cycle >= cycle_num);
            }
            if k < i {
                assert(eras[k].first_cycle >= cycle_num);
            }
        }
    }
}

/// The range of a cycle is that of the era that is chosen for it.
proof fn lemma_range(eras: Seq<CycleEra>, cycle_num: i32, range: CycleRange)
    requires
        matching_era(eras, cycle_num) is Some,
        ({
            let era = matching_era(eras, cycle_num).unwrap();
            &&& range.start == first_level(era, cycle_num as int) as i32
            &&& range.end == (first_level(era, cycle_num as int) + era.blocks_per_cycle - 1) as i32
        }),
    ensures
        is_range_of(range, Some(eras), cycle_num as int),
{
    lemma_first_before(eras, cycle_num);
}

/// The balance updates that are found are those of the first member of that name.
proof fn lemma_member(members: Seq<(Seq<char>, Seq<char>)>, updates: Seq<Seq<char>>)
    requires
        crate::rewards::receipts::member_named(members, "balance_updates"@) matches Some(value)
            && json_items(value) == Some(updates),
    ensures
        exists|i: int|
            0 <= i < members.len() && (#[trigger] members[i]).0 == "balance_updates"@
                && json_items(members[i].1) == Some(updates) && forall|j: int|
                0 <= j < i ==> (#[trigger] members[j]).0 != "balance_updates"@,
    decreases members.len(),
{
    if members.len() > 0 {
        if members[0].0 == "balance_updates"@ {
            assert(json_items(members[0].1) == Some(updates));
        } else {
            let rest = members.skip(1);
            lemma_member(rest, updates);
            let i = choose|i: int|
                0 <= i < rest.len() && (#[trigger] rest[i]).0 == "balance_updates"@ && json_items(
                    rest[i].1,
                ) == Some(updates) && forall|j: int|
                    0 <= j < i ==> (#[trigger] rest[j]).0 != "balance_updates"@;
            assert(members[i + 1] == rest[i]);
            assert forall|j: int| 0 <= j < i + 1 implies (#[trigger] members[j]).0
                != "balance_updates"@ by {
                if j > 0 {
                    assert(rest[j - 1] == members[j]);
                }
            }
        }
    }
}

proof fn lemma_receipts(receipt: Seq<char>, updates: Seq<Seq<char>>)
    requires
        crate::rewards::receipts::balance_update_texts(receipt) == Ok::<
            Seq<Seq<char>>,
            crate::rewards::error::RewardsError,
        >(updates),
    ensures
        holds_updates(receipt, updates),
{
    lemma_member(json_members(receipt).unwrap(), updates);
}

/// A survey that is through has told of every block, and the active rewards are what was told.
proof fn lemma_survey_next(cycle: int, survey: SurveyView, h: History)
    requires
        survey_fits(cycle, survey, h),
    ensures
        stage_fits(cycle, crate::rewards::run::survey_next(survey), h),
{
    if survey.index >= survey.found.len() {
        let rewards = crate::rewards::credits::active_rewards(survey.entries);
        law_active_delegates(survey.entries, Seq::empty());
        assert forall|address: Seq<char>| #[trigger] lookup(rewards, address) == (if told_change(
            h.told,
            address,
        ) != 0 {
            Some(told_change(h.told, address))
        } else {
            None
        }) by {
            law_active_delegates(survey.entries, address);
            assert(rewards_at(survey.entries, address).sum == told_change(h.told, address));
        }
    }
}

/// A block that is passed over changes nothing.
proof fn lemma_block_skipped(cycle: int, survey: SurveyView, h: History)
    requires
        survey_fits(cycle, survey, h),
        h.told.len() < survey.found.len(),
    ensures
        stage_fits(
            cycle,
            crate::rewards::run::block_skipped(survey),
            History { told: h.told.push(BlockTold::Nothing), ..h },
        ),
{
    let next = History { told: h.told.push(BlockTold::Nothing), ..h };
    assert(next.told.drop_last() =~= h.told);
    assert forall|address: Seq<char>| #[trigger]
        rewards_at(survey.entries, address).sum == told_change(next.told, address) by {
        assert(rewards_at(survey.entries, address).sum == told_change(h.told, address));
    }
    lemma_survey_next(cycle, SurveyView { index: survey.index + 1, ..survey }, next);
}

/// A block that is taken in adds what its receipts hold.
proof fn lemma_block_taken(
    cycle: int,
    survey: SurveyView,
    h: History,
    updates: Seq<Option<BalanceUpdateKind>>,
    operations: Seq<Result<OperationRepresentation, String>>,
    entries: RewardEntries,
)
    requires
        survey_fits(cycle, survey, h),
        h.told.len() < survey.found.len(),
        after_steps(survey.entries, block_steps(updates, operations)) == Ok::<
            RewardEntries,
            crate::rewards::error::RewardsError,
        >(entries),
    ensures
        stage_fits(
            cycle,
            crate::rewards::run::survey_next(
                SurveyView { index: survey.index + 1, entries, ..survey },
            ),
            History { told: h.told.push(BlockTold::Receipts { updates, operations }), ..h },
        ),
{
    let next = History { told: h.told.push(BlockTold::Receipts { updates, operations }), ..h };
    assert(next.told.drop_last() =~= h.told);
    law_rewards_are_totals(survey.entries, block_steps(updates, operations), Seq::empty());
    assert forall|address: Seq<char>| #[trigger] rewards_at(entries, address).sum == told_change(
        next.told,
        address,
    ) by {
        assert(rewards_at(survey.entries, address).sum == told_change(h.told, address));
        law_block_adds_the_sum_of_its_changes(survey.entries, updates, operations, address);
    }
    lemma_survey_next(cycle, SurveyView { index: survey.index + 1, entries, ..survey }, next);
}

/// The level of the snapshot is computed from the number in the reply.
proof fn lemma_drawn(cycle: int, frozen_range: CycleRange, h: History, text: Seq<char>, index: i32)
    requires
        is_range_of(frozen_range, h.frozen_eras, cycle - 4),
        snapshot_index(text) == Some(index),
    ensures
        is_drawn(
            crate::rewards::schedule::snapshot_block(
                frozen_range.start as int,
                index as int,
            ) as i32,
            cycle,
            History { snapshot: Some(text), ..h },
        ),
{
    let eras = h.frozen_eras.unwrap();
    let level = crate::rewards::schedule::snapshot_block(
        frozen_range.start as int,
        index as int,
    ) as i32;
    assert forall|era: CycleEra, i: int| #[trigger]
        is_first_before(eras, cycle - 4, era) && #[trigger] tells(text, i) && in_32_bits(i)
            && in_32_bits(first_level(era, cycle - 4)) implies level == (first_level(era, cycle - 4)
        + (i + 1) * 256 - 1) as i32 by {
        law_snapshot_is_the_told_number(text, i);
        assert(index == i);
    }
}

/// A finished delegate fits what was described and told.
proof fn lemma_delegate_done(cycle: int, payout: PayoutView, delegate: DelegatePayoutView, h: History)
    requires
        rewards_fit(payout.rewards, h),
        is_drawn(payout.level, cycle, h),
        h.snapshot_hash == Some(payout.hash),
        payout.done.len() < payout.rewards.len(),
        done_fits(payout.done, payout.checks, payout.rewards, h),
        exists|range: CycleRange| #[trigger] all_told(cycle, range, h),
        h.infos.len() == payout.done.len() + 1,
        delegate_fits(
            delegate,
            payout.rewards[payout.done.len() as int],
            h.infos.last(),
            h.balances.last(),
        ),
    ensures
        stage_fits(cycle, crate::rewards::run::delegate_next(payout, delegate), h),
{
    if delegate.complete() {
        law_complete_payout_covers_all(delegate);
        let check = crate::rewards::distribution::balance_check(
            delegate.distribution.address,
            delegate.info.delegated_balance,
            delegate.balance_sum,
        );
        let done = payout.done.push(delegate.distribution);
        let checks = payout.checks.push(check);
        assert forall|i: int| 0 <= i < done.len() implies entry_fits(
            #[trigger] done[i],
            checks[i],
            payout.rewards[i],
            h.infos[i],
            h.balances[i],
        ) by {
            if i < payout.done.len() {
                assert(done[i] == payout.done[i]);
                assert(checks[i] == payout.checks[i]);
            }
        }
        assert(done_fits(done, checks, payout.rewards, h));
        assert(rewards_fit(payout.rewards, h));
    }
}

/// A delegate begins as it was described.
proof fn lemma_delegate_begun(
    cycle: int,
    payout: PayoutView,
    h: History,
    info: DelegateInfo,
)
    requires
        payout_fits(cycle, payout, h),
        h.infos.len() == payout.done.len(),
        info.amounts_readable(),
    ensures
        ({
            let (delegate, total) = payout.rewards[payout.done.len() as int];
            stage_fits(
                cycle,
                crate::rewards::run::delegate_next(
                    payout,
                    payout_begun(delegate, total, info.numbers()),
                ),
                History { infos: h.infos.push(info), balances: h.balances.push(Seq::empty()), ..h },
            )
        }),
{
    let next = History {
        infos: h.infos.push(info),
        balances: h.balances.push(Seq::empty()),
        ..h
    };
    let (delegate, total) = payout.rewards[payout.done.len() as int];
    let begun = payout_begun(delegate, total, info.numbers());
    law_payout_begins_in_order(delegate, total, info.numbers());
    assert(done_fits(payout.done, payout.checks, payout.rewards, next)) by {
        assert forall|i: int| 0 <= i < payout.done.len() implies entry_fits(
            #[trigger] payout.done[i],
            payout.checks[i],
            payout.rewards[i],
            next.infos[i],
            next.balances[i],
        ) by {
            assert(next.infos[i] == h.infos[i]);
            assert(next.balances[i] == h.balances[i]);
        }
    }
    let range = choose|range: CycleRange| #[trigger] all_told(cycle, range, h);
    assert(all_told(cycle, range, next));
    assert(next.balances.last() =~= Seq::empty());
    lemma_delegate_done(cycle, payout, begun, next);
}

/// A balance that is told gives the next delegator its share.
proof fn lemma_delegate_continued(
    cycle: int,
    payout: PayoutView,
    delegate: DelegatePayoutView,
    h: History,
    text: Seq<char>,
)
    requires
        payout_fits(cycle, payout, h),
        h.infos.len() == payout.done.len() + 1,
        !delegate.complete(),
        delegate_fits(
            delegate,
            payout.rewards[payout.done.len() as int],
            h.infos.last(),
            h.balances.last(),
        ),
    ensures
        stage_fits(
            cycle,
            crate::rewards::run::delegate_next(
                payout,
                payout_continued(delegate, reported_balance(text)),
            ),
            History { balances: h.balances.drop_last().push(h.balances.last().push(text)), ..h },
        ),
{
    let next = History {
        balances: h.balances.drop_last().push(h.balances.last().push(text)),
        ..h
    };
    let balance = reported_balance(text);
    let stake = delegate.info.staking_balance;
    let continued = payout_continued(delegate, balance);
    law_payout_stays_in_order(delegate, balance);
    let told = h.balances.last().push(text);
    assert(next.balances.last() == told);
    assert(told.drop_last() =~= h.balances.last());
    let d = continued.distribution;
    let part = crate::rewards::distribution::reward_share(stake, delegate.total, balance);
    if stake != 0 {
        law_rounding_goes_to_the_nearest(stake, delegate.total, balance);
        assert(is_nearest_part(part, delegate.total, balance, stake));
    }
    assert forall|k: int| 0 <= k < told.len() implies share_fits(
        (#[trigger] d.delegator_rewards[k]).balance,
        d.delegator_rewards[k].reward,
        delegate.total,
        stake,
        told[k],
    ) by {
        if k < h.balances.last().len() {
            assert(d.delegator_rewards[k] == delegate.distribution.delegator_rewards[k]);
            assert(told[k] == h.balances.last()[k]);
        } else {
            assert(d.delegator_rewards[k].reward == decimal(part));
        }
    }
    assert(done_fits(payout.done, payout.checks, payout.rewards, next)) by {
        assert forall|i: int| 0 <= i < payout.done.len() implies entry_fits(
            #[trigger] payout.done[i],
            payout.checks[i],
            payout.rewards[i],
            next.infos[i],
            next.balances[i],
        ) by {
            assert(next.balances[i] == h.balances[i]);
        }
    }
    let range = choose|range: CycleRange| #[trigger] all_told(cycle, range, h);
    assert(all_told(cycle, range, next));
    lemma_delegate_done(cycle, payout, continued, next);
}

/// Every answer keeps a stage what its answers make it.
proof fn lemma_step_fits(cycle_num: i32, stage: StageView, h: History, reply: Reply)
    requires
        in_32_bits(cycle_num - 4),
        stage_fits(cycle_num as int, stage, h),
    ensures
        stage_fits(
            cycle_num as int,
            transition(cycle_num, stage, reply),
            recorded(h, stage, reply),
        ),
{
    let cycle = cycle_num as int;
    let next = recorded(h, stage, reply);
    match (stage, reply) {
        (StageView::Eras, Reply::CycleEras(Some(eras))) => {
            if let Some(era) = matching_era(eras@, cycle_num) {
                lemma_range(
                    eras@,
                    cycle_num,
                    crate::rewards::run::range_of(era, cycle_num),
                );
            }
        },
        (StageView::EndHash { range }, Reply::BlockHash(hash)) => {
            assert(stored_blocks(next.blocks, range.start as int) =~= Seq::empty());
            let none: RewardEntries = Seq::empty();
            assert(ascending(none));
            assert forall|address: Seq<char>| #[trigger] rewards_at(none, address).sum
                == told_change(next.told, address) by {
                lemma_lookup_absent(none, address);
            }
        },
        (StageView::Block { range, end_hash, level, found }, Reply::Block(block)) => {
            assert(next.blocks.drop_last() =~= h.blocks);
            let none: RewardEntries = Seq::empty();
            assert(ascending(none));
            assert forall|address: Seq<char>| #[trigger] rewards_at(none, address).sum
                == told_change(next.told, address) by {
                lemma_lookup_absent(none, address);
            }
        },
        (StageView::Connect { survey }, Reply::Connected) => {
            lemma_survey_next(cycle, survey, h);
        },
        (StageView::Metadata { survey }, Reply::Failed { .. }) => {
            lemma_block_skipped(cycle, survey, h);
        },
        (StageView::Operations { survey, .. }, Reply::Failed { .. }) => {
            lemma_block_skipped(cycle, survey, h);
        },
        (StageView::Metadata { survey }, Reply::Metadata(receipt)) => {
            if let Ok(updates) = crate::rewards::receipts::balance_update_texts(receipt@) {
                lemma_receipts(receipt@, updates);
            }
        },
        (StageView::Operations { survey, receipt }, Reply::Operations(operations)) => {
            if let Ok(updates) = crate::rewards::receipts::balance_update_texts(receipt) {
                lemma_receipts(receipt, updates);
            }
        },
        (StageView::Decode { survey, .. }, Reply::Decoded { updates, operations }) => {
            if let Ok(entries) = after_steps(
                survey.entries,
                block_steps(updates@, operations@),
            ) {
                lemma_block_taken(cycle, survey, h, updates@, operations@, entries);
            }
        },
        (StageView::FrozenEras { frozen }, Reply::CycleEras(Some(eras))) => {
            let earlier = (cycle_num - 4) as i32;
            if let Some(era) = matching_era(eras@, earlier) {
                lemma_range(eras@, earlier, crate::rewards::run::range_of(era, earlier));
            }
            assert(all_told(cycle, frozen.range, next));
        },
        (StageView::Snapshot { frozen, frozen_range }, Reply::Routed(text)) => {
            if let Some(index) = snapshot_index(text@) {
                lemma_drawn(cycle, frozen_range, h, text@, index);
            }
            assert(all_told(cycle, frozen.range, next));
        },
        (StageView::SnapshotHash { rewards, level }, Reply::BlockHash(hash)) => {
            let range = choose|range: CycleRange| #[trigger] all_told(cycle, range, h);
            assert(all_told(cycle, range, next));
            assert(rewards_fit(rewards, next));
            assert(done_fits(Seq::empty(), Seq::empty(), rewards, next));
        },
        (StageView::DelegateInfo { payout }, Reply::Delegate(Ok(info))) => {
            if info.amounts_readable() {
                lemma_delegate_begun(cycle, payout, h, info);
            }
        },
        (StageView::DelegatorBalance { payout, delegate }, Reply::Routed(text)) => {
            lemma_delegate_continued(cycle, payout, delegate, h, text@);
        },
        _ => {},
    }
}

/// Every query is at every point what its answers make it.
pub proof fn law_query_follows_its_answers(cycle_num: i32, replies: Seq<Reply>)
    requires
        in_32_bits(cycle_num - 4),
    ensures
        stage_fits(
            cycle_num as int,
            reached(cycle_num, replies),
            history(cycle_num, replies),
        ),
    decreases replies.len(),
{
    if replies.len() > 0 {
        law_query_follows_its_answers(cycle_num, replies.drop_last());
        lemma_step_fits(
            cycle_num,
            reached(cycle_num, replies.drop_last()),
            history(cycle_num, replies.drop_last()),
            replies.last(),
        );
    }
}

/// A reply that is the decimal notation of a number and line ends tells this number.
pub proof fn law_decimal_replies_tell_their_number(v: int, ends: Seq<char>)
    requires
        forall|i: int| 0 <= i < ends.len() ==> #[trigger] ends[i] == '\n',
    ensures
        tells(decimal(v) + ends, v),
        tells(decimal(v), v),
{
    let none = Seq::<char>::empty();
    assert(decimal(v) =~= decimal(v) + none);
}

/// The stake behind a cycle is read at the block of the snapshot that was drawn for it. If the
/// reply tells the number `i`, this block is the last one of the stretch of 256 blocks with the
/// number `i`, counted from the first level of the fourth cycle before: its hash is what is asked
/// for next, and every delegate and every balance is asked for at its level and its hash.
pub proof fn law_stake_is_read_at_the_drawn_snapshot(
    cycle_num: i32,
    replies: Seq<Reply>,
    era: CycleEra,
    i: int,
    request: Request,
)
    requires
        in_32_bits(cycle_num - 4),
        ({
            let h = history(cycle_num, replies);
            &&& h.frozen_eras matches Some(eras) && is_first_before(eras, cycle_num - 4, era)
            &&& h.snapshot matches Some(text) && tells(text, i)
        }),
        in_32_bits(i),
        in_32_bits(era.first_level + (cycle_num - 4 - era.first_cycle) * era.blocks_per_cycle),
        in_32_bits(
            era.first_level + (cycle_num - 4 - era.first_cycle) * era.blocks_per_cycle + (i + 1)
                * 256 - 1,
        ),
        request.asks(cycle_num, reached(cycle_num, replies)),
    ensures
        ({
            let h = history(cycle_num, replies);
            let level = era.first_level + (cycle_num - 4 - era.first_cycle) * era.blocks_per_cycle
                + (i + 1) * 256 - 1;
            match reached(cycle_num, replies) {
                StageView::SnapshotHash { .. } => request matches Request::ResolveBlock {
                    level: asked,
                } && asked == level,
                StageView::DelegateInfo { payout } => {
                    &&& request matches Request::GetDelegate { request: get, block_hash }
                    &&& get.asks_for(
                        "chains/main/blocks/"@ + decimal(level) + "/context/delegates/"@
                            + payout.rewards[h.infos.len() as int].0,
                    )
                    &&& h.snapshot_hash == Some(block_hash@)
                },
                StageView::DelegatorBalance { delegate, .. } => {
                    &&& request matches Request::Get { request: get, block_hash }
                    &&& get.asks_for(
                        "chains/main/blocks/"@ + decimal(level)
                            + "/context/raw/json/contracts/index/"@
                            + h.infos.last().delegated_contracts@[delegate.position as int]@
                            + "/balance"@,
                    )
                    &&& h.snapshot_hash == Some(block_hash@)
                },
                _ => true,
            }
        }),
{
    law_query_follows_its_answers(cycle_num, replies);
    let h = history(cycle_num, replies);
    let level = first_level(era, cycle_num - 4) + (i + 1) * 256 - 1;
    match reached(cycle_num, replies) {
        StageView::SnapshotHash { level: reached_level, .. } => {
            assert(is_drawn(reached_level, cycle_num as int, h));
        },
        StageView::DelegateInfo { payout } => {
            assert(is_drawn(payout.level, cycle_num as int, h));
            assert(payout.level == level);
            if let Request::GetDelegate { request: get, .. } = request {
                law_request_asks_for_its_path(
                    get,
                    delegate_path(level, payout.rewards[payout.done.len() as int].0),
                );
            }
        },
        StageView::DelegatorBalance { payout, delegate } => {
            assert(is_drawn(payout.level, cycle_num as int, h));
            assert(payout.level == level);
            if let Request::Get { request: get, .. } = request {
                law_request_asks_for_its_path(
                    get,
                    balance_path(
                        level,
                        delegate.info.delegated_contracts[delegate.position as int],
                    ),
                );
            }
        },
        _ => {},
    }
}

/// The snapshot is asked for at the last block of the cycle, for the cycle, and by the hash that
/// was told for this block.
pub proof fn law_snapshot_is_asked_for_at_the_end_of_the_cycle(
    cycle_num: i32,
    replies: Seq<Reply>,
    era: CycleEra,
    request: Request,
)
    requires
        in_32_bits(cycle_num - 4),
        history(cycle_num, replies).eras matches Some(eras) && is_first_before(
            eras,
            cycle_num as int,
            era,
        ),
        in_32_bits(
            era.first_level + (cycle_num - era.first_cycle) * era.blocks_per_cycle
                + era.blocks_per_cycle - 1,
        ),
        reached(cycle_num, replies) is Snapshot,
        request.asks(cycle_num, reached(cycle_num, replies)),
    ensures
        ({
            let level = era.first_level + (cycle_num - era.first_cycle) * era.blocks_per_cycle
                + era.blocks_per_cycle - 1;
            &&& request matches Request::Get { request: get, block_hash }
            &&& get.asks_for(
                "chains/main/blocks/"@ + decimal(level) + "/context/selected_snapshot?cycle="@
                    + decimal(cycle_num as int),
            )
            &&& history(cycle_num, replies).end_hash == Some(block_hash@)
        }),
{
    law_query_follows_its_answers(cycle_num, replies);
    let h = history(cycle_num, replies);
    let level = first_level(era, cycle_num as int) + era.blocks_per_cycle - 1;
    if let StageView::Snapshot { frozen, .. } = reached(cycle_num, replies) {
        assert(is_range_of(frozen.range, h.eras, cycle_num as int));
        assert(frozen.range.end == level);
        if let Request::Get { request: get, .. } = request {
            law_request_asks_for_its_path(get, snapshot_path(level, cycle_num as int));
        }
    }
}

/// The blocks of a cycle are asked for one after the other, from its first level to its last, and
/// then the receipts of those of them that are in storage, in the same order.
pub proof fn law_blocks_are_asked_for_in_order(
    cycle_num: i32,
    replies: Seq<Reply>,
    era: CycleEra,
    request: Request,
)
    requires
        in_32_bits(cycle_num - 4),
        history(cycle_num, replies).eras matches Some(eras) && is_first_before(
            eras,
            cycle_num as int,
            era,
        ),
        in_32_bits(era.first_level + (cycle_num - era.first_cycle) * era.blocks_per_cycle),
        in_32_bits(
            era.first_level + (cycle_num - era.first_cycle) * era.blocks_per_cycle
                + era.blocks_per_cycle - 1,
        ),
        request.asks(cycle_num, reached(cycle_num, replies)),
    ensures
        ({
            let h = history(cycle_num, replies);
            let start = era.first_level + (cycle_num - era.first_cycle) * era.blocks_per_cycle;
            let stored = stored_blocks(h.blocks, start);
            match reached(cycle_num, replies) {
                StageView::EndHash { .. } => request matches Request::ResolveBlock { level }
                    && level == start + era.blocks_per_cycle - 1,
                StageView::Block { .. } => {
                    &&& request matches Request::ReadBlock { level }
                    &&& level == start + h.blocks.len()
                    &&& h.blocks.len() < era.blocks_per_cycle
                },
                StageView::Connect { .. } => {
                    &&& request is Connect
                    &&& h.blocks.len() == if era.blocks_per_cycle > 0 {
                        era.blocks_per_cycle as int
                    } else {
                        0
                    }
                },
                StageView::Metadata { .. } => {
                    &&& request matches Request::ReadMetadata { level }
                    &&& h.told.len() < stored.len()
                    &&& level == stored[h.told.len() as int].level
                },
                StageView::Operations { .. } => {
                    &&& request matches Request::ReadOperations { level }
                    &&& h.told.len() < stored.len()
                    &&& level == stored[h.told.len() as int].level
                    &&& stored[h.told.len() as int].anonymous == Some(true)
                },
                StageView::Decode { .. } => {
                    &&& request matches Request::Decode { updates, operations }
                    &&& h.receipt matches Some(receipt)
                    &&& holds_updates(receipt, texts(updates@))
                    &&& h.told.len() < stored.len()
                    &&& if stored[h.told.len() as int].anonymous == Some(true) {
                        &&& h.operations matches Some(text)
                        &&& if json_lists(text) is Some && json_lists(text).unwrap().len() > 2 {
                            texts(operations@) == json_lists(text).unwrap()[2]
                        } else {
                            operations@.len() == 0
                        }
                    } else {
                        operations@.len() == 0
                    }
                },
                StageView::FrozenEras { .. } => {
                    &&& request == (Request::ReadCycleEras { protocol: 11 })
                    &&& h.told.len() == stored.len()
                },
                _ => true,
            }
        }),
{
    law_query_follows_its_answers(cycle_num, replies);
    let h = history(cycle_num, replies);
    let start = first_level(era, cycle_num as int);
    match reached(cycle_num, replies) {
        StageView::EndHash { range } => {
            assert(is_range_of(range, h.eras, cycle_num as int));
        },
        StageView::Block { range, .. } => {
            assert(is_range_of(range, h.eras, cycle_num as int));
        },
        StageView::Connect { survey } => {
            assert(is_range_of(survey.range, h.eras, cycle_num as int));
        },
        StageView::Metadata { survey } => {
            assert(is_range_of(survey.range, h.eras, cycle_num as int));
        },
        StageView::Operations { survey, .. } => {
            assert(is_range_of(survey.range, h.eras, cycle_num as int));
        },
        StageView::Decode { survey, .. } => {
            assert(is_range_of(survey.range, h.eras, cycle_num as int));
            if let Request::Decode { operations, .. } = request {
                assert(texts(operations@).len() == operations@.len());
            }
        },
        StageView::FrozenEras { frozen } => {
            assert(is_range_of(frozen.range, h.eras, cycle_num as int));
        },
        _ => {},
    }
}

/// A block in storage comes up with its level and with whether it has operations of the third
/// kind, and one that is not in storage does not come up.
pub proof fn law_stored_blocks(blocks: Seq<Option<Seq<usize>>>, start: int, k: int)
    requires
        0 <= k < blocks.len(),
        in_32_bits(start),
        in_32_bits(start + blocks.len() - 1),
    ensures
        stored_blocks(blocks, start).len() <= blocks.len(),
        blocks[k] is Some <==> exists|i: int|
            0 <= i < stored_blocks(blocks, start).len() && (#[trigger] stored_blocks(
                blocks,
                start,
            )[i]).level == start + k,
        forall|i: int, j: int|
            0 <= i < j < stored_blocks(blocks, start).len() ==> (#[trigger] stored_blocks(
                blocks,
                start,
            )[i]).level < (#[trigger] stored_blocks(blocks, start)[j]).level,
        forall|i: int|
            0 <= i < stored_blocks(blocks, start).len() ==> start <= (#[trigger] stored_blocks(
                blocks,
                start,
            )[i]).level < start + blocks.len(),
    decreases blocks.len(),
{
    let shorter = blocks.drop_last();
    let before = stored_blocks(shorter, start);
    let all = stored_blocks(blocks, start);
    if shorter.len() > 0 {
        law_stored_blocks(
            shorter,
            start,
            if k < shorter.len() {
                k
            } else {
                0
            },
        );
    }
    if blocks.last() is Some {
        assert(all.last().level == start + blocks.len() - 1);
        if k < shorter.len() {
            if blocks[k] is Some {
                let i = choose|i: int|
                    0 <= i < before.len() && (#[trigger] before[i]).level == start + k;
                assert(all[i].level == start + k);
            } else {
                assert forall|i: int| 0 <= i < all.len() implies (#[trigger] all[i]).level != start
                    + k by {
                    if i < before.len() {
                        assert(all[i] == before[i]);
                    }
                }
            }
        } else {
            assert(all[all.len() - 1].level == start + k);
        }
        assert forall|i: int, j: int| 0 <= i < j < all.len() implies (#[trigger] all[i]).level < (
        #[trigger] all[j]).level by {
            assert(all[i] == before[i]);
            if j < before.len() {
                assert(all[j] == before[j]);
            }
        }
        assert forall|i: int| 0 <= i < all.len() implies start <= (#[trigger] all[i]).level < start
            + blocks.len() by {
            if i < before.len() {
                assert(all[i] == before[i]);
            }
        }
    }
}

/// A query that succeeds has asked for every block of the cycle and was told of every one in
/// storage. It names, in alphabetical order, the addresses for which the sum of all changes that
/// it was told of is not zero, and gives this sum for each of them. Every delegator of a delegate
/// is listed with the balance that was told for it and its part of the sum, to the nearest mutez.
pub proof fn law_outcome_follows_the_answers(cycle_num: i32, replies: Seq<Reply>, address: Seq<char>)
    requires
        in_32_bits(cycle_num - 4),
    ensures
        reached(cycle_num, replies) matches StageView::Done { outcome, checks } ==> (outcome
            matches Ok(done) ==> {
            let h = history(cycle_num, replies);
            &&& exists|range: CycleRange| #[trigger] all_told(cycle_num as int, range, h)
            &&& h.infos.len() == done.len()
            &&& h.balances.len() == done.len()
            &&& checks.len() == done.len()
            &&& told_change(h.told, address) != 0 ==> exists|i: int|
                0 <= i < done.len() && (#[trigger] done[i]).address == address
                    && done[i].total_rewards == decimal(told_change(h.told, address))
            &&& told_change(h.told, address) == 0 ==> forall|i: int|
                0 <= i < done.len() ==> (#[trigger] done[i]).address != address
            &&& forall|i: int, j: int|
                0 <= i < j < done.len() ==> precedes(
                    (#[trigger] done[i]).address,
                    (#[trigger] done[j]).address,
                )
            &&& forall|i: int|
                0 <= i < done.len() ==> {
                    &&& shares_fit(
                        #[trigger] done[i],
                        told_change(h.told, done[i].address),
                        h.infos[i],
                        h.balances[i],
                    )
                    &&& shared_addresses(done[i]) == delegators(
                        texts(h.infos[i].delegated_contracts@),
                        done[i].address,
                    )
                    &&& check_fits(checks[i], done[i].address, h.infos[i], h.balances[i])
                }
        }),
{
    law_query_follows_its_answers(cycle_num, replies);
    let h = history(cycle_num, replies);
    if let StageView::Done { outcome, checks } = reached(cycle_num, replies) {
        if let Ok(done) = outcome {
            let rewards = choose|rewards: Seq<(Seq<char>, int)>|
                {
                    &&& #[trigger] rewards_fit(rewards, h)
                    &&& rewards.len() == done.len()
                    &&& done_fits(done, checks, rewards, h)
                };
            assert forall|i: int| 0 <= i < done.len() implies (#[trigger] done[i]).address
                == rewards[i].0 && rewards[i].1 == told_change(h.told, done[i].address)
                && rewards[i].1 != 0 && done[i].total_rewards == decimal(
                told_change(h.told, done[i].address),
            ) by {
                assert(entry_fits(done[i], checks[i], rewards[i], h.infos[i], h.balances[i]));
                lemma_lookup_entry(rewards, i);
                assert(lookup(rewards, rewards[i].0) == Some(rewards[i].1));
            }
            if told_change(h.told, address) != 0 {
                assert(lookup(rewards, address) == Some(told_change(h.told, address)));
                assert(has_entry(rewards, address));
                let i = rank(rewards, address) as int;
                assert(done[i].address == address && done[i].total_rewards == decimal(
                    told_change(h.told, address),
                ));
            } else {
                assert forall|i: int| 0 <= i < done.len() implies (#[trigger] done[i]).address
                    != address by {
                    assert(told_change(h.told, done[i].address) != 0);
                }
            }
            assert forall|i: int, j: int| 0 <= i < j < done.len() implies precedes(
                (#[trigger] done[i]).address,
                (#[trigger] done[j]).address,
            ) by {
                assert(precedes(rewards[i].0, rewards[j].0));
            }
            assert forall|i: int| 0 <= i < done.len() implies ({
                &&& shares_fit(
                    #[trigger] done[i],
                    told_change(h.told, done[i].address),
                    h.infos[i],
                    h.balances[i],
                )
                &&& shared_addresses(done[i]) == delegators(
                    texts(h.infos[i].delegated_contracts@),
                    done[i].address,
                )
                &&& check_fits(checks[i], done[i].address, h.infos[i], h.balances[i])
            }) by {
                assert(entry_fits(done[i], checks[i], rewards[i], h.infos[i], h.balances[i]));
            }
        }
    }
}

/// In a query that succeeds, the balance that is told for a delegator is the number in the reply
/// that was given for this delegator, however large it is.
pub proof fn law_told_balances_are_passed_on(
    cycle_num: i32,
    replies: Seq<Reply>,
    i: int,
    k: int,
    v: int,
    ends: Seq<char>,
)
    requires
        in_32_bits(cycle_num - 4),
        reached(cycle_num, replies) matches StageView::Done { outcome, .. } && outcome is Ok,
        0 <= i < history(cycle_num, replies).balances.len(),
        0 <= k < history(cycle_num, replies).balances[i].len(),
        forall|j: int| 0 <= j < ends.len() ==> #[trigger] ends[j] == '\n',
        ({
            let told = history(cycle_num, replies).balances[i][k];
            told == seq!['"'] + decimal(v) + seq!['"'] + ends || told == decimal(v) + ends
        }),
    ensures
        reached(cycle_num, replies) matches StageView::Done { outcome, .. } && outcome matches Ok(
            done,
        ) && {
            let h = history(cycle_num, replies);
            &&& i < done.len()
            &&& k < done[i].delegator_rewards.len()
            &&& done[i].delegator_rewards[k].balance == decimal(v)
            &&& done[i].delegator_rewards[k].address == delegators(
                texts(h.infos[i].delegated_contracts@),
                done[i].address,
            )[k]
            &&& amount_of(h.infos[i].staking_balance@) matches Some(stake) && (stake != 0
                ==> exists|part: int|
                done[i].delegator_rewards[k].reward == #[trigger] decimal(part) && is_nearest_part(
                    part,
                    told_change(h.told, done[i].address),
                    v,
                    stake,
                ))
        },
{
    law_outcome_follows_the_answers(cycle_num, replies, Seq::empty());
    law_told_balance_is_read(v, ends);
    let h = history(cycle_num, replies);
    if let StageView::Done { outcome, .. } = reached(cycle_num, replies) {
        if let Ok(done) = outcome {
            let d = done[i];
            assert(shares_fit(d, told_change(h.told, d.address), h.infos[i], h.balances[i]));
            assert(share_fits(
                d.delegator_rewards[k].balance,
                d.delegator_rewards[k].reward,
                told_change(h.told, d.address),
                amount_of(h.infos[i].staking_balance@).unwrap(),
                h.balances[i][k],
            ));
            assert(shared_addresses(d)[k] == d.delegator_rewards[k].address);
        }
    }
}

/// A query begins with the head and the cycle eras that are saved under the protocol number 11, and
/// asks for nothing once it is at its end. In between it asks for the hash of the last block of the
/// fourth cycle before.
pub proof fn law_first_and_last_requests(cycle_num: i32, replies: Seq<Reply>, request: Request)
    requires
        in_32_bits(cycle_num - 4),
        request.asks(cycle_num, reached(cycle_num, replies)),
    ensures
        replies.len() == 0 ==> request is ReadHead,
        match reached(cycle_num, replies) {
            StageView::Head => request is ReadHead,
            StageView::Eras => request == (Request::ReadCycleEras { protocol: 11 }),
            StageView::FrozenEras { .. } => request == (Request::ReadCycleEras { protocol: 11 }),
            StageView::FrozenEnd { .. } => {
                &&& request matches Request::ResolveBlock { level }
                &&& history(cycle_num, replies).frozen_eras matches Some(eras)
                &&& forall|era: CycleEra| #[trigger]
                    is_first_before(eras, cycle_num - 4, era) ==> level == (era.first_level + (
                    cycle_num - 4 - era.first_cycle) * era.blocks_per_cycle + era.blocks_per_cycle
                        - 1) as i32
            },
            StageView::Done { .. } => request is Finished,
            _ => !(request is Finished),
        },
{
    law_query_follows_its_answers(cycle_num, replies);
}

/// What came of a query tells all that it found, delegate by delegate and share by share.
pub proof fn law_outcomes_tell_all_they_hold(
    done: CycleRewardDistribution,
    checks: Seq<BalanceCheck>,
    i: int,
    k: int,
)
    ensures
        outcome_view(Ok(done)) matches Ok(told) && told.len() == done@.len(),
        0 <= i < done@.len() ==> {
            let told = outcome_view(Ok(done))->Ok_0[i];
            &&& told.address == done@[i].address@
            &&& told.total_rewards == done@[i].total_rewards@
            &&& told.staking_balance == done@[i].staking_balance@
            &&& told.delegator_rewards.len() == done@[i].delegator_rewards@.len()
            &&& 0 <= k < done@[i].delegator_rewards@.len() ==> {
                let share = done@[i].delegator_rewards@[k];
                &&& told.delegator_rewards[k].address == share.address@
                &&& told.delegator_rewards[k].balance == share.balance@
                &&& told.delegator_rewards[k].reward == share.reward@
            }
        },
        check_views(checks).len() == checks.len(),
        0 <= i < checks.len() ==> {
            let told = check_views(checks)[i];
            &&& told.delegate == checks[i].delegate@
            &&& told.matches == checks[i].matches
            &&& told.delegated == checks[i].delegated@
            &&& told.summed == checks[i].summed@
            &&& told.difference == checks[i].difference@
        },
{
}

/// The delegators among the first contracts come first among all delegators.
proof fn lemma_delegators_so_far(contracts: Seq<Seq<char>>, delegate: Seq<char>, n: int)
    requires
        0 <= n <= contracts.len(),
    ensures
        ({
            let some = delegators(contracts.take(n), delegate);
            let all = delegators(contracts, delegate);
            &&& some.len() <= all.len()
            &&& some == all.take(some.len() as int)
        }),
    decreases contracts.len() - n,
{
    let some = delegators(contracts.take(n), delegate);
    let all = delegators(contracts, delegate);
    if n < contracts.len() {
        lemma_delegators_so_far(contracts, delegate, n + 1);
        let more = delegators(contracts.take(n + 1), delegate);
        assert(contracts.take(n + 1).drop_last() =~= contracts.take(n));
        assert(some =~= more.take(some.len() as int));
        assert(some =~= all.take(some.len() as int));
    } else {
        assert(contracts.take(n) =~= contracts);
        assert(all.take(all.len() as int) =~= all);
    }
}

/// The delegates are asked for in alphabetical order, those for which the sum of all changes is not
/// zero, and the balances of the delegators of each in the order in which it lists them: the reply
/// with a number belongs to the delegator with this number.
pub proof fn law_balances_are_asked_for_in_order(
    cycle_num: i32,
    replies: Seq<Reply>,
    request: Request,
)
    requires
        in_32_bits(cycle_num - 4),
        request.asks(cycle_num, reached(cycle_num, replies)),
    ensures
        ({
            let h = history(cycle_num, replies);
            match reached(cycle_num, replies) {
                StageView::DelegateInfo { payout } => {
                    &&& rewards_fit(payout.rewards, h)
                    &&& h.infos.len() < payout.rewards.len()
                    &&& request matches Request::GetDelegate { request: get, .. }
                    &&& get.asks_for(
                        "chains/main/blocks/"@ + decimal(payout.level as int)
                            + "/context/delegates/"@ + payout.rewards[h.infos.len() as int].0,
                    )
                },
                StageView::DelegatorBalance { payout, .. } => {
                    let delegate = payout.rewards[h.infos.len() - 1].0;
                    let listed = delegators(texts(h.infos.last().delegated_contracts@), delegate);
                    &&& rewards_fit(payout.rewards, h)
                    &&& h.balances.last().len() < listed.len()
                    &&& request matches Request::Get { request: get, .. }
                    &&& get.asks_for(
                        "chains/main/blocks/"@ + decimal(payout.level as int)
                            + "/context/raw/json/contracts/index/"@
                            + listed[h.balances.last().len() as int] + "/balance"@,
                    )
                },
                _ => true,
            }
        }),
{
    law_query_follows_its_answers(cycle_num, replies);
    let h = history(cycle_num, replies);
    match reached(cycle_num, replies) {
        StageView::DelegateInfo { payout } => {
            if let Request::GetDelegate { request: get, .. } = request {
                law_request_asks_for_its_path(
                    get,
                    delegate_path(
                        payout.level as int,
                        payout.rewards[payout.done.len() as int].0,
                    ),
                );
            }
        },
        StageView::DelegatorBalance { payout, delegate } => {
            let contracts = delegate.info.delegated_contracts;
            let address = delegate.distribution.address;
            let position = delegate.position as int;
            lemma_delegators_so_far(contracts, address, position + 1);
            assert(contracts.take(position + 1).drop_last() =~= contracts.take(position));
            let some = delegators(contracts.take(position), address);
            let all = delegators(contracts, address);
            assert(shared_addresses(delegate.distribution).len() == h.balances.last().len());
            assert(some.len() == h.balances.last().len());
            assert(some.push(contracts[position])[some.len() as int] == contracts[position]);
            assert(all.take(some.len() as int + 1)[some.len() as int] == all[some.len() as int]);
            if let Request::Get { request: get, .. } = request {
                law_request_asks_for_its_path(
                    get,
                    balance_path(payout.level as int, contracts[position]),
                );
            }
        },
        _ => {},
    }
}

} // verus!
