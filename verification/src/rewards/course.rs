//! When a query goes on, when it fails, and which answers it can work with.
use crate::mutez::{amount_of, amount_refusal};
use crate::rewards::block_totals::{
    law_block_counts_if_readable, operation_is_readable, update_is_readable,
};
use crate::rewards::credits::{
    after_steps, block_steps, law_readable_receipts_are_counted, readable_steps, updates_steps,
};
use crate::rewards::distribution::BalanceCheckView;
use crate::rewards::error::RewardsError;
use crate::rewards::history::{
    first_level, in_32_bits, is_first_before, law_snapshot_is_the_told_number, lemma_first_before,
    tells,
};
use crate::rewards::receipts::{json_items, json_members, member_named};
use crate::rewards::run::{transition, tolerates, Reply, StageView};
use crate::rewards::schedule::{snapshot_index, CycleEra};
use crate::rewards::types::{
    DelegateInfo, DelegateRewardDistributionView, OperationRepresentation,
};
use vstd::prelude::*;

verus! {

/// Whether a query has failed with an error before any delegate was through.
pub open spec fn fails_with(stage: StageView, error: RewardsError) -> bool {
    fails_after(stage, error, Seq::empty())
}

/// Whether a query has failed with an error after these comparisons.
pub open spec fn fails_after(
    stage: StageView,
    error: RewardsError,
    compared: Seq<BalanceCheckView>,
) -> bool {
    stage matches StageView::Done { outcome, checks } && checks == compared && outcome == Err::<
        Seq<DelegateRewardDistributionView>,
        RewardsError,
    >(error)
}

/// Whether a query has succeeded.
pub open spec fn succeeds(stage: StageView) -> bool {
    stage matches StageView::Done { outcome, .. } && outcome is Ok
}

/// Only the known protocol lets a query begin.
pub proof fn law_query_begins_with_the_known_protocol(cycle_num: i32, reply: Reply)
    requires
        reply is Head,
    ensures
        ({
            let next = transition(cycle_num, StageView::Head, reply);
            match reply {
                Reply::Head(None) => fails_with(next, RewardsError::HeadUnavailable),
                Reply::Head(Some(head)) => if head.number == Some(12u16) {
                    next is Eras
                } else {
                    fails_with(next, RewardsError::UnsupportedProtocol { protocol: head.hash })
                },
                _ => false,
            }
        }),
{
}

/// A query goes on with the cycle eras if one of them began before the cycle in question, and fails
/// if none did, or none are saved. The second time the cycle is the fourth one before.
pub proof fn law_eras_are_needed(cycle_num: i32, stage: StageView, eras: Option<Vec<CycleEra>>)
    requires
        stage is Eras || (stage is FrozenEras && in_32_bits(cycle_num - 4)),
    ensures
        ({
            let next = transition(cycle_num, stage, Reply::CycleEras(eras));
            let cycle = if stage is Eras {
                cycle_num as int
            } else {
                cycle_num - 4
            };
            match eras {
                None => fails_with(next, RewardsError::NoSavedCycleEras),
                Some(list) => if exists|i: int|
                    0 <= i < list@.len() && (#[trigger] list@[i]).first_cycle < cycle {
                    if stage is Eras {
                        next is EndHash
                    } else {
                        next is FrozenEnd
                    }
                } else {
                    fails_with(next, RewardsError::NoMatchingCycleEra)
                },
            }
        }),
{
    let cycle = if stage is Eras {
        cycle_num
    } else {
        (cycle_num - 4) as i32
    };
    if let Some(list) = eras {
        crate::rewards::schedule::law_chosen_era(list@, cycle);
    }
}

/// The blocks are asked for once the hash of the last one is there, and the connection once the
/// last one was asked for.
pub proof fn law_blocks_come_before_the_connection(cycle_num: i32, stage: StageView, reply: Reply)
    ensures
        stage matches StageView::EndHash { range } ==> (reply is BlockHash ==> if range.start
            <= range.end {
            transition(cycle_num, stage, reply) is Block
        } else {
            transition(cycle_num, stage, reply) is Connect
        }),
        stage matches StageView::Block { range, level, .. } ==> (reply is Block ==> if level
            < range.end {
            transition(cycle_num, stage, reply) is Block
        } else {
            transition(cycle_num, stage, reply) is Connect
        }),
        stage matches StageView::Connect { survey } ==> (reply is Connected ==> if survey.index
            < survey.found.len() {
            transition(cycle_num, stage, reply) is Metadata
        } else {
            transition(cycle_num, stage, reply) is FrozenEras
        }),
{
}

/// Whether one of the members has the name of the balance updates.
pub open spec fn has_updates(receipt: Seq<char>) -> bool {
    json_members(receipt) matches Some(members) && exists|i: int|
        0 <= i < members.len() && (#[trigger] members[i]).0 == "balance_updates"@
}

proof fn lemma_member_found(members: Seq<(Seq<char>, Seq<char>)>)
    ensures
        member_named(members, "balance_updates"@) is Some <==> exists|i: int|
            0 <= i < members.len() && (#[trigger] members[i]).0 == "balance_updates"@,
    decreases members.len(),
{
    if members.len() > 0 {
        let rest = members.skip(1);
        lemma_member_found(rest);
        if members[0].0 != "balance_updates"@ {
            if exists|i: int|
                0 <= i < rest.len() && (#[trigger] rest[i]).0 == "balance_updates"@ {
                let i = choose|i: int|
                    0 <= i < rest.len() && (#[trigger] rest[i]).0 == "balance_updates"@;
                assert(members[i + 1].0 == "balance_updates"@);
            }
            if exists|i: int|
                0 <= i < members.len() && (#[trigger] members[i]).0 == "balance_updates"@ {
                let i = choose|i: int|
                    0 <= i < members.len() && (#[trigger] members[i]).0 == "balance_updates"@;
                assert(rest[i - 1].0 == "balance_updates"@);
            }
        }
    }
}

/// Whether a receipt leads to its balance updates, or to the error that says why not.
pub open spec fn leads_to_updates(receipt: Seq<char>, next: StageView) -> bool {
    if !has_updates(receipt) {
        fails_with(next, RewardsError::BalanceUpdatesNotFound)
    } else {
        next is Decode || fails_with(next, RewardsError::BalanceUpdatesNotArray)
    }
}

/// The receipts of the operations are asked for where a block has operations of the third kind, and
/// only there. A receipt without balance updates makes a query fail.
pub proof fn law_receipts_are_taken_apart(cycle_num: i32, stage: StageView, reply: Reply)
    ensures
        stage matches StageView::Metadata { survey } ==> (reply matches Reply::Metadata(receipt)
            ==> if survey.found[survey.index as int].anonymous == Some(true) {
            transition(cycle_num, stage, reply) is Operations
        } else {
            leads_to_updates(receipt@, transition(cycle_num, stage, reply))
        }),
        stage matches StageView::Operations { receipt, .. } ==> (reply is Operations
            ==> leads_to_updates(receipt, transition(cycle_num, stage, reply))),
{
    match (stage, reply) {
        (StageView::Metadata { .. }, Reply::Metadata(receipt)) => {
            if let Some(members) = json_members(receipt@) {
                lemma_member_found(members);
            }
        },
        (StageView::Operations { receipt, .. }, Reply::Operations(_)) => {
            if let Some(members) = json_members(receipt) {
                lemma_member_found(members);
            }
        },
        _ => {},
    }
}

/// The balance updates of a receipt are its items where they are an array; a query fails only where
/// they are none.
pub proof fn law_updates_are_an_array(
    cycle_num: i32,
    stage: StageView,
    receipt: String,
    i: int,
)
    requires
        stage matches StageView::Metadata { survey } && survey.found[survey.index as int].anonymous
            != Some(true),
        json_members(receipt@) matches Some(members) && 0 <= i < members.len() && members[i].0
            == "balance_updates"@ && (forall|j: int|
            0 <= j < i ==> (#[trigger] members[j]).0 != "balance_updates"@),
    ensures
        ({
            let value = json_members(receipt@).unwrap()[i].1;
            let next = transition(cycle_num, stage, Reply::Metadata(receipt));
            match json_items(value) {
                Some(items) => next matches StageView::Decode { updates, .. } && updates == items,
                None => fails_with(next, RewardsError::BalanceUpdatesNotArray),
            }
        }),
{
    lemma_first_member(json_members(receipt@).unwrap(), i);
}

proof fn lemma_first_member(members: Seq<(Seq<char>, Seq<char>)>, i: int)
    requires
        0 <= i < members.len(),
        members[i].0 == "balance_updates"@,
        forall|j: int| 0 <= j < i ==> (#[trigger] members[j]).0 != "balance_updates"@,
    ensures
        member_named(members, "balance_updates"@) == Some(members[i].1),
    decreases members.len(),
{
    if i > 0 {
        assert(members[0].0 != "balance_updates"@);
        let rest = members.skip(1);
        assert(rest[i - 1] == members[i]);
        assert forall|j: int| 0 <= j < i - 1 implies (#[trigger] rest[j]).0
            != "balance_updates"@ by {
            assert(members[j + 1] == rest[j]);
        }
        lemma_first_member(rest, i - 1);
    }
}

/// A query goes on after a block all of whose changes can be read, and fails after any other one.
pub proof fn law_readable_blocks_are_counted(cycle_num: i32, stage: StageView, reply: Reply)
    requires
        stage is Decode,
        reply is Decoded,
    ensures
        stage matches StageView::Decode { survey, .. } && reply matches Reply::Decoded {
            updates,
            operations,
        } && if (forall|i: int|
            0 <= i < updates@.len() ==> update_is_readable(#[trigger] updates@[i])) && (forall|i: int|
            0 <= i < operations@.len() ==> operation_is_readable(#[trigger] operations@[i])) {
            if survey.index + 1 < survey.found.len() {
                transition(cycle_num, stage, reply) is Metadata
            } else {
                transition(cycle_num, stage, reply) is FrozenEras
            }
        } else {
            transition(cycle_num, stage, reply) matches StageView::Done { outcome, checks }
                && outcome is Err && checks.len() == 0
        },
{
    if let StageView::Decode { survey, .. } = stage {
        if let Reply::Decoded { updates, operations } = reply {
            law_block_counts_if_readable(survey.entries, updates@, operations@);
        }
    }
}

/// The snapshot is asked for once the hash of the last block of the earlier cycle is there. Any
/// number of 32 bits in the reply leads on to the block of the snapshot, and any other reply makes
/// the query fail.
pub proof fn law_every_snapshot_leads_on(cycle_num: i32, stage: StageView, reply: Reply, v: i32)
    ensures
        stage is FrozenEnd && reply is BlockHash ==> transition(cycle_num, stage, reply) is Snapshot,
        stage is Snapshot ==> (reply matches Reply::Routed(text) ==> (tells(text@, v as int)
            ==> transition(cycle_num, stage, reply) is SnapshotHash)),
        stage is Snapshot ==> (reply matches Reply::Routed(text) ==> if exists|i: int|
            in_32_bits(i) && #[trigger] tells(text@, i) {
            transition(cycle_num, stage, reply) is SnapshotHash
        } else {
            fails_with(
                transition(cycle_num, stage, reply),
                RewardsError::InvalidSnapshot { reply: text },
            )
        }),
        stage matches StageView::SnapshotHash { rewards, .. } ==> (reply is BlockHash
            ==> if rewards.len() > 0 {
            transition(cycle_num, stage, reply) is DelegateInfo
        } else {
            succeeds(transition(cycle_num, stage, reply))
        }),
{
    if stage is Snapshot {
        if let Reply::Routed(text) = reply {
            if tells(text@, v as int) {
                law_snapshot_is_the_told_number(text@, v as int);
            }
            if let Some(index) = snapshot_index(text@) {
                law_snapshot_is_the_told_number(text@, index as int);
            }
            assert forall|i: int| in_32_bits(i) && #[trigger] tells(text@, i) implies snapshot_index(
                text@,
            ) is Some by {
                law_snapshot_is_the_told_number(text@, i);
            }
        }
    }
}

/// Whether all balances in a description are numbers.
pub open spec fn is_readable_info(info: DelegateInfo) -> bool {
    &&& amount_of(info.full_balance@) is Some
    &&& amount_of(info.current_frozen_deposits@) is Some
    &&& amount_of(info.frozen_deposits@) is Some
    &&& amount_of(info.staking_balance@) is Some
    &&& amount_of(info.delegated_balance@) is Some
}

/// A query goes on after a description all of whose balances are numbers, and after every reply for
/// a delegator. It succeeds after the last one, and not before. Any other description makes it
/// fail.
pub proof fn law_delegates_follow_each_other(cycle_num: i32, stage: StageView, reply: Reply)
    ensures
        stage matches StageView::DelegateInfo { payout } ==> (reply matches Reply::Delegate(Ok(info))
            ==> ({
            let next = transition(cycle_num, stage, reply);
            if is_readable_info(info) {
                goes_on(next, payout.done.len() as int, payout.rewards.len() as int)
            } else {
                fails_after(
                    next,
                    RewardsError::InvalidAmount {
                        error: amount_refusal(
                            if amount_of(info.full_balance@) is None {
                                info.full_balance@
                            } else if amount_of(info.current_frozen_deposits@) is None {
                                info.current_frozen_deposits@
                            } else if amount_of(info.frozen_deposits@) is None {
                                info.frozen_deposits@
                            } else if amount_of(info.staking_balance@) is None {
                                info.staking_balance@
                            } else {
                                info.delegated_balance@
                            },
                        ),
                    },
                    payout.checks,
                )
            }
        })),
        stage matches StageView::DelegateInfo { payout } ==> (reply matches Reply::Delegate(
            Err(message),
        ) ==> fails_after(
            transition(cycle_num, stage, reply),
            RewardsError::InvalidDelegateInfo { message },
            payout.checks,
        )),
        stage matches StageView::DelegatorBalance { payout, .. } ==> (reply is Routed ==> goes_on(
            transition(cycle_num, stage, reply),
            payout.done.len() as int,
            payout.rewards.len() as int,
        )),
{
}

/// Whether a query asks for another balance or, with one delegate more, for another delegate, or
/// has succeeded after the last one.
pub open spec fn goes_on(next: StageView, done: int, all: int) -> bool {
    match next {
        StageView::DelegatorBalance { payout, .. } => payout.done.len() == done,
        StageView::DelegateInfo { payout } => payout.done.len() == done + 1 && done + 1 < all,
        StageView::Done { outcome, .. } => outcome matches Ok(list) && list.len() == done + 1
            && done + 1 >= all,
        _ => false,
    }
}

/// A failure of what was asked makes a query fail with the message that came, but for the receipts
/// of a block: a block without receipts is passed over. An answer to something else than was asked
/// changes nothing, and nothing changes a query at its end.
pub proof fn law_failures_end_a_query(cycle_num: i32, stage: StageView, reply: Reply)
    ensures
        reply matches Reply::Failed { message } ==> ({
            let next = transition(cycle_num, stage, reply);
            match stage {
                StageView::Done { .. } => next == stage,
                StageView::Metadata { survey } => if survey.index + 1 < survey.found.len() {
                    next is Metadata
                } else {
                    next is FrozenEras
                },
                StageView::Operations { survey, .. } => if survey.index + 1 < survey.found.len() {
                    next is Metadata
                } else {
                    next is FrozenEras
                },
                StageView::DelegateInfo { payout } => fails_after(
                    next,
                    RewardsError::Service { message },
                    payout.checks,
                ),
                StageView::DelegatorBalance { payout, .. } => fails_after(
                    next,
                    RewardsError::Service { message },
                    payout.checks,
                ),
                _ => fails_with(next, RewardsError::Service { message }),
            }
        }),
        !(reply is Failed) && !is_asked_for(stage, reply) ==> transition(cycle_num, stage, reply)
            == stage,
        stage is Done ==> transition(cycle_num, stage, reply) == stage,
{
}

/// Whether a reply is one to what is asked for at a stage.
pub open spec fn is_asked_for(stage: StageView, reply: Reply) -> bool {
    match stage {
        StageView::Head => reply is Head,
        StageView::Eras => reply is CycleEras,
        StageView::EndHash { .. } => reply is BlockHash,
        StageView::Block { .. } => reply is Block,
        StageView::Connect { .. } => reply is Connected,
        StageView::Metadata { .. } => reply is Metadata,
        StageView::Operations { .. } => reply is Operations,
        StageView::Decode { .. } => reply is Decoded,
        StageView::FrozenEras { .. } => reply is CycleEras,
        StageView::FrozenEnd { .. } => reply is BlockHash,
        StageView::Snapshot { .. } => reply is Routed,
        StageView::SnapshotHash { .. } => reply is BlockHash,
        StageView::DelegateInfo { .. } => reply is Delegate,
        StageView::DelegatorBalance { .. } => reply is Routed,
        StageView::Done { .. } => false,
    }
}

/// Whether every step from an era to the levels of a cycle fits 32 bits.
pub open spec fn steps_fit(era: CycleEra, cycle: int) -> bool {
    &&& in_32_bits(cycle - era.first_cycle)
    &&& in_32_bits((cycle - era.first_cycle) * era.blocks_per_cycle)
    &&& in_32_bits(first_level(era, cycle))
    &&& in_32_bits(first_level(era, cycle) + era.blocks_per_cycle)
    &&& in_32_bits(first_level(era, cycle) + era.blocks_per_cycle - 1)
}

/// A query can work with every answer but these: cycle eras whose levels do not fit 32 bits, a
/// cycle with a negative number of blocks, the receipt of a block with fewer than three kinds of
/// operations, receipts of operations with fewer than three lists while all balance updates can be
/// read, a snapshot whose block does not fit 32 bits, and a balance while the stake is zero.
pub proof fn law_answers_that_can_be_worked_with(cycle_num: i32, stage: StageView, reply: Reply)
    ensures
        stage is Eras ==> (reply matches Reply::CycleEras(eras) ==> (tolerates(
            cycle_num,
            stage,
            reply,
        ) <==> (eras matches Some(list) ==> forall|era: CycleEra| #[trigger]
            is_first_before(list@, cycle_num as int, era) ==> steps_fit(era, cycle_num as int)))),
        stage matches StageView::EndHash { range } ==> (reply is BlockHash ==> (tolerates(
            cycle_num,
            stage,
            reply,
        ) <==> range.end >= range.start - 1)),
        stage matches StageView::Metadata { survey } ==> (reply is Metadata ==> (tolerates(
            cycle_num,
            stage,
            reply,
        ) <==> survey.found[survey.index as int].anonymous is Some)),
        stage matches StageView::Decode { short, .. } ==> (reply matches Reply::Decoded {
            updates,
            ..
        } ==> (tolerates(cycle_num, stage, reply) <==> !short || exists|i: int|
            0 <= i < updates@.len() && !update_is_readable(#[trigger] updates@[i]))),
        stage is FrozenEras && !(reply is CycleEras) ==> (tolerates(cycle_num, stage, reply)
            <==> in_32_bits(cycle_num - 4)),
        stage is FrozenEras && in_32_bits(cycle_num - 4) ==> (reply matches Reply::CycleEras(eras)
            ==> (tolerates(cycle_num, stage, reply) <==> (eras matches Some(list)
            ==> forall|era: CycleEra| #[trigger]
            is_first_before(list@, cycle_num - 4, era) ==> steps_fit(era, cycle_num - 4)))),
        stage matches StageView::Snapshot { frozen_range, .. } ==> (reply matches Reply::Routed(text)
            ==> forall|i: int|
            in_32_bits(i) && #[trigger] tells(text@, i) ==> (tolerates(cycle_num, stage, reply)
                <==> in_32_bits(i + 1) && in_32_bits((i + 1) * 256) && in_32_bits(
                frozen_range.start + (i + 1) * 256,
            ) && in_32_bits(frozen_range.start + (i + 1) * 256 - 1))),
        stage is Snapshot ==> (reply matches Reply::Routed(text) ==> (tolerates(
            cycle_num,
            stage,
            reply,
        ) || exists|i: int| in_32_bits(i) && #[trigger] tells(text@, i))),
        stage matches StageView::DelegatorBalance { delegate, .. } ==> (reply is Routed
            ==> (tolerates(cycle_num, stage, reply) <==> delegate.info.staking_balance != 0)),
        !(stage is FrozenEras) && !is_asked_for(stage, reply) ==> tolerates(
            cycle_num,
            stage,
            reply,
        ),
        stage is Head || stage is Block || stage is Connect || stage is Operations
            || stage is FrozenEnd || stage is SnapshotHash || stage is DelegateInfo
            || stage is Done ==> tolerates(cycle_num, stage, reply),
{
    match (stage, reply) {
        (StageView::Eras, Reply::CycleEras(Some(list))) => {
            lemma_first_before(list@, cycle_num);
        },
        (StageView::FrozenEras { .. }, Reply::CycleEras(Some(list))) => {
            if in_32_bits(cycle_num - 4) {
                lemma_first_before(list@, (cycle_num - 4) as i32);
            }
        },
        (StageView::Decode { survey, .. }, Reply::Decoded { updates, .. }) => {
            let none: Seq<Result<OperationRepresentation, String>> =
                Seq::empty();
            law_block_counts_if_readable(survey.entries, updates@, none);
            law_readable_receipts_are_counted(survey.entries, block_steps(updates@, none));
            assert(block_steps(updates@, none) =~= updates_steps(updates@));
            assert(after_steps(survey.entries, block_steps(updates@, none)) is Ok
                == readable_steps(updates_steps(updates@)));
        },
        (StageView::Snapshot { frozen_range, .. }, Reply::Routed(text)) => {
            assert forall|i: int| in_32_bits(i) && #[trigger] tells(text@, i) implies snapshot_index(
                text@,
            ) == Some(i as i32) by {
                law_snapshot_is_the_told_number(text@, i);
            }
            if let Some(index) = snapshot_index(text@) {
                law_snapshot_is_the_told_number(text@, index as int);
            }
        },
        _ => {},
    }
}

} // verus!
