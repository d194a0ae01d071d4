//! What the receipts of a block add to the rewards, told by the receipts themselves.
use crate::address_map::ascending;
use crate::mutez::{amount_of, law_amount_text_read_back};
use crate::rewards::credits::{
    after_steps, block_steps, content_steps, contents_steps, contract_steps, contracts_steps,
    known_update, law_readable_receipts_are_counted, law_rewards_are_totals, operation_steps,
    operations_steps, readable_steps, rewards_at, total_credit, update_steps, updates_steps,
    CreditStepView, RewardEntries,
};
use crate::rewards::error::RewardsError;
use crate::rewards::types::{
    BalanceUpdateCategory, BalanceUpdateKind, BareOperationKind, ContractKind, FreezerKind,
    OperationKind, OperationRepresentation,
};
use crate::text::decimal;
use vstd::prelude::*;

verus! {

/// The number of mutez that a text tells; none if it tells none.
pub open spec fn mutez_in(text: Seq<char>) -> int {
    match amount_of(text) {
        Some(v) => v,
        None => 0,
    }
}

/// What one update of a contract changes for an address.
pub open spec fn contract_change(update: BalanceUpdateKind, address: Seq<char>) -> int {
    if update is Contract && update->Contract_0.contract@ == address {
        mutez_in(update->Contract_0.change@)
    } else {
        0
    }
}

/// What one update of a block changes for an address: the change of a contract, and the change of a
/// deposit of a delegate, whatever their signs.
pub open spec fn update_change(update: Option<BalanceUpdateKind>, address: Seq<char>) -> int {
    match update {
        Some(BalanceUpdateKind::Freezer(f)) => if f.category is Deposits && f.delegate@ == address {
            mutez_in(f.change@)
        } else {
            0
        },
        Some(update) => contract_change(update, address),
        None => 0,
    }
}

/// What updates of a block change for an address in all.
pub open spec fn updates_change(
    updates: Seq<Option<BalanceUpdateKind>>,
    address: Seq<char>,
) -> int
    decreases updates.len(),
{
    if updates.len() == 0 {
        0
    } else {
        update_change(updates[0], address) + updates_change(updates.skip(1), address)
    }
}

/// What updates of contracts change for an address in all.
pub open spec fn contracts_change(updates: Seq<BalanceUpdateKind>, address: Seq<char>) -> int
    decreases updates.len(),
{
    if updates.len() == 0 {
        0
    } else {
        contract_change(updates[0], address) + contracts_change(updates.skip(1), address)
    }
}

/// Whether operations of a kind bring a reward: evidence of a double signing and the revelation of
/// a nonce.
pub open spec fn brings_reward(kind: OperationKind) -> bool {
    match kind {
        OperationKind::SeedNonceRevelation => true,
        OperationKind::DoubleBakingEvidence => true,
        OperationKind::DoublePreendorsementEvidence => true,
        OperationKind::DoubleEndorsementEvidence => true,
        OperationKind::ActivateAccount => false,
        OperationKind::Ballot => false,
    }
}

/// What the operations of a group change for an address in all.
pub open spec fn contents_change(contents: Seq<BareOperationKind>, address: Seq<char>) -> int
    decreases contents.len(),
{
    if contents.len() == 0 {
        0
    } else {
        let first = if brings_reward(contents[0].kind) {
            contracts_change(contents[0].metadata.balance_updates@, address)
        } else {
            0
        };
        first + contents_change(contents.skip(1), address)
    }
}

/// What anonymous operations change for an address in all.
pub open spec fn operations_change(
    operations: Seq<Result<OperationRepresentation, String>>,
    address: Seq<char>,
) -> int
    decreases operations.len(),
{
    if operations.len() == 0 {
        0
    } else {
        let first = match operations[0] {
            Ok(operation) => contents_change(operation.contents@, address),
            Err(_) => 0,
        };
        first + operations_change(operations.skip(1), address)
    }
}

/// Whether what an update of a contract changes can be read.
pub open spec fn contract_is_readable(update: BalanceUpdateKind) -> bool {
    update matches BalanceUpdateKind::Contract(c) ==> amount_of(c.change@) is Some
}

/// Whether what an update of a block changes can be read; nothing has to be read of an update that
/// does not count.
pub open spec fn update_is_readable(update: Option<BalanceUpdateKind>) -> bool {
    match update {
        Some(BalanceUpdateKind::Freezer(f)) => f.category is Deposits ==> amount_of(
            f.change@,
        ) is Some,
        Some(update) => contract_is_readable(update),
        None => true,
    }
}

/// Whether what an operation changes can be read.
pub open spec fn content_is_readable(content: BareOperationKind) -> bool {
    brings_reward(content.kind) ==> forall|i: int|
        0 <= i < content.metadata.balance_updates@.len() ==> contract_is_readable(
            #[trigger] content.metadata.balance_updates@[i],
        )
}

/// Whether a group of operations and what it changes can be read.
pub open spec fn operation_is_readable(
    operation: Result<OperationRepresentation, String>,
) -> bool {
    operation matches Ok(operation) && forall|i: int|
        0 <= i < operation.contents@.len() ==> content_is_readable(
            #[trigger] operation.contents@[i],
        )
}

/// The credits of some steps and others are the credits of all of them.
proof fn lemma_total_adds_up(
    first: Seq<CreditStepView>,
    second: Seq<CreditStepView>,
    address: Seq<char>,
)
    ensures
        total_credit(first + second, address) == total_credit(first, address) + total_credit(
            second,
            address,
        ),
        readable_steps(first + second) <==> readable_steps(first) && readable_steps(second),
    decreases first.len(),
{
    let all = first + second;
    if first.len() == 0 {
        assert(all =~= second);
    } else {
        assert(all.skip(1) =~= first.skip(1) + second);
        lemma_total_adds_up(first.skip(1), second, address);
    }
    if readable_steps(all) {
        assert forall|i: int| 0 <= i < first.len() implies match #[trigger] first[i] {
            CreditStepView::Credit { change, .. } => amount_of(change) is Some,
            CreditStepView::Undecodable { .. } => false,
        } by {
            assert(all[i] == first[i]);
        }
        assert forall|i: int| 0 <= i < second.len() implies match #[trigger] second[i] {
            CreditStepView::Credit { change, .. } => amount_of(change) is Some,
            CreditStepView::Undecodable { .. } => false,
        } by {
            assert(all[first.len() + i] == second[i]);
        }
    }
    if readable_steps(first) && readable_steps(second) {
        assert forall|i: int| 0 <= i < all.len() implies match #[trigger] all[i] {
            CreditStepView::Credit { change, .. } => amount_of(change) is Some,
            CreditStepView::Undecodable { .. } => false,
        } by {
            if i < first.len() {
                assert(all[i] == first[i]);
            } else {
                assert(all[i] == second[i - first.len()]);
            }
        }
    }
}

proof fn lemma_one_contract(update: BalanceUpdateKind, address: Seq<char>)
    ensures
        readable_steps(contract_steps(update)) <==> contract_is_readable(update),
        contract_is_readable(update) ==> total_credit(contract_steps(update), address)
            == contract_change(update, address),
{
    let steps = contract_steps(update);
    reveal_with_fuel(total_credit, 2);
    if update is Contract {
        assert(steps[0] is Credit);
        assert(steps.skip(1) =~= Seq::empty());
    }
}

proof fn lemma_one_update(update: Option<BalanceUpdateKind>, address: Seq<char>)
    ensures
        readable_steps(update_steps(known_update(update))) <==> update_is_readable(update),
        update_is_readable(update) ==> total_credit(update_steps(known_update(update)), address)
            == update_change(update, address),
{
    let steps = update_steps(known_update(update));
    reveal_with_fuel(total_credit, 2);
    match update {
        Some(BalanceUpdateKind::Freezer(f)) => {
            if f.category is Deposits {
                assert(steps[0] is Credit);
                assert(steps.skip(1) =~= Seq::empty());
            }
        },
        Some(update) => {
            lemma_one_contract(update, address);
        },
        None => {},
    }
}

proof fn lemma_updates(updates: Seq<Option<BalanceUpdateKind>>, address: Seq<char>)
    ensures
        readable_steps(updates_steps(updates)) <==> forall|i: int|
            0 <= i < updates.len() ==> update_is_readable(#[trigger] updates[i]),
        readable_steps(updates_steps(updates)) ==> total_credit(updates_steps(updates), address)
            == updates_change(updates, address),
    decreases updates.len(),
{
    if updates.len() > 0 {
        let init = updates.drop_last();
        lemma_updates(init, address);
        lemma_one_update(updates.last(), address);
        lemma_total_adds_up(
            updates_steps(init),
            update_steps(known_update(updates.last())),
            address,
        );
        lemma_updates_change_last(updates, address);
        assert forall|i: int| 0 <= i < updates.len() implies (update_is_readable(
            #[trigger] updates[i],
        ) == (if i < init.len() {
            update_is_readable(init[i])
        } else {
            update_is_readable(updates.last())
        })) by {}
        if forall|i: int| 0 <= i < updates.len() ==> update_is_readable(#[trigger] updates[i]) {
            assert forall|i: int| 0 <= i < init.len() implies update_is_readable(
                #[trigger] init[i],
            ) by {
                assert(update_is_readable(updates[i]));
            }
            assert(update_is_readable(updates[updates.len() - 1]));
        }
    }
}

proof fn lemma_updates_change_last(updates: Seq<Option<BalanceUpdateKind>>, address: Seq<char>)
    requires
        updates.len() > 0,
    ensures
        updates_change(updates, address) == updates_change(updates.drop_last(), address)
            + update_change(updates.last(), address),
    decreases updates.len(),
{
    if updates.len() == 1 {
        assert(updates.skip(1) =~= Seq::empty());
        assert(updates.drop_last() =~= Seq::empty());
    } else {
        lemma_updates_change_last(updates.skip(1), address);
        assert(updates.skip(1).drop_last() =~= updates.drop_last().skip(1));
    }
}

proof fn lemma_contracts(updates: Seq<BalanceUpdateKind>, address: Seq<char>)
    ensures
        readable_steps(contracts_steps(updates)) <==> forall|i: int|
            0 <= i < updates.len() ==> contract_is_readable(#[trigger] updates[i]),
        readable_steps(contracts_steps(updates)) ==> total_credit(contracts_steps(updates), address)
            == contracts_change(updates, address),
    decreases updates.len(),
{
    if updates.len() > 0 {
        let init = updates.drop_last();
        lemma_contracts(init, address);
        lemma_one_contract(updates.last(), address);
        lemma_total_adds_up(contracts_steps(init), contract_steps(updates.last()), address);
        lemma_contracts_change_last(updates, address);
        if forall|i: int| 0 <= i < updates.len() ==> contract_is_readable(#[trigger] updates[i]) {
            assert forall|i: int| 0 <= i < init.len() implies contract_is_readable(
                #[trigger] init[i],
            ) by {
                assert(contract_is_readable(updates[i]));
            }
            assert(contract_is_readable(updates[updates.len() - 1]));
        }
        if readable_steps(contracts_steps(updates)) {
            assert forall|i: int| 0 <= i < updates.len() implies contract_is_readable(
                #[trigger] updates[i],
            ) by {
                if i < init.len() {
                    assert(contract_is_readable(init[i]));
                }
            }
        }
    }
}

proof fn lemma_contracts_change_last(updates: Seq<BalanceUpdateKind>, address: Seq<char>)
    requires
        updates.len() > 0,
    ensures
        contracts_change(updates, address) == contracts_change(updates.drop_last(), address)
            + contract_change(updates.last(), address),
    decreases updates.len(),
{
    if updates.len() == 1 {
        assert(updates.skip(1) =~= Seq::empty());
        assert(updates.drop_last() =~= Seq::empty());
    } else {
        lemma_contracts_change_last(updates.skip(1), address);
        assert(updates.skip(1).drop_last() =~= updates.drop_last().skip(1));
    }
}

proof fn lemma_one_content(content: BareOperationKind, address: Seq<char>)
    ensures
        readable_steps(content_steps(content)) <==> content_is_readable(content),
        content_is_readable(content) ==> total_credit(content_steps(content), address) == (
        if brings_reward(content.kind) {
            contracts_change(content.metadata.balance_updates@, address)
        } else {
            0
        }),
{
    lemma_contracts(content.metadata.balance_updates@, address);
}

proof fn lemma_contents(contents: Seq<BareOperationKind>, address: Seq<char>)
    ensures
        readable_steps(contents_steps(contents)) <==> forall|i: int|
            0 <= i < contents.len() ==> content_is_readable(#[trigger] contents[i]),
        readable_steps(contents_steps(contents)) ==> total_credit(contents_steps(contents), address)
            == contents_change(contents, address),
    decreases contents.len(),
{
    if contents.len() > 0 {
        let init = contents.drop_last();
        lemma_contents(init, address);
        lemma_one_content(contents.last(), address);
        lemma_total_adds_up(contents_steps(init), content_steps(contents.last()), address);
        lemma_contents_change_last(contents, address);
        if forall|i: int| 0 <= i < contents.len() ==> content_is_readable(#[trigger] contents[i]) {
            assert forall|i: int| 0 <= i < init.len() implies content_is_readable(
                #[trigger] init[i],
            ) by {
                assert(content_is_readable(contents[i]));
            }
            assert(content_is_readable(contents[contents.len() - 1]));
        }
        if readable_steps(contents_steps(contents)) {
            assert forall|i: int| 0 <= i < contents.len() implies content_is_readable(
                #[trigger] contents[i],
            ) by {
                if i < init.len() {
                    assert(content_is_readable(init[i]));
                }
            }
        }
    }
}

proof fn lemma_contents_change_last(contents: Seq<BareOperationKind>, address: Seq<char>)
    requires
        contents.len() > 0,
    ensures
        contents_change(contents, address) == contents_change(contents.drop_last(), address) + (
        if brings_reward(contents.last().kind) {
            contracts_change(contents.last().metadata.balance_updates@, address)
        } else {
            0
        }),
    decreases contents.len(),
{
    if contents.len() == 1 {
        assert(contents.skip(1) =~= Seq::empty());
        assert(contents.drop_last() =~= Seq::empty());
    } else {
        lemma_contents_change_last(contents.skip(1), address);
        assert(contents.skip(1).drop_last() =~= contents.drop_last().skip(1));
    }
}

proof fn lemma_one_operation(
    operation: Result<OperationRepresentation, String>,
    address: Seq<char>,
)
    ensures
        readable_steps(operation_steps(operation)) <==> operation_is_readable(operation),
        operation_is_readable(operation) ==> total_credit(operation_steps(operation), address)
            == contents_change(operation->Ok_0.contents@, address),
{
    match operation {
        Ok(operation) => {
            lemma_contents(operation.contents@, address);
        },
        Err(_) => {
            assert(operation_steps(operation)[0] is Undecodable);
        },
    }
}

proof fn lemma_operations(
    operations: Seq<Result<OperationRepresentation, String>>,
    address: Seq<char>,
)
    ensures
        readable_steps(operations_steps(operations)) <==> forall|i: int|
            0 <= i < operations.len() ==> operation_is_readable(#[trigger] operations[i]),
        readable_steps(operations_steps(operations)) ==> total_credit(
            operations_steps(operations),
            address,
        ) == operations_change(operations, address),
    decreases operations.len(),
{
    if operations.len() > 0 {
        let init = operations.drop_last();
        lemma_operations(init, address);
        lemma_one_operation(operations.last(), address);
        lemma_total_adds_up(operations_steps(init), operation_steps(operations.last()), address);
        lemma_operations_change_last(operations, address);
        if forall|i: int|
            0 <= i < operations.len() ==> operation_is_readable(#[trigger] operations[i]) {
            assert forall|i: int| 0 <= i < init.len() implies operation_is_readable(
                #[trigger] init[i],
            ) by {
                assert(operation_is_readable(operations[i]));
            }
            assert(operation_is_readable(operations[operations.len() - 1]));
        }
        if readable_steps(operations_steps(operations)) {
            assert forall|i: int| 0 <= i < operations.len() implies operation_is_readable(
                #[trigger] operations[i],
            ) by {
                if i < init.len() {
                    assert(operation_is_readable(init[i]));
                }
            }
        }
    }
}

proof fn lemma_operations_change_last(
    operations: Seq<Result<OperationRepresentation, String>>,
    address: Seq<char>,
)
    requires
        operations.len() > 0,
    ensures
        operations_change(operations, address) == operations_change(
            operations.drop_last(),
            address,
        ) + (match operations.last() {
            Ok(operation) => contents_change(operation.contents@, address),
            Err(_) => 0,
        }),
    decreases operations.len(),
{
    if operations.len() == 1 {
        assert(operations.skip(1) =~= Seq::empty());
        assert(operations.drop_last() =~= Seq::empty());
    } else {
        lemma_operations_change_last(operations.skip(1), address);
        assert(operations.skip(1).drop_last() =~= operations.drop_last().skip(1));
    }
}

/// The receipts of a block are counted if and only if every change that counts is a number of mutez
/// and every operation can be read.
pub proof fn law_block_counts_if_readable(
    entries: RewardEntries,
    updates: Seq<Option<BalanceUpdateKind>>,
    operations: Seq<Result<OperationRepresentation, String>>,
)
    ensures
        after_steps(entries, block_steps(updates, operations)) is Ok <==> (forall|i: int|
            0 <= i < updates.len() ==> update_is_readable(#[trigger] updates[i])) && (forall|i: int|
            0 <= i < operations.len() ==> operation_is_readable(#[trigger] operations[i])),
{
    law_readable_receipts_are_counted(entries, block_steps(updates, operations));
    lemma_total_adds_up(updates_steps(updates), operations_steps(operations), Seq::empty());
    lemma_updates(updates, Seq::empty());
    lemma_operations(operations, Seq::empty());
}

/// What the receipts of a block credit to an address is the sum of the changes of all its contract
/// updates and of all its deposits, positive or negative, and of the contract updates of the
/// operations that bring a reward.
pub proof fn law_block_credits_the_sum_of_its_changes(
    updates: Seq<Option<BalanceUpdateKind>>,
    operations: Seq<Result<OperationRepresentation, String>>,
    address: Seq<char>,
)
    requires
        forall|i: int| 0 <= i < updates.len() ==> update_is_readable(#[trigger] updates[i]),
        forall|i: int|
            0 <= i < operations.len() ==> operation_is_readable(#[trigger] operations[i]),
    ensures
        total_credit(block_steps(updates, operations), address) == updates_change(updates, address)
            + operations_change(operations, address),
{
    lemma_total_adds_up(updates_steps(updates), operations_steps(operations), address);
    lemma_updates(updates, address);
    lemma_operations(operations, address);
}

/// The rewards of an address grow by the sum of all changes that a block makes for it.
pub proof fn law_block_adds_the_sum_of_its_changes(
    entries: RewardEntries,
    updates: Seq<Option<BalanceUpdateKind>>,
    operations: Seq<Result<OperationRepresentation, String>>,
    address: Seq<char>,
)
    requires
        ascending(entries),
        after_steps(entries, block_steps(updates, operations)) is Ok,
    ensures
        rewards_at(after_steps(entries, block_steps(updates, operations))->Ok_0, address).sum
            == rewards_at(entries, address).sum + updates_change(updates, address)
            + operations_change(operations, address),
{
    law_block_counts_if_readable(entries, updates, operations);
    law_rewards_are_totals(entries, block_steps(updates, operations), address);
    law_block_credits_the_sum_of_its_changes(updates, operations, address);
}

/// The changes of some updates and others are the changes of all of them.
proof fn lemma_updates_change_adds_up(
    first: Seq<Option<BalanceUpdateKind>>,
    second: Seq<Option<BalanceUpdateKind>>,
    address: Seq<char>,
)
    ensures
        updates_change(first + second, address) == updates_change(first, address)
            + updates_change(second, address),
    decreases first.len(),
{
    if first.len() == 0 {
        assert(first + second =~= second);
    } else {
        assert((first + second).skip(1) =~= first.skip(1) + second);
        lemma_updates_change_adds_up(first.skip(1), second, address);
    }
}

/// A deposit that is taken from a contract and frozen, or given back to it, changes nothing: a
/// contract update of any amount and a deposit of the opposite amount for the same address leave
/// the rewards of every address as they are, wherever they stand among the updates.
pub proof fn law_deposits_cancel_out(
    entries: RewardEntries,
    before: Seq<Option<BalanceUpdateKind>>,
    contract: ContractKind,
    deposit: FreezerKind,
    rest: Seq<Option<BalanceUpdateKind>>,
    operations: Seq<Result<OperationRepresentation, String>>,
    v: int,
    address: Seq<char>,
)
    requires
        ascending(entries),
        contract.contract@ == deposit.delegate@,
        contract.change@ == decimal(v),
        deposit.change@ == decimal(-v),
        deposit.category == BalanceUpdateCategory::Deposits,
        after_steps(entries, block_steps(before + rest, operations)) is Ok,
    ensures
        ({
            let both = seq![
                Some(BalanceUpdateKind::Contract(contract)),
                Some(BalanceUpdateKind::Freezer(deposit)),
            ];
            let with = after_steps(entries, block_steps(before + both + rest, operations));
            let without = after_steps(entries, block_steps(before + rest, operations));
            &&& with is Ok
            &&& rewards_at(with->Ok_0, address).sum == rewards_at(without->Ok_0, address).sum
        }),
{
    let both = seq![
        Some(BalanceUpdateKind::Contract(contract)),
        Some(BalanceUpdateKind::Freezer(deposit)),
    ];
    let all = before + both + rest;
    let short = before + rest;
    law_amount_text_read_back(v);
    law_amount_text_read_back(-v);
    law_block_counts_if_readable(entries, short, operations);
    assert forall|i: int| 0 <= i < all.len() implies update_is_readable(#[trigger] all[i]) by {
        if i < before.len() {
            assert(all[i] == short[i]);
        } else if i >= before.len() + 2 {
            assert(all[i] == short[i - 2]);
        } else {
            assert(all[i] == both[i - before.len()]);
        }
    }
    law_block_counts_if_readable(entries, all, operations);
    law_block_adds_the_sum_of_its_changes(entries, all, operations, address);
    law_block_adds_the_sum_of_its_changes(entries, short, operations, address);
    lemma_updates_change_adds_up(before + both, rest, address);
    lemma_updates_change_adds_up(before, both, address);
    lemma_updates_change_adds_up(before, rest, address);
    reveal_with_fuel(updates_change, 3);
    assert(both.skip(1)[0] == both[1]);
    assert(both.skip(1).skip(1) =~= Seq::empty());
}

/// A block fails with the first thing that cannot be read: a change that is no number of mutez, or
/// an operation. What stands behind it does not matter.
pub proof fn law_first_unreadable_change_is_told(
    entries: RewardEntries,
    before: Seq<Option<BalanceUpdateKind>>,
    contract: ContractKind,
    rest: Seq<Option<BalanceUpdateKind>>,
    operations: Seq<Result<OperationRepresentation, String>>,
)
    requires
        forall|i: int| 0 <= i < before.len() ==> update_is_readable(#[trigger] before[i]),
        amount_of(contract.change@) is None,
    ensures
        after_steps(
            entries,
            block_steps(
                before.push(Some(BalanceUpdateKind::Contract(contract))) + rest,
                operations,
            ),
        ) == Err::<RewardEntries, RewardsError>(
            RewardsError::InvalidAmount { error: crate::mutez::amount_refusal(contract.change@) },
        ),
{
    let update = Some(BalanceUpdateKind::Contract(contract));
    let all = before.push(update) + rest;
    let first = updates_steps(before);
    lemma_updates(before, Seq::empty());
    law_readable_receipts_are_counted(entries, first);
    lemma_updates_steps_split(before.push(update), rest);
    assert(before.push(update).drop_last() =~= before);
    let bad = contract_steps(update->Some_0);
    let behind = updates_steps_from(before.push(update), rest) + operations_steps(operations);
    assert(block_steps(all, operations) =~= first + (bad + behind));
    crate::rewards::credits::law_blocks_add_up(entries, first, bad + behind);
    assert((bad + behind)[0] == bad[0]);
}

/// What the updates behind some others add to the steps.
spec fn updates_steps_from(
    first: Seq<Option<BalanceUpdateKind>>,
    second: Seq<Option<BalanceUpdateKind>>,
) -> Seq<CreditStepView> {
    updates_steps(first + second).skip(updates_steps(first).len() as int)
}

proof fn lemma_updates_steps_split(
    first: Seq<Option<BalanceUpdateKind>>,
    second: Seq<Option<BalanceUpdateKind>>,
)
    ensures
        updates_steps(first + second) == updates_steps(first) + updates_steps_from(first, second),
    decreases second.len(),
{
    if second.len() == 0 {
        assert(first + second =~= first);
        assert(updates_steps_from(first, second) =~= Seq::empty());
    } else {
        let init = second.drop_last();
        lemma_updates_steps_split(first, init);
        assert((first + second).drop_last() =~= first + init);
        assert((first + second).last() == second.last());
        assert(updates_steps(first + second) =~= updates_steps(first) + updates_steps_from(
            first,
            second,
        ));
    }
}

proof fn lemma_operations_steps_split(
    first: Seq<Result<OperationRepresentation, String>>,
    second: Seq<Result<OperationRepresentation, String>>,
) -> (behind: Seq<CreditStepView>)
    ensures
        operations_steps(first + second) == operations_steps(first) + behind,
    decreases second.len(),
{
    if second.len() == 0 {
        assert(first + second =~= first);
        assert(operations_steps(first) + Seq::<CreditStepView>::empty() =~= operations_steps(first));
        Seq::empty()
    } else {
        let init = second.drop_last();
        let behind = lemma_operations_steps_split(first, init);
        assert((first + second).drop_last() =~= first + init);
        assert((first + second).last() == second.last());
        let all = behind + operation_steps(second.last());
        assert(operations_steps(first + second) =~= operations_steps(first) + all);
        all
    }
}

/// The first operation that cannot be decoded is told, if all before it and all updates of the
/// block can be read.
pub proof fn law_first_undecodable_operation_is_told(
    entries: RewardEntries,
    updates: Seq<Option<BalanceUpdateKind>>,
    before: Seq<Result<OperationRepresentation, String>>,
    message: String,
    rest: Seq<Result<OperationRepresentation, String>>,
)
    requires
        forall|i: int| 0 <= i < updates.len() ==> update_is_readable(#[trigger] updates[i]),
        forall|i: int| 0 <= i < before.len() ==> operation_is_readable(#[trigger] before[i]),
    ensures
        after_steps(entries, block_steps(updates, before.push(Err(message)) + rest)) == Err::<
            RewardEntries,
            RewardsError,
        >(RewardsError::InvalidOperation { message }),
{
    let operation: Result<OperationRepresentation, String> = Err(message);
    let first = block_steps(updates, before);
    law_block_counts_if_readable(entries, updates, before);
    let behind = lemma_operations_steps_split(before.push(operation), rest);
    assert(before.push(operation).drop_last() =~= before);
    let bad = operation_steps(operation);
    assert(block_steps(updates, before.push(operation) + rest) =~= first + (bad + behind));
    crate::rewards::credits::law_blocks_add_up(entries, first, bad + behind);
    assert((bad + behind)[0] == bad[0]);
}

/// The first deposit whose change cannot be read is told, if all updates before it can be read.
pub proof fn law_first_unreadable_deposit_is_told(
    entries: RewardEntries,
    before: Seq<Option<BalanceUpdateKind>>,
    deposit: FreezerKind,
    rest: Seq<Option<BalanceUpdateKind>>,
    operations: Seq<Result<OperationRepresentation, String>>,
)
    requires
        forall|i: int| 0 <= i < before.len() ==> update_is_readable(#[trigger] before[i]),
        deposit.category == BalanceUpdateCategory::Deposits,
        amount_of(deposit.change@) is None,
    ensures
        after_steps(
            entries,
            block_steps(
                before.push(Some(BalanceUpdateKind::Freezer(deposit))) + rest,
                operations,
            ),
        ) == Err::<RewardEntries, RewardsError>(
            RewardsError::InvalidAmount { error: crate::mutez::amount_refusal(deposit.change@) },
        ),
{
    let update = Some(BalanceUpdateKind::Freezer(deposit));
    let all = before.push(update) + rest;
    let first = updates_steps(before);
    lemma_updates(before, Seq::empty());
    law_readable_receipts_are_counted(entries, first);
    lemma_updates_steps_split(before.push(update), rest);
    assert(before.push(update).drop_last() =~= before);
    let bad = update_steps(update->Some_0);
    let behind = updates_steps_from(before.push(update), rest) + operations_steps(operations);
    assert(block_steps(all, operations) =~= first + (bad + behind));
    crate::rewards::credits::law_blocks_add_up(entries, first, bad + behind);
    assert((bad + behind)[0] == bad[0]);
}

} // verus!
