//! How the receipts of a block add to the rewards of delegates.
use crate::address_map::{
    ascending, has_entry, law_put_then_lookup, lemma_lookup_absent, lemma_lookup_entry,
    lemma_put_ascending, lookup, put, rank, AddressMap,
};
use crate::mutez::{amount_of, amount_refusal, Mutez};
use crate::rewards::error::RewardsError;
use crate::rewards::types::{
    no_rewards, BalanceUpdateCategory, BalanceUpdateKind, BareOperationKind, CycleRewardsInt,
    CycleRewardsView, OperationKind, OperationRepresentation,
};
use crate::text::{lemma_precedes_irreflexive, precedes};
use vstd::prelude::*;

verus! {

/// The rewards of delegates by address.
pub type RewardEntries = Seq<(Seq<char>, CycleRewardsView)>;

/// One step through the receipts of a block.
#[derive(Debug)]
pub enum CreditStep {
    /// An address gets a number of mutez.
    Credit { address: String, change: String },
    /// An operation that cannot be read, and why.
    Undecodable { message: String },
}

/// The texts of a `CreditStep`.
pub enum CreditStepView {
    Credit { address: Seq<char>, change: Seq<char> },
    Undecodable { message: String },
}

impl View for CreditStep {
    type V = CreditStepView;

    open spec fn view(&self) -> CreditStepView {
        match *self {
            CreditStep::Credit { address, change } => CreditStepView::Credit {
                address: address@,
                change: change@,
            },
            CreditStep::Undecodable { message } => CreditStepView::Undecodable { message },
        }
    }
}

/// The texts of several steps.
pub open spec fn steps_view(steps: Seq<CreditStep>) -> Seq<CreditStepView> {
    steps.map_values(|s: CreditStep| s@)
}

/// A balance update that could not be read counts as an unknown one.
pub open spec fn known_update(update: Option<BalanceUpdateKind>) -> BalanceUpdateKind {
    match update {
        Some(update) => update,
        None => BalanceUpdateKind::Unknown,
    }
}

/// What a balance update of a contract adds to the contract.
pub open spec fn contract_steps(update: BalanceUpdateKind) -> Seq<CreditStepView> {
    match update {
        BalanceUpdateKind::Contract(c) => seq![
            CreditStepView::Credit { address: c.contract@, change: c.change@ },
        ],
        _ => Seq::empty(),
    }
}

/// What a balance update of a block adds to the rewards: a contract is credited with its change,
/// and a deposit that was taken from it is added back.
pub open spec fn update_steps(update: BalanceUpdateKind) -> Seq<CreditStepView> {
    match update {
        BalanceUpdateKind::Freezer(f) => if f.category == BalanceUpdateCategory::Deposits {
            seq![CreditStepView::Credit { address: f.delegate@, change: f.change@ }]
        } else {
            Seq::empty()
        },
        _ => contract_steps(update),
    }
}

/// What the balance updates of a block add to the rewards.
pub open spec fn updates_steps(updates: Seq<Option<BalanceUpdateKind>>) -> Seq<CreditStepView>
    decreases updates.len(),
{
    if updates.len() == 0 {
        Seq::empty()
    } else {
        updates_steps(updates.drop_last()) + update_steps(known_update(updates.last()))
    }
}

/// Whether operations of a kind are rewarded.
pub open spec fn is_rewarded(kind: OperationKind) -> bool {
    ||| kind == OperationKind::DoubleBakingEvidence
    ||| kind == OperationKind::DoubleEndorsementEvidence
    ||| kind == OperationKind::DoublePreendorsementEvidence
    ||| kind == OperationKind::SeedNonceRevelation
}

/// What balance updates add to contracts.
pub open spec fn contracts_steps(updates: Seq<BalanceUpdateKind>) -> Seq<CreditStepView>
    decreases updates.len(),
{
    if updates.len() == 0 {
        Seq::empty()
    } else {
        contracts_steps(updates.drop_last()) + contract_steps(updates.last())
    }
}

/// What an operation adds to the rewards.
pub open spec fn content_steps(content: BareOperationKind) -> Seq<CreditStepView> {
    if is_rewarded(content.kind) {
        contracts_steps(content.metadata.balance_updates@)
    } else {
        Seq::empty()
    }
}

/// What the operations of a group add to the rewards.
pub open spec fn contents_steps(contents: Seq<BareOperationKind>) -> Seq<CreditStepView>
    decreases contents.len(),
{
    if contents.len() == 0 {
        Seq::empty()
    } else {
        contents_steps(contents.drop_last()) + content_steps(contents.last())
    }
}

/// What a group of operations adds to the rewards.
pub open spec fn operation_steps(operation: Result<OperationRepresentation, String>) -> Seq<
    CreditStepView,
> {
    match operation {
        Ok(operation) => contents_steps(operation.contents@),
        Err(message) => seq![CreditStepView::Undecodable { message }],
    }
}

/// What the anonymous operations of a block add to the rewards.
pub open spec fn operations_steps(
    operations: Seq<Result<OperationRepresentation, String>>,
) -> Seq<CreditStepView>
    decreases operations.len(),
{
    if operations.len() == 0 {
        Seq::empty()
    } else {
        operations_steps(operations.drop_last()) + operation_steps(operations.last())
    }
}

/// What the receipts of a block add to the rewards: the balance updates of the block come first,
/// then those of its anonymous operations.
pub open spec fn block_steps(
    updates: Seq<Option<BalanceUpdateKind>>,
    operations: Seq<Result<OperationRepresentation, String>>,
) -> Seq<CreditStepView> {
    updates_steps(updates) + operations_steps(operations)
}

/// The rewards of an address; one without an entry has none.
pub open spec fn rewards_at(entries: RewardEntries, address: Seq<char>) -> CycleRewardsView {
    match lookup(entries, address) {
        Some(rewards) => rewards,
        None => no_rewards(),
    }
}

/// The rewards after an address got some mutez.
pub open spec fn credit(entries: RewardEntries, address: Seq<char>, change: int) -> RewardEntries {
    let before = rewards_at(entries, address);
    put(entries, address, CycleRewardsView { sum: before.sum + change, ..before })
}

/// The rewards after some steps, or the error of the first step that fails.
pub open spec fn after_steps(entries: RewardEntries, steps: Seq<CreditStepView>) -> Result<
    RewardEntries,
    RewardsError,
>
    decreases steps.len(),
{
    if steps.len() == 0 {
        Ok(entries)
    } else {
        match steps[0] {
            CreditStepView::Credit { address, change } => match amount_of(change) {
                Some(v) => after_steps(credit(entries, address, v), steps.skip(1)),
                None => Err(RewardsError::InvalidAmount { error: amount_refusal(change) }),
            },
            CreditStepView::Undecodable { message } => Err(
                RewardsError::InvalidOperation { message },
            ),
        }
    }
}

/// The delegates that earned something or lost something, with their rewards.
pub open spec fn active_rewards(entries: RewardEntries) -> Seq<(Seq<char>, int)>
    decreases entries.len(),
{
    if entries.len() == 0 {
        Seq::empty()
    } else {
        let before = active_rewards(entries.drop_last());
        if entries.last().1.sum != 0 {
            before.push((entries.last().0, entries.last().1.sum))
        } else {
            before
        }
    }
}

/// The numbers of rewards by address.
pub open spec fn rewards_view(rewards: Seq<(String, Mutez)>) -> Seq<(Seq<char>, int)> {
    rewards.map_values(|r: (String, Mutez)| (r.0@, r.1@))
}

/// Adds what a balance update of a contract credits.
fn push_contract(steps: &mut Vec<CreditStep>, update: &BalanceUpdateKind)
    ensures
        steps_view(final(steps)@) == steps_view(old(steps)@) + contract_steps(*update),
{
    if let BalanceUpdateKind::Contract(c) = update {
        steps.push(CreditStep::Credit { address: c.contract.clone(), change: c.change.clone() });
    }
    assert(steps_view(steps@) =~= steps_view(old(steps)@) + contract_steps(*update));
}

/// What the receipts of a block add to the rewards.
pub fn block_credits(
    updates: &Vec<Option<BalanceUpdateKind>>,
    operations: &Vec<Result<OperationRepresentation, String>>,
) -> (r: Vec<CreditStep>)
    ensures
        steps_view(r@) == block_steps(updates@, operations@),
{
    let mut steps: Vec<CreditStep> = Vec::new();
    let update_count: usize = updates.len();
    let mut i: usize = 0;
    assert(steps_view(steps@) =~= updates_steps(updates@.take(0)));
    while i < update_count
        invariant
            update_count == updates@.len(),
            i <= update_count,
            steps_view(steps@) == updates_steps(updates@.take(i as int)),
        decreases update_count - i,
    {
        let ghost before = steps@;
        assert(updates@.take(i + 1).drop_last() =~= updates@.take(i as int));
        match &updates[i] {
            Some(BalanceUpdateKind::Freezer(f)) => {
                if let BalanceUpdateCategory::Deposits = f.category {
                    steps.push(
                        CreditStep::Credit {
                            address: f.delegate.clone(),
                            change: f.change.clone(),
                        },
                    );
                }
            },
            Some(update) => {
                push_contract(&mut steps, update);
            },
            None => {},
        }
        assert(steps_view(steps@) =~= steps_view(before) + update_steps(
            known_update(updates@[i as int]),
        ));
        i = i + 1;
    }
    assert(updates@.take(update_count as int) =~= updates@);
    let operation_count: usize = operations.len();
    let mut j: usize = 0;
    assert(operations_steps(operations@.take(0)) =~= Seq::<CreditStepView>::empty());
    assert(steps_view(steps@) =~= updates_steps(updates@) + operations_steps(operations@.take(0)));
    while j < operation_count
        invariant
            operation_count == operations@.len(),
            j <= operation_count,
            steps_view(steps@) == updates_steps(updates@) + operations_steps(
                operations@.take(j as int),
            ),
        decreases operation_count - j,
    {
        let ghost before = steps@;
        assert(operations@.take(j + 1).drop_last() =~= operations@.take(j as int));
        match &operations[j] {
            Ok(operation) => {
                push_contents(&mut steps, &operation.contents);
            },
            Err(message) => {
                steps.push(CreditStep::Undecodable { message: message.clone() });
            },
        }
        assert(steps_view(steps@) =~= steps_view(before) + operation_steps(operations@[j as int]));
        assert(steps_view(steps@) =~= updates_steps(updates@) + operations_steps(
            operations@.take(j + 1),
        ));
        j = j + 1;
    }
    assert(operations@.take(operation_count as int) =~= operations@);
    steps
}

/// Adds what the operations of a group credit.
fn push_contents(steps: &mut Vec<CreditStep>, contents: &Vec<BareOperationKind>)
    ensures
        steps_view(final(steps)@) == steps_view(old(steps)@) + contents_steps(contents@),
{
    let count: usize = contents.len();
    let mut i: usize = 0;
    let ghost first = steps_view(steps@);
    assert(first =~= first + contents_steps(contents@.take(0)));
    while i < count
        invariant
            count == contents@.len(),
            i <= count,
            steps_view(steps@) == first + contents_steps(contents@.take(i as int)),
        decreases count - i,
    {
        let ghost before = steps_view(steps@);
        assert(contents@.take(i + 1).drop_last() =~= contents@.take(i as int));
        match contents[i].kind {
            OperationKind::DoubleBakingEvidence
            | OperationKind::DoubleEndorsementEvidence
            | OperationKind::DoublePreendorsementEvidence
            | OperationKind::SeedNonceRevelation => {
                push_contracts(steps, &contents[i].metadata.balance_updates);
            },
            _ => {},
        }
        assert(steps_view(steps@) =~= before + content_steps(contents@[i as int]));
        assert(steps_view(steps@) =~= first + contents_steps(contents@.take(i + 1)));
        i = i + 1;
    }
    assert(contents@.take(count as int) =~= contents@);
}

/// Adds what balance updates credit to contracts.
fn push_contracts(steps: &mut Vec<CreditStep>, updates: &Vec<BalanceUpdateKind>)
    ensures
        steps_view(final(steps)@) == steps_view(old(steps)@) + contracts_steps(updates@),
{
    let count: usize = updates.len();
    let mut i: usize = 0;
    let ghost first = steps_view(steps@);
    assert(first =~= first + contracts_steps(updates@.take(0)));
    while i < count
        invariant
            count == updates@.len(),
            i <= count,
            steps_view(steps@) == first + contracts_steps(updates@.take(i as int)),
        decreases count - i,
    {
        assert(updates@.take(i + 1).drop_last() =~= updates@.take(i as int));
        push_contract(steps, &updates[i]);
        assert(steps_view(steps@) =~= first + contracts_steps(updates@.take(i + 1)));
        i = i + 1;
    }
    assert(updates@.take(count as int) =~= updates@);
}

/// Adds the credits of some steps to the rewards. A step that fails ends the work.
pub fn apply_credits(table: &mut AddressMap<CycleRewardsInt>, steps: &Vec<CreditStep>) -> (r:
    Result<(), RewardsError>)
    requires
        old(table).wf(),
    ensures
        final(table).wf(),
        match after_steps(old(table)@, steps_view(steps@)) {
            Ok(entries) => r is Ok && final(table)@ == entries,
            Err(e) => r == Err::<(), RewardsError>(e),
        },
        r is Ok ==> forall|address: Seq<char>| #[trigger]
            rewards_at(final(table)@, address).sum == rewards_at(old(table)@, address).sum
                + total_credit(steps_view(steps@), address),
{
    proof {
        let all = steps_view(steps@);
        if after_steps(table@, all) is Ok {
            assert forall|address: Seq<char>| #[trigger]
                rewards_at(after_steps(table@, all)->Ok_0, address).sum == rewards_at(
                    table@,
                    address,
                ).sum + total_credit(all, address) by {
                law_rewards_are_totals(table@, all, address);
            }
        }
    }
    let count: usize = steps.len();
    let ghost all = steps_view(steps@);
    let ghost start = table@;
    let mut i: usize = 0;
    assert(all.skip(0) =~= all);
    while i < count
        invariant
            count == steps@.len(),
            i <= count,
            all == steps_view(steps@),
            start == old(table)@,
            table.wf(),
            after_steps(start, all) == after_steps(table@, all.skip(i as int)),
            after_steps(start, all) is Ok ==> forall|address: Seq<char>| #[trigger]
                rewards_at(after_steps(start, all)->Ok_0, address).sum == rewards_at(
                    start,
                    address,
                ).sum + total_credit(all, address),
        decreases count - i,
    {
        assert(all.skip(i as int)[0] == steps@[i as int]@);
        assert(all.skip(i as int).skip(1) =~= all.skip(i + 1));
        match &steps[i] {
            CreditStep::Credit { address, change } => match Mutez::parse(change.as_str()) {
                Ok(v) => {
                    credit_address(table, address, &v);
                },
                Err(error) => {
                    return Err(RewardsError::InvalidAmount { error });
                },
            },
            CreditStep::Undecodable { message } => {
                return Err(RewardsError::InvalidOperation { message: message.clone() });
            },
        }
        i = i + 1;
    }
    Ok(())
}

/// Credits an address with a number of mutez.
fn credit_address(table: &mut AddressMap<CycleRewardsInt>, address: &String, change: &Mutez)
    requires
        old(table).wf(),
    ensures
        final(table).wf(),
        final(table)@ == credit(old(table)@, address@, change@),
{
    let rewards = match table.get(address.as_str()) {
        Some(before) => CycleRewardsInt {
            fees: before.fees.clone(),
            baking_rewards: before.baking_rewards.clone(),
            baking_bonuses: before.baking_bonuses.clone(),
            endorsement_rewards: before.endorsement_rewards.clone(),
            sum: before.sum.plus(change),
        },
        None => {
            let none = CycleRewardsInt::default();
            let sum = none.sum.plus(change);
            CycleRewardsInt { sum, ..none }
        },
    };
    table.insert(address.clone(), rewards);
}

/// The delegates with rewards other than zero, in alphabetical order of their addresses.
pub fn active_delegates(table: &AddressMap<CycleRewardsInt>) -> (r: Vec<(String, Mutez)>)
    requires
        table.wf(),
    ensures
        rewards_view(r@) == active_rewards(table@),
        ascending(rewards_view(r@)),
        forall|address: Seq<char>| #[trigger]
            lookup(rewards_view(r@), address) == (if rewards_at(table@, address).sum != 0 {
                Some(rewards_at(table@, address).sum)
            } else {
                None
            }),
{
    proof {
        law_active_delegates(table@, Seq::empty());
        assert forall|address: Seq<char>| #[trigger]
            lookup(active_rewards(table@), address) == (if rewards_at(table@, address).sum != 0 {
                Some(rewards_at(table@, address).sum)
            } else {
                None
            }) by {
            law_active_delegates(table@, address);
        }
    }
    let mut r: Vec<(String, Mutez)> = Vec::new();
    let count: usize = table.len();
    let mut i: usize = 0;
    assert(rewards_view(r@) =~= active_rewards(table@.take(0)));
    while i < count
        invariant
            table.wf(),
            count == table@.len(),
            i <= count,
            rewards_view(r@) == active_rewards(table@.take(i as int)),
        decreases count - i,
    {
        let ghost before = r@;
        assert(table@.take(i + 1).drop_last() =~= table@.take(i as int));
        let sum = &table.value(i).sum;
        if !sum.is_zero() {
            r.push((table.key(i).clone(), sum.clone()));
            assert(rewards_view(r@) =~= rewards_view(before).push(
                (table@[i as int].0, table@[i as int].1.sum),
            ));
        }
        i = i + 1;
    }
    assert(table@.take(count as int) =~= table@);
    r
}

/// What some steps credit to an address in all.
pub open spec fn total_credit(steps: Seq<CreditStepView>, address: Seq<char>) -> int
    decreases steps.len(),
{
    if steps.len() == 0 {
        0
    } else {
        let rest = total_credit(steps.skip(1), address);
        match steps[0] {
            CreditStepView::Credit { address: to, change } => if to == address {
                amount_of(change).unwrap() + rest
            } else {
                rest
            },
            CreditStepView::Undecodable { .. } => rest,
        }
    }
}

/// The rewards of every address grow by exactly what the receipts credit to it, in whatever order
/// the credits come, and the entries stay in alphabetical order.
pub proof fn law_rewards_are_totals(
    entries: RewardEntries,
    steps: Seq<CreditStepView>,
    address: Seq<char>,
)
    requires
        ascending(entries),
        after_steps(entries, steps) is Ok,
    ensures
        ascending(after_steps(entries, steps)->Ok_0),
        rewards_at(after_steps(entries, steps)->Ok_0, address).sum == rewards_at(
            entries,
            address,
        ).sum + total_credit(steps, address),
    decreases steps.len(),
{
    if steps.len() > 0 {
        match steps[0] {
            CreditStepView::Credit { address: to, change } => {
                let v = amount_of(change).unwrap();
                let before = rewards_at(entries, to);
                let value = CycleRewardsView { sum: before.sum + v, ..before };
                lemma_put_ascending(entries, to, value);
                law_put_then_lookup(entries, to, value, address);
                law_rewards_are_totals(credit(entries, to, v), steps.skip(1), address);
            },
            CreditStepView::Undecodable { .. } => {},
        }
    }
}

/// The receipts of one block after another count as the receipts of both together.
pub proof fn law_blocks_add_up(
    entries: RewardEntries,
    first: Seq<CreditStepView>,
    second: Seq<CreditStepView>,
)
    ensures
        after_steps(entries, first + second) == (match after_steps(entries, first) {
            Ok(between) => after_steps(between, second),
            Err(e) => Err(e),
        }),
    decreases first.len(),
{
    if first.len() == 0 {
        assert(first + second =~= second);
    } else {
        assert((first + second).skip(1) =~= first.skip(1) + second);
        match first[0] {
            CreditStepView::Credit { address, change } => {
                if let Some(v) = amount_of(change) {
                    law_blocks_add_up(credit(entries, address, v), first.skip(1), second);
                }
            },
            CreditStepView::Undecodable { .. } => {},
        }
    }
}

/// Whether every step can be taken: no operation is unreadable and every change is an amount.
pub open spec fn readable_steps(steps: Seq<CreditStepView>) -> bool {
    forall|i: int|
        0 <= i < steps.len() ==> match #[trigger] steps[i] {
            CreditStepView::Credit { change, .. } => amount_of(change) is Some,
            CreditStepView::Undecodable { .. } => false,
        }
}

/// Whether every step can be taken.
pub fn check_readable(steps: &Vec<CreditStep>) -> (r: bool)
    ensures
        r == readable_steps(steps_view(steps@)),
{
    let count: usize = steps.len();
    let ghost all = steps_view(steps@);
    let mut i: usize = 0;
    while i < count
        invariant
            count == steps@.len(),
            all == steps_view(steps@),
            i <= count,
            readable_steps(all.take(i as int)),
        decreases count - i,
    {
        assert(all[i as int] == steps@[i as int]@);
        let readable: bool = match &steps[i] {
            CreditStep::Credit { change, .. } => Mutez::parse(change.as_str()).is_ok(),
            CreditStep::Undecodable { .. } => false,
        };
        if !readable {
            assert(!readable_steps(all));
            return false;
        }
        assert forall|j: int| 0 <= j < i + 1 implies match #[trigger] all.take(i + 1)[j] {
            CreditStepView::Credit { change, .. } => amount_of(change) is Some,
            CreditStepView::Undecodable { .. } => false,
        } by {
            if j < i {
                assert(all.take(i as int)[j] == all.take(i + 1)[j]);
            }
        }
        i = i + 1;
    }
    assert(all.take(count as int) =~= all);
    true
}

/// The receipts of a block are counted if and only if all of them can be read.
pub proof fn law_readable_receipts_are_counted(entries: RewardEntries, steps: Seq<CreditStepView>)
    ensures
        after_steps(entries, steps) is Ok <==> readable_steps(steps),
    decreases steps.len(),
{
    if steps.len() > 0 {
        let rest = steps.skip(1);
        let head = steps[0];
        if let CreditStepView::Credit { address, change } = head {
            if let Some(v) = amount_of(change) {
                law_readable_receipts_are_counted(credit(entries, address, v), rest);
                assert(readable_steps(steps) <==> readable_steps(rest)) by {
                    if readable_steps(rest) {
                        assert forall|i: int| 0 <= i < steps.len() implies match #[trigger] steps[i] {
                            CreditStepView::Credit { change, .. } => amount_of(change) is Some,
                            CreditStepView::Undecodable { .. } => false,
                        } by {
                            if i > 0 {
                                assert(rest[i - 1] == steps[i]);
                            }
                        }
                    }
                    if readable_steps(steps) {
                        assert forall|i: int| 0 <= i < rest.len() implies match #[trigger] rest[i] {
                            CreditStepView::Credit { change, .. } => amount_of(change) is Some,
                            CreditStepView::Undecodable { .. } => false,
                        } by {
                            assert(rest[i] == steps[i + 1]);
                        }
                    }
                }
            }
        }
    }
}

/// Adding an entry behind all others leaves the earlier ones as they are.
proof fn lemma_lookup_last<W>(entries: Seq<(Seq<char>, W)>, address: Seq<char>)
    requires
        ascending(entries),
        entries.len() > 0,
    ensures
        ascending(entries.drop_last()),
        lookup(entries, address) == (if address == entries.last().0 {
            Some(entries.last().1)
        } else {
            lookup(entries.drop_last(), address)
        }),
{
    let init = entries.drop_last();
    assert forall|i: int, j: int| 0 <= i < j < init.len() implies precedes(
        #[trigger] init[i].0,
        #[trigger] init[j].0,
    ) by {
        assert(init[i] == entries[i] && init[j] == entries[j]);
    }
    if address == entries.last().0 {
        lemma_lookup_entry(entries, entries.len() - 1);
    } else if has_entry(init, address) {
        let i = rank(init, address) as int;
        assert(entries[i] == init[i]);
        lemma_lookup_entry(entries, i);
    } else {
        assert forall|i: int| 0 <= i < entries.len() implies #[trigger] entries[i].0 != address by {
            if i < init.len() && entries[i].0 == address {
                assert(init[i] == entries[i]);
                lemma_lookup_entry(init, i);
            }
        }
        lemma_lookup_absent(entries, address);
    }
}

/// Every active delegate has an entry of its own among the entries.
proof fn lemma_active_source(entries: RewardEntries, i: int)
    requires
        0 <= i < active_rewards(entries).len(),
    ensures
        exists|j: int|
            0 <= j < entries.len() && #[trigger] entries[j].0 == active_rewards(entries)[i].0,
    decreases entries.len(),
{
    if entries.len() > 0 {
        let init = entries.drop_last();
        if i < active_rewards(init).len() {
            lemma_active_source(init, i);
            let j = choose|j: int|
                0 <= j < init.len() && #[trigger] init[j].0 == active_rewards(init)[i].0;
            assert(entries[j].0 == active_rewards(entries)[i].0);
        } else {
            assert(entries[entries.len() - 1].0 == active_rewards(entries)[i].0);
        }
    }
}

/// The active delegates are exactly those whose rewards are not zero, each once, with its rewards,
/// in alphabetical order.
pub proof fn law_active_delegates(entries: RewardEntries, address: Seq<char>)
    requires
        ascending(entries),
    ensures
        ascending(active_rewards(entries)),
        lookup(active_rewards(entries), address) == (if rewards_at(entries, address).sum != 0 {
            Some(rewards_at(entries, address).sum)
        } else {
            None
        }),
    decreases entries.len(),
{
    if entries.len() > 0 {
        let init = entries.drop_last();
        let active = active_rewards(entries);
        lemma_lookup_last(entries, address);
        law_active_delegates(init, address);
        if entries.last().1.sum != 0 {
            assert(active.drop_last() =~= active_rewards(init));
            assert forall|i: int, j: int| 0 <= i < j < active.len() implies precedes(
                #[trigger] active[i].0,
                #[trigger] active[j].0,
            ) by {
                assert(active[i] == active_rewards(init)[i]);
                if j < active.len() - 1 {
                    assert(active[j] == active_rewards(init)[j]);
                } else {
                    lemma_active_source(init, i);
                    let k = choose|k: int|
                        0 <= k < init.len() && #[trigger] init[k].0 == active_rewards(init)[i].0;
                    assert(init[k] == entries[k]);
                    assert(precedes(entries[k].0, entries[entries.len() - 1].0));
                }
            }
            lemma_lookup_last(active, address);
        } else if address == entries.last().0 {
            assert forall|i: int| 0 <= i < init.len() implies #[trigger] init[i].0 != address by {
                assert(init[i] == entries[i]);
                assert(precedes(entries[i].0, entries[entries.len() - 1].0));
                lemma_precedes_irreflexive(address);
            }
            lemma_lookup_absent(init, address);
        }
        if entries.last().1.sum != 0 && address == entries.last().0 {
            assert(active.last() == (address, entries.last().1.sum));
        }
    } else {
        lemma_lookup_absent(entries, address);
    }
}

/// Credits change the sum of the rewards and nothing else.
pub proof fn law_credits_change_the_sum_alone(
    entries: RewardEntries,
    steps: Seq<CreditStepView>,
    address: Seq<char>,
)
    requires
        ascending(entries),
        after_steps(entries, steps) is Ok,
    ensures
        ({
            let before = rewards_at(entries, address);
            let after = rewards_at(after_steps(entries, steps)->Ok_0, address);
            &&& after.fees == before.fees
            &&& after.baking_rewards == before.baking_rewards
            &&& after.baking_bonuses == before.baking_bonuses
            &&& after.endorsement_rewards == before.endorsement_rewards
        }),
    decreases steps.len(),
{
    if steps.len() > 0 {
        if let CreditStepView::Credit { address: to, change } = steps[0] {
            let v = amount_of(change).unwrap();
            let before = rewards_at(entries, to);
            let value = CycleRewardsView { sum: before.sum + v, ..before };
            lemma_put_ascending(entries, to, value);
            law_put_then_lookup(entries, to, value, address);
            law_credits_change_the_sum_alone(credit(entries, to, v), steps.skip(1), address);
        }
    }
}

/// The first step that cannot be taken is the one whose error is told.
pub proof fn law_first_failure_is_told(entries: RewardEntries, steps: Seq<CreditStepView>, i: int)
    requires
        0 <= i < steps.len(),
        readable_steps(steps.take(i)),
        !readable_steps(seq![steps[i]]),
    ensures
        after_steps(entries, steps) == Err::<RewardEntries, RewardsError>(
            match steps[i] {
                CreditStepView::Credit { change, .. } => RewardsError::InvalidAmount {
                    error: amount_refusal(change),
                },
                CreditStepView::Undecodable { message } => RewardsError::InvalidOperation {
                    message,
                },
            },
        ),
    decreases i,
{
    let one = seq![steps[i]];
    if i == 0 {
        let k = choose|k: int|
            0 <= k < one.len() && !match #[trigger] one[k] {
                CreditStepView::Credit { change, .. } => amount_of(change) is Some,
                CreditStepView::Undecodable { .. } => false,
            };
        assert(one[k] == steps[0]);
    } else {
        assert(steps.take(i)[0] == steps[0]);
        let rest = steps.skip(1);
        assert(rest.take(i - 1) =~= steps.take(i).skip(1));
        assert forall|j: int| 0 <= j < i - 1 implies match #[trigger] rest.take(i - 1)[j] {
            CreditStepView::Credit { change, .. } => amount_of(change) is Some,
            CreditStepView::Undecodable { .. } => false,
        } by {
            assert(rest.take(i - 1)[j] == steps.take(i)[j + 1]);
        }
        assert(rest[i - 1] == steps[i]);
        if let CreditStepView::Credit { address, change } = steps[0] {
            law_first_failure_is_told(
                credit(entries, address, amount_of(change).unwrap()),
                rest,
                i - 1,
            );
        }
    }
}

} // verus!
