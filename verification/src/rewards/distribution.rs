//! How the rewards of one delegate are shared out between its delegators.
use crate::address_map::put;
use crate::fraction::{lemma_nearest_equal, nearest, share_of};
use crate::mutez::{amount_of, is_amount, law_amount_text_read_back, magnitude, Mutez};
use crate::rewards::types::{
    DelegateInfoInt, DelegateInfoView, DelegateRewardDistribution, DelegateRewardDistributionView,
    DelegatorInfo, DelegatorInfoView,
};
use crate::text::{
    decimal, law_trim_end, law_trim_start, lemma_decimal_chars, lemma_trim_end_run,
    lemma_trim_start_one, lemma_trim_start_run, texts, trim_end, trim_end_char, trim_start,
    trim_start_char, unsigned_part,
};
use vstd::prelude::*;

verus! {

/// The share of a delegator in the rewards of its delegate: as large a part of the rewards as its
/// balance is of the stake, to the nearest mutez.
pub open spec fn reward_share(
    staking_balance: int,
    delegate_total_reward: int,
    delegator_balance: int,
) -> int {
    nearest(delegate_total_reward * delegator_balance, staking_balance)
}

/// The share of a delegator in the rewards of its delegate.
pub fn get_delegator_reward_share(
    staking_balance: &Mutez,
    delegate_total_reward: &Mutez,
    delegator_balance: &Mutez,
) -> (r: Mutez)
    requires
        staking_balance@ != 0,
    ensures
        r@ == reward_share(staking_balance@, delegate_total_reward@, delegator_balance@),
        2 * magnitude(r@ * staking_balance@ - delegate_total_reward@ * delegator_balance@)
            <= magnitude(staking_balance@),
        2 * magnitude(r@ * staking_balance@ - delegate_total_reward@ * delegator_balance@)
            == magnitude(staking_balance@) ==> magnitude(r@ * staking_balance@) > magnitude(
            delegate_total_reward@ * delegator_balance@,
        ),
{
    proof {
        law_rounding_goes_to_the_nearest(
            staking_balance@,
            delegate_total_reward@,
            delegator_balance@,
        );
    }
    share_of(delegate_total_reward, delegator_balance, staking_balance)
}

/// A text without quotation marks around it and line ends behind it.
pub open spec fn unquoted(s: Seq<char>) -> Seq<char> {
    trim_start(trim_end(trim_end(s, '\n'), '"'), '"')
}

/// The balance that a reply tells; one that cannot be read counts as zero.
pub open spec fn reported_balance(reply: Seq<char>) -> int {
    match amount_of(unquoted(reply)) {
        Some(balance) => balance,
        None => 0,
    }
}

/// The balance that a reply tells.
pub fn read_balance(reply: &str) -> (r: Mutez)
    ensures
        r@ == reported_balance(reply@),
        forall|v: int| reply@ == seq!['"'] + #[trigger] decimal(v) + seq!['"', '\n'] ==> r@ == v,
{
    proof {
        assert forall|v: int| reply@ == seq!['"'] + #[trigger] decimal(v) + seq![
            '"',
            '\n',
        ] implies reported_balance(reply@) == v by {
            law_told_balance_is_read(v, seq!['\n']);
            assert(reply@ =~= seq!['"'] + decimal(v) + seq!['"'] + seq!['\n']);
        }
    }
    let line: &str = trim_end_char(reply, '\n');
    match Mutez::parse(trim_start_char(trim_end_char(line, '"'), '"')) {
        Ok(balance) => balance,
        Err(_) => Mutez::zero(),
    }
}

/// How the balance that a delegate reports for its delegators compares with what they hold.
#[derive(Debug)]
pub struct BalanceCheck {
    pub delegate: String,
    pub matches: bool,
    pub delegated: Mutez,
    pub summed: Mutez,
    pub difference: Mutez,
}

/// The texts and numbers of a `BalanceCheck`.
pub struct BalanceCheckView {
    pub delegate: Seq<char>,
    pub matches: bool,
    pub delegated: int,
    pub summed: int,
    pub difference: int,
}

impl View for BalanceCheck {
    type V = BalanceCheckView;

    open spec fn view(&self) -> BalanceCheckView {
        BalanceCheckView {
            delegate: self.delegate@,
            matches: self.matches,
            delegated: self.delegated@,
            summed: self.summed@,
            difference: self.difference@,
        }
    }
}

/// The comparison of a reported balance with the sum of the balances of the delegators.
pub open spec fn balance_check(delegate: Seq<char>, delegated: int, summed: int)
    -> BalanceCheckView {
    BalanceCheckView {
        delegate,
        matches: delegated == summed,
        delegated,
        summed,
        difference: magnitude(summed - delegated),
    }
}

/// The next of the contracts of a delegate that is not the delegate itself.
pub open spec fn next_delegator(contracts: Seq<Seq<char>>, delegate: Seq<char>, from: nat) -> nat
    decreases contracts.len() - from,
{
    if from < contracts.len() && contracts[from as int] == delegate {
        next_delegator(contracts, delegate, from + 1)
    } else {
        from
    }
}

/// The contracts of a delegate that are not the delegate itself.
pub open spec fn delegators(contracts: Seq<Seq<char>>, delegate: Seq<char>) -> Seq<Seq<char>>
    decreases contracts.len(),
{
    if contracts.len() == 0 {
        Seq::empty()
    } else if contracts.last() == delegate {
        delegators(contracts.drop_last(), delegate)
    } else {
        delegators(contracts.drop_last(), delegate).push(contracts.last())
    }
}

/// The next delegator is the first contract that is not the delegate itself.
pub proof fn lemma_next_delegator(contracts: Seq<Seq<char>>, delegate: Seq<char>, from: nat)
    ensures
        ({
            let to = next_delegator(contracts, delegate, from);
            &&& from <= to
            &&& forall|i: int| from <= i < to ==> #[trigger] contracts[i] == delegate
            &&& to < contracts.len() ==> contracts[to as int] != delegate
        }),
    decreases contracts.len() - from,
{
    if from < contracts.len() && contracts[from as int] == delegate {
        lemma_next_delegator(contracts, delegate, from + 1);
    }
}

/// The delegators of a delegate are all of its contracts but the delegate itself, as often and in
/// the order in which it lists them.
pub proof fn law_delegators_are_all_others(contracts: Seq<Seq<char>>, delegate: Seq<char>)
    ensures
        delegators(contracts, delegate) == contracts.filter(|c: Seq<char>| c != delegate),
    decreases contracts.len(),
{
    reveal(Seq::filter);
    if contracts.len() > 0 {
        law_delegators_are_all_others(contracts.drop_last(), delegate);
    }
}

/// A delegate whose rewards are being shared out.
#[derive(Debug)]
pub struct DelegatePayout {
    /// The rewards of the delegate.
    pub total: Mutez,
    /// The delegate as it was when the stake was settled.
    pub info: DelegateInfoInt,
    /// The shares so far.
    pub distribution: DelegateRewardDistribution,
    /// The balances of the delegators so far, summed up.
    pub balance_sum: Mutez,
    /// The contract whose balance comes next.
    pub position: usize,
}

/// The texts and numbers of a `DelegatePayout`.
#[verifier::ext_equal]
pub struct DelegatePayoutView {
    pub total: int,
    pub info: DelegateInfoView,
    pub distribution: DelegateRewardDistributionView,
    pub balance_sum: int,
    pub position: nat,
}

impl View for DelegatePayout {
    type V = DelegatePayoutView;

    open spec fn view(&self) -> DelegatePayoutView {
        DelegatePayoutView {
            total: self.total@,
            info: self.info@,
            distribution: self.distribution@,
            balance_sum: self.balance_sum@,
            position: self.position as nat,
        }
    }
}

/// A delegate before any of its delegators has a share.
pub open spec fn payout_begun(delegate: Seq<char>, total: int, info: DelegateInfoView)
    -> DelegatePayoutView {
    DelegatePayoutView {
        total,
        info,
        distribution: DelegateRewardDistributionView {
            address: delegate,
            total_rewards: decimal(total),
            staking_balance: decimal(info.staking_balance),
            delegator_rewards: Seq::empty(),
        },
        balance_sum: 0,
        position: next_delegator(info.delegated_contracts, delegate, 0),
    }
}

/// A delegate after its next delegator got the share that its balance gives it.
pub open spec fn payout_continued(p: DelegatePayoutView, balance: int) -> DelegatePayoutView {
    let delegator = p.info.delegated_contracts[p.position as int];
    let share = reward_share(p.info.staking_balance, p.total, balance);
    DelegatePayoutView {
        total: p.total,
        info: DelegateInfoView {
            delegator_balances: put(p.info.delegator_balances, delegator, balance),
            ..p.info
        },
        distribution: DelegateRewardDistributionView {
            delegator_rewards: p.distribution.delegator_rewards.push(
                DelegatorInfoView {
                    address: delegator,
                    balance: decimal(balance),
                    reward: decimal(share),
                },
            ),
            ..p.distribution
        },
        balance_sum: p.balance_sum + balance,
        position: next_delegator(
            p.info.delegated_contracts,
            p.distribution.address,
            p.position + 1,
        ),
    }
}

impl DelegatePayoutView {
    /// Whether every delegator has its share.
    pub open spec fn complete(self) -> bool {
        self.position >= self.info.delegated_contracts.len()
    }
}

impl DelegatePayout {
    /// The invariant of a delegate whose rewards are being shared out.
    pub open spec fn wf(&self) -> bool {
        self.info.delegator_balances.wf()
    }

    /// The next contract from a position on that is not the delegate itself.
    fn find_delegator(contracts: &Vec<String>, delegate: &String, from: usize) -> (r: usize)
        requires
            from <= contracts@.len(),
        ensures
            r == next_delegator(texts(contracts@), delegate@, from as nat),
            r <= contracts@.len(),
    {
        let count: usize = contracts.len();
        let mut i: usize = from;
        while i < count && contracts[i] == *delegate
            invariant
                count == contracts@.len(),
                i <= count,
                next_delegator(texts(contracts@), delegate@, from as nat) == next_delegator(
                    texts(contracts@),
                    delegate@,
                    i as nat,
                ),
            decreases count - i,
        {
            assert(texts(contracts@)[i as int] == contracts@[i as int]@);
            i = i + 1;
        }
        assert(i < count ==> texts(contracts@)[i as int] == contracts@[i as int]@);
        i
    }

    /// Begins to share out the rewards of a delegate.
    pub fn begin(delegate: &String, total: &Mutez, info: DelegateInfoInt) -> (r: Self)
        requires
            info.delegator_balances.wf(),
        ensures
            r.wf(),
            r@ == payout_begun(delegate@, total@, info@),
            r@.total == total@,
            r@.info == info@,
            r@.distribution.address == delegate@,
            r@.distribution.total_rewards == decimal(total@),
            r@.distribution.staking_balance == decimal(info@.staking_balance),
            r@.distribution.delegator_rewards.len() == 0,
            r@.balance_sum == 0,
            forall|i: int|
                0 <= i < r@.position ==> #[trigger] info@.delegated_contracts[i] == delegate@,
            !r@.complete() ==> info@.delegated_contracts[r@.position as int] != delegate@,
    {
        proof {
            lemma_next_delegator(info@.delegated_contracts, delegate@, 0);
        }
        let position: usize = Self::find_delegator(&info.delegated_contracts, delegate, 0);
        let distribution = DelegateRewardDistribution::new(
            delegate.clone(),
            total.to_text(),
            info.staking_balance.to_text(),
        );
        assert(distribution@.delegator_rewards =~= Seq::<DelegatorInfoView>::empty());
        DelegatePayout {
            total: total.clone(),
            info,
            distribution,
            balance_sum: Mutez::zero(),
            position,
        }
    }

    /// Whether every delegator has its share.
    pub fn is_complete(&self) -> (r: bool)
        ensures
            r == self@.complete(),
    {
        self.position >= self.info.delegated_contracts.len()
    }

    /// The delegator whose balance comes next.
    pub fn delegator(&self) -> (r: &String)
        requires
            !self@.complete(),
        ensures
            r@ == self@.info.delegated_contracts[self@.position as int],
    {
        &self.info.delegated_contracts[self.position]
    }

    /// Gives the next delegator the share that its balance gives it.
    pub fn add_balance(self, balance: Mutez) -> (r: Self)
        requires
            self.wf(),
            !self@.complete(),
            self@.info.staking_balance != 0,
        ensures
            r.wf(),
            r@ == payout_continued(self@, balance@),
            r@.total == self@.total,
            r@.info.staking_balance == self@.info.staking_balance,
            r@.info.delegated_balance == self@.info.delegated_balance,
            r@.info.delegated_contracts == self@.info.delegated_contracts,
            r@.distribution.address == self@.distribution.address,
            r@.distribution.total_rewards == self@.distribution.total_rewards,
            r@.distribution.staking_balance == self@.distribution.staking_balance,
            r@.distribution.delegator_rewards.len() == self@.distribution.delegator_rewards.len()
                + 1,
            forall|i: int|
                0 <= i < self@.distribution.delegator_rewards.len()
                    ==> #[trigger] r@.distribution.delegator_rewards[i]
                    == self@.distribution.delegator_rewards[i],
            r@.distribution.delegator_rewards.last().address
                == self@.info.delegated_contracts[self@.position as int],
            r@.distribution.delegator_rewards.last().balance == decimal(balance@),
            r@.balance_sum == self@.balance_sum + balance@,
            r@.position > self@.position,
            forall|i: int|
                self@.position < i < r@.position
                    ==> #[trigger] self@.info.delegated_contracts[i] == self@.distribution.address,
            !r@.complete() ==> self@.info.delegated_contracts[r@.position as int]
                != self@.distribution.address,
    {
        proof {
            lemma_next_delegator(
                self@.info.delegated_contracts,
                self@.distribution.address,
                self@.position + 1,
            );
        }
        let mut payout = self;
        let count: usize = payout.info.delegated_contracts.len();
        assert(payout.position < count);
        let delegator: String = payout.info.delegated_contracts[payout.position].clone();
        let share = get_delegator_reward_share(
            &payout.info.staking_balance,
            &payout.total,
            &balance,
        );
        let delegator_info = DelegatorInfo::new(
            delegator.clone(),
            balance.to_text(),
            share.to_text(),
        );
        let ghost earlier = payout.distribution.delegator_rewards@;
        payout.distribution.insert_delegator_reward(delegator.as_str(), delegator_info);
        payout.balance_sum = payout.balance_sum.plus(&balance);
        payout.info.delegator_balances.insert(delegator, balance);
        payout.position = Self::find_delegator(
            &payout.info.delegated_contracts,
            &payout.distribution.address,
            payout.position + 1,
        );
        assert(payout@.distribution.delegator_rewards =~= self@.distribution.delegator_rewards.push(
            delegator_info@,
        ));
        payout
    }

    /// What is paid out for the delegate, and how its reported balance compares with the balances
    /// of its delegators.
    pub fn finish(self) -> (r: (DelegateRewardDistribution, BalanceCheck))
        ensures
            r.0@ == self@.distribution,
            r.1@ == balance_check(
                self@.distribution.address,
                self@.info.delegated_balance,
                self@.balance_sum,
            ),
            r.1@.delegate == self@.distribution.address,
            r.1@.delegated == self@.info.delegated_balance,
            r.1@.summed == self@.balance_sum,
            r.1@.matches <==> self@.info.delegated_balance == self@.balance_sum,
            r.1@.difference >= 0,
            r.1@.difference == self@.balance_sum - self@.info.delegated_balance
                || r.1@.difference == self@.info.delegated_balance - self@.balance_sum,
    {
        let check = BalanceCheck {
            delegate: self.distribution.address.clone(),
            matches: self.info.delegated_balance.same(&self.balance_sum),
            delegated: self.info.delegated_balance.clone(),
            summed: self.balance_sum.clone(),
            difference: self.balance_sum.distance(&self.info.delegated_balance),
        };
        (self.distribution, check)
    }
}

/// A balance is read as the number that the reply holds in decimal notation, whatever its size,
/// with or without quotation marks around it and line ends behind it.
pub proof fn law_told_balance_is_read(v: int, ends: Seq<char>)
    requires
        forall|i: int| 0 <= i < ends.len() ==> #[trigger] ends[i] == '\n',
    ensures
        reported_balance(seq!['"'] + decimal(v) + seq!['"'] + ends) == v,
        reported_balance(decimal(v) + ends) == v,
{
    let number = decimal(v);
    lemma_decimal_chars(v);
    law_amount_text_read_back(v);
    let opened = seq!['"'] + number;
    let marked = opened + seq!['"'];
    lemma_trim_end_run(marked, ends, '\n');
    assert(opened.last() == number.last());
    lemma_trim_end_run(opened, seq!['"'], '"');
    lemma_trim_start_one(number, '"');
    lemma_trim_end_run(number, ends, '\n');
    lemma_trim_end_run(number, Seq::empty(), '"');
    assert(number + Seq::<char>::empty() =~= number);
}

/// A reply is read without its line ends and then without the quotation marks around it, whatever
/// is left; what is left and is no number counts as zero.
pub proof fn law_balance_is_read_without_marks(
    opens: Seq<char>,
    body: Seq<char>,
    closes: Seq<char>,
    ends: Seq<char>,
)
    requires
        forall|i: int| 0 <= i < opens.len() ==> #[trigger] opens[i] == '"',
        forall|i: int| 0 <= i < closes.len() ==> #[trigger] closes[i] == '"',
        forall|i: int| 0 <= i < ends.len() ==> #[trigger] ends[i] == '\n',
        body.len() > 0,
        body[0] != '"',
        body.last() != '"',
        closes.len() == 0 ==> body.last() != '\n',
    ensures
        reported_balance(opens + body + closes + ends) == (match amount_of(body) {
            Some(v) => v,
            None => 0,
        }),
    decreases opens.len(),
{
    let line = opens + body + closes;
    if closes.len() > 0 {
        assert(line.last() == closes.last());
    } else {
        assert(line.last() == body.last());
    }
    lemma_trim_end_run(line, ends, '\n');
    assert((opens + body).last() == body.last());
    lemma_trim_end_run(opens + body, closes, '"');
    lemma_trim_start_run(opens, body, '"');
}

/// A reply with a character that belongs neither to a number nor to what may stand around it tells
/// no balance.
pub proof fn law_unreadable_balance_is_none(reply: Seq<char>, i: int)
    requires
        0 <= i < reply.len(),
        !('0' <= reply[i] <= '9'),
        reply[i] != '_',
        reply[i] != '+',
        reply[i] != '-',
        reply[i] != '"',
        reply[i] != '\n',
    ensures
        reported_balance(reply) == 0,
{
    let line = trim_end(reply, '\n');
    let open = trim_end(line, '"');
    let text = trim_start(open, '"');
    law_trim_end(reply, '\n');
    law_trim_end(line, '"');
    law_trim_start(open, '"');
    assert(i < line.len());
    assert(line[i] == reply[i]);
    assert(i < open.len());
    assert(open[i] == reply[i]);
    let k = i - (open.len() - text.len());
    assert(k >= 0);
    assert(text[k] == reply[i]);
    let body = unsigned_part(text);
    if text[0] == '-' || text[0] == '+' {
        assert(body[k - 1] == reply[i]);
    } else {
        assert(body[k] == reply[i]);
    }
    assert(!is_amount(text));
}

/// A whole number is the one nearest to itself.
proof fn lemma_nearest_whole(n: int)
    ensures
        nearest(n, 1) == n,
{
    assert((2 * n + 1) / 2 == n);
    assert((2 * -n + 1) / 2 == -n);
    assert(2 * 1int == 2);
}

/// A delegator that holds the whole stake gets all rewards.
pub proof fn law_whole_stake_gets_all(staking_balance: int, delegate_total_reward: int)
    requires
        staking_balance != 0,
    ensures
        reward_share(staking_balance, delegate_total_reward, staking_balance)
            == delegate_total_reward,
{
    lemma_nearest_equal(
        delegate_total_reward * staking_balance,
        staking_balance,
        delegate_total_reward,
        1,
    );
    lemma_nearest_whole(delegate_total_reward);
}

/// A delegator without a balance gets nothing.
pub proof fn law_no_balance_gets_nothing(staking_balance: int, delegate_total_reward: int)
    requires
        staking_balance != 0,
    ensures
        reward_share(staking_balance, delegate_total_reward, 0) == 0,
{
    assert(delegate_total_reward * 0 == 0);
    lemma_nearest_equal(0, staking_balance, 0, 1);
    lemma_nearest_whole(0);
}

/// Rounding moves a share by at most half a mutez.
pub proof fn law_rounding_is_within_half(
    staking_balance: int,
    delegate_total_reward: int,
    delegator_balance: int,
)
    requires
        staking_balance != 0,
    ensures
        2 * magnitude(
            reward_share(staking_balance, delegate_total_reward, delegator_balance)
                * staking_balance - delegate_total_reward * delegator_balance,
        ) <= magnitude(staking_balance),
{
    let n = delegate_total_reward * delegator_balance;
    let d = staking_balance;
    let q = nearest(n, d);
    let numer = if d < 0 {
        -n
    } else {
        n
    };
    let denom = magnitude(d);
    let size = magnitude(numer);
    let r = (2 * size + denom) / (2 * denom);
    assert(q == r || q == -r);
    vstd::arithmetic::div_mod::lemma_fundamental_div_mod(2 * size + denom, 2 * denom);
    let m = (2 * size + denom) % (2 * denom);
    assert(0 <= m < 2 * denom);
    assert(2 * size + denom == (2 * denom) * r + m);
    assert((2 * denom) * r == 2 * (r * denom)) by (nonlinear_arith);
    assert(-denom <= 2 * (r * denom) - 2 * size <= denom);
    if numer >= 0 {
        assert(q == r);
        if d < 0 {
            assert(q * d == -(r * denom)) by (nonlinear_arith)
                requires
                    q == r,
                    denom == -d,
            ;
        }
    } else {
        assert(q == -r);
        if d < 0 {
            assert(q * d == r * denom) by (nonlinear_arith)
                requires
                    q == -r,
                    denom == -d,
            ;
        } else {
            assert(q * d == -(r * denom)) by (nonlinear_arith)
                requires
                    q == -r,
                    denom == d,
            ;
        }
    }
}

/// A share is the nearest number of mutez, and a half-way case goes away from zero.
pub proof fn law_rounding_goes_to_the_nearest(
    staking_balance: int,
    delegate_total_reward: int,
    delegator_balance: int,
)
    requires
        staking_balance != 0,
    ensures
        ({
            let share = reward_share(staking_balance, delegate_total_reward, delegator_balance);
            let exact = delegate_total_reward * delegator_balance;
            let off = magnitude(share * staking_balance - exact);
            &&& 2 * off <= magnitude(staking_balance)
            &&& 2 * off == magnitude(staking_balance) ==> magnitude(share * staking_balance)
                > magnitude(exact)
        }),
{
    law_rounding_is_within_half(staking_balance, delegate_total_reward, delegator_balance);
    let n = delegate_total_reward * delegator_balance;
    let d = staking_balance;
    let q = nearest(n, d);
    let denom = magnitude(d);
    let numer = if d < 0 {
        -n
    } else {
        n
    };
    let size = magnitude(numer);
    let r = (2 * size + denom) / (2 * denom);
    vstd::arithmetic::div_mod::lemma_fundamental_div_mod(2 * size + denom, 2 * denom);
    let m = (2 * size + denom) % (2 * denom);
    assert(0 <= m < 2 * denom);
    assert((2 * denom) * r == 2 * (r * denom)) by (nonlinear_arith);
    assert(2 * size + denom == 2 * (r * denom) + m);
    vstd::arithmetic::div_mod::lemma_div_pos_is_pos(2 * size + denom, 2 * denom);
    assert(r >= 0);
    assert(magnitude(q * d) == r * denom) by (nonlinear_arith)
        requires
            q == r || q == -r,
            r >= 0,
            denom == magnitude(d),
            magnitude(q * d) == (if q * d < 0 { -(q * d) } else { q * d }),
            denom == (if d < 0 { -d } else { d }),
    ;
    if 2 * magnitude(q * d - n) == denom {
        assert(q * d == r * denom || q * d == -(r * denom));
        assert(size == magnitude(n));
        // The size is never more than half above the rounded size.
        assert(2 * (r * denom) - 2 * size > -denom);
        assert((numer >= 0) ==> q == r);
        assert((numer < 0) ==> q == -r);
        assert((q * d >= 0 && n >= 0) || (q * d <= 0 && n <= 0)) by (nonlinear_arith)
            requires
                r >= 0,
                d != 0,
                numer == (if d < 0 { -n } else { n }),
                numer >= 0 ==> q == r,
                numer < 0 ==> q == -r,
        ;
    }
}

/// Of two delegators the one with the larger balance does not get less.
pub proof fn law_larger_balance_gets_no_less(
    staking_balance: int,
    delegate_total_reward: int,
    smaller: int,
    larger: int,
)
    requires
        staking_balance > 0,
        delegate_total_reward >= 0,
        smaller <= larger,
    ensures
        reward_share(staking_balance, delegate_total_reward, smaller) <= reward_share(
            staking_balance,
            delegate_total_reward,
            larger,
        ),
{
    let a = delegate_total_reward * smaller;
    let b = delegate_total_reward * larger;
    assert(a <= b) by (nonlinear_arith)
        requires
            a == delegate_total_reward * smaller,
            b == delegate_total_reward * larger,
            delegate_total_reward >= 0,
            smaller <= larger,
    ;
    let d = staking_balance;
    if a >= 0 {
        vstd::arithmetic::div_mod::lemma_div_is_ordered(2 * a + d, 2 * b + d, 2 * d);
    } else {
        vstd::arithmetic::div_mod::lemma_div_pos_is_pos(2 * -a + d, 2 * d);
        if b >= 0 {
            vstd::arithmetic::div_mod::lemma_div_pos_is_pos(2 * b + d, 2 * d);
        } else {
            vstd::arithmetic::div_mod::lemma_div_is_ordered(2 * -b + d, 2 * -a + d, 2 * d);
        }
    }
}

/// The addresses of the delegators that have a share in a distribution.
pub open spec fn shared_addresses(d: DelegateRewardDistributionView) -> Seq<Seq<char>> {
    d.delegator_rewards.map_values(|info: DelegatorInfoView| info.address)
}

/// The addresses of the delegators that have their share.
pub open spec fn paid_addresses(p: DelegatePayoutView) -> Seq<Seq<char>> {
    shared_addresses(p.distribution)
}

/// Whether exactly the delegators before the position have their share, in the order in which the
/// delegate lists them, and the next one is a delegator, too.
pub open spec fn paid_in_order(p: DelegatePayoutView) -> bool {
    &&& p.position <= p.info.delegated_contracts.len()
    &&& paid_addresses(p) == delegators(
        p.info.delegated_contracts.take(p.position as int),
        p.distribution.address,
    )
    &&& p.position < p.info.delegated_contracts.len()
        ==> p.info.delegated_contracts[p.position as int] != p.distribution.address
}

/// Skipping the delegate itself leaves the list of its delegators as it is.
proof fn lemma_skip_delegate(contracts: Seq<Seq<char>>, delegate: Seq<char>, from: nat)
    requires
        from <= contracts.len(),
    ensures
        ({
            let to = next_delegator(contracts, delegate, from);
            &&& from <= to <= contracts.len()
            &&& delegators(contracts.take(to as int), delegate) == delegators(
                contracts.take(from as int),
                delegate,
            )
            &&& to < contracts.len() ==> contracts[to as int] != delegate
        }),
    decreases contracts.len() - from,
{
    if from < contracts.len() && contracts[from as int] == delegate {
        assert(contracts.take((from + 1) as int).drop_last() =~= contracts.take(from as int));
        lemma_skip_delegate(contracts, delegate, from + 1);
    }
}

/// Before any delegator has a share, the shares are in order.
pub proof fn law_payout_begins_in_order(delegate: Seq<char>, total: int, info: DelegateInfoView)
    ensures
        paid_in_order(payout_begun(delegate, total, info)),
{
    lemma_skip_delegate(info.delegated_contracts, delegate, 0);
    assert(paid_addresses(payout_begun(delegate, total, info)) =~= Seq::<Seq<char>>::empty());
    assert(delegators(info.delegated_contracts.take(0), delegate) =~= Seq::<Seq<char>>::empty());
}

/// Every share keeps the shares in order: the delegate itself never gets one, no delegator is left
/// out, and none is paid twice for one entry in the list.
pub proof fn law_payout_stays_in_order(p: DelegatePayoutView, balance: int)
    requires
        paid_in_order(p),
        !p.complete(),
    ensures
        paid_in_order(payout_continued(p, balance)),
{
    let contracts = p.info.delegated_contracts;
    let delegate = p.distribution.address;
    lemma_skip_delegate(contracts, delegate, p.position + 1);
    assert(contracts.take((p.position + 1) as int).drop_last() =~= contracts.take(p.position as int));
    assert(paid_addresses(payout_continued(p, balance)) =~= paid_addresses(p).push(
        contracts[p.position as int],
    ));
}

/// When every delegator has its share, the shares are those of all delegators, in the order in
/// which the delegate lists them.
pub proof fn law_complete_payout_covers_all(p: DelegatePayoutView)
    requires
        paid_in_order(p),
        p.complete(),
    ensures
        paid_addresses(p) == delegators(p.info.delegated_contracts, p.distribution.address),
{
    assert(p.info.delegated_contracts.take(p.position as int) =~= p.info.delegated_contracts);
}

/// Whether every delegator in a distribution has the share that its balance gives it in the
/// rewards and the stake that the distribution tells, and the delegate itself has none.
pub open spec fn fairly_shared(d: DelegateRewardDistributionView) -> bool {
    let stake = amount_of(d.staking_balance);
    let total = amount_of(d.total_rewards);
    &&& stake is Some
    &&& total is Some
    &&& forall|i: int|
        0 <= i < d.delegator_rewards.len() ==> {
            let entry = #[trigger] d.delegator_rewards[i];
            &&& entry.address != d.address
            &&& amount_of(entry.balance) is Some
            &&& entry.reward == decimal(
                reward_share(stake.unwrap(), total.unwrap(), amount_of(entry.balance).unwrap()),
            )
        }
}

/// Whether the shares so far are fair, for the rewards and the stake of the delegate.
pub open spec fn fair_so_far(p: DelegatePayoutView) -> bool {
    &&& fairly_shared(p.distribution)
    &&& p.distribution.total_rewards == decimal(p.total)
    &&& p.distribution.staking_balance == decimal(p.info.staking_balance)
}

/// Before any delegator has a share, the shares are fair.
pub proof fn law_payout_begins_fair(delegate: Seq<char>, total: int, info: DelegateInfoView)
    ensures
        fair_so_far(payout_begun(delegate, total, info)),
{
    law_amount_text_read_back(total);
    law_amount_text_read_back(info.staking_balance);
}

/// Every share is a fair one.
pub proof fn law_payout_stays_fair(p: DelegatePayoutView, balance: int)
    requires
        fair_so_far(p),
        paid_in_order(p),
        !p.complete(),
    ensures
        fair_so_far(payout_continued(p, balance)),
{
    law_amount_text_read_back(p.total);
    law_amount_text_read_back(p.info.staking_balance);
    law_amount_text_read_back(balance);
    let d = payout_continued(p, balance).distribution;
    assert forall|i: int| 0 <= i < d.delegator_rewards.len() implies ({
        let entry = #[trigger] d.delegator_rewards[i];
        &&& entry.address != d.address
        &&& amount_of(entry.balance) is Some
        &&& entry.reward == decimal(
            reward_share(
                amount_of(d.staking_balance).unwrap(),
                amount_of(d.total_rewards).unwrap(),
                amount_of(entry.balance).unwrap(),
            ),
        )
    }) by {
        if i < p.distribution.delegator_rewards.len() {
            assert(d.delegator_rewards[i] == p.distribution.delegator_rewards[i]);
        }
    }
}

} // verus!
