//! The receipts of a block, the delegates, and what is paid out to them.
use crate::address_map::AddressMap;
use crate::mutez::{amount_of, amount_refusal, InvalidAmount, Mutez};
use crate::rewards::error::RewardsError;
use crate::text::{decimal, texts};
use vstd::prelude::*;

verus! {

/// The address of a delegate.
pub type Delegate = String;

/// The address of a delegator.
pub type Delegator = String;

/// The rewards of a cycle as decimal numbers of mutez.
#[derive(Clone, Debug)]
pub struct CycleRewards {
    pub fees: String,
    pub baking_rewards: String,
    pub baking_bonuses: String,
    pub endorsement_rewards: String,
    pub sum: String,
}

impl Default for CycleRewards {
    fn default() -> (r: Self)
        ensures
            r.fees@ == ""@,
            r.baking_rewards@ == ""@,
            r.baking_bonuses@ == ""@,
            r.endorsement_rewards@ == ""@,
            r.sum@ == ""@,
    {
        CycleRewards {
            fees: "".to_owned(),
            baking_rewards: "".to_owned(),
            baking_bonuses: "".to_owned(),
            endorsement_rewards: "".to_owned(),
            sum: "".to_owned(),
        }
    }
}

/// The rewards of a cycle as amounts.
#[derive(Clone, Debug)]
pub struct CycleRewardsInt {
    pub fees: Mutez,
    pub baking_rewards: Mutez,
    pub baking_bonuses: Mutez,
    pub endorsement_rewards: Mutez,
    pub sum: Mutez,
}

/// The rewards of a cycle as numbers.
pub struct CycleRewardsView {
    pub fees: int,
    pub baking_rewards: int,
    pub baking_bonuses: int,
    pub endorsement_rewards: int,
    pub sum: int,
}

impl View for CycleRewardsInt {
    type V = CycleRewardsView;

    open spec fn view(&self) -> CycleRewardsView {
        CycleRewardsView {
            fees: self.fees@,
            baking_rewards: self.baking_rewards@,
            baking_bonuses: self.baking_bonuses@,
            endorsement_rewards: self.endorsement_rewards@,
            sum: self.sum@,
        }
    }
}

/// No rewards at all.
pub open spec fn no_rewards() -> CycleRewardsView {
    CycleRewardsView {
        fees: 0,
        baking_rewards: 0,
        baking_bonuses: 0,
        endorsement_rewards: 0,
        sum: 0,
    }
}

impl Default for CycleRewardsInt {
    fn default() -> (r: Self)
        ensures
            r@ == no_rewards(),
            r.fees@ == 0,
            r.baking_rewards@ == 0,
            r.baking_bonuses@ == 0,
            r.endorsement_rewards@ == 0,
            r.sum@ == 0,
    {
        CycleRewardsInt {
            fees: Mutez::zero(),
            baking_rewards: Mutez::zero(),
            baking_bonuses: Mutez::zero(),
            endorsement_rewards: Mutez::zero(),
            sum: Mutez::zero(),
        }
    }
}

impl vstd::std_specs::convert::FromSpecImpl<CycleRewardsInt> for CycleRewards {
    open spec fn obeys_from_spec() -> bool {
        false
    }

    open spec fn from_spec(v: CycleRewardsInt) -> CycleRewards {
        arbitrary()
    }
}

impl From<CycleRewardsInt> for CycleRewards {
    fn from(num_ver: CycleRewardsInt) -> (r: Self)
        ensures
            r.fees@ == decimal(num_ver.fees@),
            r.baking_rewards@ == decimal(num_ver.baking_rewards@),
            r.baking_bonuses@ == decimal(num_ver.baking_bonuses@),
            r.endorsement_rewards@ == decimal(num_ver.endorsement_rewards@),
            r.sum@ == decimal(num_ver.sum@),
    {
        CycleRewards {
            fees: num_ver.fees.to_text(),
            baking_rewards: num_ver.baking_rewards.to_text(),
            baking_bonuses: num_ver.baking_bonuses.to_text(),
            endorsement_rewards: num_ver.endorsement_rewards.to_text(),
            sum: num_ver.sum.to_text(),
        }
    }
}

/// A change of a balance in the receipt of a block.
#[derive(Clone, Debug)]
pub enum BalanceUpdateKind {
    Contract(ContractKind),
    Accumulator(AccumulatorKind),
    Freezer(FreezerKind),
    Minted(MintedKind),
    Burned,
    Commitment,
    Unknown,
}

impl Default for BalanceUpdateKind {
    fn default() -> (r: Self)
        ensures
            r == BalanceUpdateKind::Unknown,
    {
        BalanceUpdateKind::Unknown
    }
}

/// New mutez.
#[derive(Clone, Debug)]
pub struct MintedKind {
    pub category: BalanceUpdateCategory,
    pub change: String,
    pub origin: BalanceUpdateOrigin,
}

/// Mutez on their way between balances.
#[derive(Clone, Debug)]
pub struct AccumulatorKind {
    pub category: BalanceUpdateCategory,
    pub change: String,
    pub origin: BalanceUpdateOrigin,
}

/// A change of the balance of a contract.
#[derive(Clone, Debug)]
pub struct ContractKind {
    pub contract: String,
    pub change: String,
    pub origin: BalanceUpdateOrigin,
}

/// A change of the frozen balance of a delegate.
#[derive(Clone, Debug)]
pub struct FreezerKind {
    pub delegate: String,
    pub change: String,
    pub origin: BalanceUpdateOrigin,
    pub category: BalanceUpdateCategory,
}

/// What a balance changed for.
#[derive(Clone, Copy, Debug, PartialEq, Eq, Structural)]
pub enum BalanceUpdateCategory {
    BlockFees,
    Deposits,
    NonceRevelationRewards,
    DoubleSigningEvidenceRewards,
    EndorsingRewards,
    BakingRewards,
    BakingBonuses,
    StorageFees,
    Punishment,
    LostEndorsingRewards,
    Subsidy,
    Burned,
    Commitment,
    Bootstrap,
    Invoice,
    Minted,
}

/// Where a change of a balance comes from.
#[derive(Clone, Copy, Debug, PartialEq, Eq, Structural)]
pub enum BalanceUpdateOrigin {
    Block,
    Migration,
    Subsidy,
    Simulation,
}

/// The fees of a block.
pub struct BlockFees {
    pub origin: BalanceUpdateOrigin,
}

/// The kinds of operations of the anonymous validation pass.
#[derive(Clone, Copy, Debug, PartialEq, Eq, Structural)]
pub enum OperationKind {
    SeedNonceRevelation,
    DoubleBakingEvidence,
    DoublePreendorsementEvidence,
    DoubleEndorsementEvidence,
    ActivateAccount,
    Ballot,
}

/// The receipt of an operation.
#[derive(Clone, Debug)]
pub struct OperationMetadata {
    pub balance_updates: Vec<BalanceUpdateKind>,
}

/// An operation with its receipt.
#[derive(Clone, Debug)]
pub struct BareOperationKind {
    pub kind: OperationKind,
    pub metadata: OperationMetadata,
}

/// A signed group of operations.
#[derive(Clone, Debug)]
pub struct OperationRepresentation {
    pub protocol: String,
    pub chain_id: String,
    pub hash: String,
    pub branch: String,
    pub contents: Vec<BareOperationKind>,
}

/// A delegate, its balances as decimal numbers of mutez.
#[derive(Clone, Debug)]
pub struct DelegateInfo {
    pub full_balance: String,
    pub current_frozen_deposits: String,
    pub frozen_deposits: String,
    pub staking_balance: String,
    pub delegated_contracts: Vec<String>,
    pub delegated_balance: String,
    pub deactivated: bool,
    pub grace_period: i32,
    pub voting_power: i32,
}

impl DelegateInfo {
    /// Whether every balance is an amount.
    pub open spec fn amounts_readable(&self) -> bool {
        &&& amount_of(self.full_balance@) is Some
        &&& amount_of(self.current_frozen_deposits@) is Some
        &&& amount_of(self.frozen_deposits@) is Some
        &&& amount_of(self.staking_balance@) is Some
        &&& amount_of(self.delegated_balance@) is Some
    }

    /// Why the first balance that is no amount is none, the stake before the delegated balance.
    pub open spec fn refusal(&self) -> InvalidAmount {
        if amount_of(self.full_balance@) is None {
            amount_refusal(self.full_balance@)
        } else if amount_of(self.current_frozen_deposits@) is None {
            amount_refusal(self.current_frozen_deposits@)
        } else if amount_of(self.frozen_deposits@) is None {
            amount_refusal(self.frozen_deposits@)
        } else if amount_of(self.staking_balance@) is None {
            amount_refusal(self.staking_balance@)
        } else {
            amount_refusal(self.delegated_balance@)
        }
    }

    /// The delegate with its balances as numbers, and no delegator looked at.
    pub open spec fn numbers(&self) -> DelegateInfoView {
        DelegateInfoView {
            full_balance: amount_of(self.full_balance@).unwrap(),
            current_frozen_deposits: amount_of(self.current_frozen_deposits@).unwrap(),
            frozen_deposits: amount_of(self.frozen_deposits@).unwrap(),
            staking_balance: amount_of(self.staking_balance@).unwrap(),
            delegated_contracts: texts(self.delegated_contracts@),
            delegated_balance: amount_of(self.delegated_balance@).unwrap(),
            deactivated: self.deactivated,
            grace_period: self.grace_period,
            voting_power: self.voting_power,
            delegator_balances: Seq::empty(),
        }
    }
}

/// A delegate, its balances as amounts.
#[derive(Clone, Debug)]
pub struct DelegateInfoInt {
    pub full_balance: Mutez,
    pub current_frozen_deposits: Mutez,
    pub frozen_deposits: Mutez,
    pub staking_balance: Mutez,
    pub delegated_contracts: Vec<String>,
    pub delegated_balance: Mutez,
    pub deactivated: bool,
    pub grace_period: i32,
    pub voting_power: i32,
    pub delegator_balances: AddressMap<Mutez>,
}

/// The texts and numbers of a `DelegateInfoInt`.
pub struct DelegateInfoView {
    pub full_balance: int,
    pub current_frozen_deposits: int,
    pub frozen_deposits: int,
    pub staking_balance: int,
    pub delegated_contracts: Seq<Seq<char>>,
    pub delegated_balance: int,
    pub deactivated: bool,
    pub grace_period: i32,
    pub voting_power: i32,
    pub delegator_balances: Seq<(Seq<char>, int)>,
}

impl View for DelegateInfoInt {
    type V = DelegateInfoView;

    open spec fn view(&self) -> DelegateInfoView {
        DelegateInfoView {
            full_balance: self.full_balance@,
            current_frozen_deposits: self.current_frozen_deposits@,
            frozen_deposits: self.frozen_deposits@,
            staking_balance: self.staking_balance@,
            delegated_contracts: texts(self.delegated_contracts@),
            delegated_balance: self.delegated_balance@,
            deactivated: self.deactivated,
            grace_period: self.grace_period,
            voting_power: self.voting_power,
            delegator_balances: self.delegator_balances@,
        }
    }
}

impl Default for DelegateInfoInt {
    fn default() -> (r: Self)
        ensures
            r@ == (DelegateInfoView {
                full_balance: 0,
                current_frozen_deposits: 0,
                frozen_deposits: 0,
                staking_balance: 0,
                delegated_contracts: Seq::empty(),
                delegated_balance: 0,
                deactivated: false,
                grace_period: 0,
                voting_power: 0,
                delegator_balances: Seq::empty(),
            }),
            r.delegator_balances.wf(),
    {
        let delegated_contracts: Vec<String> = Vec::new();
        assert(texts(delegated_contracts@) =~= Seq::<Seq<char>>::empty());
        DelegateInfoInt {
            full_balance: Mutez::zero(),
            current_frozen_deposits: Mutez::zero(),
            frozen_deposits: Mutez::zero(),
            staking_balance: Mutez::zero(),
            delegated_contracts,
            delegated_balance: Mutez::zero(),
            deactivated: false,
            grace_period: 0,
            voting_power: 0,
            delegator_balances: AddressMap::new(),
        }
    }
}

/// Reads an amount of a delegate.
fn read_amount(s: &String) -> (r: Result<Mutez, RewardsError>)
    ensures
        r is Ok <==> amount_of(s@) is Some,
        r matches Ok(m) ==> Some(m@) == amount_of(s@),
        r matches Err(e) ==> e == (RewardsError::InvalidAmount { error: amount_refusal(s@) }),
{
    match Mutez::parse(s.as_str()) {
        Ok(m) => Ok(m),
        Err(error) => Err(RewardsError::InvalidAmount { error }),
    }
}

impl vstd::std_specs::convert::TryFromSpecImpl<DelegateInfo> for DelegateInfoInt {
    open spec fn obeys_try_from_spec() -> bool {
        false
    }

    open spec fn try_from_spec(v: DelegateInfo) -> Result<DelegateInfoInt, RewardsError> {
        arbitrary()
    }
}

impl TryFrom<DelegateInfo> for DelegateInfoInt {
    type Error = RewardsError;

    fn try_from(value: DelegateInfo) -> (r: Result<Self, RewardsError>)
        ensures
            r is Ok <==> value.amounts_readable(),
            r matches Ok(info) ==> info@ == value.numbers() && info.delegator_balances.wf(),
            r matches Err(e) ==> e == (RewardsError::InvalidAmount { error: value.refusal() }),
            r matches Ok(info) ==> {
                &&& Some(info.full_balance@) == amount_of(value.full_balance@)
                &&& Some(info.current_frozen_deposits@) == amount_of(value.current_frozen_deposits@)
                &&& Some(info.frozen_deposits@) == amount_of(value.frozen_deposits@)
                &&& Some(info.staking_balance@) == amount_of(value.staking_balance@)
                &&& info.delegated_contracts == value.delegated_contracts
                &&& Some(info.delegated_balance@) == amount_of(value.delegated_balance@)
                &&& info.deactivated == value.deactivated
                &&& info.grace_period == value.grace_period
                &&& info.voting_power == value.voting_power
                &&& info.delegator_balances@.len() == 0
            },
            r is Err <==> ({
                ||| amount_of(value.full_balance@) is None
                ||| amount_of(value.current_frozen_deposits@) is None
                ||| amount_of(value.frozen_deposits@) is None
                ||| amount_of(value.staking_balance@) is None
                ||| amount_of(value.delegated_balance@) is None
            }),
            r matches Err(e) ==> e == (RewardsError::InvalidAmount {
                error: amount_refusal(
                    if amount_of(value.full_balance@) is None {
                        value.full_balance@
                    } else if amount_of(value.current_frozen_deposits@) is None {
                        value.current_frozen_deposits@
                    } else if amount_of(value.frozen_deposits@) is None {
                        value.frozen_deposits@
                    } else if amount_of(value.staking_balance@) is None {
                        value.staking_balance@
                    } else {
                        value.delegated_balance@
                    },
                ),
            }),
    {
        let full_balance = match read_amount(&value.full_balance) {
            Ok(amount) => amount,
            Err(e) => return Err(e),
        };
        let current_frozen_deposits = match read_amount(&value.current_frozen_deposits) {
            Ok(amount) => amount,
            Err(e) => return Err(e),
        };
        let frozen_deposits = match read_amount(&value.frozen_deposits) {
            Ok(amount) => amount,
            Err(e) => return Err(e),
        };
        let staking_balance = match read_amount(&value.staking_balance) {
            Ok(amount) => amount,
            Err(e) => return Err(e),
        };
        let delegated_balance = match read_amount(&value.delegated_balance) {
            Ok(amount) => amount,
            Err(e) => return Err(e),
        };
        Ok(
            DelegateInfoInt {
                full_balance,
                current_frozen_deposits,
                frozen_deposits,
                staking_balance,
                delegated_contracts: value.delegated_contracts,
                delegated_balance,
                deactivated: value.deactivated,
                grace_period: value.grace_period,
                voting_power: value.voting_power,
                delegator_balances: AddressMap::new(),
            },
        )
    }
}

/// What a delegator held and what its share of the rewards is.
#[derive(Clone, Debug)]
pub struct DelegatorInfo {
    pub address: String,
    pub balance: String,
    pub reward: String,
}

/// The texts of a `DelegatorInfo`.
pub struct DelegatorInfoView {
    pub address: Seq<char>,
    pub balance: Seq<char>,
    pub reward: Seq<char>,
}

impl View for DelegatorInfo {
    type V = DelegatorInfoView;

    open spec fn view(&self) -> DelegatorInfoView {
        DelegatorInfoView {
            address: self.address@,
            balance: self.balance@,
            reward: self.reward@,
        }
    }
}

impl DelegatorInfo {
    pub fn new(address: String, balance: String, reward: String) -> (r: Self)
        ensures
            r == (DelegatorInfo { address, balance, reward }),
    {
        DelegatorInfo { address, balance, reward }
    }
}

/// The rewards of a delegate and the shares of its delegators.
#[derive(Clone, Debug)]
pub struct DelegateRewardDistribution {
    pub address: String,
    pub total_rewards: String,
    pub staking_balance: String,
    pub delegator_rewards: Vec<DelegatorInfo>,
}

/// The texts of a `DelegateRewardDistribution`.
pub struct DelegateRewardDistributionView {
    pub address: Seq<char>,
    pub total_rewards: Seq<char>,
    pub staking_balance: Seq<char>,
    pub delegator_rewards: Seq<DelegatorInfoView>,
}

impl View for DelegateRewardDistribution {
    type V = DelegateRewardDistributionView;

    open spec fn view(&self) -> DelegateRewardDistributionView {
        DelegateRewardDistributionView {
            address: self.address@,
            total_rewards: self.total_rewards@,
            staking_balance: self.staking_balance@,
            delegator_rewards: self.delegator_rewards@.map_values(|d: DelegatorInfo| d@),
        }
    }
}

impl DelegateRewardDistribution {
    /// The rewards of a delegate before any delegator has a share.
    pub fn new(address: String, total_rewards: String, staking_balance: String) -> (r: Self)
        ensures
            r.address == address,
            r.total_rewards == total_rewards,
            r.staking_balance == staking_balance,
            r.delegator_rewards@ == Seq::<DelegatorInfo>::empty(),
    {
        DelegateRewardDistribution {
            address,
            total_rewards,
            staking_balance,
            delegator_rewards: Vec::new(),
        }
    }

    /// Adds the share of a delegator behind the others.
    pub fn insert_delegator_reward(&mut self, _delegator: &str, delegator_info: DelegatorInfo)
        ensures
            final(self).address == old(self).address,
            final(self).total_rewards == old(self).total_rewards,
            final(self).staking_balance == old(self).staking_balance,
            final(self).delegator_rewards@ == old(self).delegator_rewards@.push(delegator_info),
    {
        self.delegator_rewards.push(delegator_info);
    }
}

/// What is paid out for a cycle, one entry for each delegate.
pub type CycleRewardDistribution = Vec<DelegateRewardDistribution>;

} // verus!
