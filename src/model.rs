use vstd::prelude::*;
use crate::constants::{BPS, MAX_SAMPLING_PREMIUM};

verus! {

/// The identifier of an account or of a counterparty's delegation contract.
pub type Address = u64;

/// What the protocol knows of one delegation counterparty, and where its funds stand.
#[derive(Clone, Copy, Debug, PartialEq, Eq)]
pub struct DelegationContractData {
    /// The counterparty's identifier.
    pub contract: Address,
    /// The total value locked at the counterparty.
    pub total_value_locked: u128,
    /// The most the counterparty may hold, if capped.
    pub cap: Option<u128>,
    /// The number of validator nodes.
    pub nr_nodes: u64,
    /// The yield rate, in basis points.
    pub apr: u128,
    /// The counterparty's service fee, in basis points.
    pub service_fee: u128,
    /// The score computed at the last update.
    pub delegation_score: u128,
    /// Funds assigned to the counterparty and not yet sent to it.
    pub pending_to_delegate: u128,
    /// Funds delegated to the counterparty.
    pub total_delegated: u128,
    /// Funds to be undelegated and not yet requested back.
    pub pending_to_undelegate: u128,
    /// Funds undelegated and unbonding.
    pub total_undelegated: u128,
    /// Funds brought back and ready to be paid out.
    pub total_withdrawable: u128,
    /// Set when the last asynchronous operation failed.
    pub outdated: bool,
    /// Set when the counterparty has been excluded.
    pub blacklisted: bool,
}

impl DelegationContractData {
    /// A record whose score is a basis-point fraction.
    pub open spec fn wf(&self) -> bool {
        self.delegation_score <= BPS
    }

    /// The sum of the five phase counters.
    pub open spec fn held(&self) -> int {
        self.pending_to_delegate + self.total_delegated + self.pending_to_undelegate
            + self.total_undelegated + self.total_withdrawable
    }
}

/// Whether the protocol accepts deposits.
#[derive(Clone, Copy, Debug, PartialEq, Eq, Structural)]
pub enum State {
    Inactive,
    Active,
}

/// The receipt of a withdrawal: what is owed, by which counterparty, and from which epoch.
#[derive(Clone, Copy, Debug, PartialEq, Eq)]
pub struct UndelegateAttributes {
    pub delegation_contract: Address,
    pub egld_amount: u128,
    pub shares: u128,
    pub undelegate_epoch: u64,
    pub unbond_epoch: u64,
}

/// Where the funds of a penalty are taken from.
#[derive(Clone, Copy, Debug, PartialEq, Eq, Structural)]
pub enum PenaltySource {
    FromUndelegate,
    FromPendingToDelegate,
}

/// Funds forcibly taken from a counterparty, to be redeployed elsewhere.
#[derive(Clone, Copy, Debug, PartialEq, Eq)]
pub struct Penalty {
    pub id: u64,
    pub withdrawn: bool,
    pub attributes: UndelegateAttributes,
}

/// Which metrics the score is computed from.
#[derive(Clone, Copy, Debug, PartialEq, Eq, Structural)]
pub enum DelegationScoreMethod {
    Tvl,
    Apr,
    Mixed,
}

/// The parameters of the score: the domains of both sub-scores and the blend weight `omega`.
#[derive(Clone, Copy, Debug, PartialEq, Eq)]
pub struct DelegationScoreModel {
    pub method: DelegationScoreMethod,
    pub min_tvl: u128,
    pub max_tvl: u128,
    pub min_apr: u128,
    pub max_apr: u128,
    pub omega: u128,
}

impl DelegationScoreModel {
    /// Every domain that the method uses is non-empty, and the blend weight is a fraction.
    pub open spec fn wf(&self) -> bool {
        match self.method {
            DelegationScoreMethod::Tvl => self.max_tvl > self.min_tvl,
            DelegationScoreMethod::Apr => self.max_apr > self.min_apr,
            DelegationScoreMethod::Mixed => {
                &&& self.max_tvl > self.min_tvl
                &&& self.max_apr > self.min_apr
                &&& self.omega <= BPS
            },
        }
    }
}

/// The parameters of candidate sampling: the tolerance band, the fee ceiling and the weight premium.
#[derive(Clone, Copy, Debug, PartialEq, Eq)]
pub struct SamplingModel {
    pub tolerance: u128,
    pub max_service_fee: u128,
    pub premium: u128,
}

impl SamplingModel {
    /// The tolerance and the fee ceiling are non-zero fractions; the premium is bounded.
    pub open spec fn wf(&self) -> bool {
        &&& 0 < self.tolerance <= BPS
        &&& 0 < self.max_service_fee <= BPS
        &&& self.premium <= MAX_SAMPLING_PREMIUM
    }
}

/// A counterparty that may be sampled, with its weight.
#[derive(Clone, Copy, Debug, PartialEq, Eq)]
pub struct DelegationCandidate {
    pub weight: u128,
    pub data: DelegationContractData,
}

/// How the counterparty of an undelegation is chosen.
#[derive(Clone, Copy, Debug, PartialEq, Eq, Structural)]
pub enum UndelegationMode {
    Unset,
    Algorithm,
    Open,
}

} // verus!
