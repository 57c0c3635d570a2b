use vstd::prelude::*;
use crate::model::Address;

verus! {

/// A call on a counterparty's delegation contract that the host dispatches asynchronously;
/// its outcome comes back through the matching completion handler.
#[derive(Clone, Copy, Debug, PartialEq, Eq, Structural)]
pub enum DelegationCall {
    Delegate { contract: Address, egld_amount: u128 },
    Undelegate { contract: Address, egld_amount: u128 },
    Withdraw { contract: Address },
    ClaimRewards { contract: Address },
}

impl DelegationCall {
    /// The counterparty the call goes to.
    pub open spec fn target(self) -> Address {
        match self {
            DelegationCall::Delegate { contract, .. } => contract,
            DelegationCall::Undelegate { contract, .. } => contract,
            DelegationCall::Withdraw { contract } => contract,
            DelegationCall::ClaimRewards { contract } => contract,
        }
    }
}

/// The interface of one counterparty's delegation contract. Every call may fail; a successful
/// claim also reports the amount it released.
pub trait DelegationProxy {
    /// Delegates `egld_amount`, sent along with the call.
    fn delegate(&mut self, egld_amount: u128) -> bool;

    /// Starts unbonding `egld_amount`.
    fn undelegate(&mut self, egld_amount: u128) -> bool;

    /// Releases the matured funds.
    fn withdraw(&mut self) -> Option<u128>;

    /// Releases the accrued rewards.
    fn claim_rewards(&mut self) -> Option<u128>;
}

/// A source of random numbers in `[min, max]`.
pub trait RandomProxy {
    fn get_random(&mut self, min: u128, max: u128) -> u128;
}

/// The host's way to reach counterparties by address. Every call may fail; a successful claim
/// also reports the amount it released.
pub trait ProxyModule {
    fn delegate_to_delegation_contract(&mut self, delegation_contract: Address, egld_amount: u128) -> bool;

    fn undelegate_from_delegation_contract(&mut self, delegation_contract: Address, egld_amount: u128) -> bool;

    fn withdraw_from_delegation_contract(&mut self, delegation_contract: Address) -> Option<u128>;

    fn claim_rewards_from_delegation_contract(&mut self, delegation_contract: Address) -> Option<u128>;
}

/// Receives the notifications the protocol emits when an asynchronous operation fails.
pub trait EventsModule {
    /// The counterparty was marked outdated.
    fn outdated_event(&mut self, delegation_contract: Address);

    /// A call to the counterparty failed.
    fn async_call_error_event(&mut self, delegation_contract: Address);
}

/// Routes calls to the counterparty registered under each address; a call to an address with
/// no counterparty fails.
pub struct ProxyRouter<P> {
    pub proxies: Vec<(Address, P)>,
}

impl<P> ProxyRouter<P> {
    /// The position of the counterparty registered under `delegation_contract`, if any.
    pub fn find(&self, delegation_contract: Address) -> (r: Option<usize>)
        ensures
            r matches Some(i) ==> i < self.proxies@.len() && self.proxies@[i as int].0 == delegation_contract,
            r is None ==> forall|i: int| 0 <= i < self.proxies@.len() ==> #[trigger] self.proxies@[i].0
                != delegation_contract,
    {
        let mut i: usize = 0;
        while i < self.proxies.len()
            invariant
                i <= self.proxies@.len(),
                forall|j: int| 0 <= j < i ==> #[trigger] self.proxies@[j].0 != delegation_contract,
            decreases self.proxies@.len() - i,
        {
            if self.proxies[i].0 == delegation_contract {
                return Some(i);
            }
            i = i + 1;
        }
        None
    }
}

impl<P: DelegationProxy> ProxyModule for ProxyRouter<P> {
    fn delegate_to_delegation_contract(&mut self, delegation_contract: Address, egld_amount: u128) -> bool {
        match self.find(delegation_contract) {
            Some(i) => {
                let (a, mut proxy) = self.proxies.remove(i);
                let ok = proxy.delegate(egld_amount);
                self.proxies.insert(i, (a, proxy));
                ok
            },
            None => false,
        }
    }

    fn undelegate_from_delegation_contract(&mut self, delegation_contract: Address, egld_amount: u128) -> bool {
        match self.find(delegation_contract) {
            Some(i) => {
                let (a, mut proxy) = self.proxies.remove(i);
                let ok = proxy.undelegate(egld_amount);
                self.proxies.insert(i, (a, proxy));
                ok
            },
            None => false,
        }
    }

    fn withdraw_from_delegation_contract(&mut self, delegation_contract: Address) -> Option<u128> {
        match self.find(delegation_contract) {
            Some(i) => {
                let (a, mut proxy) = self.proxies.remove(i);
                let released = proxy.withdraw();
                self.proxies.insert(i, (a, proxy));
                released
            },
            None => None,
        }
    }

    fn claim_rewards_from_delegation_contract(&mut self, delegation_contract: Address) -> Option<u128> {
        match self.find(delegation_contract) {
            Some(i) => {
                let (a, mut proxy) = self.proxies.remove(i);
                let released = proxy.claim_rewards();
                self.proxies.insert(i, (a, proxy));
                released
            },
            None => None,
        }
    }
}

} // verus!
