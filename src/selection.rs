use vstd::prelude::*;
use crate::common::no_dust_spec;
use crate::constants::{BPS, MIN_DELEGATION_AMOUNT};
use crate::contract::LiquidStaking;
use crate::errors::LiquidStakingError;
use crate::math::{mul_div, norm_linear_clamp, norm_linear_clamp_spec};
use crate::model::{Address, DelegationCandidate, DelegationContractData, SamplingModel};
use crate::proxies::RandomProxy;

verus! {

/// The counterparty can take `amount` more without exceeding its cap.
pub open spec fn has_valid_cap_spec(d: DelegationContractData, amount: int) -> bool {
    d.cap matches Some(c) ==> amount <= c - d.total_value_locked
}

/// With sampling configured, the fee does not exceed the ceiling.
pub open spec fn has_valid_service_fee_spec(d: DelegationContractData, sampling: Option<SamplingModel>) -> bool {
    sampling matches Some(m) ==> d.service_fee <= m.max_service_fee
}

/// The counterparty may receive a deposit of `amount`.
pub open spec fn valid_for_delegate(
    d: DelegationContractData,
    amount: int,
    skip: Option<Address>,
    sampling: Option<SamplingModel>,
) -> bool {
    &&& !d.outdated
    &&& skip != Some(d.contract)
    &&& has_valid_cap_spec(d, amount)
    &&& has_valid_service_fee_spec(d, sampling)
}

/// Withdrawing `amount` from the counterparty leaves nothing or at least the minimum.
pub open spec fn valid_for_undelegate_relaxed(d: DelegationContractData, amount: int) -> bool {
    &&& amount <= d.total_delegated
    &&& no_dust_spec(d.total_delegated - amount)
}

/// The counterparty is up to date and `amount` may be withdrawn from it.
pub open spec fn valid_for_undelegate(d: DelegationContractData, amount: int) -> bool {
    !d.outdated && valid_for_undelegate_relaxed(d, amount)
}

/// The lowest score of the deposit band around `score`.
pub open spec fn max_cutoff_spec(score: int, tolerance: int) -> int {
    score - score * tolerance / (BPS as int)
}

/// The highest score of the withdrawal band around `score`.
pub open spec fn min_cutoff_spec(score: int, tolerance: int) -> int {
    score + (BPS - score) * tolerance / (BPS as int)
}

/// The deposit weight: zero above the fee ceiling, else from `BPS + premium` at no fee down
/// to `BPS` at the ceiling.
pub open spec fn delegate_weight_spec(d: DelegationContractData, m: SamplingModel) -> int {
    if d.service_fee > m.max_service_fee {
        0
    } else {
        norm_linear_clamp_spec(d.service_fee as int, 0, m.max_service_fee as int, true) * m.premium
            / (BPS as int) + BPS
    }
}

/// The withdrawal weight: grows with the fee, `BPS` at no fee and `BPS + premium` at the ceiling.
pub open spec fn undelegate_weight_spec(d: DelegationContractData, m: SamplingModel) -> int {
    m.premium * d.service_fee / (m.max_service_fee as int) + BPS
}

/// A bound on any deposit weight under a well-formed sampling model.
pub open spec fn weight_bound() -> int {
    200_000_000_000_000_000_000_000
}

/// The sum of the candidates' weights.
pub open spec fn weight_sum(c: Seq<DelegationCandidate>) -> int
    decreases c.len(),
{
    if c.len() == 0 {
        0
    } else {
        weight_sum(c.drop_last()) + c.last().weight
    }
}

/// Index `i` is where inverse-CDF sampling with threshold `t` stops: the first candidate whose
/// running weight reaches `t`, or the last one.
pub open spec fn is_sample_index(c: Seq<DelegationCandidate>, t: int, i: int) -> bool {
    &&& 0 <= i < c.len()
    &&& forall|j: int| 0 <= j < i ==> #[trigger] weight_sum(c.take(j + 1)) < t
    &&& weight_sum(c.take(i + 1)) >= t || i == c.len() - 1
}

/// The sampling threshold for a draw `rand` in `[0, BPS)`: `rand * sum / BPS`.
pub open spec fn threshold_spec(rand: int, sum: int) -> int {
    if rand * sum / (BPS as int) <= u128::MAX {
        rand * sum / (BPS as int)
    } else {
        sum
    }
}

proof fn lemma_weight_sum_take_step(c: Seq<DelegationCandidate>, k: int)
    requires
        0 <= k < c.len(),
    ensures
        weight_sum(c.take(k + 1)) == weight_sum(c.take(k)) + c[k].weight,
{
    assert(c.take(k + 1).drop_last() =~= c.take(k));
}

proof fn lemma_weight_sum_take_le(c: Seq<DelegationCandidate>, k: int)
    requires
        0 <= k <= c.len(),
    ensures
        0 <= weight_sum(c.take(k)) <= weight_sum(c),
    decreases c.len() - k,
{
    if k == c.len() {
        assert(c.take(k) =~= c);
        lemma_weight_sum_nonneg(c);
    } else {
        lemma_weight_sum_take_le(c, k + 1);
        lemma_weight_sum_take_step(c, k);
        lemma_weight_sum_nonneg(c.take(k));
    }
}

proof fn lemma_weight_sum_nonneg(c: Seq<DelegationCandidate>)
    ensures
        weight_sum(c) >= 0,
    decreases c.len(),
{
    if c.len() > 0 {
        lemma_weight_sum_nonneg(c.drop_last());
    }
}

/// Whether `amount` fits under the counterparty's cap.
pub fn has_valid_cap(contract_data: &DelegationContractData, egld_amount: u128) -> (r: bool)
    requires
        contract_data.cap matches Some(c) ==> c >= contract_data.total_value_locked,
    ensures
        r == has_valid_cap_spec(*contract_data, egld_amount as int),
{
    match contract_data.cap {
        Some(cap) => egld_amount <= cap - contract_data.total_value_locked,
        None => true,
    }
}

/// Whether the fee is within the sampling ceiling; always, without sampling.
pub fn has_valid_service_fee(
    contract_data: &DelegationContractData,
    sampling: &Option<SamplingModel>,
) -> (r: bool)
    ensures
        r == has_valid_service_fee_spec(*contract_data, *sampling),
{
    match sampling {
        Some(m) => contract_data.service_fee <= m.max_service_fee,
        None => true,
    }
}

/// Whether the counterparty may receive a deposit of `egld_amount`.
pub fn is_valid_delegation_contract(
    contract_data: &DelegationContractData,
    egld_amount: u128,
    opt_skip_address: Option<Address>,
    sampling: &Option<SamplingModel>,
) -> (r: bool)
    requires
        contract_data.cap matches Some(c) ==> c >= contract_data.total_value_locked,
    ensures
        r == valid_for_delegate(*contract_data, egld_amount as int, opt_skip_address, *sampling),
{
    if contract_data.outdated {
        return false;
    }
    match opt_skip_address {
        Some(skip) => {
            if skip == contract_data.contract {
                return false;
            }
        },
        None => {},
    }
    if !has_valid_cap(contract_data, egld_amount) {
        return false;
    }
    has_valid_service_fee(contract_data, sampling)
}

/// Whether `egld_amount` can be withdrawn from the counterparty without leaving dust, whether
/// or not its data is up to date.
pub fn is_valid_undelegation_contract_relaxed(
    contract_data: &DelegationContractData,
    egld_amount: u128,
) -> (r: bool)
    ensures
        r == valid_for_undelegate_relaxed(*contract_data, egld_amount as int),
{
    if egld_amount > contract_data.total_delegated {
        return false;
    }
    let amount_left = contract_data.total_delegated - egld_amount;
    amount_left == 0 || amount_left >= MIN_DELEGATION_AMOUNT
}

/// Whether the counterparty is up to date and `egld_amount` can be withdrawn from it.
pub fn is_valid_undelegation_contract(contract_data: &DelegationContractData, egld_amount: u128) -> (r:
    bool)
    ensures
        r == valid_for_undelegate(*contract_data, egld_amount as int),
{
    if contract_data.outdated {
        return false;
    }
    is_valid_undelegation_contract_relaxed(contract_data, egld_amount)
}

/// The cutoff of the deposit band: the tolerance applied to `[0, score]`.
pub fn get_max_cutoff_score(delegation_score: u128, model: &SamplingModel) -> (r: u128)
    requires
        delegation_score <= BPS,
        model.wf(),
    ensures
        r == max_cutoff_spec(delegation_score as int, model.tolerance as int),
        r <= delegation_score,
{
    proof {
        assert(delegation_score * model.tolerance <= BPS * BPS) by (nonlinear_arith)
            requires
                delegation_score <= BPS,
                model.tolerance <= BPS,
        ;
        assert(delegation_score * model.tolerance / (BPS as int) <= delegation_score) by (nonlinear_arith)
            requires
                model.tolerance <= BPS,
                0 <= delegation_score,
        ;
    }
    let delta_score = delegation_score * model.tolerance / BPS;
    delegation_score - delta_score
}

/// The cutoff of the withdrawal band: the tolerance applied to `[score, BPS]`.
pub fn get_min_cutoff_score(delegation_score: u128, model: &SamplingModel) -> (r: u128)
    requires
        delegation_score <= BPS,
        model.wf(),
    ensures
        r == min_cutoff_spec(delegation_score as int, model.tolerance as int),
        delegation_score <= r <= BPS,
{
    proof {
        assert((BPS - delegation_score) * model.tolerance <= BPS * BPS) by (nonlinear_arith)
            requires
                delegation_score <= BPS,
                model.tolerance <= BPS,
        ;
        assert((BPS - delegation_score) * model.tolerance / (BPS as int) <= BPS - delegation_score)
            by (nonlinear_arith)
            requires
                model.tolerance <= BPS,
                delegation_score <= BPS,
        ;
        assert(0 <= (BPS - delegation_score) * model.tolerance / (BPS as int)) by (nonlinear_arith)
            requires
                delegation_score <= BPS,
        ;
    }
    let delta_score = (BPS - delegation_score) * model.tolerance / BPS;
    delegation_score + delta_score
}

/// The deposit weight of a candidate.
pub fn compute_delegate_weight(candidate: &DelegationContractData, model: &SamplingModel) -> (r: u128)
    requires
        model.wf(),
    ensures
        r == delegate_weight_spec(*candidate, *model),
        r <= weight_bound(),
{
    if candidate.service_fee > model.max_service_fee {
        return 0;
    }
    let f = norm_linear_clamp(candidate.service_fee, 0, model.max_service_fee, true);
    proof {
        assert(f * model.premium <= BPS * model.premium) by (nonlinear_arith)
            requires
                f <= BPS,
        ;
        assert(f * model.premium / (BPS as int) <= model.premium) by (nonlinear_arith)
            requires
                f <= BPS,
                0 <= model.premium,
        ;
    }
    f * model.premium / BPS + BPS
}

/// The withdrawal weight of a candidate, when it fits in a `u128`.
pub fn compute_undelegate_weight(candidate: &DelegationContractData, model: &SamplingModel) -> (r: Option<u128>)
    requires
        model.wf(),
    ensures
        r is None <==> undelegate_weight_spec(*candidate, *model) > u128::MAX,
        r matches Some(w) ==> w == undelegate_weight_spec(*candidate, *model),
{
    match mul_div(model.premium, candidate.service_fee, model.max_service_fee) {
        Some(q) => {
            if q > u128::MAX - BPS {
                None
            } else {
                Some(q + BPS)
            }
        },
        None => None,
    }
}

/// The sampling threshold for a draw `rand` in `[0, BPS)`.
pub fn sampling_threshold(rand: u128, sum_weights: u128) -> (t: u128)
    ensures
        t == threshold_spec(rand as int, sum_weights as int),
{
    match mul_div(rand, sum_weights, BPS) {
        Some(t) => t,
        None => sum_weights,
    }
}

/// Inverse-CDF sampling: the counterparty of the first candidate whose running weight reaches
/// `t`, or of the last candidate.
pub fn weighted_sample(candidates: &Vec<DelegationCandidate>, sum_weights: u128, t: u128) -> (r: Address)
    requires
        candidates@.len() > 0,
        sum_weights == weight_sum(candidates@),
    ensures
        exists|i: int|
            is_sample_index(candidates@, t as int, i) && r == #[trigger] candidates@[i].data.contract,
{
    let n = candidates.len();
    let mut i: usize = 0;
    let mut cw: u128 = candidates[0].weight;
    proof {
        lemma_weight_sum_take_step(candidates@, 0);
        assert(candidates@.take(0) =~= Seq::<DelegationCandidate>::empty());
    }
    while cw < t && i < n - 1
        invariant
            n == candidates@.len(),
            n > 0,
            i < n,
            sum_weights == weight_sum(candidates@),
            cw == weight_sum(candidates@.take(i + 1)),
            forall|j: int| 0 <= j < i ==> #[trigger] weight_sum(candidates@.take(j + 1)) < t,
        decreases n - i,
    {
        proof {
            lemma_weight_sum_take_step(candidates@, i + 1);
            lemma_weight_sum_take_le(candidates@, i + 2);
        }
        i = i + 1;
        cw = cw + candidates[i].weight;
    }
    proof {
        assert(is_sample_index(candidates@, t as int, i as int));
    }
    candidates[i].data.contract
}

/// Inverse-CDF sampling with a threshold drawn from an outside random source over
/// `[0, sum_weights]`: returns the sampled counterparty and the threshold that was drawn.
pub fn weighted_sample_from<R: RandomProxy>(
    candidates: &Vec<DelegationCandidate>,
    sum_weights: u128,
    random: &mut R,
) -> (r: (Address, u128))
    requires
        candidates@.len() > 0,
        sum_weights == weight_sum(candidates@),
    ensures
        exists|i: int| is_sample_index(candidates@, r.1 as int, i) && r.0 == #[trigger] candidates@[i].data.contract,
{
    let t = random.get_random(0, sum_weights);
    (weighted_sample(candidates, sum_weights, t), t)
}

impl LiquidStaking {
    /// Position `p` holds the first counterparty, from the highest score, that may receive the deposit.
    pub open spec fn is_best_for_delegate(&self, p: int, amount: int, skip: Option<Address>) -> bool {
        &&& 0 <= p < self.delegation_contracts_list.view().len()
        &&& valid_for_delegate(self.list_record(p), amount, skip, self.delegation_sampling_model)
        &&& forall|q: int|
            0 <= q < p ==> !valid_for_delegate(
                #[trigger] self.list_record(q),
                amount,
                skip,
                self.delegation_sampling_model,
            )
    }

    /// Position `p` holds the first counterparty, from the lowest score, that the withdrawal may use.
    pub open spec fn is_best_for_undelegate(&self, p: int, amount: int) -> bool {
        &&& 0 <= p < self.delegation_contracts_list.view().len()
        &&& valid_for_undelegate(self.list_record(p), amount)
        &&& forall|q: int|
            p < q < self.delegation_contracts_list.view().len() ==> !valid_for_undelegate(
                #[trigger] self.list_record(q),
                amount,
            )
    }

    /// Whether some registry entry may receive the deposit.
    pub open spec fn any_for_delegate(&self, amount: int, skip: Option<Address>) -> bool {
        exists|q: int|
            0 <= q < self.delegation_contracts_list.view().len() && valid_for_delegate(
                #[trigger] self.list_record(q),
                amount,
                skip,
                self.delegation_sampling_model,
            )
    }

    /// Whether some registry entry may serve the withdrawal.
    pub open spec fn any_for_undelegate(&self, amount: int) -> bool {
        exists|q: int|
            0 <= q < self.delegation_contracts_list.view().len() && valid_for_undelegate(
                #[trigger] self.list_record(q),
                amount,
            )
    }

    /// The deposit candidates among the `n` entries from position `from` on, in registry order.
    pub open spec fn delegation_band(
        &self,
        from: int,
        n: nat,
        amount: int,
        skip: Option<Address>,
        m: SamplingModel,
    ) -> Seq<DelegationCandidate>
        decreases n,
    {
        if n == 0 {
            Seq::empty()
        } else {
            let prev = self.delegation_band(from, (n - 1) as nat, amount, skip, m);
            let d = self.list_record(from + n - 1);
            if valid_for_delegate(d, amount, skip, Some(m)) {
                prev.push(DelegationCandidate { weight: delegate_weight_spec(d, m) as u128, data: d })
            } else {
                prev
            }
        }
    }

    /// The withdrawal candidates among the `n` entries from position `from` down, in reverse
    /// registry order.
    pub open spec fn undelegation_band(&self, from: int, n: nat, amount: int, m: SamplingModel) -> Seq<
        DelegationCandidate,
    >
        decreases n,
    {
        if n == 0 {
            Seq::empty()
        } else {
            let prev = self.undelegation_band(from, (n - 1) as nat, amount, m);
            let d = self.list_record(from - (n - 1));
            if valid_for_undelegate(d, amount) {
                prev.push(DelegationCandidate { weight: undelegate_weight_spec(d, m) as u128, data: d })
            } else {
                prev
            }
        }
    }

    /// The weights of the withdrawal candidates among the `n` entries from position `from` down,
    /// and their running sums, fit in a `u128`.
    pub open spec fn undelegation_band_fits(&self, from: int, n: nat, amount: int, m: SamplingModel) -> bool
        decreases n,
    {
        if n == 0 {
            true
        } else {
            let prev = self.undelegation_band(from, (n - 1) as nat, amount, m);
            let d = self.list_record(from - (n - 1));
            &&& self.undelegation_band_fits(from, (n - 1) as nat, amount, m)
            &&& valid_for_undelegate(d, amount) ==> weight_sum(prev) + undelegate_weight_spec(d, m) <= u128::MAX
        }
    }

    /// With sampling configured, the withdrawal band around the best counterparty for `amount`
    /// has weights that fit in a `u128`.
    pub open spec fn undelegate_sampling_fits(&self, amount: int) -> bool {
        match self.delegation_sampling_model {
            None => true,
            Some(m) => forall|p: int, n: int|
                self.is_best_for_undelegate(p, amount) && #[trigger] self.is_undelegation_band_end(
                    p,
                    n,
                    min_cutoff_spec(self.list_record(p).delegation_score as int, m.tolerance as int),
                ) ==> self.undelegation_band_fits(p, n as nat, amount, m),
        }
    }

    /// The deposit band from `from` spans `n` entries: all score at least `cutoff`, and the next
    /// one, if any, scores below it.
    pub open spec fn is_delegation_band_end(&self, from: int, n: int, cutoff: int) -> bool {
        &&& 0 <= n
        &&& from + n <= self.delegation_contracts_list.view().len()
        &&& forall|k: int| from <= k < from + n ==> #[trigger] self.list_record(k).delegation_score >= cutoff
        &&& from + n < self.delegation_contracts_list.view().len() ==> self.list_record(from + n).delegation_score < cutoff
    }

    /// The withdrawal band from `from` down spans `n` entries: all score at most `cutoff`, and
    /// the next one down, if any, scores above it.
    pub open spec fn is_undelegation_band_end(&self, from: int, n: int, cutoff: int) -> bool {
        &&& 0 <= n <= from + 1
        &&& forall|k: int| from - n < k <= from ==> #[trigger] self.list_record(k).delegation_score <= cutoff
        &&& n < from + 1 ==> self.list_record(from - n).delegation_score > cutoff
    }

    /// Every deposit candidate is a valid registry entry of the band.
    proof fn lemma_delegation_band_members(
        &self,
        from: int,
        n: nat,
        amount: int,
        skip: Option<Address>,
        m: SamplingModel,
    )
        ensures
            self.delegation_band(from, n, amount, skip, m).len() <= n,
            forall|k: int|
                0 <= k < self.delegation_band(from, n, amount, skip, m).len() ==> exists|p: int|
                    from <= p < from + n && (#[trigger] self.delegation_band(from, n, amount, skip, m)[k]).data
                        == self.list_record(p) && valid_for_delegate(
                        self.list_record(p),
                        amount,
                        skip,
                        Some(m),
                    ),
        decreases n,
    {
        if n > 0 {
            self.lemma_delegation_band_members(from, (n - 1) as nat, amount, skip, m);
            let prev = self.delegation_band(from, (n - 1) as nat, amount, skip, m);
            let cur = self.delegation_band(from, n, amount, skip, m);
            assert forall|k: int| 0 <= k < cur.len() implies exists|p: int|
                from <= p < from + n && (#[trigger] cur[k]).data == self.list_record(p)
                    && valid_for_delegate(self.list_record(p), amount, skip, Some(m)) by {
                if k < prev.len() {
                    assert(cur[k] == prev[k]);
                } else {
                    let p = from + n - 1;
                    assert(cur[k].data == self.list_record(p));
                }
            }
        }
    }

    /// Every withdrawal candidate is a valid registry entry of the band.
    proof fn lemma_undelegation_band_members(&self, from: int, n: nat, amount: int, m: SamplingModel)
        ensures
            self.undelegation_band(from, n, amount, m).len() <= n,
            forall|k: int|
                0 <= k < self.undelegation_band(from, n, amount, m).len() ==> exists|p: int|
                    from - n < p <= from && (#[trigger] self.undelegation_band(from, n, amount, m)[k]).data
                        == self.list_record(p) && valid_for_undelegate(self.list_record(p), amount),
        decreases n,
    {
        if n > 0 {
            self.lemma_undelegation_band_members(from, (n - 1) as nat, amount, m);
            let prev = self.undelegation_band(from, (n - 1) as nat, amount, m);
            let cur = self.undelegation_band(from, n, amount, m);
            assert forall|k: int| 0 <= k < cur.len() implies exists|p: int|
                from - n < p <= from && (#[trigger] cur[k]).data == self.list_record(p)
                    && valid_for_undelegate(self.list_record(p), amount) by {
                if k < prev.len() {
                    assert(cur[k] == prev[k]);
                } else {
                    let p = from - (n - 1);
                    assert(cur[k].data == self.list_record(p));
                }
            }
        }
    }

    /// The record of the registry entry at position `pos`.
    pub fn list_record_at(&self, pos: usize) -> (r: DelegationContractData)
        requires
            self.wf(),
            pos < self.delegation_contracts_list.view().len(),
        ensures
            r == self.list_record(pos as int),
            crate::contract::record_wf(r),
            r.contract == self.delegation_contracts_list.view()[pos as int].contract,
    {
        let node = self.delegation_contracts_list.node(pos);
        let i = self.find_contract(node.contract);
        match i {
            Some(i) => self.contracts[i],
            // every registry entry has a record, so this arm is never taken
            None => self.contracts[0],
        }
    }
}

impl LiquidStaking {
    /// The position of the counterparty with the highest score that may receive a deposit of
    /// `egld_amount` (not outdated, under its cap, not `opt_skip_address`, and within the fee
    /// ceiling when sampling is configured).
    pub fn get_max_delegation_contract_node(&self, egld_amount: u128, opt_skip_address: Option<Address>) -> (r:
        Result<usize, LiquidStakingError>)
        requires
            self.wf(),
        ensures
            self.delegation_contracts_list.view().len() == 0 ==> r == Err::<usize, _>(
                LiquidStakingError::NoDelegationContracts,
            ),
            self.delegation_contracts_list.view().len() > 0 && !self.any_for_delegate(
                egld_amount as int,
                opt_skip_address,
            ) ==> r == Err::<usize, _>(LiquidStakingError::DelegationContractNotAvailable),
            r is Ok <==> self.any_for_delegate(egld_amount as int, opt_skip_address),
            r matches Ok(p) ==> self.is_best_for_delegate(p as int, egld_amount as int, opt_skip_address),
    {
        let len = self.delegation_contracts_list.len();
        if len == 0 {
            return Err(LiquidStakingError::NoDelegationContracts);
        }
        let mut p: usize = 0;
        while p < len
            invariant
                self.wf(),
                len == self.delegation_contracts_list.view().len(),
                p <= len,
                forall|q: int|
                    0 <= q < p ==> !valid_for_delegate(
                        #[trigger] self.list_record(q),
                        egld_amount as int,
                        opt_skip_address,
                        self.delegation_sampling_model,
                    ),
            decreases len - p,
        {
            let d = self.list_record_at(p);
            if is_valid_delegation_contract(&d, egld_amount, opt_skip_address, &self.delegation_sampling_model) {
                return Ok(p);
            }
            p = p + 1;
        }
        Err(LiquidStakingError::DelegationContractNotAvailable)
    }

    /// The position of the counterparty with the lowest score that may serve a withdrawal of
    /// `egld_amount` (not outdated, holding enough, and leaving no dust).
    pub fn get_min_delegation_contract_node(&self, egld_amount: u128) -> (r: Result<usize, LiquidStakingError>)
        requires
            self.wf(),
        ensures
            self.delegation_contracts_list.view().len() == 0 ==> r == Err::<usize, _>(
                LiquidStakingError::NoDelegationContracts,
            ),
            self.delegation_contracts_list.view().len() > 0 && !self.any_for_undelegate(egld_amount as int)
                ==> r == Err::<usize, _>(LiquidStakingError::DelegationContractNotAvailable),
            r is Ok <==> self.any_for_undelegate(egld_amount as int),
            r matches Ok(p) ==> self.is_best_for_undelegate(p as int, egld_amount as int),
    {
        let len = self.delegation_contracts_list.len();
        if len == 0 {
            return Err(LiquidStakingError::NoDelegationContracts);
        }
        let mut k: usize = len;
        while k > 0
            invariant
                self.wf(),
                len == self.delegation_contracts_list.view().len(),
                k <= len,
                forall|q: int|
                    k <= q < len ==> !valid_for_undelegate(#[trigger] self.list_record(q), egld_amount as int),
            decreases k,
        {
            let d = self.list_record_at(k - 1);
            if is_valid_undelegation_contract(&d, egld_amount) {
                return Ok(k - 1);
            }
            k = k - 1;
        }
        Err(LiquidStakingError::DelegationContractNotAvailable)
    }

    /// The deposit candidates: from the best position on, every valid counterparty until the
    /// first whose score drops below the cutoff, each with its weight; and the sum of the weights.
    pub fn get_delegation_candidates(
        &self,
        best: usize,
        egld_amount: u128,
        opt_skip_address: Option<Address>,
        model: &SamplingModel,
    ) -> (r: (Vec<DelegationCandidate>, u128))
        requires
            self.wf(),
            self.delegation_sampling_model == Some(*model),
            self.is_best_for_delegate(best as int, egld_amount as int, opt_skip_address),
        ensures
            exists|n: int|
                self.is_delegation_band_end(
                    best as int,
                    n,
                    max_cutoff_spec(self.list_record(best as int).delegation_score as int, model.tolerance as int),
                ) && r.0@ == self.delegation_band(best as int, n as nat, egld_amount as int, opt_skip_address, *model),
            r.1 == weight_sum(r.0@),
            r.0@.len() >= 1,
            r.0@[0].data == self.list_record(best as int),
    {
        let best_data = self.list_record_at(best);
        let cutoff = get_max_cutoff_score(best_data.delegation_score, model);
        let len = self.delegation_contracts_list.len();
        let mut candidates: Vec<DelegationCandidate> = Vec::new();
        let mut sum_weights: u128 = 0;
        let mut pos: usize = best;
        let mut stop = false;
        while pos < len && !stop
            invariant
                self.wf(),
                self.delegation_sampling_model == Some(*model),
                model.wf(),
                len == self.delegation_contracts_list.view().len(),
                len <= 100,
                best < len,
                best <= pos <= len,
                cutoff == max_cutoff_spec(self.list_record(best as int).delegation_score as int, model.tolerance as int),
                cutoff <= self.list_record(best as int).delegation_score,
                valid_for_delegate(self.list_record(best as int), egld_amount as int, opt_skip_address, Some(*model)),
                candidates@ == self.delegation_band(best as int, (pos - best) as nat, egld_amount as int, opt_skip_address, *model),
                sum_weights == weight_sum(candidates@),
                sum_weights <= (pos - best) * weight_bound(),
                forall|k: int| best <= k < pos ==> #[trigger] self.list_record(k).delegation_score >= cutoff,
                stop ==> pos < len && self.list_record(pos as int).delegation_score < cutoff,
                pos > best ==> candidates@.len() >= 1 && candidates@[0].data == self.list_record(best as int),
            decreases len - pos + (if stop { 0int } else { 1int }),
        {
            let d = self.list_record_at(pos);
            if d.delegation_score < cutoff {
                stop = true;
            } else {
                let ghost prev = candidates@;
                if is_valid_delegation_contract(&d, egld_amount, opt_skip_address, &self.delegation_sampling_model) {
                    let weight = compute_delegate_weight(&d, model);
                    candidates.push(DelegationCandidate { weight, data: d });
                    proof {
                        assert(candidates@.drop_last() =~= prev);
                        if pos == best {
                            assert(prev.len() == 0);
                        } else {
                            assert(candidates@[0] == prev[0]);
                        }
                    }
                    sum_weights = sum_weights + weight;
                } else {
                    proof {
                        assert(pos != best);
                    }
                }
                pos = pos + 1;
            }
        }
        proof {
            assert(self.is_delegation_band_end(best as int, (pos - best) as int, cutoff as int));
        }
        (candidates, sum_weights)
    }

    /// The withdrawal candidates: from the best position down, every valid counterparty until
    /// the first whose score rises above the cutoff, each with its weight; and the sum of the
    /// weights. Fails when a weight or the sum does not fit in a `u128`.
    pub fn get_undelegation_candidates(&self, best: usize, egld_amount: u128, model: &SamplingModel) -> (r: Result<
        (Vec<DelegationCandidate>, u128),
        LiquidStakingError,
    >)
        requires
            self.wf(),
            self.delegation_sampling_model == Some(*model),
            self.is_best_for_undelegate(best as int, egld_amount as int),
        ensures
            exists|n: int|
                self.is_undelegation_band_end(
                    best as int,
                    n,
                    min_cutoff_spec(self.list_record(best as int).delegation_score as int, model.tolerance as int),
                ) && (r is Ok <==> self.undelegation_band_fits(best as int, n as nat, egld_amount as int, *model))
                    && (r matches Ok(v) ==> v.0@ == self.undelegation_band(
                    best as int,
                    n as nat,
                    egld_amount as int,
                    *model,
                )),
            r is Err ==> r == Err::<(Vec<DelegationCandidate>, u128), _>(LiquidStakingError::ArithmeticOverflow),
            r matches Ok(v) ==> v.1 == weight_sum(v.0@) && v.0@.len() >= 1 && v.0@[0].data == self.list_record(
                best as int,
            ),
    {
        let best_data = self.list_record_at(best);
        let cutoff = get_min_cutoff_score(best_data.delegation_score, model);
        let len = self.delegation_contracts_list.len();
        let mut candidates: Vec<DelegationCandidate> = Vec::new();
        let mut sum_weights: u128 = 0;
        let mut k: usize = 0;
        let mut stop = false;
        let mut overflow = false;
        while k <= best && !stop
            invariant
                self.wf(),
                self.delegation_sampling_model == Some(*model),
                model.wf(),
                len == self.delegation_contracts_list.view().len(),
                best < len,
                k <= best + 1,
                cutoff == min_cutoff_spec(self.list_record(best as int).delegation_score as int, model.tolerance as int),
                cutoff >= self.list_record(best as int).delegation_score,
                valid_for_undelegate(self.list_record(best as int), egld_amount as int),
                overflow <==> !self.undelegation_band_fits(best as int, k as nat, egld_amount as int, *model),
                !overflow ==> candidates@ == self.undelegation_band(best as int, k as nat, egld_amount as int, *model),
                !overflow ==> sum_weights == weight_sum(candidates@),
                forall|j: int| best - k < j <= best ==> #[trigger] self.list_record(j).delegation_score <= cutoff,
                stop ==> k <= best && self.list_record(best - k).delegation_score > cutoff,
                k > 0 && !overflow ==> candidates@.len() >= 1 && candidates@[0].data == self.list_record(best as int),
            decreases best + 1 - k + (if stop { 0int } else { 1int }),
        {
            let pos = best - k;
            let d = self.list_record_at(pos);
            if d.delegation_score > cutoff {
                stop = true;
            } else {
                let ghost prev = candidates@;
                proof {
                    lemma_weight_sum_nonneg(self.undelegation_band(best as int, k as nat, egld_amount as int, *model));
                }
                if is_valid_undelegation_contract(&d, egld_amount) {
                    if !overflow {
                        match compute_undelegate_weight(&d, model) {
                            Some(weight) => {
                                if sum_weights > u128::MAX - weight {
                                    overflow = true;
                                } else {
                                    candidates.push(DelegationCandidate { weight, data: d });
                                    proof {
                                        assert(candidates@.drop_last() =~= prev);
                                        if k == 0 {
                                            assert(prev.len() == 0);
                                        } else {
                                            assert(candidates@[0] == prev[0]);
                                        }
                                    }
                                    sum_weights = sum_weights + weight;
                                }
                            },
                            None => {
                                overflow = true;
                            },
                        }
                    }
                } else {
                    proof {
                        assert(k != 0);
                    }
                }
                k = k + 1;
            }
        }
        proof {
            assert(self.is_undelegation_band_end(best as int, k as int, cutoff as int));
        }
        if overflow {
            return Err(LiquidStakingError::ArithmeticOverflow);
        }
        Ok((candidates, sum_weights))
    }
}

impl LiquidStaking {
    /// `c` is what deposit selection returns for `amount`: the best counterparty without
    /// sampling, else the best when it alone forms the band, else the band's sample for `rand`.
    pub open spec fn is_delegate_choice(&self, c: Address, amount: int, skip: Option<Address>, rand: int) -> bool {
        match self.delegation_sampling_model {
            None => exists|p: int|
                #[trigger] self.is_best_for_delegate(p, amount, skip) && c
                    == self.delegation_contracts_list.view()[p].contract,
            Some(m) => exists|p: int, n: int|
                self.is_best_for_delegate(p, amount, skip) && #[trigger] self.is_delegation_band_end(
                    p,
                    n,
                    max_cutoff_spec(self.list_record(p).delegation_score as int, m.tolerance as int),
                ) && {
                    let b = self.delegation_band(p, n as nat, amount, skip, m);
                    &&& b.len() == 1 ==> c == self.delegation_contracts_list.view()[p].contract
                    &&& b.len() > 1 ==> exists|i: int|
                        is_sample_index(b, threshold_spec(rand, weight_sum(b)), i) && c
                            == #[trigger] b[i].data.contract
                },
        }
    }

    /// `c` is what withdrawal selection returns for `amount`, symmetrically from the lowest score.
    pub open spec fn is_undelegate_choice(&self, c: Address, amount: int, rand: int) -> bool {
        match self.delegation_sampling_model {
            None => exists|p: int|
                #[trigger] self.is_best_for_undelegate(p, amount) && c
                    == self.delegation_contracts_list.view()[p].contract,
            Some(m) => exists|p: int, n: int|
                self.is_best_for_undelegate(p, amount) && #[trigger] self.is_undelegation_band_end(
                    p,
                    n,
                    min_cutoff_spec(self.list_record(p).delegation_score as int, m.tolerance as int),
                ) && {
                    let b = self.undelegation_band(p, n as nat, amount, m);
                    &&& b.len() == 1 ==> c == self.delegation_contracts_list.view()[p].contract
                    &&& b.len() > 1 ==> exists|i: int|
                        is_sample_index(b, threshold_spec(rand, weight_sum(b)), i) && c
                            == #[trigger] b[i].data.contract
                },
        }
    }

    /// Selects the counterparty for a deposit of `egld_amount`, avoiding `opt_skip_address`.
    /// `rand` is a draw in `[0, BPS)` that is used only when two or more candidates are sampled.
    /// The result is never outdated, excluded, over its cap, skipped, or above the fee ceiling.
    pub fn get_delegation_contract_for_delegate(
        &self,
        egld_amount: u128,
        opt_skip_address: Option<Address>,
        rand: u128,
    ) -> (r: Result<Address, LiquidStakingError>)
        requires
            self.wf(),
        ensures
            self.delegation_contracts_list.view().len() == 0 ==> r == Err::<Address, _>(
                LiquidStakingError::NoDelegationContracts,
            ),
            self.delegation_contracts_list.view().len() > 0 && !self.any_for_delegate(
                egld_amount as int,
                opt_skip_address,
            ) ==> r == Err::<Address, _>(LiquidStakingError::DelegationContractNotAvailable),
            r is Ok <==> self.any_for_delegate(egld_amount as int, opt_skip_address),
            r matches Ok(c) ==> self.is_delegate_choice(c, egld_amount as int, opt_skip_address, rand as int),
            r matches Ok(c) ==> exists|p: int|
                0 <= p < self.delegation_contracts_list.view().len()
                    && #[trigger] self.delegation_contracts_list.view()[p].contract == c
                    && self.list_record(p).contract == c && !self.list_record(p).blacklisted
                    && valid_for_delegate(
                    self.list_record(p),
                    egld_amount as int,
                    opt_skip_address,
                    self.delegation_sampling_model,
                ),
    {
        let best = self.get_max_delegation_contract_node(egld_amount, opt_skip_address)?;
        let best_contract = self.delegation_contracts_list.node(best).contract;
        proof {
            self.lemma_list_record_contract(best as int);
        }
        match self.delegation_sampling_model {
            None => Ok(best_contract),
            Some(model) => {
                let (candidates, sum_weights) = self.get_delegation_candidates(
                    best,
                    egld_amount,
                    opt_skip_address,
                    &model,
                );
                let ghost n = choose|n: int|
                    self.is_delegation_band_end(
                        best as int,
                        n,
                        max_cutoff_spec(self.list_record(best as int).delegation_score as int, model.tolerance as int),
                    ) && candidates@ == self.delegation_band(best as int, n as nat, egld_amount as int, opt_skip_address, model);
                if candidates.len() == 1 {
                    return Ok(best_contract);
                }
                let t = sampling_threshold(rand, sum_weights);
                let c = weighted_sample(&candidates, sum_weights, t);
                proof {
                    let i = choose|i: int| is_sample_index(candidates@, t as int, i) && c == #[trigger] candidates@[i].data.contract;
                    self.lemma_delegation_band_members(best as int, n as nat, egld_amount as int, opt_skip_address, model);
                    let q = choose|q: int|
                        best <= q < best + n && (#[trigger] candidates@[i]).data == self.list_record(q)
                            && valid_for_delegate(self.list_record(q), egld_amount as int, opt_skip_address, Some(model));
                    assert(candidates@[i].data == self.list_record(q));
                    self.lemma_list_record_contract(q);
                    assert(self.delegation_contracts_list.view()[q].contract == c);
                }
                Ok(c)
            },
        }
    }

    /// Selects the counterparty for a withdrawal of `egld_amount`, scanning from the lowest
    /// score. `rand` is a draw in `[0, BPS)` used only when two or more candidates are sampled.
    /// The result is never outdated and is never left with a nonzero balance below the minimum.
    pub fn get_delegation_contract_for_undelegate(&self, egld_amount: u128, rand: u128) -> (r: Result<
        Address,
        LiquidStakingError,
    >)
        requires
            self.wf(),
        ensures
            self.delegation_contracts_list.view().len() == 0 ==> r == Err::<Address, _>(
                LiquidStakingError::NoDelegationContracts,
            ),
            self.delegation_contracts_list.view().len() > 0 && !self.any_for_undelegate(egld_amount as int)
                ==> r == Err::<Address, _>(LiquidStakingError::DelegationContractNotAvailable),
            r is Ok ==> self.any_for_undelegate(egld_amount as int),
            self.any_for_undelegate(egld_amount as int) && self.undelegate_sampling_fits(egld_amount as int) ==> r is Ok,
            self.any_for_undelegate(egld_amount as int) && r is Err ==> r == Err::<Address, _>(
                LiquidStakingError::ArithmeticOverflow,
            ),
            r matches Ok(c) ==> self.is_undelegate_choice(c, egld_amount as int, rand as int),
            r matches Ok(c) ==> exists|p: int|
                0 <= p < self.delegation_contracts_list.view().len()
                    && #[trigger] self.delegation_contracts_list.view()[p].contract == c
                    && self.list_record(p).contract == c
                    && valid_for_undelegate(self.list_record(p), egld_amount as int),
    {
        let best = self.get_min_delegation_contract_node(egld_amount)?;
        let best_contract = self.delegation_contracts_list.node(best).contract;
        proof {
            self.lemma_list_record_contract(best as int);
        }
        match self.delegation_sampling_model {
            None => Ok(best_contract),
            Some(model) => {
                let found = self.get_undelegation_candidates(best, egld_amount, &model);
                let ghost n = choose|n: int|
                    self.is_undelegation_band_end(
                        best as int,
                        n,
                        min_cutoff_spec(self.list_record(best as int).delegation_score as int, model.tolerance as int),
                    ) && (found is Ok <==> self.undelegation_band_fits(best as int, n as nat, egld_amount as int, model))
                        && (found matches Ok(v) ==> v.0@ == self.undelegation_band(
                        best as int,
                        n as nat,
                        egld_amount as int,
                        model,
                    ));
                let (candidates, sum_weights) = match found {
                    Ok(v) => v,
                    Err(e) => {
                        proof {
                            assert(self.is_undelegation_band_end(
                                best as int,
                                n,
                                min_cutoff_spec(self.list_record(best as int).delegation_score as int, model.tolerance as int),
                            ));
                        }
                        return Err(e);
                    },
                };
                if candidates.len() == 1 {
                    return Ok(best_contract);
                }
                let t = sampling_threshold(rand, sum_weights);
                let c = weighted_sample(&candidates, sum_weights, t);
                proof {
                    let i = choose|i: int| is_sample_index(candidates@, t as int, i) && c == #[trigger] candidates@[i].data.contract;
                    self.lemma_undelegation_band_members(best as int, n as nat, egld_amount as int, model);
                    let q = choose|q: int|
                        best - n < q <= best && (#[trigger] candidates@[i]).data == self.list_record(q)
                            && valid_for_undelegate(self.list_record(q), egld_amount as int);
                    assert(candidates@[i].data == self.list_record(q));
                    self.lemma_list_record_contract(q);
                    assert(self.delegation_contracts_list.view()[q].contract == c);
                }
                Ok(c)
            },
        }
    }
}

} // verus!
