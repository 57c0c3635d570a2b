use vstd::prelude::*;
use vstd::arithmetic::div_mod::lemma_div_is_ordered;
use crate::constants::BPS;
use crate::math::{
    lemma_norm_linear_clamp_down, lemma_norm_linear_clamp_up, norm_linear_clamp,
    norm_linear_clamp_spec,
};
use crate::model::{DelegationContractData, DelegationScoreMethod, DelegationScoreModel};

verus! {

/// The value sub-score: lower locked value scores higher.
pub open spec fn tvl_score_spec(tvl: int, min_tvl: int, max_tvl: int) -> int {
    norm_linear_clamp_spec(tvl, min_tvl, max_tvl, true)
}

/// The yield sub-score: higher yield scores higher.
pub open spec fn apr_score_spec(apr: int, min_apr: int, max_apr: int) -> int {
    norm_linear_clamp_spec(apr, min_apr, max_apr, false)
}

/// The score of a counterparty with locked value `tvl` and yield `apr` under `model`.
pub open spec fn score_spec(model: DelegationScoreModel, tvl: int, apr: int) -> int {
    let t = tvl_score_spec(tvl, model.min_tvl as int, model.max_tvl as int);
    let a = apr_score_spec(apr, model.min_apr as int, model.max_apr as int);
    match model.method {
        DelegationScoreMethod::Tvl => t,
        DelegationScoreMethod::Apr => a,
        DelegationScoreMethod::Mixed => (model.omega * t + (BPS - model.omega) * a) / (BPS as int),
    }
}

/// The blend of two sub-scores is a fraction and grows with each of them.
proof fn lemma_blend(omega: int, t1: int, t2: int, a1: int, a2: int)
    requires
        0 <= omega <= BPS,
        0 <= t1 <= t2 <= BPS,
        0 <= a1 <= a2 <= BPS,
    ensures
        0 <= (omega * t1 + (BPS - omega) * a1) / (BPS as int),
        (omega * t2 + (BPS - omega) * a2) / (BPS as int) <= BPS,
        (omega * t1 + (BPS - omega) * a1) / (BPS as int) <= (omega * t2 + (BPS - omega) * a2) / (
        BPS as int),
{
    let b = BPS as int;
    assert(0 <= omega * t1 + (b - omega) * a1) by (nonlinear_arith)
        requires
            0 <= omega <= b,
            0 <= t1,
            0 <= a1,
    ;
    assert(omega * t1 + (b - omega) * a1 <= omega * t2 + (b - omega) * a2) by (nonlinear_arith)
        requires
            0 <= omega <= b,
            t1 <= t2,
            a1 <= a2,
    ;
    assert(omega * t2 + (b - omega) * a2 <= b * b) by (nonlinear_arith)
        requires
            0 <= omega <= b,
            t2 <= b,
            a2 <= b,
    ;
    lemma_div_is_ordered(0, omega * t1 + (b - omega) * a1, b);
    lemma_div_is_ordered(omega * t1 + (b - omega) * a1, omega * t2 + (b - omega) * a2, b);
    lemma_div_is_ordered(omega * t2 + (b - omega) * a2, b * b, b);
    assert(b * b / b == b) by (nonlinear_arith)
        requires
            b > 0,
    ;
}

/// For a well-formed model the score lies in `[0, BPS]`, does not increase with the locked value
/// and does not decrease with the yield.
pub proof fn lemma_score_monotonic(
    model: DelegationScoreModel,
    tvl1: int,
    tvl2: int,
    apr1: int,
    apr2: int,
)
    requires
        model.wf(),
        tvl1 <= tvl2,
        apr1 <= apr2,
    ensures
        0 <= score_spec(model, tvl1, apr1) <= BPS,
        score_spec(model, tvl2, apr1) <= score_spec(model, tvl1, apr1),
        score_spec(model, tvl1, apr1) <= score_spec(model, tvl1, apr2),
{
    match model.method {
        DelegationScoreMethod::Tvl => {
            lemma_norm_linear_clamp_down(tvl1, tvl2, model.min_tvl as int, model.max_tvl as int);
        },
        DelegationScoreMethod::Apr => {
            lemma_norm_linear_clamp_up(apr1, apr2, model.min_apr as int, model.max_apr as int);
        },
        DelegationScoreMethod::Mixed => {
            lemma_norm_linear_clamp_down(tvl1, tvl2, model.min_tvl as int, model.max_tvl as int);
            lemma_norm_linear_clamp_down(tvl2, tvl2, model.min_tvl as int, model.max_tvl as int);
            lemma_norm_linear_clamp_up(apr1, apr2, model.min_apr as int, model.max_apr as int);
            lemma_norm_linear_clamp_up(apr2, apr2, model.min_apr as int, model.max_apr as int);
            let t1 = tvl_score_spec(tvl1, model.min_tvl as int, model.max_tvl as int);
            let t2 = tvl_score_spec(tvl2, model.min_tvl as int, model.max_tvl as int);
            let a1 = apr_score_spec(apr1, model.min_apr as int, model.max_apr as int);
            let a2 = apr_score_spec(apr2, model.min_apr as int, model.max_apr as int);
            lemma_blend(model.omega as int, t2, t1, a1, a1);
            lemma_blend(model.omega as int, t1, t1, a1, a2);
        },
    }
}

/// Computes the locked-value score: capped at `BPS` at low values and floored at zero at high ones.
pub fn compute_tvl_score(total_value_locked: u128, min_tvl: u128, max_tvl: u128) -> (r: u128)
    requires
        max_tvl > min_tvl,
    ensures
        r == tvl_score_spec(total_value_locked as int, min_tvl as int, max_tvl as int),
        r <= BPS,
{
    norm_linear_clamp(total_value_locked, min_tvl, max_tvl, true)
}

/// Computes the yield score: capped at `BPS` at high yields and floored at zero at low ones.
pub fn compute_apr_score(apr: u128, min_apr: u128, max_apr: u128) -> (r: u128)
    requires
        max_apr > min_apr,
    ensures
        r == apr_score_spec(apr as int, min_apr as int, max_apr as int),
        r <= BPS,
{
    norm_linear_clamp(apr, min_apr, max_apr, false)
}

impl DelegationScoreModel {
    /// The score of a counterparty with the given locked value and yield.
    pub fn compute_delegation_score_internal(&self, total_value_locked: u128, apr: u128) -> (r: u128)
        requires
            self.wf(),
        ensures
            r == score_spec(*self, total_value_locked as int, apr as int),
            r <= BPS,
    {
        proof {
            lemma_score_monotonic(*self, total_value_locked as int, total_value_locked as int, apr as int, apr as int);
        }
        match self.method {
            DelegationScoreMethod::Tvl => compute_tvl_score(total_value_locked, self.min_tvl, self.max_tvl),
            DelegationScoreMethod::Apr => compute_apr_score(apr, self.min_apr, self.max_apr),
            DelegationScoreMethod::Mixed => {
                let tvl_score = compute_tvl_score(total_value_locked, self.min_tvl, self.max_tvl);
                let apr_score = compute_apr_score(apr, self.min_apr, self.max_apr);
                proof {
                    assert(self.omega * tvl_score <= BPS * BPS) by (nonlinear_arith)
                        requires
                            self.omega <= BPS,
                            tvl_score <= BPS,
                    ;
                    assert((BPS - self.omega) * apr_score <= BPS * BPS) by (nonlinear_arith)
                        requires
                            self.omega <= BPS,
                            apr_score <= BPS,
                    ;
                }
                (self.omega * tvl_score + (BPS - self.omega) * apr_score) / BPS
            },
        }
    }

    /// The score of a counterparty from its recorded metrics.
    pub fn compute_delegation_score(&self, contract_data: &DelegationContractData) -> (r: u128)
        requires
            self.wf(),
        ensures
            r == score_spec(*self, contract_data.total_value_locked as int, contract_data.apr as int),
            r <= BPS,
    {
        self.compute_delegation_score_internal(contract_data.total_value_locked, contract_data.apr)
    }
}

} // verus!
