//! The general laws of the core, stated and proved against the
//! specifications that the components' contracts use.

use vstd::prelude::*;

verus! {

use crate::fixed::{seq_sum, PROB_SCALE, VAR_FLOOR};
use crate::regime::detector::{spec_stability_filter, RegimeDetector};
use crate::regime::hmm::{
    seq_sum128,
    spec_forward_dist,
    spec_forward_w,
    spec_uniform,
    GaussianState,
    HMMRegimeDetector,
};
use crate::regime::indicators::{spec_width_percentile, ADX, EMA};
use crate::regime::types::{MarketRegime, RegimeConfig};
use crate::strategy::mean_reversion::Signal;
use crate::integration::kraken::{spec_trade_type, TradeType};

/// The HMM's filtered state distribution always sums to exactly one.
pub proof fn lemma_filtered_distribution_sums_to_one(h: HMMRegimeDetector)
    requires
        h.wf(),
    ensures
        seq_sum(h.state_probs@) == PROB_SCALE as int,
{
}

/// Every emission variance of a well-formed HMM sits at or above the floor.
pub proof fn lemma_variances_floored(h: HMMRegimeDetector)
    requires
        h.wf(),
    ensures
        forall|i: int|
            0 <= i < h.states@.len() ==> (#[trigger] h.states@[i]).variance >= VAR_FLOOR,
{
}

/// Every transition-matrix row of a well-formed HMM sums to exactly one.
pub proof fn lemma_transition_rows_sum_to_one(h: HMMRegimeDetector)
    requires
        h.wf(),
    ensures
        forall|i: int|
            0 <= i < h.transition_matrix@.len() ==> seq_sum(
                (#[trigger] h.transition_matrix@[i])@,
            ) == PROB_SCALE as int,
{
}

/// When every forward weight collapses to zero, the filtered distribution
/// resets to uniform — still an exact distribution, so filtering continues
/// on later observations from a well-formed state.
pub proof fn lemma_collapse_resets_to_uniform(
    states: Seq<GaussianState>,
    tm: Seq<Seq<u64>>,
    probs: Seq<u64>,
    ret: int,
)
    requires
        1 <= states.len() <= 16,
        seq_sum128(spec_forward_w(states, tm, probs, ret)) == 0,
    ensures
        spec_forward_dist(states, tm, probs, ret) == spec_uniform(states.len() as int),
        seq_sum(spec_forward_dist(states, tm, probs, ret)) == PROB_SCALE as int,
{
    crate::regime::hmm::lemma_uniform_sum(states.len() as int);
}

/// Before readiness the HMM reports `Uncertain` with confidence zero.
pub proof fn lemma_hmm_uncertain_before_ready(h: HMMRegimeDetector)
    requires
        h.n_observations < h.config.min_observations,
    ensures
        h.spec_regime_confidence().regime == MarketRegime::Uncertain,
        h.spec_regime_confidence().confidence == 0,
{
}

/// Before readiness the rule-based detector reports `Uncertain` with
/// confidence zero.
pub proof fn lemma_detector_uncertain_before_ready(
    pre: RegimeDetector,
    post: RegimeDetector,
    high: u64,
    low: u64,
    close: u64,
)
    requires
        !post.spec_is_ready(),
    ensures
        RegimeDetector::spec_update_out(pre, post, high, low, close).regime
            == MarketRegime::Uncertain,
        RegimeDetector::spec_update_out(pre, post, high, low, close).confidence == 0,
{
}

/// Before its members are ready, the ensemble also reports `Uncertain` with
/// confidence zero: an unready rule-based detector reports it, and while the
/// required HMM warmup is outstanding the ensemble passes that result on
/// verbatim.
pub proof fn lemma_ensemble_uncertain_before_ready(
    pre: crate::regime::ensemble::EnsembleRegimeDetector,
    post: crate::regime::ensemble::EnsembleRegimeDetector,
    high: u64,
    low: u64,
    close: u64,
    out: crate::regime::ensemble::EnsembleResult,
)
    requires
        crate::regime::ensemble::EnsembleRegimeDetector::spec_update_relation(
            pre,
            post,
            high,
            low,
            close,
            out,
        ),
        !post.indicator_detector.spec_is_ready(),
        pre.config.require_hmm_warmup,
        post.hmm_detector.n_observations < post.hmm_detector.config.min_observations,
    ensures
        out.regime == MarketRegime::Uncertain,
        out.confidence == 0,
{
}

/// The stability filter never moves away from the current regime when the
/// candidate already equals it, and never switches on low confidence:
/// under a stable classification the regime cannot oscillate.
pub proof fn lemma_stability_filter_holds_regime(
    current: MarketRegime,
    bars_in: int,
    history: Seq<MarketRegime>,
    cfg: RegimeConfig,
    cand: MarketRegime,
    conf: int,
)
    ensures
        cand == current ==> spec_stability_filter(current, bars_in, history, cfg, cand, conf)
            == current,
        conf < 400_000 ==> spec_stability_filter(current, bars_in, history, cfg, cand, conf)
            == current,
{
}

/// Signals and trade sides correspond one to one.
pub proof fn lemma_signal_trade_type_bijection()
    ensures
        spec_trade_type(Signal::Buy) == TradeType::Buy,
        spec_trade_type(Signal::Sell) == TradeType::Sell,
        spec_trade_type(Signal::Hold) == TradeType::Hold,
        forall|a: Signal, b: Signal| spec_trade_type(a) == spec_trade_type(b) ==> a == b,
{
    assert forall|a: Signal, b: Signal| spec_trade_type(a) == spec_trade_type(b) implies a
        == b by {
        match (a, b) {
            (Signal::Buy, Signal::Buy) => {},
            (Signal::Sell, Signal::Sell) => {},
            (Signal::Hold, Signal::Hold) => {},
            _ => {},
        }
    }
}

/// An EMA never exposes its seeded value before the warmup window fills:
/// fewer absorbed inputs than the period means no value at all.
pub proof fn lemma_ema_no_value_before_period(e: EMA)
    requires
        e.wf(),
        e.warmup_count < e.period,
    ensures
        e.spec_value() is None,
{
}

/// The band-width percentile defaults to 50 whenever fewer than ten widths
/// are on record.
pub proof fn lemma_width_percentile_short_history(hist: Seq<u64>, width: int)
    requires
        hist.len() < 10,
    ensures
        spec_width_percentile(hist, width) == 5_000,
{
}

/// The ADX stays unavailable until a full period of DX values has
/// accumulated.
pub proof fn lemma_adx_unavailable_until_full(pre: ADX, post: ADX, high: u64, low: u64, close: u64)
    requires
        ADX::spec_stepped(pre, post, high, low, close),
        pre.current_adx is None,
        post.dx_values@.len() < pre.period,
    ensures
        post.current_adx is None,
{
}

} // verus!
