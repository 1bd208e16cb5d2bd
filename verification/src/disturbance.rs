//! Hysteretic accelerometer-disturbance detection.
//!
//! Each correction cycle the filter compares a normalized accelerometer error
//! `e` against two thresholds `thr_weak < thr_strong`. The classification has
//! a re-arm band of 20% of each threshold: once a level is entered, the error
//! must fall below 0.8 times the threshold before the level is left.

use vstd::prelude::*;

verus! {

/// Level of the accelerometer disturbance currently assumed by the filter.
/// `Calm` means no disturbance is detected.
#[derive(Clone, Copy, PartialEq, Eq, Structural, Debug)]
pub enum DisturbanceState {
    Calm,
    Weak,
    Strong,
}

/// Outcome of one classification step: the new detector state, whether the
/// accelerometer sample is replaced by the predicted gravity vector for this
/// cycle, and whether the correction gain is halved for this cycle.
#[derive(Clone, Copy, PartialEq, Eq, Structural, Debug)]
pub struct Classification {
    pub state: DisturbanceState,
    pub suppress_acc: bool,
    pub halve_gain: bool,
}

/// Transition table of the disturbance detector. `e`, `thr_weak` and
/// `thr_strong` are nonnegative values on a common (arbitrary) scale; the
/// re-arm boundary `0.8 * thr` is expressed exactly as `5 * e > 4 * thr`.
pub open spec fn spec_classify(
    prev: DisturbanceState,
    e: int,
    thr_weak: int,
    thr_strong: int,
) -> Classification {
    if e > thr_strong {
        Classification { state: DisturbanceState::Strong, suppress_acc: true, halve_gain: false }
    } else if e > thr_weak {
        if prev is Strong && 5 * e > 4 * thr_strong {
            Classification { state: DisturbanceState::Strong, suppress_acc: true, halve_gain: false }
        } else {
            Classification { state: DisturbanceState::Weak, suppress_acc: false, halve_gain: true }
        }
    } else {
        if prev is Weak && 5 * e > 4 * thr_weak {
            Classification { state: DisturbanceState::Weak, suppress_acc: false, halve_gain: true }
        } else {
            Classification { state: DisturbanceState::Calm, suppress_acc: false, halve_gain: false }
        }
    }
}

/// Classify one normalized error sample against the thresholds, with re-arm
/// hysteresis, exactly as `spec_classify` states.
pub fn classify(prev: DisturbanceState, e: i64, thr_weak: i64, thr_strong: i64) -> (c:
    Classification)
    requires
        0 <= e,
        0 <= thr_weak < thr_strong,
    ensures
        c == spec_classify(prev, e as int, thr_weak as int, thr_strong as int),
{
    if e > thr_strong {
        Classification { state: DisturbanceState::Strong, suppress_acc: true, halve_gain: false }
    } else if e > thr_weak {
        let in_strong_band: bool = (e as i128) * 5 > (thr_strong as i128) * 4;
        if prev == DisturbanceState::Strong && in_strong_band {
            Classification {
                state: DisturbanceState::Strong,
                suppress_acc: true,
                halve_gain: false,
            }
        } else {
            Classification { state: DisturbanceState::Weak, suppress_acc: false, halve_gain: true }
        }
    } else {
        let in_weak_band: bool = (e as i128) * 5 > (thr_weak as i128) * 4;
        if prev == DisturbanceState::Weak && in_weak_band {
            Classification { state: DisturbanceState::Weak, suppress_acc: false, halve_gain: true }
        } else {
            Classification { state: DisturbanceState::Calm, suppress_acc: false, halve_gain: false }
        }
    }
}

/// Law: an error above the strong threshold forces the STRONG state and full
/// suppression of the accelerometer, whatever the previous state was.
pub proof fn lemma_strong_suppresses(
    prev: DisturbanceState,
    e: int,
    thr_weak: int,
    thr_strong: int,
)
    requires
        0 <= thr_weak < thr_strong,
        e > thr_strong,
    ensures
        spec_classify(prev, e, thr_weak, thr_strong) == (Classification {
            state: DisturbanceState::Strong,
            suppress_acc: true,
            halve_gain: false,
        }),
{
}

/// Law (re-arm hysteresis): coming from STRONG, an error that has dropped
/// below the strong threshold but is still above 0.8 times it keeps the
/// detector in STRONG with the accelerometer suppressed.
pub proof fn lemma_strong_rearm_band(e: int, thr_weak: int, thr_strong: int)
    requires
        0 <= thr_weak < thr_strong,
        thr_weak < e <= thr_strong,
        5 * e > 4 * thr_strong,
    ensures
        spec_classify(DisturbanceState::Strong, e, thr_weak, thr_strong) == (Classification {
            state: DisturbanceState::Strong,
            suppress_acc: true,
            halve_gain: false,
        }),
{
}

/// Law (re-arm hysteresis): coming from WEAK, an error at or below the weak
/// threshold but still above 0.8 times it keeps the halved gain.
pub proof fn lemma_weak_rearm_band(e: int, thr_weak: int, thr_strong: int)
    requires
        0 <= thr_weak < thr_strong,
        e <= thr_weak,
        5 * e > 4 * thr_weak,
    ensures
        spec_classify(DisturbanceState::Weak, e, thr_weak, thr_strong) == (Classification {
            state: DisturbanceState::Weak,
            suppress_acc: false,
            halve_gain: true,
        }),
{
}

/// Law: an error at or below 0.8 times the weak threshold releases the
/// detector to the no-disturbance state with full gain, whatever the previous
/// state was.
pub proof fn lemma_full_release(prev: DisturbanceState, e: int, thr_weak: int, thr_strong: int)
    requires
        0 <= thr_weak < thr_strong,
        0 <= e,
        5 * e <= 4 * thr_weak,
    ensures
        spec_classify(prev, e, thr_weak, thr_strong) == (Classification {
            state: DisturbanceState::Calm,
            suppress_acc: false,
            halve_gain: false,
        }),
{
}

/// Detector state after feeding the error samples of `es` in order, starting
/// from `init`.
pub open spec fn classify_last(
    init: DisturbanceState,
    es: Seq<int>,
    thr_weak: int,
    thr_strong: int,
) -> DisturbanceState
    decreases es.len(),
{
    if es.len() == 0 {
        init
    } else {
        spec_classify(
            classify_last(init, es.drop_last(), thr_weak, thr_strong),
            es.last(),
            thr_weak,
            thr_strong,
        ).state
    }
}

/// Law: while every error sample of a run exceeds the strong threshold, the
/// detector reports STRONG after each of those samples, from any starting
/// state.
pub proof fn lemma_strong_throughout(
    init: DisturbanceState,
    es: Seq<int>,
    thr_weak: int,
    thr_strong: int,
)
    requires
        0 <= thr_weak < thr_strong,
        es.len() > 0,
        forall|i: int| 0 <= i < es.len() ==> es[i] > thr_strong,
    ensures
        classify_last(init, es, thr_weak, thr_strong) is Strong,
    decreases es.len(),
{
    if es.len() > 1 {
        lemma_strong_throughout(init, es.drop_last(), thr_weak, thr_strong);
    }
}

} // verus!
