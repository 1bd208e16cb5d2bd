use ahrs_filter::disturbance::{classify, DisturbanceState};
use ahrs_filter::filter::{get_q_gm, AttitudeFilter, ConfigError, G_FX};
use ahrs_filter::fixed::{fx_div, fx_mul, isqrt, SCALE};
use ahrs_filter::quat::{rotate_a_to_b, Quat};
use ahrs_filter::vec3::Vec3;

fn v(x: i64, y: i64, z: i64) -> Vec3 {
    Vec3 { x, y, z }
}

fn norm_sq_q(q: Quat) -> i128 {
    let w = q.w as i128;
    let x = q.v.x as i128;
    let y = q.v.y as i128;
    let z = q.v.z as i128;
    w * w + x * x + y * y + z * z
}

// Thresholds 0.04 and 0.08 in fixed point.
const THR_WEAK: i64 = 2621;
const THR_STRONG: i64 = 5243;

fn standard_filter() -> AttitudeFilter {
    // alpha = 1.0 s, beta = 0.2, dt = 0.02 s.
    AttitudeFilter::new(65536, 13107, THR_WEAK, THR_STRONG, 1310).unwrap()
}

#[test]
fn fx_mul_rounds_toward_zero() {
    assert_eq!(fx_mul(196608, 32768), 98304); // 3.0 * 0.5 = 1.5
    assert_eq!(fx_mul(-196608, 32768), -98304);
    assert_eq!(fx_mul(1, 1), 0);
    assert_eq!(fx_mul(-1, 1), 0);
    assert_eq!(fx_mul(-3, 65536), -3);
}

#[test]
fn fx_div_rounds_toward_zero() {
    assert_eq!(fx_div(65536, 3), 1431655765);
    assert_eq!(fx_div(-65536, 3), -1431655765);
    assert_eq!(fx_div(0, 7), 0);
}

#[test]
fn isqrt_exact_values() {
    assert_eq!(isqrt(0), 0);
    assert_eq!(isqrt(15), 3);
    assert_eq!(isqrt(16), 4);
    assert_eq!(isqrt(u64::MAX), 4294967295);
}

#[test]
fn vector_ops_exact() {
    let a = v(65536, 131072, 196608); // (1, 2, 3)
    let b = v(262144, 327680, 393216); // (4, 5, 6)
    assert_eq!(a.dot(b), 2097152); // 32.0
    let c = v(65536, 0, 0).cross(v(0, 65536, 0));
    assert_eq!(c, v(0, 0, 65536));
    let n = v(196608, 262144, 0).norm(); // |(3, 4, 0)| = 5
    assert_eq!(n, 327680);
    let u = v(196608, 262144, 0).normalize();
    assert_eq!(u, v(39321, 52428, 0)); // (0.6, 0.8, 0) truncated
}

#[test]
fn quaternion_identity_is_neutral() {
    let q = Quat {
        w: 46340,
        v: v(0, 46340, 0),
    };
    assert_eq!(Quat::identity().mul(q), q);
    assert_eq!(q.mul(Quat::identity()), q);
    let g = v(0, 0, G_FX);
    assert_eq!(Quat::identity().frame_rotation(g), g);
}

#[test]
fn rotate_a_to_b_parallel_gives_identity() {
    let g = v(0, 0, G_FX);
    assert_eq!(rotate_a_to_b(g, g), Quat::identity());
}

#[test]
fn rotate_a_to_b_zero_input_gives_identity() {
    assert_eq!(rotate_a_to_b(v(0, 0, 0), v(0, 0, G_FX)), Quat::identity());
}

#[test]
fn rotate_a_to_b_antiparallel_gives_half_turn() {
    let g = v(0, 0, G_FX);
    let r = rotate_a_to_b(g, v(0, 0, -G_FX));
    assert_eq!(r, Quat { w: 0, v: v(65536, 0, 0) });
}

#[test]
fn rotate_a_to_b_quarter_turn() {
    // w = 65536^2 / isqrt(2 * 65536^2) = 4294967296 / 92681, truncated.
    let r = rotate_a_to_b(v(G_FX, 0, 0), v(0, 0, G_FX));
    assert_eq!(r, Quat { w: 46341, v: v(0, -46341, 0) });
}

#[test]
fn classify_strong_from_any_state() {
    for prev in [DisturbanceState::Calm, DisturbanceState::Weak, DisturbanceState::Strong] {
        let c = classify(prev, 9830, THR_WEAK, THR_STRONG); // e = 0.15
        assert_eq!(c.state, DisturbanceState::Strong);
        assert!(c.suppress_acc);
        assert!(!c.halve_gain);
    }
}

#[test]
fn classify_weak_band() {
    // e = 0.05: above weak threshold, below strong.
    let c = classify(DisturbanceState::Calm, 3277, THR_WEAK, THR_STRONG);
    assert_eq!(c.state, DisturbanceState::Weak);
    assert!(!c.suppress_acc);
    assert!(c.halve_gain);
}

#[test]
fn classify_strong_rearm_band() {
    // e = 0.07 is below the strong threshold but above 0.8 * 0.08 = 0.064:
    // coming from STRONG the detector must stay STRONG.
    let c = classify(DisturbanceState::Strong, 4587, THR_WEAK, THR_STRONG);
    assert_eq!(c.state, DisturbanceState::Strong);
    assert!(c.suppress_acc);
    // The same error coming from CALM is only WEAK.
    let c2 = classify(DisturbanceState::Calm, 4587, THR_WEAK, THR_STRONG);
    assert_eq!(c2.state, DisturbanceState::Weak);
}

#[test]
fn classify_weak_rearm_band() {
    // e = 0.0335 is below the weak threshold but above 0.8 * 0.04 = 0.032:
    // coming from WEAK the halved gain is kept.
    let c = classify(DisturbanceState::Weak, 2200, THR_WEAK, THR_STRONG);
    assert_eq!(c.state, DisturbanceState::Weak);
    assert!(c.halve_gain);
    // Coming from CALM the same error stays CALM.
    let c2 = classify(DisturbanceState::Calm, 2200, THR_WEAK, THR_STRONG);
    assert_eq!(c2.state, DisturbanceState::Calm);
}

#[test]
fn classify_release_below_rearm_point() {
    // e = 0.03 < 0.8 * 0.04: full release from every state.
    for prev in [DisturbanceState::Calm, DisturbanceState::Weak, DisturbanceState::Strong] {
        let c = classify(prev, 1966, THR_WEAK, THR_STRONG);
        assert_eq!(c.state, DisturbanceState::Calm);
        assert!(!c.suppress_acc);
        assert!(!c.halve_gain);
    }
}

#[test]
fn new_rejects_bad_configuration() {
    assert_eq!(
        AttitudeFilter::new(0, 13107, THR_WEAK, THR_STRONG, 1310),
        Err(ConfigError::NonPositiveAlpha)
    );
    assert_eq!(
        AttitudeFilter::new(-65536, 13107, THR_WEAK, THR_STRONG, 1310),
        Err(ConfigError::NonPositiveAlpha)
    );
    assert_eq!(
        AttitudeFilter::new(65536, 13107, THR_WEAK, THR_STRONG, 0),
        Err(ConfigError::NonPositiveDt)
    );
    assert_eq!(
        AttitudeFilter::new(65536, 13107, THR_STRONG, THR_WEAK, 1310),
        Err(ConfigError::ThresholdOrder)
    );
    assert_eq!(
        AttitudeFilter::new(65536, 13107, THR_WEAK, THR_WEAK, 1310),
        Err(ConfigError::ThresholdOrder)
    );
}

#[test]
fn new_initial_state() {
    let f = standard_filter();
    assert_eq!(f.orientation(), Quat::identity());
    assert_eq!(f.bias_integral(), v(0, 0, 0));
    assert_eq!(f.integration_gain(), 13107);
    assert_eq!(f.disturbance_state(), DisturbanceState::Calm);
    assert_eq!(f.coef_gyr_c, 131072); // 2 / 1.0 = 2.0
}

#[test]
fn predict_single_step_small_angle() {
    // One step at 0.1 rad/s about x over dt = 0.02 s: the closed-form
    // small-angle update gives q = (1, 0.001, 0, 0) before renormalization,
    // which is (65536, 65, 0, 0) in fixed point.
    let mut f = standard_filter();
    f.predict(v(6554, 0, 0));
    assert_eq!(f.orientation(), Quat { w: 65536, v: v(65, 0, 0) });
}

#[test]
fn predict_keeps_unit_norm_band() {
    let mut f = standard_filter();
    let lo: i128 = 32767 * 32767;
    let hi: i128 = 4 * 65536 * 65536;
    for i in 0..200 {
        let w = match i % 3 {
            0 => v(6554, -3277, 1311),
            1 => v(-13107, 6554, 0),
            _ => v(0, 19661, -6554),
        };
        f.predict(w);
        let nsq = norm_sq_q(f.orientation());
        assert!(nsq >= lo && nsq <= hi, "norm out of band: {}", nsq);
    }
}

#[test]
fn strong_disturbance_suppresses_accelerometer() {
    // e = 0.15 > thr_strong for ten consecutive cycles: the detector must
    // report STRONG throughout, and with the accelerometer replaced by the
    // prediction (and a consistent magnetometer) no correction may build up.
    let mut f = standard_filter();
    let acc_disturbed = v(96403, 0, G_FX); // 0.15 g sideways on top of gravity
    let mag = v(0, 65536, 0);
    for _ in 0..10 {
        f.correct(acc_disturbed, mag);
        assert_eq!(f.disturbance_state(), DisturbanceState::Strong);
        assert_eq!(f.gyr_correct, v(0, 0, 0));
        assert_eq!(f.bias_integral(), v(0, 0, 0));
        f.predict(v(0, 0, 0));
        assert_eq!(f.orientation(), Quat::identity());
    }
}

#[test]
fn hysteresis_rearm_through_descending_error() {
    let mut f = standard_filter();
    let mag = v(0, 65536, 0);
    // Enter STRONG with e = 0.15.
    f.correct(v(96403, 0, G_FX), mag);
    assert_eq!(f.disturbance_state(), DisturbanceState::Strong);
    // Drop to e = 0.07: inside the re-arm band, so STRONG is kept.
    f.correct(v(44988, 0, G_FX), mag);
    assert_eq!(f.disturbance_state(), DisturbanceState::Strong);
    // Drop to e = 0.03 < 0.8 * thr_weak: released to CALM.
    f.correct(v(19280, 0, G_FX), mag);
    assert_eq!(f.disturbance_state(), DisturbanceState::Calm);
}

#[test]
fn converges_from_wrong_orientation() {
    // Wide thresholds so a 0.1 rad tilt is not taken for a disturbance.
    let mut f = AttitudeFilter::new(65536, 13107, 13107, 26214, 1310).unwrap();
    // Tilt the estimate away by integrating a fake rate: 0.1 rad/s for 1 s.
    for _ in 0..50 {
        f.predict(v(6554, 0, 0));
    }
    let tilted = f.orientation();
    assert!(tilted.v.x.abs() > 1000, "estimate was not tilted: {:?}", tilted);
    // Feed measurements consistent with the identity orientation.
    let acc = v(0, 0, G_FX);
    let mag = v(0, 65536, 0);
    for _ in 0..600 {
        f.correct(acc, mag);
        f.predict(v(0, 0, 0));
    }
    let q = f.orientation();
    assert!(q.v.x.abs() < 700, "x residual too large: {:?}", q);
    assert!(q.v.y.abs() < 700, "y residual too large: {:?}", q);
    assert!(q.v.z.abs() < 700, "z residual too large: {:?}", q);
    assert!((q.w.abs() - 65536).abs() < 700, "w not near unit: {:?}", q);
}

#[test]
fn bias_recovery_three_vectors() {
    // A constant gyro bias with disturbance-free measurements: the reported
    // bias estimate (-beta * integral) must converge to the true bias.
    let biases = [
        v(1311, -655, 1966),  // (0.02, -0.01, 0.03) rad/s
        v(0, 0, 0),
        v(-3277, 3277, 0),    // (-0.05, 0.05, 0) rad/s
    ];
    for b in biases {
        let mut f = AttitudeFilter::new(65536, 13107, 13107, 26214, 1310).unwrap();
        let acc = v(0, 0, G_FX);
        let mag = v(0, 65536, 0);
        for _ in 0..5000 {
            f.predict(b);
            f.correct(acc, mag);
        }
        let beta = f.integration_gain();
        let integ = f.bias_integral();
        let est = v(
            -fx_mul(beta, integ.x),
            -fx_mul(beta, integ.y),
            -fx_mul(beta, integ.z),
        );
        assert!((est.x - b.x).abs() < 500, "x: est {:?} bias {:?}", est, b);
        assert!((est.y - b.y).abs() < 500, "y: est {:?} bias {:?}", est, b);
        assert!((est.z - b.z).abs() < 500, "z: est {:?} bias {:?}", est, b);
    }
}

#[test]
fn q_gm_of_reference_measurements_is_identity() {
    let q = get_q_gm(v(0, 0, G_FX), v(0, 65536, 0));
    assert_eq!(q, Quat::identity());
}
