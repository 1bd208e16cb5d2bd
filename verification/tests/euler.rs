// Euler-angle round trips for the floating-point conversions the
// surrounding application uses for logging. The fixed-point library keeps
// orientation as a quaternion; yaw-pitch-roll extraction is a lossy
// floating-point view of it, checked here away from the gimbal-lock
// boundary: from_euler(to_euler(q)) must reproduce q up to sign.

use ahrs_filter::quat::Quat;
use ahrs_filter::vec3::Vec3;
use quaternion_core::{from_axis_angle, from_euler_angles, to_euler_angles, RotationSequence,
    RotationType};

fn round_trip(q: quaternion_core::Quaternion<f64>) {
    let angles = to_euler_angles(RotationType::Intrinsic, RotationSequence::ZYX, q);
    let q2 = from_euler_angles(RotationType::Intrinsic, RotationSequence::ZYX, angles);
    // A quaternion and its negation are the same rotation.
    let sign = if q.0 * q2.0 + q.1[0] * q2.1[0] + q.1[1] * q2.1[1] + q.1[2] * q2.1[2] < 0.0 {
        -1.0
    } else {
        1.0
    };
    assert!((q.0 - sign * q2.0).abs() < 1e-9);
    for i in 0..3 {
        assert!((q.1[i] - sign * q2.1[i]).abs() < 1e-9);
    }
}

#[test]
fn euler_round_trip_far_from_gimbal_lock() {
    round_trip(from_axis_angle([0.0, 0.0, 1.0], 0.4));
    round_trip(from_axis_angle([1.0, 0.0, 0.0], -0.7));
    round_trip(from_axis_angle([0.3, -0.8, 0.5], 1.9));
    round_trip(from_axis_angle([-0.2, 0.9, -0.4], -2.6));
}

#[test]
fn fixed_point_quaternion_converts_to_float_and_back() {
    // The conversion the application performs between the library's
    // fixed-point quaternion and the f64 quaternion used for logging.
    let q = Quat { w: 46340, v: Vec3 { x: 0, y: -46340, z: 0 } };
    let s = 65536.0;
    let qf: quaternion_core::Quaternion<f64> =
        (q.w as f64 / s, [q.v.x as f64 / s, q.v.y as f64 / s, q.v.z as f64 / s]);
    let back = Quat {
        w: (qf.0 * s) as i64,
        v: Vec3 { x: (qf.1[0] * s) as i64, y: (qf.1[1] * s) as i64, z: (qf.1[2] * s) as i64 },
    };
    assert_eq!(q, back);
}
