use skillet::motion::{isqrt, make_throw, Throw, MAX_ELAPSED_MS};

#[test]
fn isqrt_exact_values() {
    assert_eq!(isqrt(0), 0);
    assert_eq!(isqrt(1), 1);
    assert_eq!(isqrt(3), 1);
    assert_eq!(isqrt(4), 2);
    assert_eq!(isqrt(24), 4);
    assert_eq!(isqrt(25), 5);
    assert_eq!(isqrt(518_400_000_000), 720_000);
    assert_eq!(isqrt(u64::MAX), 4_294_967_295);
}

#[test]
fn make_throw_derives_documented_parameters() {
    // apex height 720 units, one second to apex, no lateral offset:
    // g = 720e6 / (2 * 1000^2) = 360, v = sqrt(2 * 720e6 * 360) = 720_000.
    let th = make_throw(720_000_000, 1_000, 0, 0, -240_000_000);
    assert_eq!(th.g, 360);
    assert_eq!(th.v, 720_000);
    assert_eq!(th.drift, 0);
    assert_eq!(th.x0, 0);
    assert_eq!(th.y0, -240_000_000);
    assert_eq!(th.elapsed_ms, 0);
}

#[test]
fn drift_follows_offset_direction() {
    let right = make_throw(720_000_000, 1_000, 50_000_000, 0, 0);
    let left = make_throw(720_000_000, 1_000, -50_000_000, 0, 0);
    let none = make_throw(720_000_000, 1_000, 0, 0, 0);
    assert!(right.drift > 0);
    assert!(left.drift < 0);
    assert_eq!(none.drift, 0);
    assert_eq!(right.drift, -left.drift);
    // drift speed = isqrt(2 * |offset| * g) = isqrt(3.6e10) = 189_736
    assert_eq!(right.drift, 189_736);
}

#[test]
fn position_follows_the_parabola() {
    let mut th = Throw {
        g: 360,
        v: 720_000,
        drift: 1_000,
        x0: 5_000_000,
        y0: -240_000_000,
        elapsed_ms: 0,
    };
    assert_eq!(th.pos_y(), -240_000_000);
    assert_eq!(th.pos_x(), 5_000_000);
    th.advance(1_000);
    // y(1000) = -240e6 + 720_000*1000 - 360*1000^2 = 120e6 (the apex)
    assert_eq!(th.pos_y(), 120_000_000);
    assert_eq!(th.pos_x(), 5_000_000 + 1_000 * 1_000);
}

#[test]
fn position_is_deterministic_in_elapsed_time() {
    let th_a = Throw { g: 360, v: 720_000, drift: 0, x0: 0, y0: 0, elapsed_ms: 400 };
    let th_b = Throw { g: 360, v: 720_000, drift: 0, x0: 0, y0: 0, elapsed_ms: 400 };
    assert_eq!(th_a.pos_y(), th_b.pos_y());
    assert_eq!(th_a.pos_x(), th_b.pos_x());
    // on the rising limb, distinct instants give distinct heights
    let th_c = Throw { g: 360, v: 720_000, drift: 0, x0: 0, y0: 0, elapsed_ms: 401 };
    assert_ne!(th_a.pos_y(), th_c.pos_y());
}

#[test]
fn stopwatch_saturates() {
    let mut th = Throw { g: 0, v: 0, drift: 0, x0: 0, y0: 0, elapsed_ms: 0 };
    th.advance(MAX_ELAPSED_MS + 5);
    assert_eq!(th.elapsed_ms, MAX_ELAPSED_MS);
    th.advance(1);
    assert_eq!(th.elapsed_ms, MAX_ELAPSED_MS);
}
