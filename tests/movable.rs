use bntm::geometry::{integer_sqrt, Vec2, UNITS_PER_PIXEL};
use bntm::movable::{bounce_resolution, shove_resolution, Movable};

/// 0.0165 s in microseconds.
const DT: u32 = 16_500;

/// One second in microseconds.
const SECOND: u32 = 1_000_000;

fn px(v: f64) -> i64 {
    (v * UNITS_PER_PIXEL as f64).round() as i64
}

/// Pixels per second, in millipixels per second.
fn pps(v: f64) -> i64 {
    (v * 1000.).round() as i64
}

fn create() -> (Vec2, Vec2, Movable) {
    let pos = Vec2::new(px(50.), px(50.));
    let m = Movable::new().with_pos(pos);
    let vel = Vec2::new(m.speed as i64, 0);

    (pos, vel, m.with_vel(vel))
}

fn length(v: Vec2) -> i64 {
    integer_sqrt((v.x as i128 * v.x as i128 + v.y as i128 * v.y as i128) as u128) as i64
}

#[test]
fn next_vel_imp() {
    let (_pos, orig_vel, mut m) = create();
    let orig_imp = Vec2::new(pps(10.), 0);
    m.add_impuls(orig_imp);

    let (vel, imp) = m.next_vel_imp(DT);
    assert_eq!(
        vel,
        Vec2::new((orig_vel.x + orig_imp.x) * DT as i64, (orig_vel.y + orig_imp.y) * DT as i64)
    );
    assert_eq!(imp, Vec2::new(orig_imp.x * m.friction as i64 / 1000, 0));
}

#[test]
fn with_speed() {
    let (_pos, _vel, mut m) = create();
    m = m.with_speed(100_000);

    assert_eq!(length(m.vel()), pps(100.));
}

#[test]
fn with_vel() {
    let (_pos, _vel, mut m) = create();
    m = m.with_speed(100_000);
    m = m.with_vel(Vec2::new(0, pps(12.)));

    assert_eq!(m.vel().x, 0);
    assert_eq!(m.vel().y, pps(100.));
}

#[test]
fn with_size() {
    let (pos, _vel, m) = create();
    let size = (px(10.), px(12.));
    let m = m.with_size(size);

    assert_eq!(m.bounds().left(), pos.x - size.0 / 2);
    assert_eq!(m.bounds().right(), pos.x + size.0 / 2);
    assert_eq!(m.bounds().top(), pos.y - size.1 / 2);
    assert_eq!(m.bounds().bottom(), pos.x + size.1 / 2);
}

#[test]
fn with_pos() {
    let (_pos, _vel, m) = create();
    let pos = Vec2::new(px(1.), px(1.));
    let size = (px(10.), px(12.));
    let m = m.with_size(size).with_pos(pos);

    assert_eq!(m.bounds().left(), pos.x - size.0 / 2);
    assert_eq!(m.bounds().right(), pos.x + size.0 / 2);
    assert_eq!(m.bounds().top(), pos.y - size.1 / 2);
    assert_eq!(m.bounds().bottom(), pos.x + size.1 / 2);
}

#[test]
fn movable_update() {
    let (pos, _vel, m) = create();
    let mut m = m.with_speed(100_000);

    m.update(SECOND);

    assert_eq!(m.pos().x, pos.x + px(100.));

    m.add_impuls(Vec2::new(0, pps(100.)));

    m.update(SECOND);

    assert_eq!(m.pos().x, pos.x + px(200.));
    assert_eq!(m.pos().y, pos.y + px(100.));

    m.update(SECOND);

    assert_eq!(m.pos().y, pos.y + px(100.) + px(100.) * m.friction as i64 / 1000);
}

#[test]
fn update_with_impuls() {
    let (pos, _vel, m) = create();
    let mut m = m.with_speed(100_000);
    m.add_impuls(Vec2::new(0, pps(100.)));

    m.update(SECOND);

    assert_eq!(m.pos().x, pos.x + px(100.));
    assert_eq!(m.pos().y, pos.y + px(100.));

    m.update(SECOND);

    assert_eq!(m.pos().x, pos.x + px(200.));
    assert_eq!(m.pos().y, pos.y + px(100.) + px(100.) * m.friction as i64 / 1000);
}

#[test]
fn new_body_is_centred() {
    let m = Movable::new();
    assert_eq!(m.pos(), Vec2::new(0, 0));
    assert_eq!(m.bounds().x, -px(2.));
    assert_eq!(m.bounds().y, -px(2.));
    assert_eq!(m.bounds().w, px(4.));
    assert_eq!(m.bounds().h, px(4.));
}

#[test]
fn set_vel_scales_to_speed() {
    let mut m = Movable::new();
    m.set_vel(Vec2::new(3, 4));
    assert_eq!(m.vel(), Vec2::new(30_000, 40_000));
    m.set_vel(Vec2::new(0, 0));
    assert_eq!(m.vel(), Vec2::new(0, 0));
    m.set_vel(Vec2::new(-1, -1));
    assert_eq!(m.vel(), Vec2::new(-35_355, -35_355));
    m.set_vel(Vec2::new(-5, -5));
    assert_eq!(m.vel(), Vec2::new(-35_355, -35_355));
    m.set_vel(Vec2::new(-3 * UNITS_PER_PIXEL, -4 * UNITS_PER_PIXEL));
    assert_eq!(m.vel(), Vec2::new(-30_000, -40_000));
}

#[test]
fn set_vel_to_target_heads_there() {
    let mut m = Movable::new().with_pos(Vec2::new(px(10.), px(10.)));
    m.set_vel_to_target(Vec2::new(px(10.), px(-90.)));
    assert_eq!(m.vel(), Vec2::new(0, -50_000));
    assert_eq!(m.distance_to_squared(Vec2::new(px(13.), px(14.))), (px(5.) as u128) * (px(5.) as u128));
}

#[test]
fn impulse_decays_to_rest() {
    let mut m = Movable::new().with_pos(Vec2::new(px(100.), px(100.)));
    m.add_impuls(Vec2::new(pps(30.), pps(-20.)));
    let bound = pps(30.);
    let mut last = m.imp.x * m.imp.x + m.imp.y * m.imp.y;
    let mut steps = 0;
    while m.imp != Vec2::new(0, 0) {
        m.update(DT);
        let now = m.imp.x * m.imp.x + m.imp.y * m.imp.y;
        assert!(now < last);
        last = now;
        steps += 1;
        assert!(steps <= bound);
    }
    m.update(DT);
    assert_eq!(m.imp, Vec2::new(0, 0));
    assert_eq!(m.vel(), Vec2::new(0, 0));
}

#[test]
fn negligible_impulse_is_dropped() {
    let (_pos, _vel, mut m) = create();
    m.add_impuls(Vec2::new(86, 0));
    assert_eq!(m.next_vel_imp(DT).1, Vec2::new(64, 0));
    let (_pos, _vel, mut m) = create();
    m.add_impuls(Vec2::new(84, 0));
    assert_eq!(m.next_vel_imp(DT).1, Vec2::new(0, 0));
    let (_pos, _vel, mut m) = create();
    m.add_impuls(Vec2::new(0, -86));
    assert_eq!(m.next_vel_imp(DT).1, Vec2::new(0, -64));
}

#[test]
fn shove_pushes_apart() {
    let mut a = Movable::new().with_pos(Vec2::new(px(10.), px(20.)));
    let mut b = Movable::new().with_pos(Vec2::new(px(13.), px(16.)));
    shove_resolution(&mut a, &mut b);
    assert_eq!(a.imp, Vec2::new(pps(-12.), pps(16.)));
    assert_eq!(b.imp, Vec2::new(pps(12.), pps(-16.)));
    assert_eq!(a.vel(), Vec2::new(0, 0));
}

#[test]
fn bounce_exchanges_velocity_on_axis() {
    let mut a = Movable::new()
        .with_size((px(16.), px(16.)))
        .with_pos(Vec2::new(px(619.9), px(430.0)))
        .with_vel(Vec2::new(pps(50.0), pps(0.0)));
    let mut b = Movable::new()
        .with_size((px(16.), px(16.)))
        .with_pos(Vec2::new(px(636.0), px(430.0)))
        .with_vel(Vec2::new(pps(0.0), pps(-50.0)));
    b.weight = 40;
    bounce_resolution(&mut a, &mut b, DT);
    assert_eq!(a.vel(), Vec2::new(0, 0));
    assert_eq!(b.vel(), Vec2::new(0, 0));
    // On X, a takes b's x component and keeps its own y component.
    assert_eq!(a.imp, Vec2::new(0, 0));
    // b takes a's x component and keeps its own y: divided by 40, times 4.
    assert_eq!(b.imp, Vec2::new(5_000, -5_000));
}

#[test]
fn bounce_on_both_axes_swaps_everything() {
    let mut a = Movable::new().with_size((px(16.), px(16.))).with_pos(Vec2::new(px(630.), px(430.)));
    let mut b = Movable::new()
        .with_size((px(16.), px(16.)))
        .with_pos(Vec2::new(px(636.0), px(430.0)))
        .with_vel(Vec2::new(pps(-30.0), pps(40.0)));
    bounce_resolution(&mut a, &mut b, DT);
    assert_eq!(a.imp, Vec2::new(-1_500, 2_000));
    assert_eq!(b.imp, Vec2::new(0, 0));
}

#[test]
fn update_checks_its_range() {
    let m = Movable::new().with_pos(Vec2::new(px(10.), px(10.))).with_vel(Vec2::new(1, 0));
    assert!(m.can_update(SECOND));
    assert!(m.can_update(u32::MAX));
    let far = Movable::new().with_pos(Vec2::new(i64::MAX - px(3.), 0)).with_vel(Vec2::new(1, 0));
    assert!(!far.can_update(SECOND));
    assert!(far.can_update(0));
}

#[test]
fn placeable_checks_extents() {
    assert!(bntm::movable::is_placeable(Vec2::new(0, 0), px(4.), px(4.)));
    assert!(!bntm::movable::is_placeable(Vec2::new(0, 0), -1, px(4.)));
    assert!(!bntm::movable::is_placeable(Vec2::new(i64::MIN, 0), 4, 4));
    assert!(bntm::movable::is_placeable(Vec2::new(i64::MIN + 2, 0), 4, 4));
}

#[test]
fn impulse_rests_within_logarithmic_bound() {
    let mut m = Movable::new().with_pos(Vec2::new(px(100.), px(100.)));
    m.add_impuls(Vec2::new(pps(30.), pps(-20.)));
    // The smallest n with 30000 * 750^n < 45 * 1000^n.
    let mut n = 0u32;
    let (mut lhs, mut rhs) = (30_000f64, 45f64);
    while lhs >= rhs {
        lhs *= 750.;
        rhs *= 1000.;
        n += 1;
    }
    assert_eq!(n, 23);
    for _ in 0..n {
        m.update(DT);
    }
    assert_eq!(m.imp, Vec2::new(0, 0));
    m.update(DT);
    assert_eq!(m.imp, Vec2::new(0, 0));
}
