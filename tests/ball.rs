use testbed2d::ball::{Ball, Circle};
use testbed2d::body::Placement;
use testbed2d::color::Rgb;

#[test]
fn new_ball_scales_radius_and_waits_at_one_radius() {
    let b = Ball::new(3, Placement::identity(), 540_000, Rgb::new(1, 2, 3));
    assert_eq!(b.radius, 10_800_000);
    assert_eq!((b.x, b.y), (10_800_000, 10_800_000));
    assert_eq!(b.rotation, 0);
    assert_eq!(b.fill, Rgb::new(1, 2, 3));
}

#[test]
fn sleeping_ball_is_a_quarter_of_its_colour() {
    let mut b = Ball::new(1, Placement::identity(), 1, Rgb::new(200, 255, 3));
    b.update(Placement::new(10, 20, 30), true);
    assert_eq!(b.fill, Rgb::new(200, 255, 3));
    b.update(Placement::new(10, 20, 30), false);
    assert_eq!(b.fill, Rgb::new(50, 63, 0));
}

#[test]
fn update_scales_position_and_keeps_rotation() {
    let mut b = Ball::new(1, Placement::identity(), 1, Rgb::new(9, 9, 9));
    b.update(Placement::new(-7, 1_000_000, 1_570_796), true);
    assert_eq!((b.x, b.y), (-140, 20_000_000));
    assert_eq!(b.rotation, 1_570_796);
    assert_eq!(b.draw(), Circle { x: -140, y: 20_000_000, radius: 20, fill: Rgb::new(9, 9, 9) });
}

#[test]
fn update_handles_extreme_coordinates() {
    let mut b = Ball::new(1, Placement::identity(), 1, Rgb::new(9, 9, 9));
    b.update(Placement::new(i64::MIN, i64::MAX, 0), true);
    assert_eq!(b.x, i64::MIN as i128 * 20);
    assert_eq!(b.y, i64::MAX as i128 * 20);
}

#[test]
fn select_highlights_until_unselect() {
    let mut b = Ball::new(1, Placement::identity(), 1, Rgb::new(9, 8, 7));
    b.select();
    b.update(Placement::identity(), true);
    assert_eq!(b.fill, Rgb::new(255, 0, 0));
    b.update(Placement::identity(), false);
    assert_eq!(b.fill, Rgb::new(63, 0, 0));
    b.unselect();
    b.update(Placement::identity(), true);
    assert_eq!(b.fill, Rgb::new(9, 8, 7));
}

#[test]
fn dimmed_rounds_down() {
    assert_eq!(Rgb::new(200, 3, 255).dimmed(), Rgb::new(50, 0, 63));
    assert_eq!(Rgb::highlight(), Rgb::new(255, 0, 0));
}
