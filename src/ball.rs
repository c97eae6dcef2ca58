use vstd::prelude::*;
use crate::body::Placement;
use crate::color::{Rgb, quarter, highlight_spec};

verus! {

/// Screen units (micro-pixels) per micro-unit of the world.
pub const DRAW_SCALE: u64 = 20;

/// A filled circle to draw, in screen micro-pixels.
#[derive(Clone, Copy, Debug, PartialEq, Eq, Structural)]
pub struct Circle {
    pub x: i128,
    pub y: i128,
    pub radius: u128,
    pub fill: Rgb,
}

/// The visual of one disc of a body.
///
/// It holds the key of its body, never the body itself, and is refreshed
/// from the body's pose by `update`.
#[derive(Clone, Copy, Debug)]
pub struct Ball {
    /// Identity key of the body the disc belongs to.
    pub body: u64,
    /// Offset of the disc from the body's origin.
    pub delta: Placement,
    /// The colour the body was given.
    pub base_color: Rgb,
    /// The colour shown: the base colour, or the highlight while grabbed.
    pub color: Rgb,
    /// Radius on screen.
    pub radius: u128,
    /// Cached screen position.
    pub x: i128,
    pub y: i128,
    /// Cached rotation, in micro-radians.
    pub rotation: i64,
    /// Cached fill colour.
    pub fill: Rgb,
}

/// A world length scaled to the screen.
pub open spec fn to_screen(v: int) -> int {
    v * DRAW_SCALE
}

/// The largest world radius whose screen radius is representable.
pub const MAX_RADIUS: u128 = 0x03ff_ffff_ffff_ffff_ffff_ffff_ffff_ffff;

/// A fresh visual, as `Ball::new` makes it.
pub open spec fn new_ball(body: u64, delta: Placement, radius: int, color: Rgb) -> Ball {
    Ball {
        body,
        delta,
        base_color: color,
        color,
        radius: to_screen(radius) as u128,
        x: to_screen(radius) as i128,
        y: to_screen(radius) as i128,
        rotation: 0,
        fill: color,
    }
}

/// `b` after `update` with `pose` and `active`.
pub open spec fn updated(b: Ball, pose: Placement, active: bool) -> Ball {
    Ball {
        x: to_screen(pose.x as int) as i128,
        y: to_screen(pose.y as int) as i128,
        rotation: pose.angle,
        fill: if active { b.color } else { quarter(b.color) },
        ..b
    }
}

/// The circle that shows `b`.
pub open spec fn circle_of(b: Ball) -> Circle {
    Circle { x: b.x, y: b.y, radius: b.radius, fill: b.fill }
}

/// The fill of a visual of a sleeping body is a quarter of the fill it has
/// when the body is awake, channel by channel.
pub proof fn lemma_sleeping_fill_is_quarter(b: Ball, pose: Placement)
    ensures
        updated(b, pose, false).fill == quarter(updated(b, pose, true).fill),
{
}

impl Ball {
    /// A visual for a disc of `radius` (margin included) of body `body`.
    /// Until the first `update` it stands at one radius from the origin on
    /// both axes.
    pub fn new(body: u64, delta: Placement, radius: u128, color: Rgb) -> (res: Ball)
        requires
            radius <= MAX_RADIUS,
        ensures
            res == new_ball(body, delta, radius as int, color),
            res.radius == to_screen(radius as int),
            res.x == to_screen(radius as int),
    {
        assert(radius * 20 <= 0x03ff_ffff_ffff_ffff_ffff_ffff_ffff_ffff * 20) by (nonlinear_arith)
            requires
                radius <= 0x03ff_ffff_ffff_ffff_ffff_ffff_ffff_ffff,
        ;
        let dradius: u128 = radius * DRAW_SCALE as u128;
        Ball {
            body,
            delta,
            base_color: color,
            color,
            radius: dradius,
            x: dradius as i128,
            y: dradius as i128,
            rotation: 0,
            fill: color,
        }
    }

    /// Refreshes the cached position, rotation and fill from `pose`, the
    /// body's pose composed with the disc's offset. A sleeping body is
    /// shown at a quarter of its colour.
    pub fn update(&mut self, pose: Placement, active: bool)
        ensures
            final(self).x == to_screen(pose.x as int),
            final(self).y == to_screen(pose.y as int),
            final(self).rotation == pose.angle,
            final(self).fill == (if active { old(self).color } else { quarter(old(self).color) }),
            *final(self) == updated(*old(self), pose, active),
    {
        self.x = pose.x as i128 * DRAW_SCALE as i128;
        self.y = pose.y as i128 * DRAW_SCALE as i128;
        self.rotation = pose.angle;
        if active {
            self.fill = self.color;
        } else {
            self.fill = self.color.dimmed();
        }
    }

    /// The circle that shows the disc, from the cached fields.
    pub fn draw(&self) -> (res: Circle)
        ensures
            res == circle_of(*self),
    {
        Circle { x: self.x, y: self.y, radius: self.radius, fill: self.fill }
    }

    /// Shows the disc in the highlight colour from the next `update` on.
    pub fn select(&mut self)
        ensures
            *final(self) == (Ball { color: highlight_spec(), ..*old(self) }),
    {
        self.color = Rgb::highlight();
    }

    /// Shows the disc in its own colour again from the next `update` on.
    pub fn unselect(&mut self)
        ensures
            *final(self) == (Ball { color: old(self).base_color, ..*old(self) }),
    {
        self.color = self.base_color;
    }
}

} // verus!
