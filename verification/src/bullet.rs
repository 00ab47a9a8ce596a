use vstd::prelude::*;

use crate::asteroid::Asteroid;
use crate::asteroid::AsteroidView;
use crate::motion::fits;
use crate::motion::near_world;
use crate::motion::LIMIT;

verus! {

/// A projectile: a point with a position and a velocity, in milli-units.
/// Bullets never wrap; ones that leave the world are pruned by the game.
#[derive(Clone, Copy)]
pub struct Bullet {
    pub x: i64,
    pub y: i64,
    pub velocity_x: i64,
    pub velocity_y: i64,
}

/// The mathematical value of a `Bullet`.
pub struct BulletView {
    pub x: int,
    pub y: int,
    pub velocity_x: int,
    pub velocity_y: int,
}

impl View for Bullet {
    type V = BulletView;

    open spec fn view(&self) -> BulletView {
        BulletView {
            x: self.x as int,
            y: self.y as int,
            velocity_x: self.velocity_x as int,
            velocity_y: self.velocity_y as int,
        }
    }
}

/// The bullet's fields are small enough for the simulation's arithmetic.
pub open spec fn bullet_fits(b: BulletView) -> bool {
    &&& fits(b.x)
    &&& fits(b.y)
    &&& fits(b.velocity_x)
    &&& fits(b.velocity_y)
}

/// One Euler step: a bullet moves by its velocity and never wraps.
pub open spec fn bullet_stepped(b: BulletView) -> BulletView {
    BulletView {
        x: b.x + b.velocity_x,
        y: b.y + b.velocity_y,
        velocity_x: b.velocity_x,
        velocity_y: b.velocity_y,
    }
}

/// A bullet hits an asteroid iff the squared distance between the bullet's
/// point and the asteroid's centre is strictly below the squared radius.
pub open spec fn hits(b: BulletView, a: AsteroidView) -> bool {
    let dx = b.x - a.x;
    let dy = b.y - a.y;
    dx * dx + dy * dy < a.size * a.size
}

impl Bullet {
    /// Advance one tick: move by the velocity. No wraparound.
    pub fn update(&mut self)
        requires
            bullet_fits(old(self)@),
        ensures
            final(self)@ == bullet_stepped(old(self)@),
    {
        self.x = self.x + self.velocity_x;
        self.y = self.y + self.velocity_y;
    }

    /// Point-in-circle collision test over squared distances.
    pub fn collides_with(&self, asteroid: &Asteroid) -> (r: bool)
        requires
            near_world(self@.x),
            near_world(self@.y),
            near_world(asteroid@.x),
            near_world(asteroid@.y),
            near_world(asteroid@.size),
        ensures
            r == hits(self@, asteroid@),
    {
        proof {
            let dx = self@.x - asteroid@.x;
            let dy = self@.y - asteroid@.y;
            assert(0 <= dx * dx <= 16_000_000_000 * 16_000_000_000) by (nonlinear_arith)
                requires -16_000_000_000 <= dx <= 16_000_000_000;
            assert(0 <= dy * dy <= 16_000_000_000 * 16_000_000_000) by (nonlinear_arith)
                requires -16_000_000_000 <= dy <= 16_000_000_000;
            assert(0 <= asteroid@.size * asteroid@.size <= 16_000_000_000 * 16_000_000_000)
                by (nonlinear_arith)
                requires -16_000_000_000 <= asteroid@.size <= 16_000_000_000;
        }
        let dx = (self.x as i128) - (asteroid.x as i128);
        let dy = (self.y as i128) - (asteroid.y as i128);
        let distance_sq = dx * dx + dy * dy;
        let radius_sq = (asteroid.size as i128) * (asteroid.size as i128);
        distance_sq < radius_sq
    }
}

} // verus!
