use vstd::prelude::*;

use crate::bullet::Bullet;
use crate::bullet::BulletView;
use crate::motion::fits;
use crate::motion::wrap_coord;
use crate::motion::wrapped;
use crate::motion::ENTITY_SIZE;
use crate::motion::LIMIT;
use crate::motion::MILLI;
use crate::trig::cos_scaled;
use crate::trig::cosine;
use crate::trig::lemma_sine_cosine_not_both_zero;
use crate::trig::sin_scaled;
use crate::trig::sine;

verus! {

/// The forward impulse one thrust adds to the velocity: half a unit per
/// tick, along the current heading.
pub const THRUST_IMPULSE: i64 = 500;

/// How far ahead of the ship a fresh bullet starts, in milli-units.
pub const MUZZLE_OFFSET: i64 = 20 * MILLI;

/// The speed a fresh bullet gets along the heading, on top of the ship's
/// own velocity, in milli-units per tick.
pub const MUZZLE_SPEED: i64 = 10 * MILLI;

/// The controllable ship: position, heading (milliradians, unbounded) and
/// velocity, all fixed-point.
#[derive(Clone, Copy)]
pub struct Player {
    pub x: i64,
    pub y: i64,
    pub angle: i64,
    pub velocity_x: i64,
    pub velocity_y: i64,
}

/// The mathematical value of a `Player`.
pub struct PlayerView {
    pub x: int,
    pub y: int,
    pub angle: int,
    pub velocity_x: int,
    pub velocity_y: int,
}

impl View for Player {
    type V = PlayerView;

    open spec fn view(&self) -> PlayerView {
        PlayerView {
            x: self.x as int,
            y: self.y as int,
            angle: self.angle as int,
            velocity_x: self.velocity_x as int,
            velocity_y: self.velocity_y as int,
        }
    }
}

/// The player's fields are small enough for the simulation's arithmetic.
pub open spec fn player_fits(p: PlayerView) -> bool {
    &&& fits(p.x)
    &&& fits(p.y)
    &&& fits(p.angle)
    &&& fits(p.velocity_x)
    &&& fits(p.velocity_y)
}

/// Turning changes nothing but the heading, which accumulates without wrap.
pub open spec fn rotated(p: PlayerView, delta: int) -> PlayerView {
    PlayerView { angle: p.angle + delta, ..p }
}

/// Thrust adds a half-unit impulse along the heading. A heading of zero
/// points up (negative y), so the sine drives x and the cosine drives -y.
pub open spec fn thrusted(p: PlayerView) -> PlayerView {
    PlayerView {
        velocity_x: p.velocity_x + sine(p.angle, THRUST_IMPULSE as int),
        velocity_y: p.velocity_y - cosine(p.angle, THRUST_IMPULSE as int),
        ..p
    }
}

/// One Euler step with toroidal wraparound at the ship's visual half-extent.
pub open spec fn player_stepped(p: PlayerView, width: int, height: int) -> PlayerView {
    PlayerView {
        x: wrapped(p.x + p.velocity_x, width, ENTITY_SIZE as int),
        y: wrapped(p.y + p.velocity_y, height, ENTITY_SIZE as int),
        ..p
    }
}

/// The bullet a shot spawns: 20 units ahead of the ship along its heading,
/// at muzzle speed along the heading plus the ship's own velocity.
pub open spec fn shot_bullet(p: PlayerView) -> BulletView {
    BulletView {
        x: p.x + sine(p.angle, MUZZLE_OFFSET as int),
        y: p.y - cosine(p.angle, MUZZLE_OFFSET as int),
        velocity_x: p.velocity_x + sine(p.angle, MUZZLE_SPEED as int),
        velocity_y: p.velocity_y - cosine(p.angle, MUZZLE_SPEED as int),
    }
}

impl Player {
    /// A fresh ship at the given position, heading up, at rest.
    pub fn new(x: i64, y: i64) -> (p: Player)
        ensures
            p.x == x,
            p.y == y,
            p.angle == 0,
            p.velocity_x == 0,
            p.velocity_y == 0,
    {
        Player { x, y, angle: 0, velocity_x: 0, velocity_y: 0 }
    }

    /// Turn by `delta` milliradians.
    pub fn rotate(&mut self, delta: i64)
        requires
            fits(old(self)@.angle + delta),
        ensures
            final(self)@ == rotated(old(self)@, delta as int),
    {
        self.angle = self.angle + delta;
    }

    /// Apply the thrust impulse along the current heading.
    pub fn thrust(&mut self)
        requires
            player_fits(old(self)@),
        ensures
            final(self)@ == thrusted(old(self)@),
    {
        let s = sin_scaled(self.angle, THRUST_IMPULSE);
        let c = cos_scaled(self.angle, THRUST_IMPULSE);
        self.velocity_x = self.velocity_x + s;
        self.velocity_y = self.velocity_y - c;
    }

    /// Spawn a bullet ahead of the ship, inheriting the ship's velocity.
    pub fn shoot(&self) -> (b: Bullet)
        requires
            player_fits(self@),
        ensures
            b@ == shot_bullet(self@),
    {
        let sin_off = sin_scaled(self.angle, MUZZLE_OFFSET);
        let cos_off = cos_scaled(self.angle, MUZZLE_OFFSET);
        let sin_vel = sin_scaled(self.angle, MUZZLE_SPEED);
        let cos_vel = cos_scaled(self.angle, MUZZLE_SPEED);
        Bullet {
            x: self.x + sin_off,
            y: self.y - cos_off,
            velocity_x: self.velocity_x + sin_vel,
            velocity_y: self.velocity_y - cos_vel,
        }
    }

    /// Advance one tick: move by the velocity, then wrap around the world.
    pub fn update(&mut self, width: i64, height: i64)
        requires
            player_fits(old(self)@),
            0 < width <= LIMIT,
            0 < height <= LIMIT,
        ensures
            final(self)@ == player_stepped(old(self)@, width as int, height as int),
            -3 * LIMIT <= final(self).x <= 3 * LIMIT,
            -3 * LIMIT <= final(self).y <= 3 * LIMIT,
    {
        self.x = wrap_coord(self.x + self.velocity_x, width, ENTITY_SIZE);
        self.y = wrap_coord(self.y + self.velocity_y, height, ENTITY_SIZE);
    }
}

/// Turning by `d` and then by `-d` restores the player exactly: the heading
/// is plain accumulation, so the round trip is the identity.
pub proof fn lemma_rotate_round_trip(p: PlayerView, d: int)
    ensures
        rotated(rotated(p, d), -d) == p,
{
}

/// From rest, thrust always yields a nonzero velocity: for no heading are
/// the thrust-scale sine and cosine both zero.
pub proof fn lemma_thrust_from_rest(p: PlayerView)
    requires
        p.velocity_x == 0,
        p.velocity_y == 0,
    ensures
        thrusted(p).velocity_x != 0 || thrusted(p).velocity_y != 0,
{
    lemma_sine_cosine_not_both_zero(p.angle);
}

} // verus!
