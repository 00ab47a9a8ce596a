use vstd::prelude::*;

use crate::motion::fits;
use crate::motion::wrap_coord;
use crate::motion::wrapped;
use crate::motion::ENTITY_SIZE;
use crate::motion::LIMIT;
use crate::motion::MILLI;
use crate::rng::random_below;

verus! {

/// A drifting obstacle: a circle with a position, a velocity and a fixed
/// radius, all in milli-units.
#[derive(Clone, Copy)]
pub struct Asteroid {
    pub x: i64,
    pub y: i64,
    pub velocity_x: i64,
    pub velocity_y: i64,
    pub size: i64,
}

/// The mathematical value of an `Asteroid`.
pub struct AsteroidView {
    pub x: int,
    pub y: int,
    pub velocity_x: int,
    pub velocity_y: int,
    pub size: int,
}

impl View for Asteroid {
    type V = AsteroidView;

    open spec fn view(&self) -> AsteroidView {
        AsteroidView {
            x: self.x as int,
            y: self.y as int,
            velocity_x: self.velocity_x as int,
            velocity_y: self.velocity_y as int,
            size: self.size as int,
        }
    }
}

/// The asteroid's fields are small enough for the simulation's arithmetic,
/// and its radius is positive.
pub open spec fn asteroid_fits(a: AsteroidView) -> bool {
    &&& fits(a.x)
    &&& fits(a.y)
    &&& fits(a.velocity_x)
    &&& fits(a.velocity_y)
    &&& 0 < a.size <= LIMIT
}

/// One Euler step with toroidal wraparound, using the asteroid's own radius
/// as the wrap margin.
pub open spec fn asteroid_stepped(a: AsteroidView, width: int, height: int) -> AsteroidView {
    AsteroidView {
        x: wrapped(a.x + a.velocity_x, width, a.size),
        y: wrapped(a.y + a.velocity_y, height, a.size),
        velocity_x: a.velocity_x,
        velocity_y: a.velocity_y,
        size: a.size,
    }
}

impl Asteroid {
    /// A fresh asteroid at the given position, radius 20 units, with each
    /// velocity component drawn independently from [-1, 1] units per tick.
    pub fn new(x: i64, y: i64) -> (a: Asteroid)
        ensures
            a.x == x,
            a.y == y,
            a.size == ENTITY_SIZE,
            -MILLI <= a.velocity_x <= MILLI,
            -MILLI <= a.velocity_y <= MILLI,
    {
        let velocity_x = random_below(2 * MILLI + 1) - MILLI;
        let velocity_y = random_below(2 * MILLI + 1) - MILLI;
        Asteroid { x, y, velocity_x, velocity_y, size: ENTITY_SIZE }
    }

    /// Advance one tick: move by the velocity, then wrap around the world.
    pub fn update(&mut self, width: i64, height: i64)
        requires
            asteroid_fits(old(self)@),
            0 < width <= LIMIT,
            0 < height <= LIMIT,
        ensures
            final(self)@ == asteroid_stepped(old(self)@, width as int, height as int),
            -3 * LIMIT <= final(self).x <= 3 * LIMIT,
            -3 * LIMIT <= final(self).y <= 3 * LIMIT,
    {
        self.x = wrap_coord(self.x + self.velocity_x, width, self.size);
        self.y = wrap_coord(self.y + self.velocity_y, height, self.size);
    }
}

} // verus!
