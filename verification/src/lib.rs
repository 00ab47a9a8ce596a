//! A small arcade simulation: a ship on a wrapped 2D plane shoots bullets at
//! drifting asteroids. All state is fixed-point (thousandths of a world unit),
//! so every step of the simulation is exact integer arithmetic.

mod asteroid;
mod bullet;
mod game;
mod motion;
mod player;
mod rng;
mod trig;

pub use asteroid::asteroid_fits;
pub use asteroid::asteroid_stepped;
pub use asteroid::Asteroid;
pub use asteroid::AsteroidView;
pub use bullet::bullet_fits;
pub use bullet::bullet_stepped;
pub use bullet::hits;
pub use bullet::Bullet;
pub use bullet::BulletView;
pub use game::first_hit;
pub use game::game_fits;
pub use game::in_world;
pub use game::pruned;
pub use game::resolved;
pub use game::tick_outcome;
pub use game::Game;
pub use game::GameView;
pub use game::KILL_REWARD;
pub use game::ROTATE_STEP;
pub use game::START_ASTEROIDS;
pub use motion::fits;
pub use motion::lemma_no_wrap_moves_by_velocity;
pub use motion::lemma_wrap_high_reenters;
pub use motion::near_world;
pub use motion::wrapped;
pub use motion::ENTITY_SIZE;
pub use motion::LIMIT;
pub use motion::MILLI;
pub use player::lemma_rotate_round_trip;
pub use player::lemma_thrust_from_rest;
pub use player::player_fits;
pub use player::player_stepped;
pub use player::rotated;
pub use player::shot_bullet;
pub use player::thrusted;
pub use player::Player;
pub use player::PlayerView;
pub use player::MUZZLE_OFFSET;
pub use player::MUZZLE_SPEED;
pub use player::THRUST_IMPULSE;
pub use trig::cosine;
pub use trig::lemma_sine_cosine_not_both_zero;
pub use trig::sine;
pub use trig::HALF_PI_MILLI;
pub use trig::PI_MILLI;
pub use trig::TAU_MILLI;
