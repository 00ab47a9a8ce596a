use vstd::prelude::*;

use crate::asteroid::asteroid_fits;
use crate::asteroid::asteroid_stepped;
use crate::asteroid::Asteroid;
use crate::asteroid::AsteroidView;
use crate::bullet::bullet_fits;
use crate::bullet::bullet_stepped;
use crate::bullet::hits;
use crate::bullet::Bullet;
use crate::bullet::BulletView;
use crate::motion::fits;
use crate::motion::near_world;
use crate::motion::LIMIT;
use crate::motion::MILLI;
use crate::motion::ENTITY_SIZE;
use crate::player::player_fits;
use crate::player::player_stepped;
use crate::player::rotated;
use crate::player::shot_bullet;
use crate::player::thrusted;
use crate::player::Player;
use crate::player::PlayerView;
use crate::rng::random_below;

verus! {

/// Score awarded for each asteroid a bullet destroys.
pub const KILL_REWARD: u32 = 100;

/// How far the ship turns on one steering command, in milliradians.
pub const ROTATE_STEP: i64 = 100;

/// How many asteroids a fresh game spawns.
pub const START_ASTEROIDS: usize = 5;

/// The simulation controller: one player, the live asteroids and bullets,
/// and the score. World dimensions are not cached here; the host passes the
/// live surface size into every `update` call.
pub struct Game {
    pub player: Player,
    pub asteroids: Vec<Asteroid>,
    pub bullets: Vec<Bullet>,
    pub score: u32,
}

/// The views of a sequence of asteroids.
pub open spec fn asteroid_views(v: Seq<Asteroid>) -> Seq<AsteroidView> {
    v.map_values(|a: Asteroid| a@)
}

/// The views of a sequence of bullets.
pub open spec fn bullet_views(v: Seq<Bullet>) -> Seq<BulletView> {
    v.map_values(|b: Bullet| b@)
}

/// The mathematical value of a `Game`.
pub struct GameView {
    pub player: PlayerView,
    pub asteroids: Seq<AsteroidView>,
    pub bullets: Seq<BulletView>,
    pub score: int,
}

impl View for Game {
    type V = GameView;

    open spec fn view(&self) -> GameView {
        GameView {
            player: self.player@,
            asteroids: asteroid_views(self.asteroids@),
            bullets: bullet_views(self.bullets@),
            score: self.score as int,
        }
    }
}

/// Every entity of the game is small enough for the simulation's arithmetic.
pub open spec fn game_fits(g: GameView) -> bool {
    &&& player_fits(g.player)
    &&& forall|i: int| 0 <= i < g.asteroids.len() ==> asteroid_fits(#[trigger] g.asteroids[i])
    &&& forall|i: int| 0 <= i < g.bullets.len() ==> bullet_fits(#[trigger] g.bullets[i])
}

/// A bullet is still on the world's drawable rectangle (inclusive bounds).
pub open spec fn in_world(b: BulletView, width: int, height: int) -> bool {
    0 <= b.x <= width && 0 <= b.y <= height
}

/// The bullets that survive pruning: exactly the ones still on the world,
/// in their original order.
pub open spec fn pruned(bs: Seq<BulletView>, width: int, height: int) -> Seq<BulletView>
    decreases bs.len(),
{
    if bs.len() == 0 {
        Seq::<BulletView>::empty()
    } else {
        let rest = pruned(bs.drop_last(), width, height);
        if in_world(bs.last(), width, height) {
            rest.push(bs.last())
        } else {
            rest
        }
    }
}

/// Index of the first asteroid the bullet overlaps, or -1 if none.
pub open spec fn first_hit(b: BulletView, asts: Seq<AsteroidView>) -> int
    decreases asts.len(),
{
    if asts.len() == 0 {
        -1
    } else if hits(b, asts[0]) {
        0
    } else {
        let r = first_hit(b, asts.drop_first());
        if r == -1 {
            -1
        } else {
            r + 1
        }
    }
}

/// The collision sweep: bullets are taken lowest index first; a bullet that
/// overlaps some asteroid removes the first such asteroid and is itself
/// removed (one kill per bullet); the rest survive in order. Returns the
/// surviving bullets, the surviving asteroids, and the number of kills.
pub open spec fn resolved(bs: Seq<BulletView>, asts: Seq<AsteroidView>) -> (
    Seq<BulletView>,
    Seq<AsteroidView>,
    int,
)
    decreases bs.len(),
{
    if bs.len() == 0 {
        (bs, asts, 0int)
    } else {
        let j = first_hit(bs[0], asts);
        if j >= 0 {
            let r = resolved(bs.drop_first(), asts.remove(j));
            (r.0, r.1, r.2 + 1)
        } else {
            let r = resolved(bs.drop_first(), asts);
            (seq![bs[0]] + r.0, r.1, r.2)
        }
    }
}

/// What one whole tick leaves of the bullets, the asteroids and the score:
/// every entity moves, off-world bullets are pruned, then the sweep runs.
pub open spec fn tick_outcome(g: GameView, width: int, height: int) -> (
    Seq<BulletView>,
    Seq<AsteroidView>,
    int,
) {
    resolved(
        pruned(g.bullets.map_values(|b: BulletView| bullet_stepped(b)), width, height),
        g.asteroids.map_values(|a: AsteroidView| asteroid_stepped(a, width, height)),
    )
}

/// `first_hit` returns -1 exactly when no asteroid is hit; otherwise it is
/// the least index of a hit asteroid.
proof fn lemma_first_hit_spec(b: BulletView, asts: Seq<AsteroidView>)
    ensures
        first_hit(b, asts) == -1 ==> forall|k: int|
            0 <= k < asts.len() ==> !hits(b, #[trigger] asts[k]),
        first_hit(b, asts) != -1 ==> {
            let j = first_hit(b, asts);
            &&& 0 <= j < asts.len()
            &&& hits(b, asts[j])
            &&& forall|k: int| 0 <= k < j ==> !hits(b, #[trigger] asts[k])
        },
    decreases asts.len(),
{
    if asts.len() == 0 {
    } else if hits(b, asts[0]) {
    } else {
        lemma_first_hit_spec(b, asts.drop_first());
        let r = first_hit(b, asts.drop_first());
        assert(forall|k: int| 0 <= k < asts.drop_first().len() ==> asts.drop_first()[k] == asts[
            k + 1
        ]);
        if r == -1 {
            assert forall|k: int| 0 <= k < asts.len() implies !hits(b, #[trigger] asts[k]) by {
                if k > 0 {
                    assert(asts[k] == asts.drop_first()[k - 1]);
                }
            };
        } else {
            assert forall|k: int| 0 <= k < r + 1 implies !hits(b, #[trigger] asts[k]) by {
                if k > 0 {
                    assert(asts[k] == asts.drop_first()[k - 1]);
                }
            };
        }
    }
}

/// Every bullet the sweep returns was among the bullets it was given.
proof fn lemma_resolved_bullets_from(bs: Seq<BulletView>, asts: Seq<AsteroidView>)
    ensures
        forall|i: int|
            0 <= i < resolved(bs, asts).0.len() ==> bs.contains(#[trigger] resolved(bs, asts).0[i]),
    decreases bs.len(),
{
    if bs.len() == 0 {
    } else {
        let j = first_hit(bs[0], asts);
        lemma_first_hit_spec(bs[0], asts);
        if j >= 0 {
            let r = resolved(bs.drop_first(), asts.remove(j));
            lemma_resolved_bullets_from(bs.drop_first(), asts.remove(j));
            assert(resolved(bs, asts).0 == r.0);
            assert forall|i: int| 0 <= i < resolved(bs, asts).0.len() implies bs.contains(
                #[trigger] resolved(bs, asts).0[i],
            ) by {
                let e = r.0[i];
                assert(bs.drop_first().contains(e));
                let k = choose|k: int| 0 <= k < bs.drop_first().len() && bs.drop_first()[k] == e;
                assert(bs[k + 1] == e);
            };
        } else {
            let r = resolved(bs.drop_first(), asts);
            lemma_resolved_bullets_from(bs.drop_first(), asts);
            assert(resolved(bs, asts).0 == seq![bs[0]] + r.0);
            assert forall|i: int| 0 <= i < resolved(bs, asts).0.len() implies bs.contains(
                #[trigger] resolved(bs, asts).0[i],
            ) by {
                let e = resolved(bs, asts).0[i];
                if i == 0 {
                    assert(bs[0] == e);
                } else {
                    assert(r.0[i - 1] == e);
                    assert(bs.drop_first().contains(e));
                    let k = choose|k: int|
                        0 <= k < bs.drop_first().len() && bs.drop_first()[k] == e;
                    assert(bs[k + 1] == e);
                }
            };
        }
    }
}

/// Pruning never grows the collection.
proof fn lemma_pruned_len(bs: Seq<BulletView>, width: int, height: int)
    ensures
        pruned(bs, width, height).len() <= bs.len(),
    decreases bs.len(),
{
    if bs.len() == 0 {
    } else {
        lemma_pruned_len(bs.drop_last(), width, height);
    }
}

/// Every bullet that survives pruning is on the world.
proof fn lemma_pruned_in_world(bs: Seq<BulletView>, width: int, height: int)
    ensures
        forall|i: int|
            0 <= i < pruned(bs, width, height).len() ==> in_world(
                #[trigger] pruned(bs, width, height)[i],
                width,
                height,
            ),
    decreases bs.len(),
{
    if bs.len() == 0 {
    } else {
        lemma_pruned_in_world(bs.drop_last(), width, height);
        let rest = pruned(bs.drop_last(), width, height);
        assert forall|i: int| 0 <= i < pruned(bs, width, height).len() implies in_world(
            #[trigger] pruned(bs, width, height)[i],
            width,
            height,
        ) by {
            if in_world(bs.last(), width, height) {
                assert(pruned(bs, width, height) == rest.push(bs.last()));
                if i < rest.len() {
                    assert(pruned(bs, width, height)[i] == rest[i]);
                } else {
                    assert(pruned(bs, width, height)[i] == bs.last());
                }
            } else {
                assert(pruned(bs, width, height)[i] == rest[i]);
            }
        };
    }
}

/// Index of the first asteroid this bullet overlaps, scanning in order.
fn find_hit(b: &Bullet, asteroids: &Vec<Asteroid>) -> (r: Option<usize>)
    requires
        near_world(b@.x),
        near_world(b@.y),
        forall|k: int|
            0 <= k < asteroid_views(asteroids@).len() ==> near_world(
                (#[trigger] asteroid_views(asteroids@)[k]).x,
            ) && near_world(asteroid_views(asteroids@)[k].y) && near_world(
                asteroid_views(asteroids@)[k].size,
            ),
    ensures
        match r {
            Option::Some(j) => j < asteroids@.len() && first_hit(b@, asteroid_views(asteroids@))
                == j,
            Option::None => first_hit(b@, asteroid_views(asteroids@)) == -1,
        },
{
    let ghost av = asteroid_views(asteroids@);
    let mut j: usize = 0;
    while j < asteroids.len()
        invariant
            0 <= j <= asteroids@.len(),
            av == asteroid_views(asteroids@),
            av.len() == asteroids@.len(),
            near_world(b@.x),
            near_world(b@.y),
            forall|k: int|
                0 <= k < av.len() ==> near_world((#[trigger] av[k]).x) && near_world(av[k].y)
                    && near_world(av[k].size),
            forall|k: int| 0 <= k < j ==> !hits(b@, #[trigger] av[k]),
        decreases asteroids@.len() - j,
    {
        proof {
            assert(av[j as int] == asteroids@[j as int]@);
        }
        if b.collides_with(&asteroids[j]) {
            proof {
                lemma_first_hit_spec(b@, av);
                assert(hits(b@, av[j as int]));
            }
            return Some(j);
        }
        j = j + 1;
    }
    proof {
        lemma_first_hit_spec(b@, av);
    }
    None
}

impl Game {
    /// A fresh game: the player at the world's centre, `START_ASTEROIDS`
    /// asteroids at positions drawn uniformly from the world rectangle, no
    /// bullets, score zero.
    pub fn new(width: i64, height: i64) -> (g: Game)
        requires
            0 < width <= LIMIT,
            0 < height <= LIMIT,
        ensures
            g@.player.x == width as int / 2,
            g@.player.y == height as int / 2,
            g@.player.angle == 0,
            g@.player.velocity_x == 0,
            g@.player.velocity_y == 0,
            g@.bullets.len() == 0,
            g@.score == 0,
            g@.asteroids.len() == START_ASTEROIDS,
            forall|i: int|
                0 <= i < g@.asteroids.len() ==> {
                    let a = #[trigger] g@.asteroids[i];
                    &&& 0 <= a.x < width
                    &&& 0 <= a.y < height
                    &&& a.size == ENTITY_SIZE
                    &&& -MILLI <= a.velocity_x <= MILLI
                    &&& -MILLI <= a.velocity_y <= MILLI
                },
            game_fits(g@),
    {
        let half_w = ((width as u64) / 2) as i64;
        let half_h = ((height as u64) / 2) as i64;
        let player = Player::new(half_w, half_h);
        let mut asteroids: Vec<Asteroid> = Vec::new();
        let mut i: usize = 0;
        while i < START_ASTEROIDS
            invariant
                0 < width <= LIMIT,
                0 < height <= LIMIT,
                i <= START_ASTEROIDS,
                asteroids@.len() == i,
                forall|k: int|
                    0 <= k < asteroids@.len() ==> {
                        let a = (#[trigger] asteroids@[k])@;
                        &&& 0 <= a.x < width
                        &&& 0 <= a.y < height
                        &&& a.size == ENTITY_SIZE
                        &&& -MILLI <= a.velocity_x <= MILLI
                        &&& -MILLI <= a.velocity_y <= MILLI
                    },
            decreases START_ASTEROIDS - i,
        {
            let x = random_below(width);
            let y = random_below(height);
            asteroids.push(Asteroid::new(x, y));
            i = i + 1;
        }
        Game { player, asteroids, bullets: Vec::new(), score: 0 }
    }

    /// Append one bullet shot from the player's current state.
    pub fn shoot(&mut self)
        requires
            player_fits(old(self)@.player),
        ensures
            final(self)@.bullets == old(self)@.bullets.push(shot_bullet(old(self)@.player)),
            final(self)@.player == old(self)@.player,
            final(self)@.asteroids == old(self)@.asteroids,
            final(self)@.score == old(self)@.score,
    {
        let b = self.player.shoot();
        self.bullets.push(b);
        proof {
            assert(bullet_views(self.bullets@) =~= bullet_views(old(self).bullets@).push(b@));
        }
    }

    /// Turn the ship one step counterclockwise (toward negative heading).
    pub fn rotate_left(&mut self)
        requires
            fits(old(self)@.player.angle - ROTATE_STEP),
        ensures
            final(self)@.player == rotated(old(self)@.player, -(ROTATE_STEP as int)),
            final(self)@.bullets == old(self)@.bullets,
            final(self)@.asteroids == old(self)@.asteroids,
            final(self)@.score == old(self)@.score,
    {
        self.player.rotate(-ROTATE_STEP);
    }

    /// Turn the ship one step clockwise (toward positive heading).
    pub fn rotate_right(&mut self)
        requires
            fits(old(self)@.player.angle + ROTATE_STEP),
        ensures
            final(self)@.player == rotated(old(self)@.player, ROTATE_STEP as int),
            final(self)@.bullets == old(self)@.bullets,
            final(self)@.asteroids == old(self)@.asteroids,
            final(self)@.score == old(self)@.score,
    {
        self.player.rotate(ROTATE_STEP);
    }

    /// Apply the thrust impulse to the player.
    pub fn thrust(&mut self)
        requires
            player_fits(old(self)@.player),
        ensures
            final(self)@.player == thrusted(old(self)@.player),
            final(self)@.bullets == old(self)@.bullets,
            final(self)@.asteroids == old(self)@.asteroids,
            final(self)@.score == old(self)@.score,
    {
        self.player.thrust();
    }

    /// The collision sweep over the live bullets and asteroids, exactly as
    /// `resolved` describes it, awarding `KILL_REWARD` per kill.
    fn check_collisions(&mut self)
        requires
            forall|i: int|
                0 <= i < old(self)@.bullets.len() ==> near_world(
                    (#[trigger] old(self)@.bullets[i]).x,
                ) && near_world(old(self)@.bullets[i].y),
            forall|i: int|
                0 <= i < old(self)@.asteroids.len() ==> near_world(
                    (#[trigger] old(self)@.asteroids[i]).x,
                ) && near_world(old(self)@.asteroids[i].y) && near_world(
                    old(self)@.asteroids[i].size,
                ),
            old(self)@.score + KILL_REWARD * old(self)@.bullets.len() <= u32::MAX,
        ensures
            final(self)@.bullets == resolved(old(self)@.bullets, old(self)@.asteroids).0,
            final(self)@.asteroids == resolved(old(self)@.bullets, old(self)@.asteroids).1,
            final(self)@.score == old(self)@.score + KILL_REWARD * resolved(
                old(self)@.bullets,
                old(self)@.asteroids,
            ).2,
            final(self)@.player == old(self)@.player,
    {
        let ghost bs0 = self@.bullets;
        let ghost as0 = self@.asteroids;
        let ghost bvec0 = self.bullets@;
        let ghost score0 = self@.score;
        let ghost player0 = self.player;
        let ghost mut h: int = 0;
        let n = self.bullets.len();
        let mut kept: Vec<Bullet> = Vec::new();
        proof {
            assert(bs0.skip(0) =~= bs0);
            assert(bullet_views(kept@) =~= Seq::<BulletView>::empty());
            assert(Seq::<BulletView>::empty() + resolved(bs0, as0).0 =~= resolved(bs0, as0).0);
        }
        let mut i: usize = 0;
        while i < n
            invariant
                i <= n,
                self.bullets@ == bvec0,
                n == bvec0.len(),
                bs0 == bullet_views(bvec0),
                bs0.len() == n,
                self.player == player0,
                forall|k: int|
                    0 <= k < bs0.len() ==> near_world((#[trigger] bs0[k]).x) && near_world(
                        bs0[k].y,
                    ),
                forall|k: int|
                    0 <= k < asteroid_views(self.asteroids@).len() ==> near_world(
                        (#[trigger] asteroid_views(self.asteroids@)[k]).x,
                    ) && near_world(asteroid_views(self.asteroids@)[k].y) && near_world(
                        asteroid_views(self.asteroids@)[k].size,
                    ),
                0 <= h <= i,
                self.score as int == score0 + KILL_REWARD * h,
                score0 + KILL_REWARD * (n as int) <= u32::MAX,
                resolved(bs0, as0).2 == h + resolved(
                    bs0.skip(i as int),
                    asteroid_views(self.asteroids@),
                ).2,
                resolved(bs0, as0).0 == bullet_views(kept@) + resolved(
                    bs0.skip(i as int),
                    asteroid_views(self.asteroids@),
                ).0,
                resolved(bs0, as0).1 == resolved(
                    bs0.skip(i as int),
                    asteroid_views(self.asteroids@),
                ).1,
            decreases n - i,
        {
            let b = self.bullets[i];
            proof {
                assert(bs0.skip(i as int)[0] == b@);
                assert(bs0.skip(i as int).drop_first() =~= bs0.skip(i as int + 1));
            }
            let found = find_hit(&b, &self.asteroids);
            match found {
                Option::Some(j) => {
                    let ghost av_before = asteroid_views(self.asteroids@);
                    self.asteroids.remove(j);
                    self.score = self.score + KILL_REWARD;
                    proof {
                        h = h + 1;
                        assert(asteroid_views(self.asteroids@) =~= av_before.remove(j as int));
                        let r = resolved(bs0.skip(i as int + 1), av_before.remove(j as int));
                        assert(first_hit(bs0.skip(i as int)[0], av_before) == j as int);
                        assert(resolved(bs0.skip(i as int), av_before).0 == r.0);
                        assert(resolved(bs0.skip(i as int), av_before).1 == r.1);
                        assert(resolved(bs0.skip(i as int), av_before).2 == r.2 + 1);
                        assert forall|k: int|
                            0 <= k < asteroid_views(self.asteroids@).len() implies near_world(
                            (#[trigger] asteroid_views(self.asteroids@)[k]).x,
                        ) && near_world(asteroid_views(self.asteroids@)[k].y) && near_world(
                            asteroid_views(self.asteroids@)[k].size,
                        ) by {
                            if k < j as int {
                                assert(asteroid_views(self.asteroids@)[k] == av_before[k]);
                            } else {
                                assert(asteroid_views(self.asteroids@)[k] == av_before[k + 1]);
                            }
                        };
                    }
                }
                Option::None => {
                    let ghost kept_before = bullet_views(kept@);
                    kept.push(b);
                    proof {
                        let av = asteroid_views(self.asteroids@);
                        let r = resolved(bs0.skip(i as int + 1), av);
                        assert(first_hit(bs0.skip(i as int)[0], av) == -1);
                        assert(resolved(bs0.skip(i as int), av).0 == seq![bs0.skip(i as int)[0]]
                            + r.0);
                        assert(resolved(bs0.skip(i as int), av).1 == r.1);
                        assert(resolved(bs0.skip(i as int), av).2 == r.2);
                        assert(bullet_views(kept@) =~= kept_before.push(b@));
                        assert(kept_before.push(b@) + r.0 =~= kept_before + (seq![b@] + r.0));
                    }
                }
            }
            i = i + 1;
        }
        proof {
            assert(bs0.skip(n as int) =~= Seq::<BulletView>::empty());
            assert(resolved(bs0, as0).0 =~= bullet_views(kept@));
        }
        self.bullets = kept;
    }

    /// Advance the whole simulation one tick: move the player, every bullet
    /// and every asteroid; prune off-world bullets; run the collision sweep.
    /// Every bullet that survives the tick is on the world rectangle.
    pub fn update(&mut self, width: i64, height: i64)
        requires
            game_fits(old(self)@),
            0 < width <= LIMIT,
            0 < height <= LIMIT,
            old(self)@.score + KILL_REWARD * old(self)@.bullets.len() <= u32::MAX,
        ensures
            final(self)@.player == player_stepped(old(self)@.player, width as int, height as int),
            final(self)@.bullets == tick_outcome(old(self)@, width as int, height as int).0,
            final(self)@.asteroids == tick_outcome(old(self)@, width as int, height as int).1,
            final(self)@.score == old(self)@.score + KILL_REWARD * tick_outcome(
                old(self)@,
                width as int,
                height as int,
            ).2,
            forall|i: int|
                0 <= i < final(self)@.bullets.len() ==> in_world(
                    #[trigger] final(self)@.bullets[i],
                    width as int,
                    height as int,
                ),
    {
        let ghost orig = self@;
        let ghost w = width as int;
        let ghost hh = height as int;
        self.player.update(width, height);

        // Move every bullet (no wraparound).
        let nb = self.bullets.len();
        let mut i: usize = 0;
        while i < nb
            invariant
                i <= nb,
                w == width as int,
                hh == height as int,
                self.bullets@.len() == nb,
                orig.bullets.len() == nb,
                forall|k: int| 0 <= k < nb ==> bullet_fits(#[trigger] orig.bullets[k]),
                forall|k: int|
                    0 <= k < i ==> (#[trigger] self.bullets@[k])@ == bullet_stepped(
                        orig.bullets[k],
                    ),
                forall|k: int| i <= k < nb ==> (#[trigger] self.bullets@[k])@ == orig.bullets[k],
                self.player@ == player_stepped(orig.player, w, hh),
                -3 * LIMIT <= self.player.x <= 3 * LIMIT,
                -3 * LIMIT <= self.player.y <= 3 * LIMIT,
                asteroid_views(self.asteroids@) == orig.asteroids,
                self.score as int == orig.score,
            decreases nb - i,
        {
            let mut b = self.bullets[i];
            b.update();
            self.bullets.set(i, b);
            i = i + 1;
        }
        let ghost stepped_b = orig.bullets.map_values(|b: BulletView| bullet_stepped(b));
        proof {
            assert(bullet_views(self.bullets@) =~= stepped_b);
        }

        // Move every asteroid, with wraparound.
        let na = self.asteroids.len();
        let mut i: usize = 0;
        while i < na
            invariant
                i <= na,
                w == width as int,
                hh == height as int,
                self.asteroids@.len() == na,
                orig.asteroids.len() == na,
                0 < width <= LIMIT,
                0 < height <= LIMIT,
                forall|k: int| 0 <= k < na ==> asteroid_fits(#[trigger] orig.asteroids[k]),
                forall|k: int|
                    0 <= k < i ==> (#[trigger] self.asteroids@[k])@ == asteroid_stepped(
                        orig.asteroids[k],
                        w,
                        hh,
                    ),
                forall|k: int|
                    0 <= k < i ==> near_world((#[trigger] self.asteroids@[k])@.x) && near_world(
                        self.asteroids@[k]@.y,
                    ),
                forall|k: int| i <= k < na ==> (#[trigger] self.asteroids@[k])@ == orig.asteroids[k],
                bullet_views(self.bullets@) == stepped_b,
                self.player@ == player_stepped(orig.player, w, hh),
                self.score as int == orig.score,
            decreases na - i,
        {
            let mut a = self.asteroids[i];
            a.update(width, height);
            self.asteroids.set(i, a);
            i = i + 1;
        }
        let ghost stepped_a = orig.asteroids.map_values(|a: AsteroidView| asteroid_stepped(a, w, hh));
        proof {
            assert(asteroid_views(self.asteroids@) =~= stepped_a);
        }

        // Prune bullets that have left the world rectangle.
        let mut kept: Vec<Bullet> = Vec::new();
        let mut i: usize = 0;
        while i < nb
            invariant
                i <= nb,
                stepped_b.len() == nb,
                bullet_views(self.bullets@) == stepped_b,
                self.bullets@.len() == nb,
                bullet_views(kept@) == pruned(stepped_b.take(i as int), w, hh),
                0 < width <= LIMIT,
                0 < height <= LIMIT,
                w == width as int,
                hh == height as int,
            decreases nb - i,
        {
            let b = self.bullets[i];
            let ghost kept_before = bullet_views(kept@);
            proof {
                assert(stepped_b.take(i as int + 1).drop_last() =~= stepped_b.take(i as int));
                assert(stepped_b.take(i as int + 1).last() == stepped_b[i as int]);
            }
            if b.x >= 0 && b.x <= width && b.y >= 0 && b.y <= height {
                kept.push(b);
                proof {
                    assert(bullet_views(kept@) =~= kept_before.push(b@));
                }
            }
            i = i + 1;
        }
        proof {
            assert(stepped_b.take(nb as int) =~= stepped_b);
        }
        self.bullets = kept;

        // Resolve collisions.
        proof {
            lemma_pruned_len(stepped_b, w, hh);
            lemma_pruned_in_world(stepped_b, w, hh);
            assert forall|k: int| 0 <= k < self@.bullets.len() implies near_world(
                (#[trigger] self@.bullets[k]).x,
            ) && near_world(self@.bullets[k].y) by {
                assert(in_world(self@.bullets[k], w, hh));
            };
        }
        self.check_collisions();
        proof {
            let kept_s = pruned(stepped_b, w, hh);
            lemma_pruned_in_world(stepped_b, w, hh);
            lemma_resolved_bullets_from(kept_s, stepped_a);
            assert forall|k: int| 0 <= k < self@.bullets.len() implies in_world(
                #[trigger] self@.bullets[k],
                w,
                hh,
            ) by {
                assert(kept_s.contains(self@.bullets[k]));
                let m = choose|m: int| 0 <= m < kept_s.len() && kept_s[m] == self@.bullets[k];
                assert(in_world(kept_s[m], w, hh));
            };
        }
    }
}

} // verus!
