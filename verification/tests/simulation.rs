use asteroids::Asteroid;
use asteroids::Bullet;
use asteroids::Game;
use asteroids::Player;
use asteroids::ENTITY_SIZE;
use asteroids::KILL_REWARD;
use asteroids::MILLI;

#[test]
fn test_player_creation() {
    let player = Player::new(100 * MILLI, 100 * MILLI);
    assert_eq!(player.x, 100 * MILLI);
    assert_eq!(player.y, 100 * MILLI);
    assert_eq!(player.angle, 0);
    assert_eq!(player.velocity_x, 0);
    assert_eq!(player.velocity_y, 0);
}

#[test]
fn test_player_rotation() {
    let mut player = Player::new(100 * MILLI, 100 * MILLI);
    player.rotate(MILLI / 2);
    assert_eq!(player.angle, MILLI / 2);
}

#[test]
fn test_player_thrust() {
    let mut player = Player::new(100 * MILLI, 100 * MILLI);
    player.thrust();
    assert!(player.velocity_x != 0 || player.velocity_y != 0);
}

#[test]
fn test_player_movement() {
    let mut player = Player::new(100 * MILLI, 100 * MILLI);
    let initial_x = player.x;
    let initial_y = player.y;
    player.velocity_x = MILLI;
    player.velocity_y = MILLI;
    player.update(500 * MILLI, 500 * MILLI);
    assert_eq!(player.x, initial_x + MILLI);
    assert_eq!(player.y, initial_y + MILLI);
}

#[test]
fn test_asteroid_creation() {
    let asteroid = Asteroid::new(100 * MILLI, 100 * MILLI);
    assert_eq!(asteroid.x, 100 * MILLI);
    assert_eq!(asteroid.y, 100 * MILLI);
    assert_eq!(asteroid.size, 20 * MILLI);
    assert!(asteroid.velocity_x.abs() <= MILLI);
    assert!(asteroid.velocity_y.abs() <= MILLI);
}

#[test]
fn test_asteroid_movement() {
    let mut asteroid = Asteroid::new(100 * MILLI, 100 * MILLI);
    let initial_x = asteroid.x;
    let initial_y = asteroid.y;
    asteroid.update(500 * MILLI, 500 * MILLI);
    assert!(asteroid.x != initial_x || asteroid.y != initial_y);
}

#[test]
fn test_bullet_creation() {
    let player = Player::new(100 * MILLI, 100 * MILLI);
    let bullet = player.shoot();
    assert!(bullet.x > 0);
    assert!(bullet.y > 0);
    assert!(bullet.velocity_x != 0 || bullet.velocity_y != 0);
}

#[test]
fn test_bullet_movement() {
    let mut bullet = Bullet {
        x: 100 * MILLI,
        y: 100 * MILLI,
        velocity_x: MILLI,
        velocity_y: MILLI,
    };
    let initial_x = bullet.x;
    let initial_y = bullet.y;
    bullet.update();
    assert_eq!(bullet.x, initial_x + MILLI);
    assert_eq!(bullet.y, initial_y + MILLI);
}

#[test]
fn test_collision_detection() {
    let bullet = Bullet {
        x: 100 * MILLI,
        y: 100 * MILLI,
        velocity_x: 0,
        velocity_y: 0,
    };
    let asteroid = Asteroid {
        x: 100 * MILLI,
        y: 100 * MILLI,
        velocity_x: 0,
        velocity_y: 0,
        size: 20 * MILLI,
    };
    assert!(bullet.collides_with(&asteroid));

    let bullet = Bullet {
        x: 150 * MILLI,
        y: 150 * MILLI,
        velocity_x: 0,
        velocity_y: 0,
    };
    assert!(!bullet.collides_with(&asteroid));
}

#[test]
fn test_game_mechanics() {
    // A game state driven through its core motions, component by component.
    let mut player = Player::new(400 * MILLI, 300 * MILLI);
    let mut asteroids = vec![
        Asteroid::new(100 * MILLI, 100 * MILLI),
        Asteroid::new(200 * MILLI, 200 * MILLI),
        Asteroid::new(300 * MILLI, 300 * MILLI),
    ];
    let mut bullets = Vec::new();
    let canvas_dimensions = (500 * MILLI, 500 * MILLI);

    // Shooting appends exactly one bullet.
    let initial_bullet_count = bullets.len();
    bullets.push(player.shoot());
    assert_eq!(bullets.len(), initial_bullet_count + 1);

    // Rotating left then right restores the heading exactly.
    let initial_angle = player.angle;
    player.rotate(-100);
    assert!(player.angle < initial_angle);
    player.rotate(100);
    assert_eq!(player.angle, initial_angle);

    // Thrust changes the velocity.
    let initial_velocity_x = player.velocity_x;
    let initial_velocity_y = player.velocity_y;
    player.thrust();
    assert!(player.velocity_x != initial_velocity_x || player.velocity_y != initial_velocity_y);

    // The moving player changes position.
    let initial_x = player.x;
    let initial_y = player.y;
    player.update(canvas_dimensions.0, canvas_dimensions.1);
    assert!(player.x != initial_x || player.y != initial_y);

    // Asteroids drift.
    for asteroid in &mut asteroids {
        let initial_x = asteroid.x;
        let initial_y = asteroid.y;
        asteroid.update(canvas_dimensions.0, canvas_dimensions.1);
        assert!(asteroid.x != initial_x || asteroid.y != initial_y);
    }

    // Bullets fly.
    for bullet in &mut bullets {
        let initial_x = bullet.x;
        let initial_y = bullet.y;
        bullet.update();
        assert!(bullet.x != initial_x || bullet.y != initial_y);
    }

    // A bullet on an asteroid's centre collides with it.
    let bullet = Bullet {
        x: 100 * MILLI,
        y: 100 * MILLI,
        velocity_x: 0,
        velocity_y: 0,
    };
    let asteroid = &asteroids[0];
    assert!(bullet.collides_with(asteroid));
}

#[test]
fn shoot_appends_and_collision_tick_scores() {
    // World of 500 x 500 units: one shot adds exactly one bullet.
    let mut game = Game::new(500 * MILLI, 500 * MILLI);
    let before = game.bullets.len();
    game.shoot();
    assert_eq!(game.bullets.len(), before + 1);

    // One tick with a bullet exactly on an asteroid's centre removes one
    // bullet and one asteroid and scores exactly one reward.
    game.bullets = vec![Bullet {
        x: 100 * MILLI,
        y: 100 * MILLI,
        velocity_x: 0,
        velocity_y: 0,
    }];
    game.asteroids = vec![Asteroid {
        x: 100 * MILLI,
        y: 100 * MILLI,
        velocity_x: 0,
        velocity_y: 0,
        size: 20 * MILLI,
    }];
    game.score = 0;
    game.update(500 * MILLI, 500 * MILLI);
    assert_eq!(game.bullets.len(), 0);
    assert_eq!(game.asteroids.len(), 0);
    assert_eq!(game.score, KILL_REWARD);
}

#[test]
fn rotation_round_trip_is_exact() {
    let mut player = Player::new(100 * MILLI, 100 * MILLI);
    player.rotate(777);
    player.rotate(-777);
    assert_eq!(player.angle, 0);
}

#[test]
fn thrust_at_quarter_turn_is_exact() {
    // At a quarter turn the heading points along +x: the whole half-unit
    // impulse lands on the x velocity.
    let mut player = Player::new(100 * MILLI, 100 * MILLI);
    player.rotate(1571);
    player.thrust();
    assert_eq!(player.velocity_x, 500);
}

#[test]
fn thrust_up_is_exact() {
    // Heading zero points up (negative y): the impulse is exactly -0.5 units
    // on the y velocity and nothing on x.
    let mut player = Player::new(100 * MILLI, 100 * MILLI);
    player.thrust();
    assert_eq!(player.velocity_x, 0);
    assert_eq!(player.velocity_y, -500);
}

#[test]
fn shot_bullet_up_is_exact() {
    // Heading zero: the bullet starts 20 units above the ship and flies up
    // at the muzzle speed of 10 units per tick.
    let player = Player::new(100 * MILLI, 100 * MILLI);
    let bullet = player.shoot();
    assert_eq!(bullet.x, 100 * MILLI);
    assert_eq!(bullet.y, 80 * MILLI);
    assert_eq!(bullet.velocity_x, 0);
    assert_eq!(bullet.velocity_y, -10 * MILLI);
}

#[test]
fn wraparound_high_edge_is_exact() {
    // An x that ends past width + size comes back by twice (width + size)
    // and lands inside the drawable band.
    let mut player = Player::new(500 * MILLI, 100 * MILLI);
    player.velocity_x = 21 * MILLI;
    player.update(500 * MILLI, 500 * MILLI);
    let edge = 500 * MILLI + ENTITY_SIZE;
    assert_eq!(player.x, 521 * MILLI - 2 * edge);
    assert!(-edge <= player.x && player.x <= edge);
}

#[test]
fn off_world_bullet_is_pruned() {
    // A bullet that flies past the world's edge never wraps: the next tick's
    // pruning drops it from the collection.
    let mut game = Game::new(500 * MILLI, 500 * MILLI);
    game.asteroids = Vec::new();
    game.bullets = vec![Bullet {
        x: 499 * MILLI,
        y: 100 * MILLI,
        velocity_x: 10 * MILLI,
        velocity_y: 0,
    }];
    game.update(500 * MILLI, 500 * MILLI);
    assert_eq!(game.bullets.len(), 0);
}

#[test]
fn game_creation_spawns_five_asteroids() {
    let game = Game::new(500 * MILLI, 500 * MILLI);
    assert_eq!(game.asteroids.len(), 5);
    assert_eq!(game.bullets.len(), 0);
    assert_eq!(game.score, 0);
    assert_eq!(game.player.x, 250 * MILLI);
    assert_eq!(game.player.y, 250 * MILLI);
    for asteroid in &game.asteroids {
        assert!(0 <= asteroid.x && asteroid.x < 500 * MILLI);
        assert!(0 <= asteroid.y && asteroid.y < 500 * MILLI);
        assert_eq!(asteroid.size, ENTITY_SIZE);
        assert!(asteroid.velocity_x.abs() <= MILLI);
        assert!(asteroid.velocity_y.abs() <= MILLI);
    }
}

#[test]
fn steering_commands_turn_by_a_tenth() {
    let mut game = Game::new(500 * MILLI, 500 * MILLI);
    game.rotate_right();
    assert_eq!(game.player.angle, 100);
    game.rotate_left();
    game.rotate_left();
    assert_eq!(game.player.angle, -100);
    game.thrust();
    assert!(game.player.velocity_x != 0 || game.player.velocity_y != 0);
}

#[test]
fn one_kill_per_bullet_per_tick() {
    // Two overlapping asteroids under one bullet: the sweep removes only the
    // first of them, and the bullet is spent.
    let mut game = Game::new(500 * MILLI, 500 * MILLI);
    game.bullets = vec![Bullet {
        x: 100 * MILLI,
        y: 100 * MILLI,
        velocity_x: 0,
        velocity_y: 0,
    }];
    game.asteroids = vec![
        Asteroid {
            x: 100 * MILLI,
            y: 100 * MILLI,
            velocity_x: 0,
            velocity_y: 0,
            size: 20 * MILLI,
        },
        Asteroid {
            x: 101 * MILLI,
            y: 100 * MILLI,
            velocity_x: 0,
            velocity_y: 0,
            size: 20 * MILLI,
        },
    ];
    game.score = 0;
    game.update(500 * MILLI, 500 * MILLI);
    assert_eq!(game.bullets.len(), 0);
    assert_eq!(game.asteroids.len(), 1);
    assert_eq!(game.asteroids[0].x, 101 * MILLI);
    assert_eq!(game.score, KILL_REWARD);
}
