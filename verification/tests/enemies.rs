use z_attack_game::constants::{
    COORD_MAX, ENEMY_DEPTH, ENEMY_HEALTH, ENEMY_SPAWN_DEPTH, ENEMY_SPRITE, MAX_NUM_ENEMIES,
    SPAWN_BIAS, SPAWN_RADIUS_MAX, SPAWN_RADIUS_MIN, SPAWN_RATE_PER_SECOND, UNIT,
};
use z_attack_game::enemy::{
    despawn_dead_enemies, get_random_position_around, position_around, spawn_count, spawn_enemies,
    update_enemy_transform, Enemy,
};
use z_attack_game::fixed::Vec2;
use z_attack_game::player::Player;
use z_attack_game::random::{heading_of, in_disc, random_heading};

fn player_at(x: i64, y: i64) -> Option<Player> {
    let mut p = Player::new();
    p.transform.translation = Vec2::new(x, y);
    Some(p)
}

fn enemy(x: i64, y: i64, health: i32) -> Enemy {
    let mut e = Enemy::spawned_at(Vec2::new(x, y));
    e.health = health;
    e
}

#[test]
fn a_new_enemy_is_in_full_health() {
    let e = Enemy::default();
    assert_eq!(e.health, ENEMY_HEALTH);
    assert_eq!(e.health, 100);
    assert_eq!(e, Enemy::spawned_at(Vec2::zero()));
    let f = Enemy::spawned_at(Vec2::new(4, 5));
    assert_eq!(f.transform.translation, Vec2::new(4, 5));
    assert_eq!(f.transform.depth, ENEMY_SPAWN_DEPTH);
    assert_eq!(f.sprite.index, ENEMY_SPRITE);
}

#[test]
fn an_enemy_five_hundred_units_away_comes_two_units_closer() {
    let player = player_at(0, 0);
    let mut enemies = vec![enemy(500 * UNIT, 0, 100)];
    update_enemy_transform(&player, &mut enemies);
    assert_eq!(enemies[0].transform.translation, Vec2::new(498 * UNIT, 0));
    assert_eq!(enemies[0].transform.depth, ENEMY_DEPTH);
    assert_eq!(enemies[0].health, 100);
}

#[test]
fn an_enemy_on_the_player_stays() {
    let player = player_at(70, -70);
    let mut enemies = vec![enemy(70, -70, 100)];
    update_enemy_transform(&player, &mut enemies);
    assert_eq!(enemies[0].transform.translation, Vec2::new(70, -70));
    assert_eq!(enemies[0].transform.depth, ENEMY_DEPTH);
}

#[test]
fn chasing_enemies_come_closer() {
    let player = player_at(1_234_000, -5_678_000);
    let target = Vec2::new(1_234_000, -5_678_000);
    let starts = [
        (500_000_000, 0),
        (0, 0),
        (-40_000_000, 90_000_000),
        (1_234_000, -4_000_000),
        (2_300_000, -5_678_000),
        (COORD_MAX, -COORD_MAX),
    ];
    let mut enemies: Vec<Enemy> = starts.iter().map(|&(x, y)| enemy(x, y, 100)).collect();
    let before: Vec<u128> =
        enemies.iter().map(|e| e.transform.translation.distance_squared(target)).collect();
    update_enemy_transform(&player, &mut enemies);
    for (e, d) in enemies.iter().zip(before) {
        assert!(e.transform.translation.distance_squared(target) < d);
    }
}

#[test]
fn an_enemy_nearer_than_half_a_step_runs_past() {
    let player = player_at(0, 0);
    let mut enemies = vec![enemy(UNIT / 2, 0, 100)];
    update_enemy_transform(&player, &mut enemies);
    assert_eq!(enemies[0].transform.translation, Vec2::new(-3 * UNIT / 2, 0));
}

#[test]
fn without_a_player_the_enemies_stay() {
    let mut enemies = vec![enemy(5, 5, 100), enemy(-9, 0, 1)];
    let before = enemies.clone();
    update_enemy_transform(&None, &mut enemies);
    assert_eq!(enemies, before);
    spawn_enemies(&None, &mut enemies);
    assert_eq!(enemies, before);
}

#[test]
fn the_spawn_count_is_the_deficit_or_the_rate() {
    assert_eq!(spawn_count(0), SPAWN_RATE_PER_SECOND);
    assert_eq!(spawn_count(400), 100);
    assert_eq!(spawn_count(401), 99);
    assert_eq!(spawn_count(499), 1);
    assert_eq!(spawn_count(MAX_NUM_ENEMIES), 0);
    assert_eq!(spawn_count(MAX_NUM_ENEMIES + 1), 0);
    assert_eq!(spawn_count(usize::MAX), 0);
}

#[test]
fn the_population_grows_by_the_rate_up_to_the_cap() {
    let player = player_at(0, 0);
    let mut enemies = vec![enemy(0, 0, 100); 30];
    let mut expected = 30;
    for _ in 0..8 {
        let before = enemies.clone();
        spawn_enemies(&player, &mut enemies);
        expected = (expected + SPAWN_RATE_PER_SECOND).min(MAX_NUM_ENEMIES);
        assert_eq!(enemies.len(), expected);
        assert_eq!(&enemies[..before.len()], &before[..]);
    }
    assert_eq!(enemies.len(), MAX_NUM_ENEMIES);
}

#[test]
fn new_enemies_appear_in_the_band_around_the_player() {
    let player = player_at(1_000 * UNIT, -2_000 * UNIT);
    let mut enemies = Vec::new();
    spawn_enemies(&player, &mut enemies);
    assert_eq!(enemies.len(), SPAWN_RATE_PER_SECOND);
    let centre = Vec2::new(1_000 * UNIT + SPAWN_BIAS, -2_000 * UNIT + SPAWN_BIAS);
    for e in &enemies {
        assert_eq!(*e, Enemy::spawned_at(e.transform.translation));
        let d = centre.distance_squared(e.transform.translation);
        assert!(d <= (SPAWN_RADIUS_MAX as u128) * (SPAWN_RADIUS_MAX as u128));
        let least = (SPAWN_RADIUS_MIN - UNIT / 1000) as u128;
        assert!(d >= least * least);
    }
    let first = enemies[0].transform.translation;
    assert!(enemies.iter().any(|e| e.transform.translation != first));
}

#[test]
fn a_position_around_lies_along_the_heading() {
    let p = position_around(Vec2::new(5, -5), Vec2::new(600_000, 800_000), 100 * UNIT);
    assert_eq!(p, Vec2::new(5 + 60 * UNIT + SPAWN_BIAS, -5 + 80 * UNIT + SPAWN_BIAS));
    let q = position_around(Vec2::new(0, 0), Vec2::new(-UNIT, 0), SPAWN_RADIUS_MAX - 1);
    assert_eq!(q, Vec2::new(-(SPAWN_RADIUS_MAX - 1) + SPAWN_BIAS, SPAWN_BIAS));
    let edge = position_around(Vec2::new(COORD_MAX, -COORD_MAX), Vec2::new(UNIT, -UNIT), 5_000);
    assert_eq!(edge, Vec2::new(COORD_MAX, -COORD_MAX - 5_000 + SPAWN_BIAS));
}

#[test]
fn random_positions_vary() {
    let at = Vec2::new(0, 0);
    let first = get_random_position_around(at);
    assert!((0..50).any(|_| get_random_position_around(at) != first));
}

#[test]
fn random_headings_are_units_and_vary() {
    let mut seen = Vec::new();
    for _ in 0..200 {
        let h = random_heading();
        let n = h.x * h.x + h.y * h.y;
        assert!(n <= UNIT * UNIT);
        assert!(n >= (UNIT - 2) * (UNIT - 2));
        seen.push(h);
    }
    assert!(seen.iter().any(|h| *h != Vec2::new(UNIT, 0)));
    assert!(seen.iter().any(|h| h.x < 0));
    assert!(seen.iter().any(|h| h.y < 0));
    assert!(seen.iter().any(|h| h.y > 0));
}

#[test]
fn only_points_of_the_disc_give_a_heading() {
    assert!(in_disc(Vec2::new(UNIT, 0)));
    assert!(in_disc(Vec2::new(-600_000, 800_000)));
    assert!(in_disc(Vec2::new(-600, 800)));
    assert!(!in_disc(Vec2::new(0, 0)));
    assert!(!in_disc(Vec2::new(UNIT, 1)));
    assert!(!in_disc(Vec2::new(-UNIT, -UNIT)));
    assert!(!in_disc(Vec2::new(i64::MIN, i64::MAX)));
    assert_eq!(heading_of(Vec2::new(3, 4)), Some(Vec2::new(600_000, 800_000)));
    assert_eq!(heading_of(Vec2::new(0, 0)), None);
    assert_eq!(heading_of(Vec2::new(800_000, 800_000)), None);
}

#[test]
fn the_dead_are_removed_and_the_living_keep_their_order() {
    let a = enemy(1, 0, 100);
    let b = enemy(2, 0, 0);
    let c = enemy(3, 0, 1);
    let d = enemy(4, 0, -200);
    let mut enemies = vec![a, b, c, d, a];
    despawn_dead_enemies(&mut enemies);
    assert_eq!(enemies, vec![a, c, a]);
    assert!(b.is_dead());
    assert!(!c.is_dead());
    let mut none: Vec<Enemy> = Vec::new();
    despawn_dead_enemies(&mut none);
    assert!(none.is_empty());
}
