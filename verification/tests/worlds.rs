use z_attack_game::camera::Camera;
use z_attack_game::constants::{
    DECORATION_DEPTH, DECORATION_SPRITE_FIRST, DECORATION_SPRITE_LAST, ENEMY_SPAWN_INTERVAL,
    MAX_NUM_ENEMIES, NUM_OF_BULLET_PER_SHOT, NUM_WORLD_DECORATIONS, SPAWN_RATE_PER_SECOND, UNIT,
    WORLD_H, WORLD_W,
};
use z_attack_game::enemy::Enemy;
use z_attack_game::fixed::Vec2;
use z_attack_game::gun::Gun;
use z_attack_game::player::{Keys, Player, PlayerState};
use z_attack_game::resources::CursorPosition;
use z_attack_game::state::GameState;
use z_attack_game::world::{init_world, spawn_world_decoration, Decoration, FrameInput, World};

const FRAME: u64 = 50_000_000;

fn idle() -> Keys {
    Keys {
        key_w: false,
        key_s: false,
        key_a: false,
        key_d: false,
        arrow_up: false,
        arrow_down: false,
        arrow_left: false,
        arrow_right: false,
    }
}

fn input(keys: Keys, fire_held: bool, cursor: Option<Vec2>, delta: u64) -> FrameInput {
    FrameInput { keys, fire_held, cursor: CursorPosition(cursor), delta }
}

fn started() -> World {
    let mut w = World::new();
    w.update(input(idle(), false, None, FRAME));
    w.update(input(idle(), false, None, FRAME));
    w
}

#[test]
fn a_new_world_is_empty() {
    let w = World::new();
    assert_eq!(w.state, GameState::Loading);
    assert_eq!(w.clock, 0);
    assert!(w.player.is_none() && w.gun.is_none() && w.camera.is_none());
    assert!(w.enemies.is_empty() && w.bullets.is_empty() && w.decorations.is_empty());
}

#[test]
fn loading_only_passes_on() {
    let mut w = World::new();
    let mut keys = idle();
    keys.key_w = true;
    w.update(input(keys, true, Some(Vec2::new(1, 1)), FRAME));
    assert_eq!(w.state, GameState::GameInit);
    assert_eq!(w.clock, 0);
    assert!(w.player.is_none() && w.bullets.is_empty() && w.decorations.is_empty());
}

#[test]
fn setting_up_puts_everything_in_place() {
    let w = started();
    assert_eq!(w.state, GameState::InGame);
    assert_eq!(w.player, Some(Player::new()));
    assert_eq!(w.gun, Some(Gun::new()));
    assert_eq!(w.camera, Some(Camera::new()));
    assert_eq!(w.decorations.len(), NUM_WORLD_DECORATIONS);
    assert_eq!(w.clock, 0);
    assert!(w.enemies.is_empty() && w.bullets.is_empty());
}

#[test]
fn init_world_opens_the_game() {
    let mut w = World::new();
    w.clock = 9;
    init_world(&mut w);
    assert_eq!(w.state, GameState::InGame);
    assert_eq!(w.player, Some(Player::new()));
    assert_eq!(w.gun, Some(Gun::new()));
    assert!(w.camera.is_none());
    assert_eq!(w.clock, 9);
}

#[test]
fn decorations_lie_within_the_decorated_area() {
    let kept = Decoration::placed(1, 2, 24);
    let mut decorations = vec![kept];
    spawn_world_decoration(&mut decorations);
    assert_eq!(decorations.len(), 1 + NUM_WORLD_DECORATIONS);
    assert_eq!(decorations[0], kept);
    for d in &decorations[1..] {
        let at = d.transform.translation;
        assert!(-WORLD_W <= at.x && at.x < WORLD_W);
        assert!(-WORLD_H <= at.y && at.y < WORLD_H);
        assert_eq!(d.transform.depth, DECORATION_DEPTH);
        assert_eq!(d.transform.heading, Vec2::new(UNIT, 0));
        assert!(DECORATION_SPRITE_FIRST <= d.sprite.index);
        assert!(d.sprite.index <= DECORATION_SPRITE_LAST);
        assert!(!d.sprite.flip_x && !d.sprite.flip_y);
    }
    let first = decorations[1];
    assert!(decorations[1..].iter().any(|d| d.transform.translation != first.transform.translation));
    assert!(decorations[1..].iter().any(|d| d.sprite.index == DECORATION_SPRITE_FIRST));
    assert!(decorations[1..].iter().any(|d| d.sprite.index == DECORATION_SPRITE_LAST));
}

#[test]
fn a_frame_moves_the_player_and_places_the_gun() {
    let mut w = started();
    let mut keys = idle();
    keys.arrow_right = true;
    w.update(input(keys, false, Some(Vec2::new(4 * UNIT, 10 * UNIT)), FRAME));
    let p = w.player.unwrap();
    assert_eq!(p.transform.translation, Vec2::new(4 * UNIT, 0));
    assert_eq!(p.state, PlayerState::Moving);
    assert!(p.sprite.flip_x);
    let g = w.gun.unwrap();
    assert_eq!(g.transform.heading, Vec2::new(0, UNIT));
    assert_eq!(g.transform.translation, Vec2::new(4 * UNIT - 5 * UNIT, 20 * UNIT - 15 * UNIT));
    assert_eq!(g.timer.0.elapsed, FRAME);
    assert_eq!(w.camera.unwrap().transform.translation, Vec2::zero());
    assert_eq!(w.clock, FRAME);
    assert_eq!(w.cursor.0, Some(Vec2::new(4 * UNIT, 10 * UNIT)));
    w.update(input(idle(), false, None, FRAME));
    assert_eq!(w.camera.unwrap().transform.translation, Vec2::new(4 * UNIT / 10, 0));
    assert_eq!(w.player.unwrap().state, PlayerState::Idle);
    assert_eq!(w.player.unwrap().sprite.index, 1);
}

#[test]
fn holding_the_trigger_fires_every_other_short_frame() {
    let mut w = started();
    w.update(input(idle(), true, None, FRAME));
    assert_eq!(w.bullets.len(), 0);
    w.update(input(idle(), true, None, FRAME));
    assert_eq!(w.bullets.len(), NUM_OF_BULLET_PER_SHOT);
    for b in &w.bullets {
        assert_eq!(b.spawned.0, 2 * FRAME);
        assert_ne!(b.transform.translation, Vec2::zero());
    }
    w.update(input(idle(), true, None, FRAME));
    assert_eq!(w.bullets.len(), NUM_OF_BULLET_PER_SHOT);
    w.update(input(idle(), true, None, FRAME));
    assert_eq!(w.bullets.len(), 2 * NUM_OF_BULLET_PER_SHOT);
}

#[test]
fn bullets_go_when_they_are_old() {
    let mut w = started();
    w.update(input(idle(), true, None, 2 * FRAME));
    assert_eq!(w.bullets.len(), NUM_OF_BULLET_PER_SHOT);
    for _ in 0..16 {
        w.update(input(idle(), false, None, FRAME));
    }
    assert_eq!(w.bullets.len(), NUM_OF_BULLET_PER_SHOT);
    w.update(input(idle(), false, None, 1));
    assert!(w.bullets.is_empty());
}

#[test]
fn enemies_appear_once_a_second_up_to_the_cap() {
    let mut w = started();
    for _ in 0..19 {
        w.update(input(idle(), false, None, FRAME));
    }
    assert!(w.enemies.is_empty());
    w.update(input(idle(), false, None, FRAME));
    assert_eq!(w.enemies.len(), SPAWN_RATE_PER_SECOND);
    assert_eq!(w.spawn_timer.elapsed, 0);
    for tick in 2..=7 {
        w.update(input(idle(), false, None, ENEMY_SPAWN_INTERVAL));
        assert_eq!(w.enemies.len(), (tick * SPAWN_RATE_PER_SECOND).min(MAX_NUM_ENEMIES));
    }
}

#[test]
fn enemies_close_in_on_a_standing_player() {
    let mut w = started();
    w.update(input(idle(), false, None, ENEMY_SPAWN_INTERVAL));
    let before: Vec<u128> =
        w.enemies.iter().map(|e| e.transform.translation.distance_squared(Vec2::zero())).collect();
    w.update(input(idle(), false, None, FRAME));
    assert_eq!(w.enemies.len(), before.len());
    for (e, d) in w.enemies.iter().zip(before) {
        assert!(e.transform.translation.distance_squared(Vec2::zero()) < d);
    }
}

#[test]
fn an_enemy_in_the_line_of_fire_dies_and_is_removed() {
    let mut w = started();
    w.enemies.push(Enemy::spawned_at(Vec2::new(27 * UNIT, 0)));
    w.update(input(idle(), true, Some(Vec2::new(100 * UNIT, 0)), 2 * FRAME));
    assert_eq!(w.bullets.len(), NUM_OF_BULLET_PER_SHOT);
    assert_eq!(w.enemies.len(), 1);
    assert_eq!(w.enemies[0].transform.translation, Vec2::new(25 * UNIT, 0));
    assert_eq!(w.enemies[0].health, -200);
    w.update(input(idle(), false, Some(Vec2::new(100 * UNIT, 0)), FRAME));
    assert!(w.enemies.is_empty());
    assert_eq!(w.bullets.len(), NUM_OF_BULLET_PER_SHOT);
}

#[test]
fn the_clock_stops_at_the_largest_count() {
    let mut w = started();
    w.update(input(idle(), false, None, u64::MAX));
    w.update(input(idle(), false, None, u64::MAX));
    assert_eq!(w.clock, u64::MAX);
}
