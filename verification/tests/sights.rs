use z_attack_game::animation::{
    animate_player, animation_timer_tick, flip_enemy_sprite_x, flip_gun_sprite_y,
    flip_player_sprite_x, next_frame, AnimationTimer,
};
use z_attack_game::camera::{camera_follow_player, setup_camera, Camera};
use z_attack_game::components::{Sprite, Transform};
use z_attack_game::constants::{CAMERA_DEPTH, ENEMY_FRAME_TIME, PLAYER_FRAME_TIME, UNIT};
use z_attack_game::enemy::Enemy;
use z_attack_game::fixed::Vec2;
use z_attack_game::gun::Gun;
use z_attack_game::player::{Player, PlayerState};
use z_attack_game::resources::CursorPosition;
use z_attack_game::state::GameState;

fn player_at(x: i64, y: i64) -> Option<Player> {
    let mut p = Player::new();
    p.transform.translation = Vec2::new(x, y);
    Some(p)
}

#[test]
fn the_stages_follow_each_other_in_order() {
    assert_eq!(GameState::default(), GameState::Loading);
    assert_eq!(GameState::Loading.next(), GameState::GameInit);
    assert_eq!(GameState::GameInit.next(), GameState::InGame);
    assert_eq!(GameState::InGame.next(), GameState::InGame);
    assert!(GameState::InGame.in_game());
    assert!(!GameState::Loading.in_game());
    assert!(!GameState::GameInit.in_game());
}

#[test]
fn a_transform_starts_at_the_origin_not_turned() {
    let t = Transform::default();
    assert_eq!(t.translation, Vec2::zero());
    assert_eq!(t.depth, 0);
    assert_eq!(t.heading, Vec2::new(UNIT, 0));
    assert_eq!(Transform::ahead(), Vec2::new(UNIT, 0));
    assert_eq!(Sprite::from_index(7), Sprite { index: 7, flip_x: false, flip_y: false });
}

#[test]
fn the_cursor_falls_back_when_it_is_away() {
    assert_eq!(CursorPosition(None).or(Vec2::new(1, 2)), Vec2::new(1, 2));
    assert_eq!(CursorPosition(Some(Vec2::new(3, 4))).or(Vec2::new(1, 2)), Vec2::new(3, 4));
}

#[test]
fn the_camera_covers_a_tenth_of_the_way() {
    let mut camera = None;
    setup_camera(&mut camera);
    assert_eq!(camera, Some(Camera::new()));
    let player = player_at(1_000, -500);
    camera_follow_player(&player, &mut camera);
    assert_eq!(camera.unwrap().transform.translation, Vec2::new(100, -50));
    assert_eq!(camera.unwrap().transform.depth, CAMERA_DEPTH);
    camera_follow_player(&player, &mut camera);
    assert_eq!(camera.unwrap().transform.translation, Vec2::new(190, -95));
}

#[test]
fn the_camera_never_runs_past_the_player() {
    let player = player_at(1_000_000, -1_000_000);
    let mut camera = Some(Camera::new());
    let mut last = 1_000_000;
    for _ in 0..300 {
        camera_follow_player(&player, &mut camera);
        let at = camera.unwrap().transform.translation;
        assert!(at.x <= 1_000_000 && at.y >= -1_000_000);
        assert!(1_000_000 - at.x <= last);
        last = 1_000_000 - at.x;
    }
    assert!(last < 10);
}

#[test]
fn without_a_player_or_a_camera_nothing_follows() {
    let mut camera = Some(Camera::new());
    camera_follow_player(&None, &mut camera);
    assert_eq!(camera, Some(Camera::new()));
    let mut none: Option<Camera> = None;
    camera_follow_player(&player_at(5, 5), &mut none);
    assert!(none.is_none());
}

#[test]
fn the_frames_of_a_cycle_follow_each_other() {
    assert_eq!(next_frame(PlayerState::Idle, 0), 1);
    assert_eq!(next_frame(PlayerState::Idle, 2), 3);
    assert_eq!(next_frame(PlayerState::Idle, 3), 0);
    assert_eq!(next_frame(PlayerState::Moving, 4), 5);
    assert_eq!(next_frame(PlayerState::Moving, 7), 4);
    assert_eq!(next_frame(PlayerState::Moving, 1), 6);
    assert_eq!(next_frame(PlayerState::Idle, 6), 3);
    assert_eq!(next_frame(PlayerState::Moving, usize::MAX), 4);
}

#[test]
fn the_player_is_animated_when_the_timer_finishes() {
    let mut player = Some(Player::new());
    let mut enemies = vec![Enemy::default()];
    animation_timer_tick(&mut player, &mut enemies, PLAYER_FRAME_TIME - 1);
    animate_player(&mut player);
    assert_eq!(player.unwrap().sprite.index, 0);
    assert!(enemies[0].timer.0.just_finished);
    assert_eq!(enemies[0].timer.0.elapsed, PLAYER_FRAME_TIME - 1 - ENEMY_FRAME_TIME);
    animation_timer_tick(&mut player, &mut enemies, 1);
    assert!(!enemies[0].timer.0.just_finished);
    animate_player(&mut player);
    assert_eq!(player.unwrap().sprite.index, 1);
    assert_eq!(player.unwrap().timer.0.elapsed, 0);
    animation_timer_tick(&mut player, &mut enemies, 5);
    animate_player(&mut player);
    assert_eq!(player.unwrap().sprite.index, 1);
    let mut none: Option<Player> = None;
    animate_player(&mut none);
    assert!(none.is_none());
    assert_eq!(AnimationTimer::every(9).ticked(20).0.elapsed, 2);
}

#[test]
fn the_player_faces_the_cursor() {
    let mut player = player_at(100, 0);
    flip_player_sprite_x(CursorPosition(Some(Vec2::new(101, 50))), &mut player);
    assert!(!player.unwrap().sprite.flip_x);
    flip_player_sprite_x(CursorPosition(Some(Vec2::new(100, 50))), &mut player);
    assert!(player.unwrap().sprite.flip_x);
    flip_player_sprite_x(CursorPosition(None), &mut player);
    assert!(player.unwrap().sprite.flip_x);
    flip_player_sprite_x(CursorPosition(Some(Vec2::new(500, 0))), &mut player);
    assert!(!player.unwrap().sprite.flip_x);
}

#[test]
fn the_enemies_face_the_player() {
    let player = player_at(0, 0);
    let mut enemies = vec![
        Enemy::spawned_at(Vec2::new(-1, 0)),
        Enemy::spawned_at(Vec2::new(0, 5)),
        Enemy::spawned_at(Vec2::new(1, 0)),
    ];
    flip_enemy_sprite_x(&player, &mut enemies);
    assert!(!enemies[0].sprite.flip_x);
    assert!(enemies[1].sprite.flip_x);
    assert!(enemies[2].sprite.flip_x);
    let before = enemies.clone();
    flip_enemy_sprite_x(&None, &mut enemies);
    assert_eq!(enemies, before);
}

#[test]
fn the_gun_is_turned_over_by_the_height_of_the_cursor() {
    let mut start = Gun::new();
    start.transform.translation = Vec2::new(100, -900);
    let mut gun = Some(start);
    flip_gun_sprite_y(CursorPosition(Some(Vec2::new(0, 99))), &mut gun);
    assert!(!gun.unwrap().sprite.flip_y);
    flip_gun_sprite_y(CursorPosition(Some(Vec2::new(0, 100))), &mut gun);
    assert!(gun.unwrap().sprite.flip_y);
    flip_gun_sprite_y(CursorPosition(None), &mut gun);
    assert!(gun.unwrap().sprite.flip_y);
    assert_eq!(gun.unwrap().transform, start.transform);
}
