use z_attack_game::constants::{COORD_MAX, PLAYER_DEPTH, UNIT};
use z_attack_game::fixed::Vec2;
use z_attack_game::player::{handle_player_input, movement_delta, Keys, Player, PlayerState};

fn keys(bits: u32) -> Keys {
    Keys {
        key_w: bits & 1 != 0,
        key_s: bits & 2 != 0,
        key_a: bits & 4 != 0,
        key_d: bits & 8 != 0,
        arrow_up: bits & 16 != 0,
        arrow_down: bits & 32 != 0,
        arrow_left: bits & 64 != 0,
        arrow_right: bits & 128 != 0,
    }
}

const W: u32 = 1;
const S: u32 = 2;
const A: u32 = 4;
const D: u32 = 8;
const UP: u32 = 16;
const LEFT: u32 = 64;

#[test]
fn delta_is_at_most_a_unit_for_every_combination_of_keys() {
    for bits in 0..256 {
        let k = keys(bits);
        let d = movement_delta(k);
        let n = d.x * d.x + d.y * d.y;
        assert!(n <= UNIT * UNIT);
        let cancels = k.up() == k.down() && k.left() == k.right();
        assert_eq!(d == Vec2::zero(), cancels);
    }
}

#[test]
fn letter_and_arrow_keys_mean_the_same() {
    assert_eq!(movement_delta(keys(W)), Vec2::new(0, UNIT));
    assert_eq!(movement_delta(keys(UP)), Vec2::new(0, UNIT));
    assert_eq!(movement_delta(keys(W | UP)), Vec2::new(0, UNIT));
    assert_eq!(movement_delta(keys(A)), movement_delta(keys(LEFT)));
    assert_eq!(keys(S).axes(), Vec2::new(0, -1));
    assert_eq!(keys(D).axes(), Vec2::new(1, 0));
}

#[test]
fn opposite_keys_cancel() {
    assert_eq!(movement_delta(keys(W | S)), Vec2::zero());
    assert_eq!(movement_delta(keys(A | D)), Vec2::zero());
    assert_eq!(movement_delta(keys(W | S | A | D)), Vec2::zero());
    assert_eq!(movement_delta(keys(W | S | A)), Vec2::new(-UNIT, 0));
}

#[test]
fn a_straight_step_is_four_units() {
    let mut player = Some(Player::new());
    handle_player_input(&mut player, keys(D));
    let p = player.unwrap();
    assert_eq!(p.transform.translation, Vec2::new(4 * UNIT, 0));
    assert_eq!(p.transform.depth, PLAYER_DEPTH);
    assert_eq!(p.state, PlayerState::Moving);
}

#[test]
fn a_diagonal_step_is_no_longer_than_a_straight_one() {
    let mut player = Some(Player::new());
    handle_player_input(&mut player, keys(W | A));
    let at = player.unwrap().transform.translation;
    assert_eq!(at, Vec2::new(-2_828_424, 2_828_424));
    assert!((at.x + 2_828_427).abs() <= UNIT / 10_000);
    assert!((at.y - 2_828_427).abs() <= UNIT / 10_000);
    assert!(at.x * at.x + at.y * at.y <= 16 * UNIT * UNIT);
}

#[test]
fn without_keys_the_player_stays_and_stands() {
    let mut start = Player::new();
    start.transform.translation = Vec2::new(77, -5);
    start.transform.depth = 3;
    start.state = PlayerState::Moving;
    let mut player = Some(start);
    handle_player_input(&mut player, keys(0));
    let p = player.unwrap();
    assert_eq!(p.transform, start.transform);
    assert_eq!(p.state, PlayerState::Idle);
    handle_player_input(&mut player, keys(W | S));
    assert_eq!(player.unwrap().transform, start.transform);
}

#[test]
fn without_a_player_input_does_nothing() {
    let mut player: Option<Player> = None;
    handle_player_input(&mut player, keys(W));
    assert!(player.is_none());
}

#[test]
fn the_player_stops_at_the_edge_of_the_plane() {
    let mut start = Player::new();
    start.transform.translation = Vec2::new(COORD_MAX - 10, 0);
    let mut player = Some(start);
    handle_player_input(&mut player, keys(D));
    assert_eq!(player.unwrap().transform.translation, Vec2::new(COORD_MAX, 0));
}
