//! What the sprites show: the frame of the player's walk, and which way
//! each sprite faces.

use crate::components::Sprite;
use crate::constants::ANIMATION_FRAMES;
use crate::enemy::Enemy;
use crate::fixed::Vec2;
use crate::gun::Gun;
use crate::player::{Player, PlayerState};
use crate::resources::CursorPosition;
use crate::timer::Timer;
use vstd::prelude::*;

verus! {

/// The timer that paces an entity's animation.
#[derive(Clone, Copy, Debug, PartialEq, Eq, Structural)]
pub struct AnimationTimer(pub Timer);

impl AnimationTimer {
    pub open spec fn spec_every(frame_time: u64) -> AnimationTimer {
        AnimationTimer(Timer { elapsed: 0, duration: frame_time, just_finished: false })
    }

    /// A timer that finishes once every `frame_time`.
    #[verifier::when_used_as_spec(spec_every)]
    pub fn every(frame_time: u64) -> (t: AnimationTimer)
        ensures
            t == AnimationTimer::spec_every(frame_time),
    {
        AnimationTimer(Timer::new(frame_time))
    }

    pub open spec fn spec_ticked(self, delta: u64) -> AnimationTimer {
        AnimationTimer(self.0.ticked(delta))
    }

    /// The timer after a frame of `delta`.
    #[verifier::when_used_as_spec(spec_ticked)]
    pub fn ticked(self, delta: u64) -> (t: AnimationTimer)
        ensures
            t == self.spec_ticked(delta),
    {
        let mut timer = self.0;
        timer.tick(delta);
        AnimationTimer(timer)
    }
}

/// The enemies with their animation timers advanced by a frame of `delta`.
pub open spec fn ticked_all(enemies: Seq<Enemy>, delta: u64) -> Seq<Enemy> {
    enemies.map_values(|e: Enemy| Enemy { timer: e.timer.spec_ticked(delta), ..e })
}

/// The enemies turned to the player, if there is one.
pub open spec fn facing_all(enemies: Seq<Enemy>, player: Option<Player>) -> Seq<Enemy> {
    match player {
        Some(p) => enemies.map_values(|e: Enemy| e.spec_facing(p.transform.translation)),
        None => enemies,
    }
}

/// Advances every animation timer by the frame.
pub fn animation_timer_tick(player: &mut Option<Player>, enemies: &mut Vec<Enemy>, delta: u64)
    ensures
        *final(player) == match *old(player) {
            Some(p) => Some(Player { timer: p.timer.spec_ticked(delta), ..p }),
            None => None,
        },
        final(enemies)@ == ticked_all(old(enemies)@, delta),
{
    match *player {
        Some(p) => {
            *player = Some(Player { timer: p.timer.ticked(delta), ..p });
        },
        None => {},
    }
    let ghost before = enemies@;
    let mut i: usize = 0;
    while i < enemies.len()
        invariant
            i <= enemies@.len(),
            enemies@.len() == before.len(),
            forall|j: int|
                0 <= j < i ==> #[trigger] enemies@[j] == (Enemy {
                    timer: before[j].timer.spec_ticked(delta),
                    ..before[j]
                }),
            forall|j: int| i <= j < before.len() ==> #[trigger] enemies@[j] == before[j],
        decreases enemies@.len() - i,
    {
        let enemy = enemies[i];
        enemies.set(i, Enemy { timer: enemy.timer.ticked(delta), ..enemy });
        i = i + 1;
    }
    assert(enemies@ =~= before.map_values(
        |e: Enemy| Enemy { timer: e.timer.spec_ticked(delta), ..e },
    ));
}

/// The first cell of the cycle that shows a player in `state`.
pub open spec fn spec_first_frame(state: PlayerState) -> usize {
    match state {
        PlayerState::Idle => 0,
        PlayerState::Moving => 4,
    }
}

/// The cell that follows `index` in the cycle of a player in `state`: the
/// cycle has `ANIMATION_FRAMES` cells and starts over after the last.
pub open spec fn spec_next_frame(state: PlayerState, index: usize) -> usize {
    (spec_first_frame(state) + (index + 1) % (ANIMATION_FRAMES as int)) as usize
}

#[verifier::when_used_as_spec(spec_next_frame)]
pub fn next_frame(state: PlayerState, index: usize) -> (next: usize)
    ensures
        next == spec_next_frame(state, index),
{
    let first: usize = match state {
        PlayerState::Idle => 0,
        PlayerState::Moving => 4,
    };
    let place: usize = index % ANIMATION_FRAMES;
    let next: usize = if place + 1 == ANIMATION_FRAMES {
        0
    } else {
        place + 1
    };
    assert(next == (index + 1) % 4) by {
        assert(index == 4 * (index / 4) + place);
    }
    first + next
}

impl Player {
    /// The player with the sprite moved on by one cell, if the animation
    /// timer has just finished.
    pub open spec fn spec_animated(self) -> Player {
        if self.timer.0.just_finished {
            Player {
                sprite: Sprite {
                    index: spec_next_frame(self.state, self.sprite.index),
                    ..self.sprite
                },
                ..self
            }
        } else {
            self
        }
    }

    /// The player facing the cursor: mirrored unless the cursor is to the
    /// right. Without a cursor the player faces as before.
    pub open spec fn spec_facing(self, cursor: CursorPosition) -> Player {
        match cursor.0 {
            Some(at) => Player {
                sprite: Sprite {
                    flip_x: !(at.x > self.transform.translation.x),
                    ..self.sprite
                },
                ..self
            },
            None => self,
        }
    }
}

/// Moves the player's sprite on by one cell when the animation timer has
/// just finished. Without a player nothing happens.
pub fn animate_player(player: &mut Option<Player>)
    ensures
        *final(player) == match *old(player) {
            Some(p) => Some(p.spec_animated()),
            None => None,
        },
{
    match *player {
        Some(p) => {
            if p.timer.0.just_finished() {
                let mut sprite = p.sprite;
                sprite.index = next_frame(p.state, sprite.index);
                *player = Some(Player { sprite, ..p });
            }
        },
        None => {},
    }
}

/// Turns the player's sprite to the cursor. Without a player or a cursor
/// nothing happens.
pub fn flip_player_sprite_x(cursor: CursorPosition, player: &mut Option<Player>)
    ensures
        *final(player) == match *old(player) {
            Some(p) => Some(p.spec_facing(cursor)),
            None => None,
        },
{
    match (*player, cursor.0) {
        (Some(p), Some(at)) => {
            let mut sprite = p.sprite;
            sprite.flip_x = !(at.x > p.transform.translation.x);
            *player = Some(Player { sprite, ..p });
        },
        _ => {},
    }
}

impl Enemy {
    /// The enemy facing a player at `player`: mirrored unless the enemy
    /// stands to the left of the player.
    pub open spec fn spec_facing(self, player: Vec2) -> Enemy {
        Enemy {
            sprite: Sprite {
                flip_x: !(self.transform.translation.x < player.x),
                ..self.sprite
            },
            ..self
        }
    }
}

/// Turns every enemy's sprite to the player. Without a player nothing
/// happens.
pub fn flip_enemy_sprite_x(player: &Option<Player>, enemies: &mut Vec<Enemy>)
    ensures
        final(enemies)@ == facing_all(old(enemies)@, *player),
{
    match player {
        None => {},
        Some(p) => {
            let target = p.transform.translation;
            let ghost before = enemies@;
            let mut i: usize = 0;
            while i < enemies.len()
                invariant
                    i <= enemies@.len(),
                    enemies@.len() == before.len(),
                    forall|j: int| 0 <= j < i ==> #[trigger] enemies@[j] == before[j].spec_facing(target),
                    forall|j: int| i <= j < before.len() ==> #[trigger] enemies@[j] == before[j],
                decreases enemies@.len() - i,
            {
                let enemy = enemies[i];
                let mut sprite = enemy.sprite;
                sprite.flip_x = !(enemy.transform.translation.x < target.x);
                enemies.set(i, Enemy { sprite, ..enemy });
                i = i + 1;
            }
            assert(enemies@ =~= before.map_values(|e: Enemy| e.spec_facing(target)));
        },
    }
}

impl Gun {
    /// The gun turned over for the cursor: mirrored top to bottom unless
    /// the cursor's height is less than the gun's x coordinate. Without a
    /// cursor the gun stays as it is.
    pub open spec fn spec_facing(self, cursor: CursorPosition) -> Gun {
        match cursor.0 {
            Some(at) => Gun {
                sprite: Sprite {
                    flip_y: !(at.y < self.transform.translation.x),
                    ..self.sprite
                },
                ..self
            },
            None => self,
        }
    }
}

/// Turns the gun's sprite over for the cursor. Without a gun or a cursor
/// nothing happens.
pub fn flip_gun_sprite_y(cursor: CursorPosition, gun: &mut Option<Gun>)
    ensures
        *final(gun) == match *old(gun) {
            Some(g) => Some(g.spec_facing(cursor)),
            None => None,
        },
{
    match (*gun, cursor.0) {
        (Some(g), Some(at)) => {
            let mut sprite = g.sprite;
            sprite.flip_y = !(at.y < g.transform.translation.x);
            *gun = Some(Gun { sprite, ..g });
        },
        _ => {},
    }
}

} // verus!
