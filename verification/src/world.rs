//! The world: every entity of the game, and the frame that moves them all.

use crate::animation::{
    animate_player, animation_timer_tick, facing_all, flip_enemy_sprite_x, flip_gun_sprite_y,
    flip_player_sprite_x, ticked_all,
};
use crate::camera::{camera_follow_player, setup_camera, Camera};
use crate::collision::{damaged_all, handle_enemy_bullet_collision};
use crate::components::{Sprite, Transform};
use crate::constants::{
    DECORATION_DEPTH, DECORATION_SPRITE_FIRST, DECORATION_SPRITE_LAST, ENEMY_SPAWN_INTERVAL,
    NUM_OF_BULLET_PER_SHOT, NUM_WORLD_DECORATIONS, WORLD_H, WORLD_W,
};
use crate::enemy::{
    chasing_all, despawn_dead_enemies, is_spawn_of, spawn_enemies, spec_spawn_count, survivors,
    update_enemy_transform, Enemy,
};
use crate::fixed::Vec2;
use crate::gun::{
    despawn_old_bullets, flown_all, handle_gun_input, unexpired, update_bullets,
    update_gun_transform, Bullet, Gun,
};
use crate::player::{handle_player_input, Keys, Player};
use crate::random::random_i64;
use crate::resources::CursorPosition;
use crate::state::GameState;
use crate::timer::{saturating_sum, Stopwatch};
use vstd::prelude::*;

verus! {

/// A thing that lies on the ground and does nothing.
#[derive(Clone, Copy, Debug, PartialEq, Eq, Structural)]
pub struct Decoration {
    pub transform: Transform,
    pub sprite: Sprite,
}

impl Decoration {
    pub open spec fn spec_placed(x: i64, y: i64, index: usize) -> Decoration {
        Decoration {
            transform: Transform::spec_from_translation(Vec2 { x, y }, DECORATION_DEPTH),
            sprite: Sprite::spec_from_index(index),
        }
    }

    /// A decoration at `(x, y)` that shows the cell `index`.
    #[verifier::when_used_as_spec(spec_placed)]
    pub fn placed(x: i64, y: i64, index: usize) -> (d: Decoration)
        ensures
            d == Decoration::spec_placed(x, y, index),
    {
        Decoration {
            transform: Transform::from_translation(Vec2 { x, y }, DECORATION_DEPTH),
            sprite: Sprite::from_index(index),
        }
    }

    /// Whether the decoration can have been scattered: it lies within the
    /// decorated area and shows one of the cells kept for decorations.
    pub open spec fn is_scattered(self) -> bool {
        exists|x: i64, y: i64, index: usize|
            -WORLD_W <= x < WORLD_W && -WORLD_H <= y < WORLD_H && DECORATION_SPRITE_FIRST <= index
                <= DECORATION_SPRITE_LAST && self == #[trigger] Decoration::spec_placed(x, y, index)
    }
}

/// Whether `scattered` can be what one scattering adds: `NUM_WORLD_DECORATIONS`
/// decorations, each within the decorated area.
pub open spec fn is_scatter(scattered: Seq<Decoration>) -> bool {
    &&& scattered.len() == NUM_WORLD_DECORATIONS
    &&& forall|i: int| 0 <= i < scattered.len() ==> (#[trigger] scattered[i]).is_scattered()
}

/// Scatters `NUM_WORLD_DECORATIONS` decorations over the decorated area,
/// each at a point and with a cell drawn at random.
pub fn spawn_world_decoration(decorations: &mut Vec<Decoration>)
    ensures
        final(decorations)@.len() == old(decorations)@.len() + NUM_WORLD_DECORATIONS,
        final(decorations)@.take(old(decorations)@.len() as int) == old(decorations)@,
        is_scatter(
            final(decorations)@.subrange(
                old(decorations)@.len() as int,
                final(decorations)@.len() as int,
            ),
        ),
{
    let ghost before = decorations@;
    let mut placed: usize = 0;
    while placed < NUM_WORLD_DECORATIONS
        invariant
            placed <= NUM_WORLD_DECORATIONS,
            decorations@.len() == before.len() + placed,
            decorations@.take(before.len() as int) == before,
            forall|i: int|
                before.len() <= i < decorations@.len() ==> (#[trigger] decorations@[i]).is_scattered(),
        decreases NUM_WORLD_DECORATIONS - placed,
    {
        let x: i64 = random_i64(-WORLD_W, WORLD_W);
        let y: i64 = random_i64(-WORLD_H, WORLD_H);
        let cell: i64 = random_i64(
            DECORATION_SPRITE_FIRST as i64,
            DECORATION_SPRITE_LAST as i64 + 1,
        );
        let decoration = Decoration::placed(x, y, cell as usize);
        assert(decoration.is_scattered());
        decorations.push(decoration);
        placed = placed + 1;
    }
}

/// What the player does in one frame, and how long the frame took.
#[derive(Clone, Copy, Debug)]
pub struct FrameInput {
    pub keys: Keys,
    /// Whether the trigger is held.
    pub fire_held: bool,
    pub cursor: CursorPosition,
    /// The time the frame took, in nanoseconds.
    pub delta: u64,
}

/// Every entity of the game, by kind, and the state they share.
pub struct World {
    pub state: GameState,
    /// The time played, in nanoseconds.
    pub clock: u64,
    pub cursor: CursorPosition,
    /// The time gathered since enemies last appeared.
    pub spawn_timer: Stopwatch,
    pub player: Option<Player>,
    pub gun: Option<Gun>,
    pub camera: Option<Camera>,
    pub enemies: Vec<Enemy>,
    pub bullets: Vec<Bullet>,
    pub decorations: Vec<Decoration>,
}

/// A world as mathematics sees it.
pub struct WorldView {
    pub state: GameState,
    pub clock: u64,
    pub cursor: CursorPosition,
    pub spawn_timer: Stopwatch,
    pub player: Option<Player>,
    pub gun: Option<Gun>,
    pub camera: Option<Camera>,
    pub enemies: Seq<Enemy>,
    pub bullets: Seq<Bullet>,
    pub decorations: Seq<Decoration>,
}

impl View for World {
    type V = WorldView;

    open spec fn view(&self) -> WorldView {
        WorldView {
            state: self.state,
            clock: self.clock,
            cursor: self.cursor,
            spawn_timer: self.spawn_timer,
            player: self.player,
            gun: self.gun,
            camera: self.camera,
            enemies: self.enemies@,
            bullets: self.bullets@,
            decorations: self.decorations@,
        }
    }
}

impl WorldView {
    /// The world before anything is loaded.
    pub open spec fn empty() -> WorldView {
        WorldView {
            state: GameState::Loading,
            clock: 0,
            cursor: CursorPosition(None),
            spawn_timer: Stopwatch { elapsed: 0 },
            player: None,
            gun: None,
            camera: None,
            enemies: Seq::empty(),
            bullets: Seq::empty(),
            decorations: Seq::empty(),
        }
    }

    /// The world set up for play: camera, player and gun in place, the
    /// given decorations added, the state `InGame`.
    pub open spec fn set_up(self, scattered: Seq<Decoration>) -> WorldView {
        WorldView {
            state: GameState::InGame,
            camera: Some(Camera::spec_new()),
            player: Some(Player::spec_new()),
            gun: Some(Gun::spec_new()),
            decorations: self.decorations + scattered,
            ..self
        }
    }

    /// The moment at which a frame with `input` ends.
    pub open spec fn frame_end(self, input: FrameInput) -> u64 {
        saturating_sum(self.clock, input.delta)
    }

    /// The player after a frame: moved by the keys, the animation advanced,
    /// the sprite turned to the cursor.
    pub open spec fn player_after(self, input: FrameInput) -> Option<Player> {
        match self.player {
            Some(p) => {
                let moved = p.moved(input.keys);
                Some(
                    (Player {
                        timer: moved.timer.spec_ticked(input.delta),
                        ..moved
                    }).spec_animated().spec_facing(input.cursor),
                )
            },
            None => None,
        }
    }

    /// The gun in the frame, as it is when it may fire: turned over for the
    /// cursor, and still where the frame before has put it.
    pub open spec fn gun_firing(self, input: FrameInput) -> Option<Gun> {
        match self.gun {
            Some(g) => Some(g.spec_facing(input.cursor)),
            None => None,
        }
    }

    /// The gun after a frame: its timer advanced, and the gun placed beside
    /// the player, if there is one, as the player stands after the frame.
    pub open spec fn gun_after(self, input: FrameInput) -> Option<Gun> {
        match self.gun_firing(input) {
            Some(g) => {
                let timed = Gun { timer: g.timer.after_frame(input.delta, input.fire_held), ..g };
                match self.player_after(input) {
                    Some(p) => Some(timed.aimed(p.transform.translation, input.cursor)),
                    None => Some(timed),
                }
            },
            None => None,
        }
    }

    /// The camera after a frame: it follows the player as the player stood
    /// before the frame.
    pub open spec fn camera_after(self) -> Option<Camera> {
        match (self.player, self.camera) {
            (Some(p), Some(c)) => Some(c.spec_following(p.transform.translation)),
            _ => self.camera,
        }
    }

    /// Whether enemies appear in the frame: the spawn timer reaches
    /// `ENEMY_SPAWN_INTERVAL`.
    pub open spec fn wave_due(self, input: FrameInput) -> bool {
        saturating_sum(self.spawn_timer.elapsed, input.delta) >= ENEMY_SPAWN_INTERVAL
    }

    /// The spawn timer after a frame: it starts over when enemies appear.
    pub open spec fn spawn_timer_after(self, input: FrameInput) -> Stopwatch {
        if self.wave_due(input) {
            Stopwatch { elapsed: 0 }
        } else {
            Stopwatch { elapsed: saturating_sum(self.spawn_timer.elapsed, input.delta) }
        }
    }

    /// Whether `shots` can be the bullets fired in the frame: none unless
    /// there is a gun and it fires, else `NUM_OF_BULLET_PER_SHOT` shots
    /// from the gun at the end of the frame.
    pub open spec fn is_volley(self, input: FrameInput, shots: Seq<Bullet>) -> bool {
        match self.gun_firing(input) {
            Some(g) => {
                &&& shots.len() == if g.timer.fires(input.delta, input.fire_held) {
                    NUM_OF_BULLET_PER_SHOT as int
                } else {
                    0
                }
                &&& forall|i: int|
                    0 <= i < shots.len() ==> (#[trigger] shots[i]).is_shot_from(
                        g,
                        self.frame_end(input),
                    )
            },
            None => shots.len() == 0,
        }
    }

    /// Whether `spawned` can be the enemies that appear in the frame: none
    /// unless enemies are due and there is a player, else as many as the
    /// population allows, each at a point around the player.
    pub open spec fn is_wave(self, input: FrameInput, spawned: Seq<Enemy>) -> bool {
        match self.player_after(input) {
            Some(p) if self.wave_due(input) => {
                &&& spawned.len() == spec_spawn_count(self.enemies.len() as int)
                &&& forall|i: int|
                    0 <= i < spawned.len() ==> is_spawn_of(
                        #[trigger] spawned[i],
                        p.transform.translation,
                    )
            },
            _ => spawned.len() == 0,
        }
    }

    /// The world after a frame of play in which `shots` were fired and
    /// `spawned` appeared.
    ///
    /// The camera follows; the player moves, is animated and turned; the
    /// gun is turned over, fires, and is placed; the bullets, the new ones
    /// among them, fly, and the old ones go; the enemies are animated and
    /// turned, the new ones join them, all chase, the dead go, and those
    /// left are hurt by the bullets near them.
    pub open spec fn frame(
        self,
        input: FrameInput,
        shots: Seq<Bullet>,
        spawned: Seq<Enemy>,
    ) -> WorldView {
        let player = self.player_after(input);
        let bullets = unexpired(flown_all(self.bullets + shots), self.frame_end(input));
        let turned = facing_all(ticked_all(self.enemies, input.delta), player);
        let enemies = damaged_all(survivors(chasing_all(turned + spawned, player)), bullets);
        WorldView {
            state: self.state,
            clock: self.frame_end(input),
            cursor: input.cursor,
            spawn_timer: self.spawn_timer_after(input),
            player,
            gun: self.gun_after(input),
            camera: self.camera_after(),
            enemies,
            bullets,
            decorations: self.decorations,
        }
    }
}

/// Puts the player and the gun in place and opens the game.
pub fn init_world(world: &mut World)
    ensures
        final(world)@ == (WorldView {
            state: GameState::InGame,
            player: Some(Player::spec_new()),
            gun: Some(Gun::spec_new()),
            ..old(world)@
        }),
{
    world.player = Some(Player::new());
    world.gun = Some(Gun::new());
    world.state = GameState::InGame;
}

impl World {
    /// A world in which nothing is loaded yet.
    pub fn new() -> (w: World)
        ensures
            w@ == WorldView::empty(),
    {
        World {
            state: GameState::Loading,
            clock: 0,
            cursor: CursorPosition(None),
            spawn_timer: Stopwatch::new(),
            player: None,
            gun: None,
            camera: None,
            enemies: Vec::new(),
            bullets: Vec::new(),
            decorations: Vec::new(),
        }
    }

    /// One frame of play. See [`WorldView::frame`].
    fn play(&mut self, input: FrameInput)
        ensures
            exists|shots: Seq<Bullet>, spawned: Seq<Enemy>|
                old(self)@.is_volley(input, shots) && old(self)@.is_wave(input, spawned)
                    && final(self)@ == #[trigger] old(self)@.frame(input, shots, spawned),
    {
        let ghost start = self@;
        self.clock = self.clock.saturating_add(input.delta);
        self.cursor = input.cursor;
        camera_follow_player(&self.player, &mut self.camera);
        handle_player_input(&mut self.player, input.keys);
        animation_timer_tick(&mut self.player, &mut self.enemies, input.delta);
        animate_player(&mut self.player);
        flip_player_sprite_x(input.cursor, &mut self.player);
        flip_gun_sprite_y(input.cursor, &mut self.gun);
        flip_enemy_sprite_x(&self.player, &mut self.enemies);
        let ghost turned = self.enemies@;
        let ghost loaded = self.bullets@;
        handle_gun_input(&mut self.gun, &mut self.bullets, input.delta, input.fire_held, self.clock);
        let ghost shots = self.bullets@.subrange(loaded.len() as int, self.bullets@.len() as int);
        assert(self.bullets@ =~= loaded + shots);
        assert(start.is_volley(input, shots));
        update_bullets(&mut self.bullets);
        update_gun_transform(input.cursor, &self.player, &mut self.gun);
        despawn_old_bullets(&mut self.bullets, self.clock);
        self.spawn_timer.tick(input.delta);
        if self.spawn_timer.elapsed() >= ENEMY_SPAWN_INTERVAL {
            self.spawn_timer.reset();
            spawn_enemies(&self.player, &mut self.enemies);
        }
        let ghost spawned = self.enemies@.subrange(turned.len() as int, self.enemies@.len() as int);
        assert(self.enemies@ =~= turned + spawned);
        assert(start.is_wave(input, spawned));
        update_enemy_transform(&self.player, &mut self.enemies);
        despawn_dead_enemies(&mut self.enemies);
        handle_enemy_bullet_collision(&self.bullets, &mut self.enemies);
        assert(self@ == start.frame(input, shots, spawned));
    }

    /// Moves the world on by one frame.
    ///
    /// While loading, the world only passes to the next state. When set
    /// up, it gets its camera, player, gun and decorations, and the game
    /// opens. In the game, the frame is played: see [`WorldView::frame`].
    /// What chance decides — the jitter of the shots, the places of new
    /// enemies and of decorations — is bound only as `is_volley`, `is_wave`
    /// and `is_scatter` say.
    pub fn update(&mut self, input: FrameInput)
        ensures
            match old(self)@.state {
                GameState::Loading => final(self)@ == (WorldView {
                    state: GameState::GameInit,
                    ..old(self)@
                }),
                GameState::GameInit => exists|scattered: Seq<Decoration>|
                    is_scatter(scattered) && final(self)@ == #[trigger] old(self)@.set_up(scattered),
                GameState::InGame => exists|shots: Seq<Bullet>, spawned: Seq<Enemy>|
                    old(self)@.is_volley(input, shots) && old(self)@.is_wave(input, spawned)
                        && final(self)@ == #[trigger] old(self)@.frame(input, shots, spawned),
            },
    {
        match self.state {
            GameState::Loading => {
                self.state = self.state.next();
            },
            GameState::GameInit => {
                let ghost start = self@;
                setup_camera(&mut self.camera);
                init_world(self);
                spawn_world_decoration(&mut self.decorations);
                let ghost scattered = self.decorations@.subrange(
                    start.decorations.len() as int,
                    self.decorations@.len() as int,
                );
                assert(self.decorations@ =~= start.decorations + scattered);
                assert(self@ == start.set_up(scattered));
            },
            GameState::InGame => {
                self.play(input);
            },
        }
    }
}

} // verus!
