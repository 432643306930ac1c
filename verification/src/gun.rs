//! The gun and its bullets: aiming, firing at a limited rate, flight and
//! expiry.

use crate::components::{Sprite, Transform};
use crate::constants::{
    BULLET_DEPTH, BULLET_LIFE_TIME, BULLET_SPAWN_DEPTH, BULLET_SPAWN_INTERVAL, BULLET_SPEED,
    BULLET_SPRITE, ENEMY_DEPTH, GUN_DEPTH, GUN_NUDGE_X, GUN_NUDGE_Y, GUN_OFFSET, GUN_SPRITE,
    NUM_OF_BULLET_PER_SHOT, UNIT,
};
use crate::fixed::Vec2;
use crate::player::Player;
use crate::random::random_i64;
use crate::resources::CursorPosition;
use crate::timer::{saturating_sum, Stopwatch};
use vstd::prelude::*;

verus! {

/// The time gathered since the gun last fired.
#[derive(Clone, Copy, Debug, PartialEq, Eq, Structural)]
pub struct GunTimer(pub Stopwatch);

/// The moment a bullet was fired, in nanoseconds of the game's clock.
#[derive(Clone, Copy, Debug, PartialEq, Eq, Structural)]
pub struct SpawnInstant(pub u64);

/// The way a bullet flies. Its length does not matter: it is brought to
/// length `UNIT` at each step.
#[derive(Clone, Copy, Debug, PartialEq, Eq, Structural)]
pub struct BulletDirection(pub Vec2);

/// The one gun, carried by the player.
#[derive(Clone, Copy, Debug, PartialEq, Eq, Structural)]
pub struct Gun {
    pub transform: Transform,
    pub sprite: Sprite,
    pub timer: GunTimer,
}

#[derive(Clone, Copy, Debug, PartialEq, Eq, Structural)]
pub struct Bullet {
    pub transform: Transform,
    pub sprite: Sprite,
    pub direction: BulletDirection,
    pub spawned: SpawnInstant,
}

impl GunTimer {
    /// Whether a shot goes off in a frame of `delta`: the trigger is held
    /// and the time gathered, this frame included, has reached
    /// `BULLET_SPAWN_INTERVAL`.
    pub open spec fn fires(self, delta: u64, held: bool) -> bool {
        held && saturating_sum(self.0.elapsed, delta) >= BULLET_SPAWN_INTERVAL
    }

    /// The timer after a frame of `delta`: it starts over where a shot went
    /// off, and has gathered the frame's time where none did.
    pub open spec fn after_frame(self, delta: u64, held: bool) -> GunTimer {
        if self.fires(delta, held) {
            GunTimer(Stopwatch { elapsed: 0 })
        } else {
            GunTimer(Stopwatch { elapsed: saturating_sum(self.0.elapsed, delta) })
        }
    }

    /// Advances the timer by one frame and tells whether a shot goes off.
    pub fn frame(&mut self, delta: u64, held: bool) -> (fired: bool)
        ensures
            fired == old(self).fires(delta, held),
            *final(self) == old(self).after_frame(delta, held),
    {
        let mut watch = self.0;
        watch.tick(delta);
        let fired = held && watch.elapsed() >= BULLET_SPAWN_INTERVAL;
        if fired {
            watch.reset();
        }
        *self = GunTimer(watch);
        fired
    }
}

impl BulletDirection {
    pub open spec fn spec_jittered(heading: Vec2, jitter_x: i64, jitter_y: i64) -> BulletDirection {
        BulletDirection(heading.spec_offset(jitter_x as int, jitter_y as int))
    }

    /// The gun's heading, thrown off by a jitter on each axis.
    #[verifier::when_used_as_spec(spec_jittered)]
    pub fn jittered(heading: Vec2, jitter_x: i64, jitter_y: i64) -> (d: BulletDirection)
        ensures
            d == BulletDirection::spec_jittered(heading, jitter_x, jitter_y),
    {
        BulletDirection(heading.offset(jitter_x as i64, jitter_y as i64))
    }
}

impl Gun {
    pub open spec fn spec_new() -> Gun {
        Gun {
            transform: Transform::spec_from_translation(Vec2::spec_zero(), 0),
            sprite: Sprite::spec_from_index(GUN_SPRITE),
            timer: GunTimer(Stopwatch { elapsed: 0 }),
        }
    }

    /// The gun as the game starts: at the origin, not turned, its timer at
    /// zero.
    #[verifier::when_used_as_spec(spec_new)]
    pub fn new() -> (g: Gun)
        ensures
            g == Gun::spec_new(),
    {
        Gun {
            transform: Transform::from_translation(Vec2::zero(), 0),
            sprite: Sprite::from_index(GUN_SPRITE),
            timer: GunTimer(Stopwatch::new()),
        }
    }

    /// The gun held by a player at `player` with the cursor where `cursor`
    /// says: it points along `spec_aim`, stands `GUN_OFFSET` world units
    /// from the player that way, shifted by the nudge, and is drawn at
    /// `GUN_DEPTH`.
    pub open spec fn aimed(self, player: Vec2, cursor: CursorPosition) -> Gun {
        let heading = spec_aim(player, cursor.spec_or(player));
        Gun {
            transform: Transform {
                translation: player.spec_offset(
                    heading.x * GUN_OFFSET + GUN_NUDGE_X,
                    heading.y * GUN_OFFSET + GUN_NUDGE_Y,
                ),
                depth: GUN_DEPTH,
                heading,
            },
            ..self
        }
    }
}

/// The heading of a gun held at `player` and aimed at `target`: the
/// direction from the one to the other. It is the angle of the way back,
/// from target to player, turned by half a circle; where the target is the
/// player that angle counts as zero, and the gun points along the negative
/// x axis.
pub open spec fn spec_aim(player: Vec2, target: Vec2) -> Vec2 {
    if target == player {
        Vec2 { x: (-UNIT) as i64, y: 0 }
    } else {
        player.spec_direction_to(target)
    }
}

#[verifier::when_used_as_spec(spec_aim)]
pub fn aim(player: Vec2, target: Vec2) -> (heading: Vec2)
    ensures
        heading == spec_aim(player, target),
        -UNIT <= heading.x <= UNIT,
        -UNIT <= heading.y <= UNIT,
{
    if target.x == player.x && target.y == player.y {
        Vec2 { x: -UNIT, y: 0 }
    } else {
        player.direction_to(target)
    }
}

/// Turns the gun to the cursor and places it beside the player. Without a
/// cursor the gun aims at the player's own position. Without a player or a
/// gun nothing happens.
pub fn update_gun_transform(cursor: CursorPosition, player: &Option<Player>, gun: &mut Option<Gun>)
    ensures
        *final(gun) == match (*player, *old(gun)) {
            (Some(p), Some(g)) => Some(g.aimed(p.transform.translation, cursor)),
            _ => *old(gun),
        },
{
    match (player, *gun) {
        (Some(p), Some(g)) => {
            let at = p.transform.translation;
            let heading = aim(at, cursor.or(at));
            let hx: i64 = heading.x as i64;
            let hy: i64 = heading.y as i64;
            let reach: i64 = GUN_OFFSET as i64;
            assert(-20_000_000 <= hx * reach <= 20_000_000 && -20_000_000 <= hy * reach
                <= 20_000_000) by (nonlinear_arith)
                requires
                    -1_000_000 <= hx <= 1_000_000,
                    -1_000_000 <= hy <= 1_000_000,
                    reach == 20,
            ;
            let dx: i64 = hx * reach + GUN_NUDGE_X as i64;
            let dy: i64 = hy * reach + GUN_NUDGE_Y as i64;
            *gun = Some(
                Gun {
                    transform: Transform { translation: at.offset(dx, dy), depth: GUN_DEPTH, heading },
                    ..g
                },
            );
        },
        _ => {},
    }
}

impl Bullet {
    pub open spec fn spec_shot(gun: Gun, jitter_x: i64, jitter_y: i64, now: u64) -> Bullet {
        Bullet {
            transform: Transform::spec_from_translation(
                gun.transform.translation,
                BULLET_SPAWN_DEPTH,
            ),
            sprite: Sprite::spec_from_index(BULLET_SPRITE),
            direction: BulletDirection::spec_jittered(gun.transform.heading, jitter_x, jitter_y),
            spawned: SpawnInstant(now),
        }
    }

    /// The bullet that leaves `gun` at the moment `now`, thrown off its
    /// heading by the given jitter.
    #[verifier::when_used_as_spec(spec_shot)]
    pub fn shot(gun: Gun, jitter_x: i64, jitter_y: i64, now: u64) -> (b: Bullet)
        ensures
            b == Bullet::spec_shot(gun, jitter_x, jitter_y, now),
    {
        Bullet {
            transform: Transform::from_translation(gun.transform.translation, BULLET_SPAWN_DEPTH),
            sprite: Sprite::from_index(BULLET_SPRITE),
            direction: BulletDirection::jittered(gun.transform.heading, jitter_x, jitter_y),
            spawned: SpawnInstant(now),
        }
    }

    /// Whether this bullet can have left `gun` at the moment `now`: it is
    /// the shot for some jitter of less than a world unit on each axis.
    pub open spec fn is_shot_from(self, gun: Gun, now: u64) -> bool {
        exists|jitter_x: i64, jitter_y: i64|
            -UNIT <= jitter_x < UNIT && -UNIT <= jitter_y < UNIT && self == #[trigger] Bullet::spec_shot(
                gun,
                jitter_x,
                jitter_y,
                now,
            )
    }

    /// The bullet after one frame of flight: `BULLET_SPEED` world units
    /// along its direction, drawn at `BULLET_DEPTH`, above the enemies. A
    /// bullet without a direction stays where it is.
    pub open spec fn spec_flown(self) -> Bullet {
        Bullet {
            transform: Transform {
                translation: self.transform.translation.spec_advanced(
                    self.direction.0.spec_normalize_or_zero(),
                    BULLET_SPEED as int,
                ),
                depth: BULLET_DEPTH,
                heading: self.transform.heading,
            },
            ..self
        }
    }

    #[verifier::when_used_as_spec(spec_flown)]
    pub fn flown(self) -> (b: Bullet)
        ensures
            b == self.spec_flown(),
            b.transform.depth > ENEMY_DEPTH,
    {
        Bullet {
            transform: Transform {
                translation: self.transform.translation.advanced(
                    self.direction.0.normalize_or_zero(),
                    BULLET_SPEED,
                ),
                depth: BULLET_DEPTH,
                heading: self.transform.heading,
            },
            ..self
        }
    }

    /// Whether the bullet has outlived `BULLET_LIFE_TIME` at the moment
    /// `now`.
    pub open spec fn spec_expired(self, now: u64) -> bool {
        now - self.spawned.0 > BULLET_LIFE_TIME
    }

    #[verifier::when_used_as_spec(spec_expired)]
    pub fn expired(self, now: u64) -> (b: bool)
        ensures
            b == self.spec_expired(now),
    {
        now > self.spawned.0 && now - self.spawned.0 > BULLET_LIFE_TIME
    }
}

/// Advances the gun's timer by the frame and, where the trigger is held and
/// the timer has reached `BULLET_SPAWN_INTERVAL`, fires: the timer starts
/// over and `NUM_OF_BULLET_PER_SHOT` bullets leave the gun, each thrown off
/// the gun's heading by a jitter of its own. Without a gun nothing happens.
pub fn handle_gun_input(
    gun: &mut Option<Gun>,
    bullets: &mut Vec<Bullet>,
    delta: u64,
    fire_held: bool,
    now: u64,
)
    ensures
        match *old(gun) {
            None => *final(gun) == *old(gun) && final(bullets)@ == old(bullets)@,
            Some(g) => {
                let shots: int = if g.timer.fires(delta, fire_held) {
                    NUM_OF_BULLET_PER_SHOT as int
                } else {
                    0
                };
                &&& *final(gun) == Some(Gun { timer: g.timer.after_frame(delta, fire_held), ..g })
                &&& final(bullets)@.len() == old(bullets)@.len() + shots
                &&& final(bullets)@.take(old(bullets)@.len() as int) == old(bullets)@
                &&& forall|i: int|
                    old(bullets)@.len() <= i < final(bullets)@.len() ==> (
                    #[trigger] final(bullets)@[i]).is_shot_from(g, now)
            },
        },
{
    match *gun {
        None => {},
        Some(g) => {
            let mut timer = g.timer;
            let fired = timer.frame(delta, fire_held);
            *gun = Some(Gun { timer, ..g });
            if fired {
                let ghost before = bullets@;
                let mut fired_so_far: usize = 0;
                while fired_so_far < NUM_OF_BULLET_PER_SHOT
                    invariant
                        fired_so_far <= NUM_OF_BULLET_PER_SHOT,
                        bullets@.len() == before.len() + fired_so_far,
                        bullets@.take(before.len() as int) == before,
                        forall|i: int|
                            before.len() <= i < bullets@.len() ==> (#[trigger] bullets@[i]).is_shot_from(
                                g,
                                now,
                            ),
                    decreases NUM_OF_BULLET_PER_SHOT - fired_so_far,
                {
                    let jitter_x: i64 = random_i64(-UNIT, UNIT);
                    let jitter_y: i64 = random_i64(-UNIT, UNIT);
                    let bullet = Bullet::shot(g, jitter_x, jitter_y, now);
                    assert(bullet.is_shot_from(g, now));
                    bullets.push(bullet);
                    fired_so_far = fired_so_far + 1;
                }
            }
        },
    }
}

/// The bullets after one frame of flight.
pub open spec fn flown_all(bullets: Seq<Bullet>) -> Seq<Bullet> {
    bullets.map_values(|b: Bullet| b.spec_flown())
}

/// The bullets that have not outlived `BULLET_LIFE_TIME` at the moment
/// `now`, in their order.
pub open spec fn unexpired(bullets: Seq<Bullet>, now: u64) -> Seq<Bullet> {
    bullets.filter(|b: Bullet| !b.spec_expired(now))
}

/// Moves every bullet by one frame of flight.
pub fn update_bullets(bullets: &mut Vec<Bullet>)
    ensures
        final(bullets)@ == flown_all(old(bullets)@),
{
    let ghost before = bullets@;
    let mut i: usize = 0;
    while i < bullets.len()
        invariant
            i <= bullets@.len(),
            bullets@.len() == before.len(),
            forall|j: int| 0 <= j < i ==> #[trigger] bullets@[j] == before[j].spec_flown(),
            forall|j: int| i <= j < before.len() ==> #[trigger] bullets@[j] == before[j],
        decreases bullets@.len() - i,
    {
        let bullet = bullets[i].flown();
        bullets.set(i, bullet);
        i = i + 1;
    }
    assert(bullets@ =~= before.map_values(|b: Bullet| b.spec_flown()));
}

/// Removes the bullets that have outlived `BULLET_LIFE_TIME`; the others
/// stay, in their order.
pub fn despawn_old_bullets(bullets: &mut Vec<Bullet>, now: u64)
    ensures
        final(bullets)@ == unexpired(old(bullets)@, now),
{
    let ghost before = bullets@;
    let ghost live = |b: Bullet| !b.spec_expired(now);
    let mut kept: Vec<Bullet> = Vec::new();
    let mut i: usize = 0;
    proof {
        reveal(Seq::filter);
        assert(before.take(0) =~= Seq::<Bullet>::empty());
    }
    while i < bullets.len()
        invariant
            i <= bullets@.len(),
            bullets@ == before,
            live == |b: Bullet| !b.spec_expired(now),
            kept@ == before.take(i as int).filter(live),
        decreases bullets@.len() - i,
    {
        let bullet = bullets[i];
        proof {
            reveal(Seq::filter);
            assert(before.take(i + 1).drop_last() =~= before.take(i as int));
        }
        if !bullet.expired(now) {
            kept.push(bullet);
        }
        i = i + 1;
    }
    assert(before.take(i as int) =~= before);
    *bullets = kept;
}

/// A bullet is there after the old ones are removed exactly when it was
/// there before and its age is at most `BULLET_LIFE_TIME`: at that age it
/// stays, a nanosecond later it is gone.
pub proof fn lemma_bullet_expiry(bullets: Seq<Bullet>, now: u64, bullet: Bullet)
    ensures
        unexpired(bullets, now).contains(bullet) <==> bullets.contains(bullet) && now
            - bullet.spawned.0 <= BULLET_LIFE_TIME,
{
    let live = |b: Bullet| !b.spec_expired(now);
    if unexpired(bullets, now).contains(bullet) {
        bullets.lemma_filter_contains_rev(live, bullet);
    }
    if bullets.contains(bullet) && !bullet.spec_expired(now) {
        let i = choose|i: int| 0 <= i < bullets.len() && bullets[i] == bullet;
        bullets.lemma_filter_contains(live, i);
    }
}

} // verus!
