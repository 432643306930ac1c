//! The enemies: they appear around the player, chase, and are removed when
//! dead.

use crate::animation::AnimationTimer;
use crate::components::{Sprite, Transform};
use crate::constants::{
    ENEMY_DEPTH, ENEMY_FRAME_TIME, ENEMY_HEALTH, ENEMY_SPAWN_DEPTH, ENEMY_SPEED, ENEMY_SPRITE,
    COORD_MAX, MAX_NUM_ENEMIES, SPAWN_BIAS, SPAWN_RADIUS_MAX, SPAWN_RADIUS_MIN, SPAWN_RATE_PER_SECOND, UNIT,
};
use crate::fixed::{lemma_advance_closes_in, lemma_scaled_length, magnitude, Vec2};
use crate::player::Player;
use crate::random::{random_heading, random_i64};
use vstd::prelude::*;

verus! {

#[derive(Clone, Copy, Debug, PartialEq, Eq, Structural)]
pub struct Enemy {
    /// What is left of the enemy's life; at zero or below the enemy is dead.
    pub health: i32,
    pub transform: Transform,
    pub sprite: Sprite,
    pub timer: AnimationTimer,
}

impl Default for Enemy {
    /// An enemy in full health.
    fn default() -> (e: Enemy)
        ensures
            e == Enemy::spec_spawned_at(Vec2::spec_zero()),
    {
        Enemy::spawned_at(Vec2::zero())
    }
}

/// Where a chaser at `chaser` stands after a frame of chasing `target` at
/// `speed` world units: `speed` steps along the direction to the target. A
/// chaser on its target has no direction and stays.
pub open spec fn chase_step(chaser: Vec2, target: Vec2, speed: int) -> Vec2 {
    chaser.spec_advanced(chaser.spec_direction_to(target), speed)
}

impl Enemy {
    pub open spec fn spec_spawned_at(position: Vec2) -> Enemy {
        Enemy {
            health: ENEMY_HEALTH,
            transform: Transform::spec_from_translation(position, ENEMY_SPAWN_DEPTH),
            sprite: Sprite::spec_from_index(ENEMY_SPRITE),
            timer: AnimationTimer::spec_every(ENEMY_FRAME_TIME),
        }
    }

    /// A new enemy at `position`: in full health, drawn just above the
    /// ground.
    #[verifier::when_used_as_spec(spec_spawned_at)]
    pub fn spawned_at(position: Vec2) -> (e: Enemy)
        ensures
            e == Enemy::spec_spawned_at(position),
    {
        Enemy {
            health: ENEMY_HEALTH,
            transform: Transform::from_translation(position, ENEMY_SPAWN_DEPTH),
            sprite: Sprite::from_index(ENEMY_SPRITE),
            timer: AnimationTimer::every(ENEMY_FRAME_TIME),
        }
    }

    /// The enemy after a frame of chasing a player at `player`: a step of
    /// `ENEMY_SPEED` world units toward the player, drawn at `ENEMY_DEPTH`.
    pub open spec fn spec_chasing(self, player: Vec2) -> Enemy {
        Enemy {
            transform: Transform {
                translation: chase_step(self.transform.translation, player, ENEMY_SPEED as int),
                depth: ENEMY_DEPTH,
                heading: self.transform.heading,
            },
            ..self
        }
    }

    #[verifier::when_used_as_spec(spec_chasing)]
    pub fn chasing(self, player: Vec2) -> (e: Enemy)
        ensures
            e == self.spec_chasing(player),
    {
        let at = self.transform.translation;
        Enemy {
            transform: Transform {
                translation: at.advanced(at.direction_to(player), ENEMY_SPEED),
                depth: ENEMY_DEPTH,
                heading: self.transform.heading,
            },
            ..self
        }
    }

    pub open spec fn spec_is_dead(self) -> bool {
        self.health <= 0
    }

    #[verifier::when_used_as_spec(spec_is_dead)]
    pub fn is_dead(self) -> (b: bool)
        ensures
            b == self.spec_is_dead(),
    {
        self.health <= 0
    }
}

/// The enemies after a frame of chasing the player, if there is one.
pub open spec fn chasing_all(enemies: Seq<Enemy>, player: Option<Player>) -> Seq<Enemy> {
    match player {
        Some(p) => enemies.map_values(|e: Enemy| e.spec_chasing(p.transform.translation)),
        None => enemies,
    }
}

/// The enemies that are not dead, in their order.
pub open spec fn survivors(enemies: Seq<Enemy>) -> Seq<Enemy> {
    enemies.filter(|e: Enemy| !e.spec_is_dead())
}

/// Moves every enemy one step toward the player. Without a player nothing
/// happens.
pub fn update_enemy_transform(player: &Option<Player>, enemies: &mut Vec<Enemy>)
    ensures
        final(enemies)@ == chasing_all(old(enemies)@, *player),
{
    match player {
        None => {},
        Some(p) => {
            let target = p.transform.translation;
            let ghost before = enemies@;
            let mut i: usize = 0;
            while i < enemies.len()
                invariant
                    i <= enemies@.len(),
                    enemies@.len() == before.len(),
                    forall|j: int| 0 <= j < i ==> #[trigger] enemies@[j] == before[j].spec_chasing(target),
                    forall|j: int| i <= j < before.len() ==> #[trigger] enemies@[j] == before[j],
                decreases enemies@.len() - i,
            {
                let enemy = enemies[i].chasing(target);
                enemies.set(i, enemy);
                i = i + 1;
            }
            assert(enemies@ =~= before.map_values(|e: Enemy| e.spec_chasing(target)));
        },
    }
}

/// The number of enemies that a spawn tick adds to a population: what is
/// missing to `MAX_NUM_ENEMIES`, but no more than `SPAWN_RATE_PER_SECOND`,
/// and none once the population has reached the cap.
pub open spec fn spec_spawn_count(population: int) -> int {
    if population >= MAX_NUM_ENEMIES {
        0
    } else if MAX_NUM_ENEMIES - population < SPAWN_RATE_PER_SECOND {
        MAX_NUM_ENEMIES - population
    } else {
        SPAWN_RATE_PER_SECOND as int
    }
}

pub fn spawn_count(population: usize) -> (count: usize)
    ensures
        count == spec_spawn_count(population as int),
{
    if population >= MAX_NUM_ENEMIES {
        0
    } else if MAX_NUM_ENEMIES - population < SPAWN_RATE_PER_SECOND {
        MAX_NUM_ENEMIES - population
    } else {
        SPAWN_RATE_PER_SECOND
    }
}

pub open spec fn spec_position_around(position: Vec2, heading: Vec2, radius: i64) -> Vec2 {
    let reach = heading.spec_scaled(radius as int);
    position.spec_offset(reach.x + SPAWN_BIAS, reach.y + SPAWN_BIAS)
}

/// The point that lies `radius` sub-units from `position` along `heading`,
/// shifted by `SPAWN_BIAS` on both axes.
#[verifier::when_used_as_spec(spec_position_around)]
pub fn position_around(position: Vec2, heading: Vec2, radius: i64) -> (p: Vec2)
    ensures
        p == spec_position_around(position, heading, radius),
{
    let reach = heading.scaled(radius);
    position.offset(reach.x as i64 + SPAWN_BIAS as i64, reach.y as i64 + SPAWN_BIAS as i64)
}

/// Whether an enemy may appear at `p` around a player at `position`: `p`
/// lies along some heading, at a distance within the band from
/// `SPAWN_RADIUS_MIN` to `SPAWN_RADIUS_MAX`, shifted by the bias.
pub open spec fn is_spawn_position(p: Vec2, position: Vec2) -> bool {
    exists|heading: Vec2, radius: i64|
        heading.is_heading() && SPAWN_RADIUS_MIN <= radius < SPAWN_RADIUS_MAX && p
            == #[trigger] spec_position_around(position, heading, radius)
}

/// A point drawn at random around `position`: a heading and a distance
/// within the band are drawn, each evenly.
pub fn get_random_position_around(position: Vec2) -> (p: Vec2)
    ensures
        is_spawn_position(p, position),
{
    let heading = random_heading();
    let radius: i64 = random_i64(SPAWN_RADIUS_MIN, SPAWN_RADIUS_MAX);
    position_around(position, heading, radius)
}

/// One spawn tick: adds `spec_spawn_count` enemies, each at a point drawn
/// around the player. Without a player nothing happens.
pub fn spawn_enemies(player: &Option<Player>, enemies: &mut Vec<Enemy>)
    ensures
        match *player {
            None => final(enemies)@ == old(enemies)@,
            Some(p) => {
                &&& final(enemies)@.len() == old(enemies)@.len() + spec_spawn_count(
                    old(enemies)@.len() as int,
                )
                &&& final(enemies)@.take(old(enemies)@.len() as int) == old(enemies)@
                &&& forall|i: int|
                    old(enemies)@.len() <= i < final(enemies)@.len() ==> is_spawn_of(
                        #[trigger] final(enemies)@[i],
                        p.transform.translation,
                    )
            },
        },
{
    match player {
        None => {},
        Some(p) => {
            let around = p.transform.translation;
            let count = spawn_count(enemies.len());
            let ghost before = enemies@;
            let mut spawned: usize = 0;
            while spawned < count
                invariant
                    spawned <= count <= MAX_NUM_ENEMIES,
                    enemies@.len() == before.len() + spawned,
                    enemies@.take(before.len() as int) == before,
                    forall|i: int|
                        before.len() <= i < enemies@.len() ==> is_spawn_of(
                            #[trigger] enemies@[i],
                            around,
                        ),
                decreases count - spawned,
            {
                let position = get_random_position_around(around);
                let enemy = Enemy::spawned_at(position);
                assert(is_spawn_of(enemy, around));
                enemies.push(enemy);
                spawned = spawned + 1;
            }
        },
    }
}

/// Whether `enemy` is a new enemy at a point where one may appear around a
/// player at `position`.
pub open spec fn is_spawn_of(enemy: Enemy, position: Vec2) -> bool {
    is_spawn_position(enemy.transform.translation, position) && enemy == Enemy::spec_spawned_at(
        enemy.transform.translation,
    )
}

/// Removes the dead enemies; the others stay, in their order.
pub fn despawn_dead_enemies(enemies: &mut Vec<Enemy>)
    ensures
        final(enemies)@ == survivors(old(enemies)@),
{
    let ghost before = enemies@;
    let ghost alive = |e: Enemy| !e.spec_is_dead();
    let mut kept: Vec<Enemy> = Vec::new();
    let mut i: usize = 0;
    proof {
        reveal(Seq::filter);
        assert(before.take(0) =~= Seq::<Enemy>::empty());
    }
    while i < enemies.len()
        invariant
            i <= enemies@.len(),
            enemies@ == before,
            alive == |e: Enemy| !e.spec_is_dead(),
            kept@ == before.take(i as int).filter(alive),
        decreases enemies@.len() - i,
    {
        let enemy = enemies[i];
        proof {
            reveal(Seq::filter);
            assert(before.take(i + 1).drop_last() =~= before.take(i as int));
        }
        if !enemy.is_dead() {
            kept.push(enemy);
        }
        i = i + 1;
    }
    assert(before.take(i as int) =~= before);
    *enemies = kept;
}

/// Enemies appear in a band around the player: an enemy that appears
/// around a player who stands clear of the edge of the plane is no nearer
/// than `SPAWN_RADIUS_MIN`, less a thousandth of a world unit for what is
/// lost in rounding, and nearer than `SPAWN_RADIUS_MAX`, both measured from
/// the player's position shifted by the bias.
pub proof fn lemma_spawn_band(position: Vec2, p: Vec2)
    requires
        is_spawn_position(p, position),
        -COORD_MAX + SPAWN_RADIUS_MAX <= position.x + SPAWN_BIAS <= COORD_MAX - SPAWN_RADIUS_MAX,
        -COORD_MAX + SPAWN_RADIUS_MAX <= position.y + SPAWN_BIAS <= COORD_MAX - SPAWN_RADIUS_MAX,
    ensures
        ({
            let centre = Vec2 {
                x: (position.x + SPAWN_BIAS) as i64,
                y: (position.y + SPAWN_BIAS) as i64,
            };
            &&& (SPAWN_RADIUS_MIN - UNIT / 1000) * (SPAWN_RADIUS_MIN - UNIT / 1000)
                <= centre.spec_distance_squared(p)
            &&& centre.spec_distance_squared(p) < SPAWN_RADIUS_MAX * SPAWN_RADIUS_MAX
        }),
{
    let (heading, radius) = choose|heading: Vec2, radius: i64|
        heading.is_heading() && SPAWN_RADIUS_MIN <= radius < SPAWN_RADIUS_MAX && p
            == #[trigger] spec_position_around(position, heading, radius);
    let reach = heading.spec_scaled(radius as int);
    lemma_scaled_length(heading, radius as int);
    let sx = reach.x as int;
    let sy = reach.y as int;
    let r = radius as int;
    assert(sx * sx <= r * r && sy * sy <= r * r) by (nonlinear_arith)
        requires
            sx * sx + sy * sy <= r * r,
    ;
    assert(-r <= sx <= r && -r <= sy <= r) by (nonlinear_arith)
        requires
            sx * sx <= r * r,
            sy * sy <= r * r,
            r >= 0,
    ;
    assert(p.x == position.x + SPAWN_BIAS + sx);
    assert(p.y == position.y + SPAWN_BIAS + sy);
    assert(r * r < SPAWN_RADIUS_MAX * SPAWN_RADIUS_MAX) by (nonlinear_arith)
        requires
            0 <= r < SPAWN_RADIUS_MAX,
    ;
    let kx = magnitude(sx);
    let ky = magnitude(sy);
    let total = (kx + 1) * (kx + 1) + (ky + 1) * (ky + 1);
    assert(kx * kx == sx * sx && ky * ky == sy * sy) by (nonlinear_arith)
        requires
            kx == sx || kx == -sx,
            ky == sy || ky == -sy,
    ;
    assert(total * 1_000_000_000_000 > 999_996_000_004 * (r * r)) by (nonlinear_arith)
        requires
            total * (UNIT * UNIT) > (UNIT - 2) * (UNIT - 2) * (r * r),
            UNIT == 1_000_000,
    ;
    assert(r * r >= 10_000_000_000_000_000) by (nonlinear_arith)
        requires
            r >= 100_000_000,
    ;
    assert(total > 9_999_960_000_040_000);
    if kx * kx + ky * ky < 99_999_000 * 99_999_000 {
        assert(kx < 99_999_000 && ky < 99_999_000) by (nonlinear_arith)
            requires
                kx >= 0,
                ky >= 0,
                kx * kx + ky * ky < 99_999_000 * 99_999_000,
        ;
        assert(total == kx * kx + ky * ky + 2 * kx + 2 * ky + 2) by (nonlinear_arith)
            requires
                total == (kx + 1) * (kx + 1) + (ky + 1) * (ky + 1),
        ;
    }
}

/// A chaser on the plane that is not on its target, and farther from it
/// than half the way one frame covers, is closer to the target after the
/// frame.
pub proof fn lemma_chase_closes_in(chaser: Vec2, target: Vec2, speed: int)
    requires
        chaser.is_on_plane(),
        target.is_on_plane(),
        chaser != target,
        speed > 0,
        4 * chaser.spec_distance_squared(target) > speed * speed * (UNIT * UNIT),
    ensures
        chase_step(chaser, target, speed).spec_distance_squared(target)
            < chaser.spec_distance_squared(target),
{
    lemma_advance_closes_in(chaser, target, speed);
}

/// The population after a number of spawn ticks, if no enemy dies.
pub open spec fn population_after(population: int, ticks: nat) -> int
    decreases ticks,
{
    if ticks == 0 {
        population
    } else {
        let before = population_after(population, (ticks - 1) as nat);
        before + spec_spawn_count(before)
    }
}

/// A population that starts within the cap stays within it: every spawn
/// tick adds what is missing to the cap or the spawn rate, whichever is
/// less, so that after any number of ticks the population is the start plus
/// the rate for each tick, stopped at the cap.
pub proof fn lemma_population_stays_capped(population: int, ticks: nat)
    requires
        0 <= population <= MAX_NUM_ENEMIES,
    ensures
        population_after(population, ticks) <= MAX_NUM_ENEMIES,
        population_after(population, ticks) == if population + ticks * SPAWN_RATE_PER_SECOND
            < MAX_NUM_ENEMIES {
            population + ticks * SPAWN_RATE_PER_SECOND
        } else {
            MAX_NUM_ENEMIES as int
        },
        population_after(population, ticks + 1) - population_after(population, ticks) == (
        if MAX_NUM_ENEMIES - population_after(population, ticks) < SPAWN_RATE_PER_SECOND {
            MAX_NUM_ENEMIES - population_after(population, ticks)
        } else {
            SPAWN_RATE_PER_SECOND as int
        }),
    decreases ticks,
{
    if ticks > 0 {
        lemma_population_stays_capped(population, (ticks - 1) as nat);
        assert(ticks * SPAWN_RATE_PER_SECOND == (ticks - 1) * SPAWN_RATE_PER_SECOND
            + SPAWN_RATE_PER_SECOND) by (nonlinear_arith);
    } else {
        assert(ticks * SPAWN_RATE_PER_SECOND == 0) by (nonlinear_arith)
            requires
                ticks == 0,
        ;
    }
    reveal_with_fuel(population_after, 2);
}

} // verus!
