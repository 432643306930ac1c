//! Bullets against enemies: whoever is near a bullet is hurt.

use crate::constants::{BULLET_DAMAGE, HIT_DISTANCE_SQUARED};
use crate::enemy::Enemy;
use crate::fixed::Vec2;
use crate::gun::Bullet;
use vstd::prelude::*;

verus! {

/// Whether a bullet at `bullet` hurts an enemy at `enemy`: the squared
/// distance between them is at most `HIT_DISTANCE_SQUARED`.
pub open spec fn spec_hits(bullet: Vec2, enemy: Vec2) -> bool {
    bullet.spec_distance_squared(enemy) <= HIT_DISTANCE_SQUARED
}

#[verifier::when_used_as_spec(spec_hits)]
pub fn hits(bullet: Vec2, enemy: Vec2) -> (b: bool)
    ensures
        b == spec_hits(bullet, enemy),
{
    bullet.distance_squared(enemy) <= HIT_DISTANCE_SQUARED as u128
}

/// The number of bullets that hurt an enemy at `enemy`.
pub open spec fn spec_hit_count(bullets: Seq<Bullet>, enemy: Vec2) -> nat {
    bullets.filter(|b: Bullet| spec_hits(b.transform.translation, enemy)).len()
}

pub fn hit_count(bullets: &Vec<Bullet>, enemy: Vec2) -> (count: usize)
    ensures
        count == spec_hit_count(bullets@, enemy),
{
    let ghost near = |b: Bullet| spec_hits(b.transform.translation, enemy);
    let mut count: usize = 0;
    let mut i: usize = 0;
    proof {
        reveal(Seq::filter);
        assert(bullets@.take(0) =~= Seq::<Bullet>::empty());
    }
    while i < bullets.len()
        invariant
            i <= bullets@.len(),
            near == |b: Bullet| spec_hits(b.transform.translation, enemy),
            count == bullets@.take(i as int).filter(near).len(),
            count <= i,
        decreases bullets@.len() - i,
    {
        proof {
            reveal(Seq::filter);
            assert(bullets@.take(i + 1).drop_last() =~= bullets@.take(i as int));
        }
        if hits(bullets[i].transform.translation, enemy) {
            count = count + 1;
        }
        i = i + 1;
    }
    assert(bullets@.take(i as int) =~= bullets@);
    count
}

impl Enemy {
    /// The enemy after `hits` hits: each takes `BULLET_DAMAGE` from its
    /// health, which stops at the least number an `i32` holds.
    pub open spec fn spec_damaged(self, hits: nat) -> Enemy {
        let left = self.health - BULLET_DAMAGE * hits;
        Enemy {
            health: if left < i32::MIN {
                i32::MIN
            } else {
                left as i32
            },
            ..self
        }
    }

    pub fn damaged(self, hits: usize) -> (e: Enemy)
        ensures
            e == self.spec_damaged(hits as nat),
    {
        assert(0 <= BULLET_DAMAGE * hits <= 100 * usize::MAX) by (nonlinear_arith)
            requires
                BULLET_DAMAGE == 100,
                0 <= hits <= usize::MAX,
        ;
        let loss: i128 = BULLET_DAMAGE as i128 * hits as i128;
        let left: i128 = self.health as i128 - loss;
        Enemy {
            health: if left < i32::MIN as i128 {
                i32::MIN
            } else {
                left as i32
            },
            ..self
        }
    }
}

/// The enemies after each has been hurt once for every bullet near it.
pub open spec fn damaged_all(enemies: Seq<Enemy>, bullets: Seq<Bullet>) -> Seq<Enemy> {
    enemies.map_values(
        |e: Enemy| e.spec_damaged(spec_hit_count(bullets, e.transform.translation)),
    )
}

/// Hurts every enemy once for each bullet near it. A bullet is not used up:
/// it hurts every enemy within reach, in every frame it stays there.
pub fn handle_enemy_bullet_collision(bullets: &Vec<Bullet>, enemies: &mut Vec<Enemy>)
    ensures
        final(enemies)@ == damaged_all(old(enemies)@, bullets@),
{
    let ghost before = enemies@;
    let mut i: usize = 0;
    while i < enemies.len()
        invariant
            i <= enemies@.len(),
            enemies@.len() == before.len(),
            forall|j: int|
                0 <= j < i ==> #[trigger] enemies@[j] == before[j].spec_damaged(
                    spec_hit_count(bullets@, before[j].transform.translation),
                ),
            forall|j: int| i <= j < before.len() ==> #[trigger] enemies@[j] == before[j],
        decreases enemies@.len() - i,
    {
        let enemy = enemies[i];
        let count = hit_count(bullets, enemy.transform.translation);
        enemies.set(i, enemy.damaged(count));
        i = i + 1;
    }
    assert(enemies@ =~= before.map_values(
        |e: Enemy| e.spec_damaged(spec_hit_count(bullets@, e.transform.translation)),
    ));
}

/// One bullet hurts an enemy exactly when the squared distance between
/// them is at most `HIT_DISTANCE_SQUARED`: at that distance the enemy loses
/// `BULLET_DAMAGE`, beyond it nothing.
pub proof fn lemma_hit_at_the_boundary(bullet: Bullet, enemy: Enemy)
    ensures
        damaged_all(seq![enemy], seq![bullet]) == seq![
            if bullet.transform.translation.spec_distance_squared(enemy.transform.translation)
                <= HIT_DISTANCE_SQUARED {
                enemy.spec_damaged(1)
            } else {
                enemy
            },
        ],
        enemy.spec_damaged(0) == enemy,
        enemy.health - BULLET_DAMAGE >= i32::MIN ==> enemy.spec_damaged(1).health == enemy.health
            - BULLET_DAMAGE,
{
    let at = enemy.transform.translation;
    let near = |b: Bullet| spec_hits(b.transform.translation, at);
    let one = seq![bullet];
    reveal_with_fuel(Seq::filter, 2);
    assert(one.drop_last() =~= Seq::<Bullet>::empty());
    assert(one.last() == bullet);
    assert(one.filter(near).len() == if near(bullet) {
        1nat
    } else {
        0nat
    });
    assert(damaged_all(seq![enemy], one) =~= seq![
        if spec_hits(bullet.transform.translation, at) {
            enemy.spec_damaged(1)
        } else {
            enemy
        },
    ]);
}

} // verus!
