use std::collections::HashMap;
use vstd::prelude::*;

use crate::geometry::{UNIT, Vec2i};

verus! {

broadcast use vstd::std_specs::hash::group_hash_axioms;

/// Below this horizontal speed an enemy speeds up.
pub const CRUISE_SPEED: i64 = 20 * UNIT;

/// Motion state of a patrolling enemy.
#[derive(Clone, Copy, Debug, PartialEq, Eq, Structural)]
pub struct Enemy {
    pub entity: u64,
    /// Direction of the forward wall probe.
    pub ray_direction: Vec2i,
    /// Direction the enemy walks in.
    pub movement_direction: Vec2i,
    /// Whether the sprite is drawn mirrored.
    pub flip_x: bool,
    pub velocity: Vec2i,
}

/// Speed a freshly spawned enemy starts with.
pub const SPAWN_SPEED: i64 = 30 * UNIT;

impl Enemy {
    /// A freshly spawned enemy: walking and probing along +x at spawn speed,
    /// sprite not mirrored.
    pub fn spawn(entity: u64) -> (r: Enemy)
        ensures
            r.entity == entity,
            r.ray_direction == (Vec2i { x: UNIT, y: 0 }),
            r.movement_direction == (Vec2i { x: UNIT, y: 0 }),
            !r.flip_x,
            r.velocity == (Vec2i { x: SPAWN_SPEED, y: 0 }),
            r.wf(),
    {
        Enemy {
            entity,
            ray_direction: Vec2i { x: UNIT, y: 0 },
            movement_direction: Vec2i { x: UNIT, y: 0 },
            flip_x: false,
            velocity: Vec2i { x: SPAWN_SPEED, y: 0 },
        }
    }

    pub open spec fn wf(&self) -> bool {
        self.ray_direction.in_range() && self.movement_direction.in_range()
            && self.velocity.in_range()
    }

    /// The same enemy turned around: probe and walking direction reversed and
    /// the sprite mirrored.
    pub open spec fn turned(self) -> Enemy {
        Enemy {
            ray_direction: self.ray_direction.neg_spec(),
            movement_direction: self.movement_direction.neg_spec(),
            flip_x: !self.flip_x,
            ..self
        }
    }
}

/// Whether `hit` is a collider of the enemy's own body.
pub open spec fn own_collider(parents: Map<u64, u64>, enemy: u64, hit: u64) -> bool {
    parents.contains_key(hit) && parents[hit] == enemy
}

/// Whether the probe reported a hit on something other than the enemy itself.
pub open spec fn wall_hit(parents: Map<u64, u64>, enemy: u64, hits: Seq<u64>) -> bool {
    exists|i: int| 0 <= i < hits.len() && !own_collider(parents, enemy, #[trigger] hits[i])
}

/// Turns the enemy around once if its wall probe hit anything but its own
/// colliders, however many such hits there are. Returns whether it turned.
pub fn enemy_wall_detection(enemy: &mut Enemy, hits: &Vec<u64>, parents: &HashMap<u64, u64>) -> (turned: bool)
    requires
        old(enemy).wf(),
    ensures
        turned == wall_hit(parents@, old(enemy).entity, hits@),
        *final(enemy) == if turned {
            old(enemy).turned()
        } else {
            *old(enemy)
        },
        final(enemy).wf(),
{
    let mut i: usize = 0;
    while i < hits.len()
        invariant
            i <= hits@.len(),
            *enemy == *old(enemy),
            enemy.wf(),
            forall|k: int| 0 <= k < i ==> own_collider(parents@, enemy.entity, #[trigger] hits@[k]),
        decreases hits@.len() - i,
    {
        let hit = hits[i];
        let own = match parents.get(&hit) {
            Some(p) => *p == enemy.entity,
            None => false,
        };
        if !own {
            enemy.ray_direction = enemy.ray_direction.neg();
            enemy.movement_direction = enemy.movement_direction.neg();
            enemy.flip_x = !enemy.flip_x;
            return true;
        }
        i = i + 1;
    }
    false
}

/// The velocity after one tick of the enemy's drive: below cruising speed it
/// gains one unit in its walking direction.
pub open spec fn driven_velocity(velocity: Vec2i, direction: Vec2i) -> Vec2i {
    if -CRUISE_SPEED < velocity.x < CRUISE_SPEED {
        Vec2i {
            x: (velocity.x + direction.x) as i64,
            y: (velocity.y + direction.y) as i64,
        }
    } else {
        velocity
    }
}

/// Speeds the enemy up in its walking direction while it is slower than
/// cruising speed.
pub fn enemy_movement(enemy: &mut Enemy)
    requires
        old(enemy).wf(),
    ensures
        *final(enemy) == (Enemy {
            velocity: driven_velocity(old(enemy).velocity, old(enemy).movement_direction),
            ..*old(enemy)
        }),
{
    let v = enemy.velocity;
    if -CRUISE_SPEED < v.x && v.x < CRUISE_SPEED {
        enemy.velocity = Vec2i {
            x: v.x + enemy.movement_direction.x,
            y: v.y + enemy.movement_direction.y,
        };
    }
}

/// Runs wall detection on every enemy; `hits[i]` holds what the probe of
/// `enemies[i]` reported this tick.
pub fn enemy_wall_detection_system(
    enemies: &mut Vec<Enemy>,
    hits: &Vec<Vec<u64>>,
    parents: &HashMap<u64, u64>,
)
    requires
        old(enemies)@.len() == hits@.len(),
        forall|i: int| 0 <= i < old(enemies)@.len() ==> (#[trigger] old(enemies)@[i]).wf(),
    ensures
        final(enemies)@.len() == old(enemies)@.len(),
        forall|i: int|
            0 <= i < final(enemies)@.len() ==> {
                let e = old(enemies)@[i];
                &&& #[trigger] final(enemies)@[i] == if wall_hit(parents@, e.entity, hits@[i]@) {
                    e.turned()
                } else {
                    e
                }
                &&& final(enemies)@[i].wf()
            },
{
    let ghost start = enemies@;
    let mut i: usize = 0;
    while i < enemies.len()
        invariant
            enemies@.len() == start.len() == hits@.len(),
            0 <= i <= start.len(),
            forall|k: int| 0 <= k < start.len() ==> (#[trigger] start[k]).wf(),
            forall|k: int| i <= k < start.len() ==> enemies@[k] == start[k],
            forall|k: int|
                0 <= k < i ==> {
                    let e = start[k];
                    &&& #[trigger] enemies@[k] == if wall_hit(parents@, e.entity, hits@[k]@) {
                        e.turned()
                    } else {
                        e
                    }
                    &&& enemies@[k].wf()
                },
        decreases start.len() - i,
    {
        let mut e = enemies[i];
        assert(start[i as int].wf());
        enemy_wall_detection(&mut e, &hits[i], parents);
        enemies.set(i, e);
        i = i + 1;
    }
}

/// Runs the enemy drive on every enemy.
pub fn enemy_movement_system(enemies: &mut Vec<Enemy>)
    requires
        forall|i: int| 0 <= i < old(enemies)@.len() ==> (#[trigger] old(enemies)@[i]).wf(),
    ensures
        final(enemies)@.len() == old(enemies)@.len(),
        forall|i: int|
            0 <= i < final(enemies)@.len() ==> #[trigger] final(enemies)@[i] == (Enemy {
                velocity: driven_velocity(old(enemies)@[i].velocity, old(enemies)@[i].movement_direction),
                ..old(enemies)@[i]
            }),
{
    let ghost start = enemies@;
    let mut i: usize = 0;
    while i < enemies.len()
        invariant
            enemies@.len() == start.len(),
            0 <= i <= start.len(),
            forall|k: int| 0 <= k < start.len() ==> (#[trigger] start[k]).wf(),
            forall|k: int| i <= k < start.len() ==> enemies@[k] == start[k],
            forall|k: int|
                0 <= k < i ==> #[trigger] enemies@[k] == (Enemy {
                    velocity: driven_velocity(start[k].velocity, start[k].movement_direction),
                    ..start[k]
                }),
        decreases start.len() - i,
    {
        let mut e = enemies[i];
        assert(start[i as int].wf());
        enemy_movement(&mut e);
        enemies.set(i, e);
        i = i + 1;
    }
}

} // verus!
