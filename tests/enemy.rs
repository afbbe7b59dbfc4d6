use std::collections::HashMap;

use platformer_core::enemy::{enemy_movement, enemy_movement_system, enemy_wall_detection, enemy_wall_detection_system, Enemy};
use platformer_core::geometry::{Vec2i, UNIT};

const ENEMY: u64 = 5;
const OWN_COLLIDER: u64 = 50;
const WALL: u64 = 60;
const WALL_COLLIDER: u64 = 61;

fn parents() -> HashMap<u64, u64> {
    let mut p = HashMap::new();
    p.insert(OWN_COLLIDER, ENEMY);
    p.insert(WALL_COLLIDER, WALL);
    p
}

#[test]
fn spawned_enemy_walks_right() {
    let e = Enemy::spawn(ENEMY);
    assert_eq!(e.velocity, Vec2i::new(30 * UNIT, 0));
    assert_eq!(e.movement_direction, Vec2i::new(UNIT, 0));
    assert_eq!(e.ray_direction, Vec2i::new(UNIT, 0));
    assert!(!e.flip_x);
}

#[test]
fn several_wall_hits_turn_once() {
    let mut e = Enemy::spawn(ENEMY);
    assert!(enemy_wall_detection(&mut e, &vec![WALL_COLLIDER, WALL, 77], &parents()));
    assert_eq!(e.movement_direction, Vec2i::new(-UNIT, 0));
    assert_eq!(e.ray_direction, Vec2i::new(-UNIT, 0));
    assert!(e.flip_x);
}

#[test]
fn own_collider_is_ignored() {
    let mut e = Enemy::spawn(ENEMY);
    assert!(!enemy_wall_detection(&mut e, &vec![OWN_COLLIDER], &parents()));
    assert_eq!(e, Enemy::spawn(ENEMY));
    assert!(enemy_wall_detection(&mut e, &vec![OWN_COLLIDER, WALL_COLLIDER], &parents()));
    assert_eq!(e.movement_direction, Vec2i::new(-UNIT, 0));
}

#[test]
fn no_hits_no_turn() {
    let mut e = Enemy::spawn(ENEMY);
    assert!(!enemy_wall_detection(&mut e, &vec![], &parents()));
    assert_eq!(e, Enemy::spawn(ENEMY));
}

#[test]
fn slow_enemy_speeds_up() {
    let mut e = Enemy::spawn(ENEMY);
    e.velocity = Vec2i::new(19 * UNIT, 3);
    enemy_movement(&mut e);
    assert_eq!(e.velocity, Vec2i::new(20 * UNIT, 3));
    enemy_movement(&mut e);
    assert_eq!(e.velocity, Vec2i::new(20 * UNIT, 3));
    e.movement_direction = Vec2i::new(-UNIT, 0);
    e.velocity = Vec2i::new(-(20 * UNIT) + 1, 0);
    enemy_movement(&mut e);
    assert_eq!(e.velocity, Vec2i::new(-(21 * UNIT) + 1, 0));
}

#[test]
fn systems_run_per_enemy() {
    let mut enemies = vec![Enemy::spawn(ENEMY), Enemy::spawn(6)];
    enemy_wall_detection_system(&mut enemies, &vec![vec![OWN_COLLIDER], vec![OWN_COLLIDER]], &parents());
    assert!(!enemies[0].flip_x);
    assert!(enemies[1].flip_x);
    enemies[0].velocity = Vec2i::new(0, 0);
    enemy_movement_system(&mut enemies);
    assert_eq!(enemies[0].velocity, Vec2i::new(UNIT, 0));
    assert_eq!(enemies[1].velocity, Vec2i::new(30 * UNIT, 0));
}
