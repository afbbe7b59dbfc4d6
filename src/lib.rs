//! Gameplay simulation core of a 2D platformer: one-way platform contact
//! filtering, patrol paths, enemy wall turns, kill zones and score display.
//!
//! Lengths, normals and velocities are fixed-point integers: `UNIT` stands for 1.0.
pub mod geometry;
pub mod one_way;
pub mod patrol;
pub mod enemy;
pub mod world;
