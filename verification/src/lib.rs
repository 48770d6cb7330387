//! Core simulation engine for a top-down grid-based arcade shooter.
//!
//! The engine is pure state manipulation over integer coordinates: movement
//! resolution against typed terrain, rate-limited projectile fire, collision
//! detection with order-preserving batch removal, an opponent behavior
//! automaton, and a per-tick driver. Rendering, windowing and input mapping
//! are left to a thin presentation layer that reads the state this crate
//! maintains.

pub mod geometry;
pub mod removal;
pub mod terrain;
pub mod units;
pub mod movement;
pub mod shots;
pub mod behavior;
pub mod collision;
pub mod session;
pub mod scene;
