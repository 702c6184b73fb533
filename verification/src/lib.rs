//! A fixed-point arcade simulation core.
//!
//! A ship moves inside a viewport and fires bullets on a cooldown while
//! obstacles drop in from above at random intervals; a bullet that touches an
//! obstacle removes both. Positions are whole micro-units, velocities whole
//! units per second and time whole microseconds, so one second at one unit
//! per second moves an entity by exactly one unit and no step rounds.
pub mod collision;
pub mod entity;
pub mod game;
pub mod input;
pub mod spawner;
pub mod store;
pub mod sweep;
pub mod timer;
pub mod weapon;
