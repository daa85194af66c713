//! Gameplay core of a 2D tile platformer.
//!
//! The crate holds the engine-independent logic of the game: building
//! static physics colliders from a level's occupied tile grid
//! ([`tiles`]), tracking which solid bodies overlap a character's
//! ground sensor and deriving a grounded flag from that ([`contacts`]),
//! selecting and advancing the character's animation clip
//! ([`animation`]), and turning the per-tick input snapshot into a
//! velocity and gravity-scale update ([`movement`]).
//!
//! The host engine supplies plain values (entity identifiers, grid
//! cells, input booleans, elapsed time) and consumes plain values back
//! (rectangles, velocities, clip handles and frame indices). Velocities
//! are carried in thousandths of a world unit per second, elapsed time
//! in ticks of [`animation::TIME_UNITS_PER_SECOND`] per second, and
//! collider geometry in half-pixel units, so that every quantity the
//! rules speak of is exact integer arithmetic.

pub mod animation;
pub mod contacts;
pub mod movement;
pub mod tiles;
