//! Core simulation of a real-time cooking game.
//!
//! Live "orders" each demand a recipe: a list of (ingredient, tool) steps.
//! Ingredients fly across the play area on parabolic arcs; the player
//! activates a tool at a point, the nearest in-flight ingredient within a
//! fixed radius is taken, and one matching step of the owning order is
//! consumed.  An order whose steps are all consumed scores a point; too many
//! unresolved orders at once lose the session.
//!
//! Positions are integers in micro-units (one millionth of a screen unit)
//! and time is in milliseconds, so every formula here is exact integer
//! arithmetic.

pub mod catalog;
pub mod game;
pub mod motion;
pub mod order;
mod rng;
