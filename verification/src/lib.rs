//! Team-coordination library for scheduling practice matches ("scrims") and
//! league officials, booking game servers for them, and resolving fuzzy
//! day/time/map queries against the schedule.
//!
//! The data model, the server-assignment state machine, the reservation
//! window policy and the disambiguation engine are verified; network and
//! chat-platform plumbing live outside this crate and talk to it through
//! plain values.

pub mod error;
pub mod game;
pub mod guild;
pub mod ids;
pub mod maps;
pub mod mapsearch;
pub mod query;
pub mod rgl;
pub mod schedule;
pub mod serveme;
pub mod strfmt;
pub mod text;
pub mod timeet;
