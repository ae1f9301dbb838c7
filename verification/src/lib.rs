//! The controller of a pool table that is simulated by a physics engine.
//!
//! The controller holds the rules of the table: which balls exist and in
//! which state, which contacts pocket a ball, the drag that slows the balls
//! down, the stabilizer that stops residual motion, and the shot, which is
//! struck only on a table at rest. It never calls the engine. Each of its
//! operations records commands (`world::Command`), which its host takes with
//! `PoolTable::take_commands` and carries out in the engine; what the engine
//! reports comes back as plain values: contacts (`contact::ContactEvent`),
//! the activity and velocity of bodies (`rest::BodyReading`), and positions.
//!
//! One step of the game is: a step of the engine, `PoolTable::step` with the
//! contacts of that step, the commands carried out, then `PoolTable::settle`
//! with the readings taken afterwards, and the commands carried out again.
//!
//! `model::TableModel` is the mathematical content of the table. Every
//! operation of `PoolTable` states which model it leaves behind, and `laws`
//! proves what holds of the models.

pub mod ball;
pub mod contact;
pub mod gravity;
pub mod laws;
pub mod layout;
pub mod model;
pub mod rest;
pub mod scalar;
pub mod setup;
pub mod table;
pub mod tick;
pub mod world;
