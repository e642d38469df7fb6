//! Deterministic simulation core of a networked 2D arena game.
//!
//! Every quantity the simulation reads is an integer: positions and
//! directions are fixed-point values in thousandths of a world unit, and
//! time is counted in simulation ticks. The per-frame pipeline is therefore
//! a pure function of the world state and the frame's inputs, which is what
//! rollback networking needs: any peer that replays the same inputs reaches
//! the same state, bit for bit.
pub mod geometry;
pub mod shapes;
pub mod player;
pub mod spell;
pub mod input;
pub mod world;
pub mod level;
pub mod session;
