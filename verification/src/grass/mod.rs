//! Grass placement, culling, interaction and tuning logic.
pub mod chunk;
pub mod grass;
pub mod interaction;
pub mod performance;
