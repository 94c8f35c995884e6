//! The live game-object runtime: template registry and world container.

pub mod world;
