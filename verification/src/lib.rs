//! Verified core of the engine renderer: the bookkeeping, validation and
//! frame-planning decisions, held over plain values. The graphics backend,
//! the float math (frustum tests, distances, light normalisation) and the
//! logging stay outside this crate.

pub mod layout;
pub mod pool;
pub mod registry;
pub mod handles;
pub mod error;
pub mod textures;
pub mod lifetime;
pub mod math;
pub mod order;
pub mod passes;
pub mod batching;
pub mod analysis;
pub mod descriptors;
pub mod floats;
pub mod materials;
pub mod messages;
pub mod lights;
pub mod shaders;
pub mod debug;
pub mod frame;
pub mod pipelines;
pub mod backend;
pub mod capabilities;
pub mod geometry;
pub mod mips;
pub mod renderer;
