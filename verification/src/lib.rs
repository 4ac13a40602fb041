//! Streaming of voxel terrain chunks around a moving observer: grid
//! quantization, nearest-first planning, deduplicated dispatch of generation
//! jobs, and retirement of chunks that fall out of range.

pub mod chunk;
pub mod config;
pub mod coord;
pub mod job;
pub mod key;
pub mod lattice;
pub mod manager;
pub mod mesh;
pub mod pending;
pub mod planner;
pub mod queue;
pub mod residency;
pub mod threaded_generator;
