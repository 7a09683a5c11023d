//! Deterministic core of a bullet-hell engine's script layer: the FNV-1a
//! checksum primitive, engine constants, generation-checked pools, and the
//! ECL bytecode VM with its image loader, task pool and syscall binding.
pub mod boss;
pub mod bullets;
pub mod checksum;
pub mod consts;
pub mod ecl;
pub mod enemy;
pub mod events;
pub mod math;
pub mod pool;
pub mod world;
