//! The script layer: a bytecode stack machine, its task pool and the
//! read-only script image it executes.
pub mod ops;
pub mod image;
pub mod shooter;
pub mod task;
pub mod syscall;
pub mod vm;
pub mod binding;
pub mod laws;
