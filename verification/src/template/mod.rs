//! Emission of the source text of the stage types and of the pool.

pub mod closure;
pub mod closures;
pub mod pool;
pub mod thread_creator;
pub mod text;
