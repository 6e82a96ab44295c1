//! Concurrency core of an interrupt-driven, priority-based real-time runtime.

pub mod analysis;
pub mod bindings;
pub mod export;
pub mod interrupt;
pub mod monotonic;
pub mod syntax;
pub mod text;
pub mod timer_queue;
