//! Task-scheduling and execution-control core of a single-processor kernel.
//!
//! The crate decides which runnable task occupies the CPU (proportional-share
//! stride scheduling with FIFO tie-break), tracks the single current task,
//! and mediates the task-relative operations: address-space mapping and
//! unmapping, per-task syscall accounting, and task introspection.
//!
//! The scheduler and processor are explicit objects handed down by the
//! caller; the raw context-switch primitive and the trap path live outside
//! this crate and drive it through [`kernel::Kernel`].

pub mod kernel;
pub mod manager;
pub mod mm;
pub mod processor;
pub mod task;
