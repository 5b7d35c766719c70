//! A single-threaded cooperative task executor for device-emulation I/O,
//! with two interchangeable completion strategies (readiness polling and a
//! completion-queue ring), an async wrapper for a countable notification
//! primitive, a fixed-arity race combinator, and the pure decision logic of
//! a memory-balloon device worker together with a debug-stub reply encoder.
//!
//! The kernel-facing side (the actual syscalls, the blocking demultiplexing
//! call, thread spawning) is performed by the embedding program; this crate
//! holds every decision, table, and byte computation, each with a proved
//! contract.

pub mod balloon;
pub mod completion;
pub mod event;
pub mod executor;
pub mod readiness;
pub mod ring;
pub mod reply;
pub mod sg;
pub mod source;
