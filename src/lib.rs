//! A minimal cooperative task executor, modelled without I/O.
//!
//! Computations are polled with a wake handle and answer `Ready` or
//! `Pending`. Timers park their wake handle in a wait cell, which stands for a
//! background thread that sleeps until the deadline and then invokes the
//! handle. The executor drains a FIFO ready queue and is told from outside
//! when a wait cell fires; the caller performs the sleeping and hands back the
//! events.
//!
//! Beside the executor: `db`, the command logic of a small key-value server,
//! and `scene`, the decisions of a renderer (resizing, input, which bind group
//! a frame draws with, the vertex layout and index table), both on plain
//! values.
pub mod status;
pub mod waiters;
pub mod timer;
pub mod computation;
pub mod tick;
pub mod executor;
pub mod laws;
pub mod db;
pub mod scene;
