//! A cross-runtime task-dispatch bridge.
//!
//! A single-threaded host submits operations against stateful client
//! resources named by opaque handles.  The library verifies the logic of
//! that bridge: the handle registry (open, resolve, close), the closed set
//! of supported operations and their access modes, the canonical text
//! encoding of task results, the uniform failure representation, and the
//! exactly-once delivery of task outcomes onto the host's queue.  The
//! surrounding executor, locks and host glue live outside the library and
//! drive it through plain values.

pub mod address;
pub mod bridge;
pub mod encode;
pub mod failure;
pub mod operation;
pub mod registry;
pub mod text;
