//! Decision logic of the engine adapters: how a cursor-style read is reported
//! to a flat-buffer reader, how a two-phase seek is driven, and what the
//! accept-derived connection sequence yields; and the marker types that name
//! the Tokio backend's parts.
pub mod backend;
pub mod incoming;
pub mod progress;
pub mod read;
pub mod seek;

pub use backend::{Tokio, TokioFS, TokioGlobalRuntime};
pub use incoming::incoming_item;
pub use progress::Progress;
pub use read::read_progress;
pub use seek::{SeekAction, SeekEvent, SeekPhase, SeekState};
