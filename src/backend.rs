use vstd::prelude::*;

verus! {

/// The Tokio-flavoured bundle: Tokio's TCP and Unix listeners, its
/// filesystem and its process-wide runtime.
pub struct Tokio;

/// Filesystem access through Tokio's `fs` module.
pub struct TokioFS;

/// Tokio's runtime of the current context: tasks are spawned onto it and
/// blocking work goes to its blocking pool.
#[derive(Clone, Debug, Copy, PartialEq)]
pub struct TokioGlobalRuntime;

} // verus!
