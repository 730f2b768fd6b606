use vstd::prelude::*;

verus! {

/// The state of one poll of a non-blocking operation: finished with a value,
/// or not finished yet (the caller's waker has been registered by the engine).
#[derive(Debug, PartialEq, Eq)]
pub enum Progress<T> {
    Ready(T),
    Pending,
}

} // verus!
