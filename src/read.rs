use vstd::prelude::*;

use crate::progress::Progress;

verus! {

/// What a flat-buffer reader is told after the engine polled a read into a
/// cursor over its buffer: the cursor held `filled_before` bytes before the
/// call and `filled_after` bytes after it.
pub open spec fn read_report<E>(
    native: Progress<Result<(), E>>,
    filled_before: nat,
    filled_after: nat,
) -> Progress<Result<usize, E>> {
    match native {
        Progress::Pending => Progress::Pending,
        Progress::Ready(Ok(())) => Progress::Ready(Ok((filled_after - filled_before) as usize)),
        Progress::Ready(Err(e)) => Progress::Ready(Err(e)),
    }
}

/// Translates the outcome of an engine read into a cursor buffer of
/// `capacity` bytes into the outcome of a read into the flat buffer the
/// cursor covers. A pending poll and an error are passed on unchanged; a
/// finished read reports the number of bytes the cursor gained.
pub fn read_progress<E>(
    native: Progress<Result<(), E>>,
    filled_before: usize,
    filled_after: usize,
    capacity: usize,
) -> (r: Progress<Result<usize, E>>)
    requires
        filled_before <= filled_after <= capacity,
    ensures
        r == read_report(native, filled_before as nat, filled_after as nat),
        r matches Progress::Ready(Ok(n)) ==> n <= capacity && n == filled_after - filled_before,
{
    match native {
        Progress::Pending => Progress::Pending,
        Progress::Ready(Ok(())) => Progress::Ready(Ok(filled_after - filled_before)),
        Progress::Ready(Err(e)) => Progress::Ready(Err(e)),
    }
}

/// A read through a fresh cursor over a caller's buffer of `capacity` bytes
/// reports success exactly when the engine's read succeeded, and then a count
/// that fits in the buffer and equals the length of the filled leading region.
pub proof fn lemma_fresh_read_count<E>(
    native: Progress<Result<(), E>>,
    filled: nat,
    capacity: nat,
)
    requires
        filled <= capacity,
        capacity <= usize::MAX,
    ensures
        read_report(native, 0, filled) is Ready <==> native is Ready,
        (read_report(native, 0, filled) matches Progress::Ready(Ok(n))) <==> (native matches Progress::Ready(Ok(_))),
        read_report(native, 0, filled) matches Progress::Ready(Ok(n)) ==> n == filled && n <= capacity,
{
}

} // verus!
