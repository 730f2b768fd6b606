use vstd::prelude::*;

verus! {

/// The element yielded for one accept outcome: the accepted transport without
/// its peer address, or the accept error unchanged.
pub open spec fn accepted_item<T, A, E>(accepted: Result<(T, Option<A>), E>) -> Result<T, E> {
    match accepted {
        Ok((transport, _)) => Ok(transport),
        Err(e) => Err(e),
    }
}

/// What the accept-derived sequence yields after one accept; `None` would end
/// the sequence.
pub open spec fn incoming_step<T, A, E>(accepted: Result<(T, Option<A>), E>) -> Option<Result<T, E>> {
    Some(accepted_item(accepted))
}

/// Decides what the accept-derived sequence yields after one accept: always
/// an element (the sequence never ends, not even after an error), which is
/// the accepted transport or the accept error.
pub fn incoming_item<T, A, E>(accepted: Result<(T, Option<A>), E>) -> (r: Option<Result<T, E>>)
    ensures
        r == incoming_step(accepted),
{
    match accepted {
        Ok((transport, _addr)) => Some(Ok(transport)),
        Err(e) => Some(Err(e)),
    }
}

/// What a consumer pulling the sequence sees when the listener's accepts
/// complete with `outcomes`, in order: one accept per pull, and the sequence
/// ends at the first pull for which no element is yielded.
pub open spec fn pulled<T, A, E>(outcomes: Seq<Result<(T, Option<A>), E>>) -> Seq<Result<T, E>>
    decreases outcomes.len(),
{
    if outcomes.len() == 0 {
        Seq::empty()
    } else {
        match incoming_step(outcomes[0]) {
            Some(item) => seq![item] + pulled(outcomes.drop_first()),
            None => Seq::empty(),
        }
    }
}

/// Pulling the accept-derived sequence yields one element per accept, in the
/// order the accepts completed, each the accepted transport or the error of
/// that accept; a failed accept does not end the sequence.
pub proof fn lemma_incoming_in_accept_order<T, A, E>(outcomes: Seq<Result<(T, Option<A>), E>>)
    ensures
        pulled(outcomes).len() == outcomes.len(),
        forall|i: int| 0 <= i < outcomes.len() ==> #[trigger] pulled(outcomes)[i] == accepted_item(outcomes[i]),
        forall|i: int|
            0 <= i < outcomes.len() - 1 && outcomes[i] is Err ==> #[trigger] pulled(outcomes)[i + 1]
                == accepted_item(outcomes[i + 1]),
    decreases outcomes.len(),
{
    if outcomes.len() > 0 {
        let rest = outcomes.drop_first();
        lemma_incoming_in_accept_order(rest);
        assert forall|i: int| 0 <= i < outcomes.len() implies #[trigger] pulled(outcomes)[i]
            == accepted_item(outcomes[i]) by {
            if i > 0 {
                assert(pulled(outcomes)[i] == pulled(rest)[i - 1]);
                assert(outcomes[i] == rest[i - 1]);
            }
        }
    }
}

} // verus!
