use vstd::prelude::*;

use crate::progress::Progress;

verus! {

/// Where a seek adapter stands with respect to the engine's two-phase seek.
#[derive(Debug, Clone, Copy, PartialEq, Eq)]
pub enum SeekPhase {
    /// No seek is in flight.
    Idle,
    /// The adapter asked for the seek to be started and awaits the result.
    AwaitStart,
    /// The adapter asked for the completion to be polled and awaits the result.
    AwaitCompletion,
    /// A started seek has not completed yet; the caller will poll again.
    InFlight,
}

/// What the adapter is told: a seek call from the caller, or the result of
/// an engine call it asked for.
#[derive(Debug)]
pub enum SeekEvent<P, E> {
    /// The caller polls a seek to the given position.
    Called(P),
    /// The engine's "start seek" call returned.
    StartDone(Result<(), E>),
    /// The engine's "poll completion" call returned.
    Completed(Progress<Result<u64, E>>),
}

/// What the adapter asks for next.
#[derive(Debug)]
pub enum SeekAction<P, E> {
    /// Call the engine's "start seek" with this position.
    IssueStart(P),
    /// Call the engine's "poll completion".
    PollCompletion,
    /// Hand this outcome to the caller and end the current seek call.
    Finish(Progress<Result<u64, E>>),
}

/// The events the adapter can take in a phase.
pub open spec fn accepts<P, E>(phase: SeekPhase, event: SeekEvent<P, E>) -> bool {
    match event {
        SeekEvent::Called(_) => phase == SeekPhase::Idle || phase == SeekPhase::InFlight,
        SeekEvent::StartDone(_) => phase == SeekPhase::AwaitStart,
        SeekEvent::Completed(_) => phase == SeekPhase::AwaitCompletion,
    }
}

/// The phase and action after an accepted event. A seek is started only when
/// none is in flight; a start failure ends the call at once without polling;
/// a completion result is handed on unchanged, and only a finished one ends
/// the seek. A call made while a seek is in flight continues that seek.
pub open spec fn next<P, E>(phase: SeekPhase, event: SeekEvent<P, E>) -> (SeekPhase, SeekAction<P, E>) {
    match event {
        SeekEvent::Called(pos) => if phase == SeekPhase::Idle {
            (SeekPhase::AwaitStart, SeekAction::IssueStart(pos))
        } else {
            (SeekPhase::AwaitCompletion, SeekAction::PollCompletion)
        },
        SeekEvent::StartDone(Ok(())) => (SeekPhase::AwaitCompletion, SeekAction::PollCompletion),
        SeekEvent::StartDone(Err(e)) => (SeekPhase::Idle, SeekAction::Finish(Progress::Ready(Err(e)))),
        SeekEvent::Completed(Progress::Pending) => (SeekPhase::InFlight, SeekAction::Finish(Progress::Pending)),
        SeekEvent::Completed(Progress::Ready(r)) => (SeekPhase::Idle, SeekAction::Finish(Progress::Ready(r))),
    }
}

/// The phase and actions after a run of events, first event first.
pub open spec fn run<P, E>(phase: SeekPhase, events: Seq<SeekEvent<P, E>>) -> (SeekPhase, Seq<SeekAction<P, E>>)
    decreases events.len(),
{
    if events.len() == 0 {
        (phase, Seq::empty())
    } else {
        let (p, a) = next(phase, events[0]);
        let (q, rest) = run(p, events.drop_first());
        (q, seq![a] + rest)
    }
}

/// Whether every event of a run is accepted in the phase it arrives in.
pub open spec fn run_accepted<P, E>(phase: SeekPhase, events: Seq<SeekEvent<P, E>>) -> bool
    decreases events.len(),
{
    events.len() == 0 || (accepts(phase, events[0]) && run_accepted(
        next(phase, events[0]).0,
        events.drop_first(),
    ))
}

/// Events from the engine's completion polls of a started seek that is
/// reported pending `k` times and then finished with `res`; between two polls
/// the caller polls the seek again, to `pos`.
pub open spec fn completion_events<P, E>(pos: P, k: nat, res: Result<u64, E>) -> Seq<SeekEvent<P, E>>
    decreases k,
{
    if k == 0 {
        seq![SeekEvent::Completed(Progress::Ready(res))]
    } else {
        seq![SeekEvent::Completed(Progress::Pending), SeekEvent::Called(pos)]
            + completion_events(pos, (k - 1) as nat, res)
    }
}

/// The actions the adapter takes on `completion_events(pos, k, res)`.
pub open spec fn completion_actions<P, E>(k: nat, res: Result<u64, E>) -> Seq<SeekAction<P, E>>
    decreases k,
{
    if k == 0 {
        seq![SeekAction::Finish(Progress::Ready(res))]
    } else {
        seq![SeekAction::Finish(Progress::Pending), SeekAction::PollCompletion]
            + completion_actions((k - 1) as nat, res)
    }
}

proof fn lemma_completion_run<P, E>(pos: P, k: nat, res: Result<u64, E>)
    ensures
        run_accepted(SeekPhase::AwaitCompletion, completion_events(pos, k, res)),
        run(SeekPhase::AwaitCompletion, completion_events(pos, k, res))
            == (SeekPhase::Idle, completion_actions::<P, E>(k, res)),
        forall|i: int|
            0 <= i < completion_actions::<P, E>(k, res).len()
                ==> !(completion_actions::<P, E>(k, res)[i] is IssueStart),
    decreases k,
{
    let evs = completion_events(pos, k, res);
    if k == 0 {
        assert(evs.drop_first() =~= Seq::<SeekEvent<P, E>>::empty());
        assert(run(SeekPhase::Idle, evs.drop_first()) == (SeekPhase::Idle, Seq::<SeekAction<P, E>>::empty()));
        assert(run_accepted(SeekPhase::Idle, evs.drop_first()));
        let acts = completion_actions::<P, E>(k, res);
        assert(run(SeekPhase::AwaitCompletion, evs).1 =~= acts);
    } else {
        let tail = completion_events(pos, (k - 1) as nat, res);
        lemma_completion_run(pos, (k - 1) as nat, res);
        assert(evs.drop_first() =~= seq![SeekEvent::Called(pos)] + tail);
        assert((seq![SeekEvent::Called(pos)] + tail).drop_first() =~= tail);
        let acts = completion_actions::<P, E>(k, res);
        let tail_acts = completion_actions::<P, E>((k - 1) as nat, res);
        assert(run(SeekPhase::InFlight, evs.drop_first()).1
            =~= seq![SeekAction::<P, E>::PollCompletion] + tail_acts);
        assert(run_accepted(SeekPhase::InFlight, evs.drop_first()));
        assert(run(SeekPhase::AwaitCompletion, evs).1 =~= acts);
        assert forall|i: int| 0 <= i < acts.len() implies !(acts[i] is IssueStart) by {
            if i >= 2 {
                assert(acts[i] == tail_acts[i - 2]);
            }
        }
    }
}

/// A seek driven by the caller's first poll to `pos`, a successful start,
/// `k` pending completion polls each followed by another poll from the
/// caller, and a completion that finishes with `res`: the adapter starts the
/// seek exactly once, with `pos`, never again while it is in flight, hands
/// `res` to the caller unchanged and is left with no seek in flight.
pub proof fn lemma_seek_starts_once<P, E>(pos: P, k: nat, res: Result<u64, E>)
    ensures
        ({
            let events = seq![SeekEvent::Called(pos), SeekEvent::StartDone(Ok(()))]
                + completion_events(pos, k, res);
            let actions = seq![SeekAction::IssueStart(pos), SeekAction::PollCompletion]
                + completion_actions::<P, E>(k, res);
            &&& run_accepted(SeekPhase::Idle, events)
            &&& run(SeekPhase::Idle, events) == (SeekPhase::Idle, actions)
            &&& forall|i: int| 0 < i < actions.len() ==> !(actions[i] is IssueStart)
            &&& actions.last() == SeekAction::<P, E>::Finish(Progress::Ready(res))
        }),
{
    let tail = completion_events(pos, k, res);
    let events = seq![SeekEvent::Called(pos), SeekEvent::StartDone(Ok(()))] + tail;
    let tail_acts = completion_actions::<P, E>(k, res);
    let actions = seq![SeekAction::IssueStart(pos), SeekAction::PollCompletion] + tail_acts;
    lemma_completion_run(pos, k, res);
    lemma_completion_last::<P, E>(k, res);
    assert(events.drop_first() =~= seq![SeekEvent::StartDone(Ok(()))] + tail);
    assert((seq![SeekEvent::<P, E>::StartDone(Ok(()))] + tail).drop_first() =~= tail);
    assert(run(SeekPhase::AwaitStart, events.drop_first()).1
        =~= seq![SeekAction::<P, E>::PollCompletion] + tail_acts);
    assert(run_accepted(SeekPhase::AwaitStart, events.drop_first()));
    assert(run(SeekPhase::Idle, events).1 =~= actions);
    assert forall|i: int| 0 < i < actions.len() implies !(actions[i] is IssueStart) by {
        if i >= 2 {
            assert(actions[i] == tail_acts[i - 2]);
        }
    }
}

proof fn lemma_completion_last<P, E>(k: nat, res: Result<u64, E>)
    ensures
        completion_actions::<P, E>(k, res).len() > 0,
        completion_actions::<P, E>(k, res).last() == SeekAction::<P, E>::Finish(Progress::Ready(res)),
    decreases k,
{
    if k > 0 {
        lemma_completion_last::<P, E>((k - 1) as nat, res);
    }
}

/// A seek whose start fails with `e` ends the caller's poll at once with that
/// error, without polling for completion, and leaves no seek in flight.
pub proof fn lemma_seek_start_failure<P, E>(pos: P, e: E)
    ensures
        ({
            let events = seq![SeekEvent::Called(pos), SeekEvent::StartDone(Err(e))];
            &&& run_accepted(SeekPhase::Idle, events)
            &&& run(SeekPhase::Idle, events) == (
                SeekPhase::Idle,
                seq![SeekAction::IssueStart(pos), SeekAction::Finish(Progress::Ready(Err(e)))],
            )
        }),
{
    let events = seq![SeekEvent::<P, E>::Called(pos), SeekEvent::StartDone(Err(e))];
    let rest = events.drop_first();
    assert(rest =~= seq![SeekEvent::<P, E>::StartDone(Err(e))]);
    assert(rest.drop_first() =~= Seq::<SeekEvent<P, E>>::empty());
    assert(run(SeekPhase::Idle, rest.drop_first()) == (SeekPhase::Idle, Seq::<SeekAction<P, E>>::empty()));
    assert(run_accepted(SeekPhase::Idle, rest.drop_first()));
    assert(run_accepted(SeekPhase::AwaitStart, rest));
    assert(run(SeekPhase::AwaitStart, rest).1 =~= seq![SeekAction::<P, E>::Finish(Progress::Ready(Err(e)))]);
    assert(run(SeekPhase::Idle, events).1 =~= seq![
        SeekAction::IssueStart(pos),
        SeekAction::Finish(Progress::Ready(Err(e))),
    ]);
}

/// Drives one file's seeks over the engine's "start, then poll completion"
/// protocol, remembering whether a seek is in flight so that a repeated poll
/// of a pending seek does not start it again.
#[derive(Debug)]
pub struct SeekState {
    phase: SeekPhase,
}

impl SeekState {
    pub closed spec fn phase(&self) -> SeekPhase {
        self.phase
    }

    /// A state with no seek in flight.
    pub fn new() -> (r: SeekState)
        ensures
            r.phase() == SeekPhase::Idle,
    {
        SeekState { phase: SeekPhase::Idle }
    }

    /// Whether the state can take `event` now.
    pub fn can_take<P, E>(&self, event: &SeekEvent<P, E>) -> (r: bool)
        ensures
            r == accepts(self.phase(), *event),
    {
        match event {
            SeekEvent::Called(_) => match self.phase {
                SeekPhase::Idle => true,
                SeekPhase::InFlight => true,
                _ => false,
            },
            SeekEvent::StartDone(_) => match self.phase {
                SeekPhase::AwaitStart => true,
                _ => false,
            },
            SeekEvent::Completed(_) => match self.phase {
                SeekPhase::AwaitCompletion => true,
                _ => false,
            },
        }
    }

    /// Takes one event and returns the action to perform.
    pub fn step<P, E>(&mut self, event: SeekEvent<P, E>) -> (r: SeekAction<P, E>)
        requires
            accepts(old(self).phase(), event),
        ensures
            (final(self).phase(), r) == next(old(self).phase(), event),
    {
        match event {
            SeekEvent::Called(pos) => match self.phase {
                SeekPhase::Idle => {
                    self.phase = SeekPhase::AwaitStart;
                    SeekAction::IssueStart(pos)
                },
                _ => {
                    self.phase = SeekPhase::AwaitCompletion;
                    SeekAction::PollCompletion
                },
            },
            SeekEvent::StartDone(Ok(())) => {
                self.phase = SeekPhase::AwaitCompletion;
                SeekAction::PollCompletion
            },
            SeekEvent::StartDone(Err(e)) => {
                self.phase = SeekPhase::Idle;
                SeekAction::Finish(Progress::Ready(Err(e)))
            },
            SeekEvent::Completed(Progress::Pending) => {
                self.phase = SeekPhase::InFlight;
                SeekAction::Finish(Progress::Pending)
            },
            SeekEvent::Completed(Progress::Ready(res)) => {
                self.phase = SeekPhase::Idle;
                SeekAction::Finish(Progress::Ready(res))
            },
        }
    }
}

} // verus!
