use vstd::prelude::*;

verus! {

// ---------------------------------------------------------------------------
// Taking over legacy data on first start
//
// The caller walks the candidate directories (see
// `misc::legacy_candidates`): it reports what it found, performs the action
// it is told, and reports the outcome, until the machine is done.
// ---------------------------------------------------------------------------

/// Where the takeover stands.
pub enum TakeoverState {
    /// Nothing looked at yet.
    Start,
    /// Looking at the candidate with this index.
    Probing(usize),
    /// Finished: skipped, or the marker is (being) written.
    Done,
}

/// What the caller found or what an action came to.
pub enum TakeoverEvent {
    /// Whether the marker file and the target database exist.
    Found { marker: bool, target_db: bool },
    /// Whether the current candidate holds a legacy database.
    LegacyDb(bool),
    /// Whether copying the current candidate's database succeeded.
    Copied(bool),
}

/// What the caller does next.
pub enum TakeoverAction {
    /// Nothing more: leave everything as it is.
    Skip,
    /// Look for a legacy database under the candidate with this index.
    ProbeCandidate(usize),
    /// Copy the database of the candidate with this index.
    CopyDb(usize),
    /// Copy the image directory of the candidate with this index (where it
    /// exists), then write the marker.
    CopyImagesThenMark(usize),
    /// Write the marker.
    Mark,
}

/// The next candidate after `i`, or the end: the marker is written even when
/// no candidate held anything, so that the search is not repeated.
pub open spec fn after_candidate(i: int, n: int) -> (TakeoverState, TakeoverAction) {
    if i + 1 < n {
        (TakeoverState::Probing((i + 1) as usize), TakeoverAction::ProbeCandidate((i + 1) as usize))
    } else {
        (TakeoverState::Done, TakeoverAction::Mark)
    }
}

/// One step of the takeover over `n` candidates. Events that do not fit the
/// state change nothing and end the walk.
pub open spec fn takeover_next(state: TakeoverState, event: TakeoverEvent, n: int) -> (
    TakeoverState,
    TakeoverAction,
) {
    match state {
        TakeoverState::Start => match event {
            TakeoverEvent::Found { marker, target_db } => if marker || target_db {
                (TakeoverState::Done, TakeoverAction::Skip)
            } else if n > 0 {
                (TakeoverState::Probing(0), TakeoverAction::ProbeCandidate(0))
            } else {
                (TakeoverState::Done, TakeoverAction::Mark)
            },
            _ => (TakeoverState::Start, TakeoverAction::Skip),
        },
        TakeoverState::Probing(i) => match event {
            TakeoverEvent::LegacyDb(true) => (TakeoverState::Probing(i), TakeoverAction::CopyDb(i)),
            TakeoverEvent::LegacyDb(false) => after_candidate(i as int, n),
            TakeoverEvent::Copied(true) => (
                TakeoverState::Done,
                TakeoverAction::CopyImagesThenMark(i),
            ),
            TakeoverEvent::Copied(false) => after_candidate(i as int, n),
            _ => (TakeoverState::Probing(i), TakeoverAction::Skip),
        },
        TakeoverState::Done => (TakeoverState::Done, TakeoverAction::Skip),
    }
}

/// A state that can occur over `n` candidates: a probed index is one of them.
pub open spec fn takeover_valid(state: TakeoverState, n: int) -> bool {
    match state {
        TakeoverState::Probing(i) => i < n,
        _ => true,
    }
}

/// The candidate an action names, if any.
pub open spec fn action_candidate(action: TakeoverAction) -> Option<int> {
    match action {
        TakeoverAction::ProbeCandidate(i) => Some(i as int),
        TakeoverAction::CopyDb(i) => Some(i as int),
        TakeoverAction::CopyImagesThenMark(i) => Some(i as int),
        _ => None,
    }
}

fn next_candidate(i: usize, n: usize) -> (res: (TakeoverState, TakeoverAction))
    requires
        i < n,
    ensures
        res == after_candidate(i as int, n as int),
{
    if i + 1 < n {
        (TakeoverState::Probing(i + 1), TakeoverAction::ProbeCandidate(i + 1))
    } else {
        (TakeoverState::Done, TakeoverAction::Mark)
    }
}

/// Decides the next step of taking over legacy data: skip when the marker or
/// the target database exists; otherwise try the candidates in order, go on
/// to the next one when a candidate has no database or copying it failed,
/// and after the first successful copy copy its images and write the marker.
pub fn takeover_step(state: TakeoverState, event: TakeoverEvent, n: usize) -> (res: (
    TakeoverState,
    TakeoverAction,
))
    requires
        takeover_valid(state, n as int),
    ensures
        // at the start: skip when the marker or the target database exists,
        // else probe the first candidate (or only mark when there is none)
        state is Start && event is Found ==> if event->marker || event->target_db {
            res == (TakeoverState::Done, TakeoverAction::Skip)
        } else if n > 0 {
            res == (TakeoverState::Probing(0), TakeoverAction::ProbeCandidate(0))
        } else {
            res == (TakeoverState::Done, TakeoverAction::Mark)
        },
        // a candidate with a database: copy it
        state is Probing && event == TakeoverEvent::LegacyDb(true) ==> res == (
            state,
            TakeoverAction::CopyDb(state->Probing_0),
        ),
        // no database, or the copy failed: the next candidate, or mark at the end
        state is Probing && (event == TakeoverEvent::LegacyDb(false) || event == TakeoverEvent::Copied(
            false,
        )) ==> if state->Probing_0 + 1 < n {
            res == (
                TakeoverState::Probing((state->Probing_0 + 1) as usize),
                TakeoverAction::ProbeCandidate((state->Probing_0 + 1) as usize),
            )
        } else {
            res == (TakeoverState::Done, TakeoverAction::Mark)
        },
        // the copy succeeded: its images, then the marker, and done
        state is Probing && event == TakeoverEvent::Copied(true) ==> res == (
            TakeoverState::Done,
            TakeoverAction::CopyImagesThenMark(state->Probing_0),
        ),
        // done stays done and does nothing
        state is Done ==> res == (TakeoverState::Done, TakeoverAction::Skip),
        // an event that does not fit the state changes nothing and ends the walk
        (state is Start && !(event is Found)) || (state is Probing && event is Found) ==> res == (
            state,
            TakeoverAction::Skip,
        ),
        res == takeover_next(state, event, n as int),
        takeover_valid(res.0, n as int),
        action_candidate(res.1) matches Some(i) ==> 0 <= i < n,
{
    match state {
        TakeoverState::Start => match event {
            TakeoverEvent::Found { marker, target_db } => {
                if marker || target_db {
                    (TakeoverState::Done, TakeoverAction::Skip)
                } else if n > 0 {
                    (TakeoverState::Probing(0), TakeoverAction::ProbeCandidate(0))
                } else {
                    (TakeoverState::Done, TakeoverAction::Mark)
                }
            },
            _ => (TakeoverState::Start, TakeoverAction::Skip),
        },
        TakeoverState::Probing(i) => match event {
            TakeoverEvent::LegacyDb(found) => {
                if found {
                    (TakeoverState::Probing(i), TakeoverAction::CopyDb(i))
                } else {
                    next_candidate(i, n)
                }
            },
            TakeoverEvent::Copied(ok) => {
                if ok {
                    (TakeoverState::Done, TakeoverAction::CopyImagesThenMark(i))
                } else {
                    next_candidate(i, n)
                }
            },
            _ => (TakeoverState::Probing(i), TakeoverAction::Skip),
        },
        TakeoverState::Done => (TakeoverState::Done, TakeoverAction::Skip),
    }
}

/// Law: the takeover happens at most once. Once done, every event is
/// answered by doing nothing; and a later start that finds the marker (or
/// the target database) does nothing either.
pub proof fn law_takeover_runs_once(event: TakeoverEvent, n: int, target_db: bool)
    ensures
        takeover_next(TakeoverState::Done, event, n) == (TakeoverState::Done, TakeoverAction::Skip),
        takeover_next(
            TakeoverState::Start,
            TakeoverEvent::Found { marker: true, target_db },
            n,
        ) == (TakeoverState::Done, TakeoverAction::Skip),
{
}

/// Law: every step moves forward: from a probed candidate to the same one
/// (to copy it), to a later one, or to the end; so the walk ends after at
/// most two steps per candidate, and the marker is written exactly when the
/// walk ends without a skip.
pub proof fn law_takeover_moves_forward(state: TakeoverState, event: TakeoverEvent, n: usize)
    requires
        takeover_valid(state, n as int),
    ensures
        ({
            let (next, action) = takeover_next(state, event, n as int);
            &&& takeover_valid(next, n as int)
            &&& (state matches TakeoverState::Probing(i) ==> match next {
                TakeoverState::Probing(k) => k == i || k == i + 1,
                TakeoverState::Done => true,
                TakeoverState::Start => false,
            })
            &&& (next is Done && !(state is Done) ==> (action is Skip || action is Mark
                || action is CopyImagesThenMark))
            &&& (action is Mark || action is CopyImagesThenMark ==> next is Done)
        }),
{
}

} // verus!
