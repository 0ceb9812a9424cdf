//! The course of a tunnel: resolve the target, then walk through its
//! candidate addresses in order until one connects, relay, and close.
//!
//! The tunnel itself does no I/O here. The caller performs each action and
//! reports what came of it as an event; `advance` answers with the next state
//! and the next action.

use vstd::prelude::*;

verus! {

/// Where a tunnel stands.
#[derive(Clone, Copy, Debug, PartialEq, Eq, Structural)]
pub enum TunnelState {
    /// The target is being resolved.
    Resolving,
    /// A socket is being made and bound for candidate `candidate` of
    /// `candidates`.
    Binding { candidate: usize, candidates: usize },
    /// The bound socket is connecting to candidate `candidate`.
    Connecting { candidate: usize, candidates: usize },
    /// Bytes are being relayed in both directions.
    Relaying,
    /// The tunnel is over.
    Closed,
}

/// What the caller reports of the action it performed.
#[derive(Clone, Copy, Debug, PartialEq, Eq, Structural)]
pub enum TunnelEvent {
    /// The target resolved to `candidates` addresses.
    Resolved { candidates: usize },
    /// The target is invalid or did not resolve.
    Unresolved,
    /// No socket could be made.
    NoSocket,
    /// The socket is bound to the egress address.
    Bound,
    /// The egress address could not be bound.
    BindFailed,
    /// The socket is connected to the candidate.
    Connected,
    /// The candidate could not be reached.
    ConnectFailed,
    /// The relay ended: `clean` where a side closed, not where I/O failed.
    RelayEnded { clean: bool },
}

/// How a tunnel ended.
#[derive(Clone, Copy, Debug, PartialEq, Eq, Structural)]
pub enum TunnelOutcome {
    /// Bytes were relayed until a side closed.
    Relayed,
    /// The target did not resolve; no tunnel was set up.
    Unresolved,
    /// No candidate could be bound for and connected to.
    Exhausted,
    /// Making a socket failed, or the relay ended in an I/O error.
    Failed,
}

/// What the caller is to do next.
#[derive(Clone, Copy, Debug, PartialEq, Eq, Structural)]
pub enum TunnelAction {
    /// Make a socket and bind it to a fresh egress address, for candidate
    /// `candidate`.
    Bind { candidate: usize },
    /// Connect the bound socket to candidate `candidate`.
    Connect { candidate: usize },
    /// Relay bytes in both directions until a side closes or I/O fails.
    Relay,
    /// Close both ends; the tunnel ended as `outcome` says.
    Finish { outcome: TunnelOutcome },
}

impl TunnelOutcome {
    /// Whether the tunnel ended without an I/O error. A target that did not
    /// resolve and a target with no reachable candidate count as success:
    /// only a failure to make a socket or a failed relay is an error.
    pub open spec fn spec_is_success(&self) -> bool {
        !(*self matches TunnelOutcome::Failed)
    }

    /// Whether the tunnel ended without an I/O error.
    #[verifier::when_used_as_spec(spec_is_success)]
    pub fn is_success(&self) -> (success: bool)
        ensures
            success == self.spec_is_success(),
    {
        match self {
            TunnelOutcome::Failed => false,
            _ => true,
        }
    }
}

impl TunnelState {
    /// Validity: the candidate at hand is one of the candidates.
    pub open spec fn wf(&self) -> bool {
        match *self {
            TunnelState::Binding { candidate, candidates } => candidate < candidates,
            TunnelState::Connecting { candidate, candidates } => candidate < candidates,
            _ => true,
        }
    }

    /// Number of events that can still come, at most, once the target has
    /// resolved: two for each candidate that is left, and the relay and its
    /// end. While the target is being resolved the number of candidates is not
    /// known yet, and this is 0.
    pub open spec fn remaining_actions(&self) -> nat {
        match *self {
            TunnelState::Resolving => 0,
            TunnelState::Binding { candidate, candidates } => (2 * (candidates - candidate)
                + 2) as nat,
            TunnelState::Connecting { candidate, candidates } => (2 * (candidates - candidate)
                + 1) as nat,
            TunnelState::Relaying => 1,
            TunnelState::Closed => 0,
        }
    }
}

/// The state in which every tunnel begins. The first thing to do is to
/// resolve the target.
pub fn start() -> (state: TunnelState)
    ensures
        state == TunnelState::Resolving,
{
    TunnelState::Resolving
}

/// What follows when candidate `candidate` of `candidates` has failed: the
/// next candidate in order, or the end where none is left.
pub open spec fn after_failure(candidate: usize, candidates: usize) -> (TunnelState, TunnelAction) {
    if candidate + 1 < candidates {
        (
            TunnelState::Binding { candidate: (candidate + 1) as usize, candidates },
            TunnelAction::Bind { candidate: (candidate + 1) as usize },
        )
    } else {
        (TunnelState::Closed, TunnelAction::Finish { outcome: TunnelOutcome::Exhausted })
    }
}

/// The next state and action for an event in a state, or none where the
/// event cannot happen in that state.
pub open spec fn advance_spec(state: TunnelState, event: TunnelEvent) -> Option<
    (TunnelState, TunnelAction),
> {
    match (state, event) {
        (TunnelState::Resolving, TunnelEvent::Resolved { candidates }) => if candidates == 0 {
            Some((TunnelState::Closed, TunnelAction::Finish { outcome: TunnelOutcome::Exhausted }))
        } else {
            Some(
                (
                    TunnelState::Binding { candidate: 0, candidates },
                    TunnelAction::Bind { candidate: 0 },
                ),
            )
        },
        (TunnelState::Resolving, TunnelEvent::Unresolved) => Some(
            (TunnelState::Closed, TunnelAction::Finish { outcome: TunnelOutcome::Unresolved }),
        ),
        (TunnelState::Binding { candidate, candidates }, TunnelEvent::Bound) => Some(
            (TunnelState::Connecting { candidate, candidates }, TunnelAction::Connect { candidate }),
        ),
        (TunnelState::Binding { candidate, candidates }, TunnelEvent::BindFailed) => Some(
            after_failure(candidate, candidates),
        ),
        (TunnelState::Binding { .. }, TunnelEvent::NoSocket) => Some(
            (TunnelState::Closed, TunnelAction::Finish { outcome: TunnelOutcome::Failed }),
        ),
        (TunnelState::Connecting { .. }, TunnelEvent::Connected) => Some(
            (TunnelState::Relaying, TunnelAction::Relay),
        ),
        (TunnelState::Connecting { candidate, candidates }, TunnelEvent::ConnectFailed) => Some(
            after_failure(candidate, candidates),
        ),
        (TunnelState::Relaying, TunnelEvent::RelayEnded { clean }) => Some(
            (
                TunnelState::Closed,
                TunnelAction::Finish {
                    outcome: if clean {
                        TunnelOutcome::Relayed
                    } else {
                        TunnelOutcome::Failed
                    },
                },
            ),
        ),
        _ => None,
    }
}

/// Moves on from a failed candidate.
fn move_on(candidate: usize, candidates: usize) -> (next: (TunnelState, TunnelAction))
    ensures
        next == after_failure(candidate, candidates),
{
    if candidates > 0 && candidate < candidates - 1 {
        (
            TunnelState::Binding { candidate: candidate + 1, candidates },
            TunnelAction::Bind { candidate: candidate + 1 },
        )
    } else {
        (TunnelState::Closed, TunnelAction::Finish { outcome: TunnelOutcome::Exhausted })
    }
}

/// Answers an event with the next state and the next action.
///
/// Candidates are tried in the order of resolution. A candidate for which
/// the egress address cannot be bound, or which cannot be reached, is passed
/// over for the next one; the first that connects is relayed over and the
/// rest are not tried. Failing to make a socket ends the tunnel at once. An
/// event that cannot happen in the state is refused with `None`.
pub fn advance(state: TunnelState, event: TunnelEvent) -> (step: Option<
    (TunnelState, TunnelAction),
>)
    ensures
        step == advance_spec(state, event),
{
    match state {
        TunnelState::Resolving => match event {
            TunnelEvent::Resolved { candidates } => {
                if candidates == 0 {
                    Some(
                        (
                            TunnelState::Closed,
                            TunnelAction::Finish { outcome: TunnelOutcome::Exhausted },
                        ),
                    )
                } else {
                    Some(
                        (
                            TunnelState::Binding { candidate: 0, candidates },
                            TunnelAction::Bind { candidate: 0 },
                        ),
                    )
                }
            },
            TunnelEvent::Unresolved => Some(
                (TunnelState::Closed, TunnelAction::Finish { outcome: TunnelOutcome::Unresolved }),
            ),
            _ => None,
        },
        TunnelState::Binding { candidate, candidates } => match event {
            TunnelEvent::Bound => Some(
                (
                    TunnelState::Connecting { candidate, candidates },
                    TunnelAction::Connect { candidate },
                ),
            ),
            TunnelEvent::BindFailed => Some(move_on(candidate, candidates)),
            TunnelEvent::NoSocket => Some(
                (TunnelState::Closed, TunnelAction::Finish { outcome: TunnelOutcome::Failed }),
            ),
            _ => None,
        },
        TunnelState::Connecting { candidate, candidates } => match event {
            TunnelEvent::Connected => Some((TunnelState::Relaying, TunnelAction::Relay)),
            TunnelEvent::ConnectFailed => Some(move_on(candidate, candidates)),
            _ => None,
        },
        TunnelState::Relaying => match event {
            TunnelEvent::RelayEnded { clean } => {
                let outcome = if clean {
                    TunnelOutcome::Relayed
                } else {
                    TunnelOutcome::Failed
                };
                Some((TunnelState::Closed, TunnelAction::Finish { outcome }))
            },
            _ => None,
        },
        TunnelState::Closed => None,
    }
}

/// A failed bind does not end the tunnel while candidates are left: the next
/// candidate in order is bound for.
pub proof fn lemma_bind_failure_tries_next(candidate: usize, candidates: usize)
    requires
        candidate + 1 < candidates,
    ensures
        advance_spec(TunnelState::Binding { candidate, candidates }, TunnelEvent::BindFailed)
            == Some(
            (
                TunnelState::Binding { candidate: (candidate + 1) as usize, candidates },
                TunnelAction::Bind { candidate: (candidate + 1) as usize },
            ),
        ),
{
}

/// A candidate that cannot be reached does not end the tunnel while
/// candidates are left: the next candidate in order is bound for.
pub proof fn lemma_connect_failure_tries_next(candidate: usize, candidates: usize)
    requires
        candidate + 1 < candidates,
    ensures
        advance_spec(TunnelState::Connecting { candidate, candidates }, TunnelEvent::ConnectFailed)
            == Some(
            (
                TunnelState::Binding { candidate: (candidate + 1) as usize, candidates },
                TunnelAction::Bind { candidate: (candidate + 1) as usize },
            ),
        ),
{
}

/// Every step leads from a valid state to a valid state, names in its action
/// the candidate that the new state is about, and ends the tunnel exactly
/// where the action is to finish.
pub proof fn lemma_advance_keeps_valid(state: TunnelState, event: TunnelEvent)
    requires
        state.wf(),
        advance_spec(state, event) is Some,
    ensures
        ({
            let (next, action) = advance_spec(state, event)->0;
            &&& next.wf()
            &&& (next == TunnelState::Closed <==> action is Finish)
            &&& (action matches TunnelAction::Bind { candidate } ==> next matches TunnelState::Binding {
                candidate: c,
                ..
            } && c == candidate)
            &&& (action matches TunnelAction::Connect { candidate }
                ==> next matches TunnelState::Connecting { candidate: c, .. } && c == candidate)
            &&& (action is Relay <==> next == TunnelState::Relaying)
        }),
{
}

/// Once the target has resolved, every step brings the tunnel nearer to its
/// end: the number of actions that may still follow goes down.
pub proof fn lemma_advance_makes_progress(state: TunnelState, event: TunnelEvent)
    requires
        state.wf(),
        state != TunnelState::Resolving,
        advance_spec(state, event) is Some,
    ensures
        (advance_spec(state, event)->0).0.remaining_actions() < state.remaining_actions(),
{
}

/// The state that a run of events leads to, or none where one of the events
/// cannot happen in the state that the events before it led to.
pub open spec fn run(state: TunnelState, events: Seq<TunnelEvent>) -> Option<TunnelState>
    decreases events.len(),
{
    if events.len() == 0 {
        Some(state)
    } else {
        match advance_spec(state, events[0]) {
            Some((next, _)) => run(next, events.drop_first()),
            None => None,
        }
    }
}

/// A tunnel comes to its end: once the target has resolved, no run of events
/// is longer than the number of actions that were still to come, which is at
/// most two for each candidate that is left and two more.
pub proof fn lemma_runs_are_bounded(state: TunnelState, events: Seq<TunnelEvent>)
    requires
        state.wf(),
        state != TunnelState::Resolving,
        run(state, events) is Some,
    ensures
        events.len() <= state.remaining_actions(),
        run(state, events)->0.wf(),
    decreases events.len(),
{
    if events.len() > 0 {
        lemma_advance_keeps_valid(state, events[0]);
        lemma_advance_makes_progress(state, events[0]);
        let next = (advance_spec(state, events[0])->0).0;
        lemma_runs_are_bounded(next, events.drop_first());
    }
}

/// A run of two runs in a row is the second run from where the first led.
pub proof fn lemma_run_in_a_row(state: TunnelState, first: Seq<TunnelEvent>, second: Seq<TunnelEvent>)
    ensures
        run(state, first + second) == match run(state, first) {
            Some(between) => run(between, second),
            None => None,
        },
    decreases first.len(),
{
    if first.len() == 0 {
        assert(first + second =~= second);
    } else {
        assert((first + second)[0] == first[0]);
        assert((first + second).drop_first() =~= first.drop_first() + second);
        match advance_spec(state, first[0]) {
            Some((next, _)) => {
                lemma_run_in_a_row(next, first.drop_first(), second);
            },
            None => {},
        }
    }
}

/// The events of candidates that fail one after the other. Each candidate
/// fails in one of two ways: `unbound[i]` says that the egress address could
/// not be bound for it, otherwise the address was bound and the candidate
/// could not be reached.
pub open spec fn failed_attempts(unbound: Seq<bool>) -> Seq<TunnelEvent>
    decreases unbound.len(),
{
    if unbound.len() == 0 {
        Seq::empty()
    } else if unbound[0] {
        seq![TunnelEvent::BindFailed] + failed_attempts(unbound.drop_first())
    } else {
        seq![TunnelEvent::Bound, TunnelEvent::ConnectFailed] + failed_attempts(
            unbound.drop_first(),
        )
    }
}

/// Failed candidates do not end the tunnel while candidates are left: after
/// any number of failures, of either kind, the tunnel binds for the candidate
/// that follows them.
pub proof fn lemma_failures_lead_to_next_candidate(
    candidate: usize,
    candidates: usize,
    unbound: Seq<bool>,
)
    requires
        candidate + unbound.len() < candidates,
    ensures
        run(TunnelState::Binding { candidate, candidates }, failed_attempts(unbound)) == Some(
            TunnelState::Binding { candidate: (candidate + unbound.len()) as usize, candidates },
        ),
    decreases unbound.len(),
{
    let state = TunnelState::Binding { candidate, candidates };
    if unbound.len() > 0 {
        let next = TunnelState::Binding { candidate: (candidate + 1) as usize, candidates };
        let rest = failed_attempts(unbound.drop_first());
        lemma_failures_lead_to_next_candidate((candidate + 1) as usize, candidates, unbound.drop_first());
        if unbound[0] {
            let head = seq![TunnelEvent::BindFailed];
            lemma_run_in_a_row(state, head, rest);
            assert(run(state, head) == Some(next)) by {
                reveal_with_fuel(run, 2);
                assert(head.drop_first() =~= Seq::<TunnelEvent>::empty());
            }
        } else {
            let head = seq![TunnelEvent::Bound, TunnelEvent::ConnectFailed];
            lemma_run_in_a_row(state, head, rest);
            assert(run(state, head) == Some(next)) by {
                reveal_with_fuel(run, 3);
                assert(head.drop_first() =~= seq![TunnelEvent::ConnectFailed]);
                assert(head.drop_first().drop_first() =~= Seq::<TunnelEvent>::empty());
            }
        }
    }
}

/// The first candidate that can be bound for and reached is relayed over,
/// however the candidates before it failed.
pub proof fn lemma_first_reachable_candidate_is_relayed(candidates: usize, unbound: Seq<bool>)
    requires
        unbound.len() < candidates,
    ensures
        run(
            TunnelState::Resolving,
            seq![TunnelEvent::Resolved { candidates }] + failed_attempts(unbound)
                + seq![TunnelEvent::Bound, TunnelEvent::Connected],
        ) == Some(TunnelState::Relaying),
{
    let resolved = seq![TunnelEvent::Resolved { candidates }];
    let failures = failed_attempts(unbound);
    let success = seq![TunnelEvent::Bound, TunnelEvent::Connected];
    let first = TunnelState::Binding { candidate: 0, candidates };
    let reached = TunnelState::Binding { candidate: unbound.len() as usize, candidates };
    assert(run(TunnelState::Resolving, resolved) == Some(first)) by {
        reveal_with_fuel(run, 2);
        assert(resolved.drop_first() =~= Seq::<TunnelEvent>::empty());
    }
    lemma_failures_lead_to_next_candidate(0, candidates, unbound);
    assert(run(reached, success) == Some(TunnelState::Relaying)) by {
        reveal_with_fuel(run, 3);
        assert(success.drop_first() =~= seq![TunnelEvent::Connected]);
        assert(success.drop_first().drop_first() =~= Seq::<TunnelEvent>::empty());
    }
    lemma_run_in_a_row(TunnelState::Resolving, resolved, failures);
    lemma_run_in_a_row(TunnelState::Resolving, resolved + failures, success);
}

/// Where every candidate fails the tunnel closes, and it closes only after
/// the last candidate has failed.
pub proof fn lemma_all_failures_close(candidates: usize, unbound: Seq<bool>)
    requires
        unbound.len() == candidates,
        candidates > 0,
    ensures
        run(
            TunnelState::Resolving,
            seq![TunnelEvent::Resolved { candidates }] + failed_attempts(unbound),
        ) == Some(TunnelState::Closed),
{
    let resolved = seq![TunnelEvent::Resolved { candidates }];
    let first = TunnelState::Binding { candidate: 0, candidates };
    let last = TunnelState::Binding { candidate: (candidates - 1) as usize, candidates };
    let before = unbound.drop_last();
    let tail = seq![unbound.last()];
    assert(run(TunnelState::Resolving, resolved) == Some(first)) by {
        reveal_with_fuel(run, 2);
        assert(resolved.drop_first() =~= Seq::<TunnelEvent>::empty());
    }
    lemma_failures_lead_to_next_candidate(0, candidates, before);
    lemma_failed_attempts_in_a_row(before, tail);
    assert(before + tail =~= unbound);
    assert(run(last, failed_attempts(tail)) == Some(TunnelState::Closed)) by {
        reveal_with_fuel(run, 3);
        reveal_with_fuel(failed_attempts, 2);
        assert(tail.drop_first() =~= Seq::<bool>::empty());
        let only = failed_attempts(tail);
        if tail[0] {
            assert(only =~= seq![TunnelEvent::BindFailed]);
            assert(only.drop_first() =~= Seq::<TunnelEvent>::empty());
        } else {
            assert(only =~= seq![TunnelEvent::Bound, TunnelEvent::ConnectFailed]);
            assert(only.drop_first() =~= seq![TunnelEvent::ConnectFailed]);
            assert(only.drop_first().drop_first() =~= Seq::<TunnelEvent>::empty());
        }
    }
    lemma_run_in_a_row(first, failed_attempts(before), failed_attempts(tail));
    lemma_run_in_a_row(TunnelState::Resolving, resolved, failed_attempts(unbound));
}

/// The events of failures in a row are the events of the first failures
/// followed by those of the rest.
pub proof fn lemma_failed_attempts_in_a_row(first: Seq<bool>, second: Seq<bool>)
    ensures
        failed_attempts(first + second) == failed_attempts(first) + failed_attempts(second),
    decreases first.len(),
{
    if first.len() == 0 {
        assert(first + second =~= second);
        assert(failed_attempts(first) + failed_attempts(second) =~= failed_attempts(second));
    } else {
        assert((first + second)[0] == first[0]);
        assert((first + second).drop_first() =~= first.drop_first() + second);
        lemma_failed_attempts_in_a_row(first.drop_first(), second);
        assert(failed_attempts(first + second) =~= failed_attempts(first) + failed_attempts(
            second,
        ));
    }
}

/// Nothing happens to a tunnel that is over.
pub proof fn lemma_closed_is_final(event: TunnelEvent)
    ensures
        advance_spec(TunnelState::Closed, event) is None,
{
}

} // verus!
