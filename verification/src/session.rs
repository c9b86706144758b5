//! The capture sessions as a mathematical model: for each display the number
//! of outstanding capture requests, and the transitions that requests cause.

use vstd::prelude::*;

verus! {

/// What the capture engine is asked to do.
#[derive(Clone, Copy, Debug, PartialEq, Eq, Structural)]
pub enum EngineCommand {
    /// Begin capturing a display at a frame rate.
    Start { display_id: u32, frame_rate: i32 },
    /// End capturing. The engine's stop takes no display id.
    Stop,
}

/// What has to happen outside the registry after a request was applied: first
/// the command to the capture engine, then the stop event to announce.
#[derive(Clone, Copy, Debug, PartialEq, Eq, Structural)]
pub struct CaptureEffects {
    /// The command to hand to the capture engine, if any.
    pub engine: Option<EngineCommand>,
    /// The display whose end of capture is to be announced on the stop bus, if any.
    pub stop_event: Option<u32>,
}

impl CaptureEffects {
    /// Nothing to do: only a count changed.
    pub open spec fn nothing() -> CaptureEffects {
        CaptureEffects { engine: None, stop_event: None }
    }

    /// The first request for a display: the engine starts capturing it.
    pub open spec fn engage(display_id: u32, frame_rate: i32) -> CaptureEffects {
        CaptureEffects {
            engine: Some(EngineCommand::Start { display_id, frame_rate }),
            stop_event: None,
        }
    }

    /// The last request for a display was withdrawn: the engine stops and the
    /// end of capture is announced.
    pub open spec fn release(display_id: u32) -> CaptureEffects {
        CaptureEffects { engine: Some(EngineCommand::Stop), stop_event: Some(display_id) }
    }

    /// A stop for a display without a session: the engine is told to stop all
    /// the same, and nothing is announced.
    pub open spec fn defensive_stop() -> CaptureEffects {
        CaptureEffects { engine: Some(EngineCommand::Stop), stop_event: None }
    }

    /// The engine itself ended the capture of a display with a session: only
    /// the announcement is left to make.
    pub open spec fn announce(display_id: u32) -> CaptureEffects {
        CaptureEffects { engine: None, stop_event: Some(display_id) }
    }
}

/// The outstanding capture requests of each engaged display. A display
/// without an entry is not being captured.
pub type Sessions = Map<u32, nat>;

/// Every session that exists has at least one outstanding request, and there
/// are finitely many sessions.
pub open spec fn well_formed(sessions: Sessions) -> bool {
    &&& sessions.dom().finite()
    &&& forall|d: u32| sessions.contains_key(d) ==> #[trigger] sessions[d] >= 1
}

/// The number of outstanding capture requests for a display: zero where it
/// has no session.
pub open spec fn count_of(sessions: Sessions, display_id: u32) -> nat {
    if sessions.contains_key(display_id) {
        sessions[display_id]
    } else {
        0
    }
}

/// A request to capture a display. The first one engages the engine, each
/// further one is only counted.
pub open spec fn apply_start(sessions: Sessions, display_id: u32, frame_rate: i32) -> (
    Sessions,
    CaptureEffects,
) {
    if sessions.contains_key(display_id) {
        (sessions.insert(display_id, sessions[display_id] + 1), CaptureEffects::nothing())
    } else {
        (sessions.insert(display_id, 1), CaptureEffects::engage(display_id, frame_rate))
    }
}

/// A request to end the capture of a display. Only the last outstanding one
/// releases the engine; one for a display without a session changes nothing
/// and stops the engine defensively.
pub open spec fn apply_stop(sessions: Sessions, display_id: u32) -> (Sessions, CaptureEffects) {
    if !sessions.contains_key(display_id) {
        (sessions, CaptureEffects::defensive_stop())
    } else if sessions[display_id] > 1 {
        (
            sessions.insert(display_id, (sessions[display_id] - 1) as nat),
            CaptureEffects::nothing(),
        )
    } else {
        (sessions.remove(display_id), CaptureEffects::release(display_id))
    }
}

/// The engine reports of its own accord that the capture of a display has
/// ended. A session for it is dropped whatever its count; without one the
/// engine is stopped defensively.
pub open spec fn apply_stopped(sessions: Sessions, display_id: u32) -> (
    Sessions,
    CaptureEffects,
) {
    if sessions.contains_key(display_id) {
        (sessions.remove(display_id), CaptureEffects::announce(display_id))
    } else {
        (sessions, CaptureEffects::defensive_stop())
    }
}

/// One request to the registry.
#[derive(Clone, Copy, Debug, PartialEq, Eq, Structural)]
pub enum CaptureRequest {
    /// A consumer asks for the capture of a display at a frame rate.
    Start { display_id: u32, frame_rate: i32 },
    /// A consumer withdraws one request for the capture of a display.
    Stop { display_id: u32 },
    /// The engine reports that the capture of a display has ended.
    Stopped { display_id: u32 },
}

impl CaptureRequest {
    /// The display that the request is about.
    pub open spec fn display_id(self) -> u32 {
        match self {
            CaptureRequest::Start { display_id, .. } => display_id,
            CaptureRequest::Stop { display_id } => display_id,
            CaptureRequest::Stopped { display_id } => display_id,
        }
    }
}

/// The sessions after one request, and what the request causes.
pub open spec fn apply(sessions: Sessions, request: CaptureRequest) -> (Sessions, CaptureEffects) {
    match request {
        CaptureRequest::Start { display_id, frame_rate } => apply_start(
            sessions,
            display_id,
            frame_rate,
        ),
        CaptureRequest::Stop { display_id } => apply_stop(sessions, display_id),
        CaptureRequest::Stopped { display_id } => apply_stopped(sessions, display_id),
    }
}

/// The sessions after a sequence of requests, applied one at a time in order.
pub open spec fn sessions_after(sessions: Sessions, requests: Seq<CaptureRequest>) -> Sessions
    decreases requests.len(),
{
    if requests.len() == 0 {
        sessions
    } else {
        apply(sessions_after(sessions, requests.drop_last()), requests.last()).0
    }
}

/// What each request of a sequence causes, in the order of the requests.
pub open spec fn effects_of(sessions: Sessions, requests: Seq<CaptureRequest>) -> Seq<
    CaptureEffects,
>
    decreases requests.len(),
{
    if requests.len() == 0 {
        Seq::empty()
    } else {
        effects_of(sessions, requests.drop_last()).push(
            apply(sessions_after(sessions, requests.drop_last()), requests.last()).1,
        )
    }
}

/// How often the engine is asked to start.
pub open spec fn engine_starts(effects: Seq<CaptureEffects>) -> nat
    decreases effects.len(),
{
    if effects.len() == 0 {
        0
    } else {
        engine_starts(effects.drop_last()) + if effects.last().engine matches Some(
            EngineCommand::Start { .. },
        ) {
            1nat
        } else {
            0nat
        }
    }
}

/// How often the engine is asked to stop.
pub open spec fn engine_stops(effects: Seq<CaptureEffects>) -> nat
    decreases effects.len(),
{
    if effects.len() == 0 {
        0
    } else {
        engine_stops(effects.drop_last()) + if effects.last().engine == Some(EngineCommand::Stop) {
            1nat
        } else {
            0nat
        }
    }
}

/// How often the end of a capture is announced.
pub open spec fn stop_events(effects: Seq<CaptureEffects>) -> nat
    decreases effects.len(),
{
    if effects.len() == 0 {
        0
    } else {
        stop_events(effects.drop_last()) + if effects.last().stop_event is Some {
            1nat
        } else {
            0nat
        }
    }
}

/// By how many the requests to capture a display outnumber the withdrawals
/// among `requests`.
pub open spec fn surplus(requests: Seq<CaptureRequest>) -> int
    decreases requests.len(),
{
    if requests.len() == 0 {
        0
    } else {
        surplus(requests.drop_last()) + match requests.last() {
            CaptureRequest::Start { .. } => 1int,
            CaptureRequest::Stop { .. } => -1int,
            CaptureRequest::Stopped { .. } => 0int,
        }
    }
}

/// Every request is a consumer's request to start or to stop the capture of
/// the one display.
pub open spec fn consumers_only(requests: Seq<CaptureRequest>, display_id: u32) -> bool {
    forall|i: int|
        0 <= i < requests.len() ==> (#[trigger] requests[i]).display_id() == display_id
            && !(requests[i] is Stopped)
}

/// From the first request on, until `requests` has been applied in full, the
/// requests to capture outnumber the withdrawals.
pub open spec fn stays_engaged(requests: Seq<CaptureRequest>) -> bool {
    forall|k: int| 0 < k <= requests.len() ==> surplus(#[trigger] requests.take(k)) > 0
}

/// No withdrawal comes before the request that it withdraws: at every point
/// of `requests` the withdrawals are at most as many as the requests to
/// capture.
pub open spec fn balanced(requests: Seq<CaptureRequest>) -> bool {
    forall|k: int| 0 <= k <= requests.len() ==> surplus(#[trigger] requests.take(k)) >= 0
}

/// How often, in the course of consumers' requests, the withdrawals catch up
/// with the requests to capture.
pub open spec fn times_caught_up(requests: Seq<CaptureRequest>) -> nat
    decreases requests.len(),
{
    if requests.len() == 0 {
        0
    } else {
        times_caught_up(requests.drop_last()) + if surplus(requests) == 0 {
            1nat
        } else {
            0nat
        }
    }
}

/// A request leaves the sessions well formed.
pub proof fn lemma_apply_keeps_well_formed(sessions: Sessions, request: CaptureRequest)
    requires
        well_formed(sessions),
    ensures
        well_formed(apply(sessions, request).0),
{
}

/// Whatever is requested, and in whatever order, the sessions stay well
/// formed: a display is either without a session or has at least one
/// outstanding request.
pub proof fn lemma_sessions_stay_well_formed(sessions: Sessions, requests: Seq<CaptureRequest>)
    requires
        well_formed(sessions),
    ensures
        well_formed(sessions_after(sessions, requests)),
    decreases requests.len(),
{
    if requests.len() > 0 {
        lemma_sessions_stay_well_formed(sessions, requests.drop_last());
        lemma_apply_keeps_well_formed(
            sessions_after(sessions, requests.drop_last()),
            requests.last(),
        );
    }
}

/// A request changes the session of no display but its own.
pub proof fn lemma_apply_is_local(sessions: Sessions, request: CaptureRequest, other: u32)
    requires
        other != request.display_id(),
    ensures
        apply(sessions, request).0.contains_key(other) == sessions.contains_key(other),
        count_of(apply(sessions, request).0, other) == count_of(sessions, other),
{
}

/// The engine is asked to start exactly when a request takes a display from
/// no outstanding request to one, and the end of a capture is announced, for
/// the display of the request, exactly when the request takes the display from
/// some outstanding requests to none. The engine is asked to stop exactly by a
/// consumer's stop that leaves the display without a session, and by the
/// engine's report on a display that had none.
pub proof fn lemma_effects_mark_transitions(sessions: Sessions, request: CaptureRequest)
    requires
        well_formed(sessions),
    ensures
        ({
            let display_id = request.display_id();
            let (next, effects) = apply(sessions, request);
            let before = count_of(sessions, display_id);
            let after = count_of(next, display_id);
            &&& effects.engine is Some && effects.engine->0 is Start <==> before == 0 && after == 1
            &&& effects.engine is Some && effects.engine->0 is Start ==> request is Start
                && effects == CaptureEffects::engage(display_id, request->frame_rate)
            &&& effects.stop_event is Some <==> before > 0 && after == 0
            &&& effects.stop_event is Some ==> effects.stop_event == Some(display_id)
            &&& effects.engine == Some(EngineCommand::Stop) <==> after == 0 && (request is Stop
                || before == 0)
        }),
{
}

/// A stop for a display that has no session leaves the sessions as they are
/// and still asks the engine to stop.
pub proof fn lemma_stop_without_session(sessions: Sessions, display_id: u32)
    requires
        !sessions.contains_key(display_id),
    ensures
        apply_stop(sessions, display_id) == (sessions, CaptureEffects::defensive_stop()),
{
}

/// While the requests to capture a display outnumber the withdrawals, the
/// engine has been started once, by the first request, and has not been
/// stopped; the session counts the surplus.
pub proof fn lemma_engaged_session_counts_surplus(
    sessions: Sessions,
    display_id: u32,
    requests: Seq<CaptureRequest>,
)
    requires
        !sessions.contains_key(display_id),
        requests.len() > 0,
        consumers_only(requests, display_id),
        stays_engaged(requests),
    ensures
        sessions_after(sessions, requests) == sessions.insert(
            display_id,
            surplus(requests) as nat,
        ),
        engine_starts(effects_of(sessions, requests)) == 1,
        engine_stops(effects_of(sessions, requests)) == 0,
        stop_events(effects_of(sessions, requests)) == 0,
        effects_of(sessions, requests).len() == requests.len(),
        effects_of(sessions, requests)[0].engine matches Some(
            EngineCommand::Start { display_id: started, .. },
        ) && started == display_id,
    decreases requests.len(),
{
    let earlier = requests.drop_last();
    let before = effects_of(sessions, earlier);
    assert(effects_of(sessions, requests).drop_last() =~= before);
    assert(requests.take(requests.len() as int) =~= requests);
    if earlier.len() == 0 {
        assert(surplus(earlier) == 0);
        assert(engine_starts(before) == 0);
        assert(engine_stops(before) == 0);
        assert(stop_events(before) == 0);
    } else {
        assert forall|k: int| 0 < k <= earlier.len() implies surplus(#[trigger] earlier.take(k))
            > 0 by {
            assert(earlier.take(k) =~= requests.take(k));
        }
        lemma_engaged_session_counts_surplus(sessions, display_id, earlier);
    }
}

/// Where no withdrawal comes before the request that it withdraws, the engine
/// is started once for every time that a display without a session is
/// requested, and stopped, with an announcement, once for every time that the
/// withdrawals catch up with the requests. In between nothing reaches the
/// engine, and the session counts the requests that are still outstanding.
pub proof fn lemma_balanced_requests_engage_once_per_session(
    sessions: Sessions,
    display_id: u32,
    requests: Seq<CaptureRequest>,
)
    requires
        !sessions.contains_key(display_id),
        consumers_only(requests, display_id),
        balanced(requests),
    ensures
        engine_stops(effects_of(sessions, requests)) == times_caught_up(requests),
        stop_events(effects_of(sessions, requests)) == times_caught_up(requests),
        engine_starts(effects_of(sessions, requests)) == times_caught_up(requests) + if surplus(
            requests,
        ) > 0 {
            1nat
        } else {
            0nat
        },
        sessions_after(sessions, requests) == if surplus(requests) > 0 {
            sessions.insert(display_id, surplus(requests) as nat)
        } else {
            sessions
        },
    decreases requests.len(),
{
    assert(requests.take(requests.len() as int) =~= requests);
    if requests.len() > 0 {
        let earlier = requests.drop_last();
        assert(effects_of(sessions, requests).drop_last() =~= effects_of(sessions, earlier));
        assert forall|k: int| 0 <= k <= earlier.len() implies surplus(#[trigger] earlier.take(k))
            >= 0 by {
            assert(earlier.take(k) =~= requests.take(k));
        }
        lemma_balanced_requests_engage_once_per_session(sessions, display_id, earlier);
    }
}

/// Any interleaving of one or more requests to capture a display with as many
/// withdrawals, in which the requests outnumber the withdrawals until the last
/// withdrawal, starts the engine exactly once and stops it exactly once,
/// announces the end of the capture once, and leaves the sessions as they
/// were. The first request starts the engine and the last one stops it.
pub proof fn lemma_matched_requests_engage_once(
    sessions: Sessions,
    display_id: u32,
    requests: Seq<CaptureRequest>,
)
    requires
        !sessions.contains_key(display_id),
        requests.len() > 0,
        consumers_only(requests, display_id),
        surplus(requests) == 0,
        stays_engaged(requests.drop_last()),
    ensures
        engine_starts(effects_of(sessions, requests)) == 1,
        engine_stops(effects_of(sessions, requests)) == 1,
        stop_events(effects_of(sessions, requests)) == 1,
        sessions_after(sessions, requests) == sessions,
        effects_of(sessions, requests).len() == requests.len(),
        effects_of(sessions, requests).first().engine matches Some(
            EngineCommand::Start { display_id: started, .. },
        ) && started == display_id,
        effects_of(sessions, requests).last() == CaptureEffects::release(display_id),
{
    let earlier = requests.drop_last();
    assert(effects_of(sessions, requests).drop_last() =~= effects_of(sessions, earlier));
    if earlier.len() == 0 {
        assert(surplus(earlier) == 0);
    } else {
        assert(earlier.take(earlier.len() as int) =~= earlier);
        lemma_engaged_session_counts_surplus(sessions, display_id, earlier);
    }
}

/// Of any number of requests to capture a display that has no session, only
/// the first starts the engine, at the frame rate it names; every other one
/// is only counted.
pub proof fn lemma_only_first_start_engages(
    sessions: Sessions,
    display_id: u32,
    requests: Seq<CaptureRequest>,
)
    requires
        !sessions.contains_key(display_id),
        requests.len() > 0,
        forall|i: int|
            0 <= i < requests.len() ==> (#[trigger] requests[i]) is Start
                && requests[i].display_id() == display_id,
    ensures
        effects_of(sessions, requests).len() == requests.len(),
        effects_of(sessions, requests)[0] == CaptureEffects::engage(
            display_id,
            requests[0]->frame_rate,
        ),
        forall|i: int|
            1 <= i < requests.len() ==> #[trigger] effects_of(sessions, requests)[i]
                == CaptureEffects::nothing(),
        engine_starts(effects_of(sessions, requests)) == 1,
        sessions_after(sessions, requests) == sessions.insert(display_id, requests.len()),
    decreases requests.len(),
{
    let earlier = requests.drop_last();
    let before = effects_of(sessions, earlier);
    assert(effects_of(sessions, requests).drop_last() =~= before);
    if earlier.len() == 0 {
        assert(engine_starts(before) == 0);
    } else {
        lemma_only_first_start_engages(sessions, display_id, earlier);
    }
}

/// However often the capture of a display without a session is stopped, the
/// sessions stay as they are, the display's count stays at zero, and every
/// stop asks the engine to stop and announces nothing.
pub proof fn lemma_stops_without_session_are_defensive(
    sessions: Sessions,
    display_id: u32,
    requests: Seq<CaptureRequest>,
)
    requires
        !sessions.contains_key(display_id),
        forall|i: int|
            0 <= i < requests.len() ==> #[trigger] requests[i] == (CaptureRequest::Stop {
                display_id,
            }),
    ensures
        sessions_after(sessions, requests) == sessions,
        count_of(sessions_after(sessions, requests), display_id) == 0,
        effects_of(sessions, requests).len() == requests.len(),
        forall|i: int|
            0 <= i < requests.len() ==> #[trigger] effects_of(sessions, requests)[i]
                == CaptureEffects::defensive_stop(),
        engine_stops(effects_of(sessions, requests)) == requests.len(),
        stop_events(effects_of(sessions, requests)) == 0,
    decreases requests.len(),
{
    if requests.len() > 0 {
        let earlier = requests.drop_last();
        assert(effects_of(sessions, requests).drop_last() =~= effects_of(sessions, earlier));
        lemma_stops_without_session_are_defensive(sessions, display_id, earlier);
    }
}

} // verus!
