//! Handle registry of the local (unauthorised) pull sessions.
//!
//! The registry owns every live session under a nonzero `u32` handle. Handles
//! are allocated cyclically over `1..=u32::MAX`, starting at the handle after
//! the last one allocated, and a handle is never handed out twice while its
//! session is alive. Each operation answers with the exact JSON document that
//! the browser facade returns.

use std::collections::BTreeMap;
use vstd::prelude::*;
use vstd::string::*;

use crate::text::{decimal, json_error, json_error_text, push_decimal};

verus! {

/// One live session: the engine that advances it and, once a pull has seen the
/// terminal record, the JSON of the finished race output.
#[derive(Debug, PartialEq, Eq)]
pub struct LocalSession<S> {
    pub engine: S,
    pub output_json: Option<String>,
}

/// Kind of one record of a pulled batch: progress, or the terminal record
/// carrying the finished race output JSON.
#[derive(Debug, PartialEq, Eq)]
pub enum BatchEvent {
    Progress,
    Complete(String),
}

/// Output of the first terminal record of a batch, if it has one.
pub open spec fn first_complete(events: Seq<BatchEvent>) -> Option<String>
    decreases events.len(),
{
    if events.len() == 0 {
        None
    } else {
        match events[0] {
            BatchEvent::Complete(output) => Some(output),
            BatchEvent::Progress => first_complete(events.drop_first()),
        }
    }
}

/// Takes the output of the first terminal record of a batch.
pub fn first_complete_output(events: Vec<BatchEvent>) -> (out: Option<String>)
    ensures
        out == first_complete(events@),
{
    let mut rest = events;
    while rest.len() > 0
        invariant
            first_complete(rest@) == first_complete(events@),
        decreases rest.len(),
    {
        let ghost before = rest@;
        let event = rest.remove(0);
        proof {
            assert(rest@ =~= before.drop_first());
        }
        match event {
            BatchEvent::Complete(output) => return Some(output),
            BatchEvent::Progress => {},
        }
    }
    None
}

/// The registry of live local sessions.
pub struct LocalRacingSessions<S> {
    sessions: BTreeMap<u32, LocalSession<S>>,
    next_handle: u32,
}

/// The handle that follows `h` in the cycle over `1..=u32::MAX`
/// (`h.wrapping_add(1).max(1)`).
pub open spec fn next_in_cycle(h: u32) -> u32 {
    if h == u32::MAX {
        1
    } else {
        (h + 1) as u32
    }
}

/// Number of cyclic steps from `first` to `h`, both in `1..=u32::MAX`.
pub open spec fn cycle_distance(first: u32, h: u32) -> int {
    if h >= first {
        h - first
    } else {
        h + u32::MAX - first
    }
}

/// The handle at which allocation starts.
pub open spec fn first_candidate(next: u32) -> u32 {
    if next < 1 {
        1
    } else {
        next
    }
}

/// Every nonzero handle is taken.
pub open spec fn handle_space_exhausted<S>(m: Map<u32, LocalSession<S>>) -> bool {
    forall|g: u32| g != 0 ==> #[trigger] m.contains_key(g)
}

/// `h` is the first vacant nonzero handle met when walking the cycle from
/// `first`.
pub open spec fn first_vacant<S>(m: Map<u32, LocalSession<S>>, first: u32, h: u32) -> bool {
    &&& h != 0
    &&& !m.contains_key(h)
    &&& forall|g: u32|
        g != 0 && cycle_distance(first, g) < cycle_distance(first, h) ==> #[trigger] m.contains_key(
            g,
        )
}

/// The registry after a fresh session was stored under `h`.
pub open spec fn started<S>(m: Map<u32, LocalSession<S>>, h: u32, engine: S) -> Map<
    u32,
    LocalSession<S>,
> {
    m.insert(h, LocalSession { engine, output_json: None })
}

/// The registry after the session under `h` was dropped.
pub open spec fn released<S>(m: Map<u32, LocalSession<S>>, h: u32) -> Map<u32, LocalSession<S>> {
    m.remove(h)
}

/// JSON answer of a successful start.
pub open spec fn start_response(h: u32) -> Seq<char> {
    "{\"schema_version\":\"pitgun.racing-session-stream-start/v1\",\"handle\":"@ + decimal(
        h as nat,
    ) + "}"@
}

/// JSON answer of a successful pull: the batch is embedded as it is.
pub open spec fn pull_response(h: u32, complete: bool, batch: Seq<char>) -> Seq<char> {
    "{\"schema_version\":\"pitgun.racing-session-stream-pull/v1\",\"handle\":"@ + decimal(h as nat)
        + ",\"complete\":"@ + (if complete {
        "true"@
    } else {
        "false"@
    }) + ",\"batch\":"@ + batch + "}"@
}

/// JSON answer of a completion: the race output is embedded as it is.
pub open spec fn completion_response(h: u32, output: Seq<char>) -> Seq<char> {
    "{\"schema_version\":\"pitgun.racing-local-session-completion/v1\",\"handle\":"@ + decimal(
        h as nat,
    ) + ",\"result\":"@ + output + "}"@
}

/// JSON answer of a release.
pub open spec fn release_response(h: u32) -> Seq<char> {
    "{\"schema_version\":\"pitgun.racing-session-stream-release/v1\",\"handle\":"@ + decimal(
        h as nat,
    ) + ",\"released\":true}"@
}

/// Error text for a handle that names no live session.
pub open spec fn unknown_handle_message(h: u32) -> Seq<char> {
    "unknown local Racing session handle "@ + decimal(h as nat)
}

pub open spec fn exhausted_message() -> Seq<char> {
    "local Racing session handle space exhausted"@
}

pub open spec fn already_complete_message() -> Seq<char> {
    "local Racing session completed; call complete or release"@
}

pub open spec fn not_complete_message() -> Seq<char> {
    "local Racing session is not complete; pull another batch"@
}

impl<S> View for LocalRacingSessions<S> {
    type V = Map<u32, LocalSession<S>>;

    /// The live sessions by handle.
    closed spec fn view(&self) -> Map<u32, LocalSession<S>> {
        self.sessions@
    }
}

impl<S> LocalRacingSessions<S> {

    /// The handle at which the next allocation starts its walk.
    pub closed spec fn next_handle(&self) -> u32 {
        self.next_handle
    }

    #[verifier::type_invariant]
    closed spec fn registry_invariant(&self) -> bool {
        &&& !self.sessions@.contains_key(0)
        &&& self.next_handle >= 1
    }

    /// An empty registry whose first handle is 1.
    pub fn new() -> (out: Self)
        ensures
            out@ == Map::<u32, LocalSession<S>>::empty(),
            out.next_handle() == 1,
    {
        LocalRacingSessions { sessions: BTreeMap::new(), next_handle: 1 }
    }
}

proof fn lemma_cycle_step(first: u32, h: u32)
    requires
        first >= 1,
        h >= 1,
    ensures
        next_in_cycle(h) >= 1,
        next_in_cycle(h) != first ==> cycle_distance(first, next_in_cycle(h)) == cycle_distance(
            first,
            h,
        ) + 1,
        next_in_cycle(h) == first ==> cycle_distance(first, h) == u32::MAX - 1,
        0 <= cycle_distance(first, h) < u32::MAX,
{
}

proof fn lemma_all_taken<S>(m: Map<u32, LocalSession<S>>, first: u32, h: u32)
    requires
        first >= 1,
        h >= 1,
        m.contains_key(h),
        next_in_cycle(h) == first,
        forall|g: u32|
            g != 0 && cycle_distance(first, g) < cycle_distance(first, h) ==> #[trigger] m.contains_key(
                g,
            ),
    ensures
        handle_space_exhausted(m),
{
    lemma_cycle_step(first, h);
    assert forall|g: u32| g != 0 implies #[trigger] m.contains_key(g) by {
        lemma_cycle_step(first, g);
        if g != h {
            assert(cycle_distance(first, g) != cycle_distance(first, h));
        }
    }
}

/// Stores a newly created session under the first vacant handle of the cycle
/// and answers with the start document.
///
/// `created` is the outcome of building the session engine; a failure is
/// answered with its message and changes nothing.
pub fn start_local_racing_session_with_catalog_and_v3_power_unit_thermal_profile_json<S>(
    sessions: &mut LocalRacingSessions<S>,
    created: Result<S, String>,
) -> (out: String)
    ensures
        match created {
            Err(e) => {
                &&& out@ == json_error_text(e@)
                &&& final(sessions)@ == old(sessions)@
                &&& final(sessions).next_handle() == old(sessions).next_handle()
            },
            Ok(engine) => {
                let first = first_candidate(old(sessions).next_handle());
                if handle_space_exhausted(old(sessions)@) {
                    &&& out@ == json_error_text(exhausted_message())
                    &&& final(sessions)@ == old(sessions)@
                    &&& final(sessions).next_handle() == old(sessions).next_handle()
                } else {
                    exists|h: u32|
                        {
                            &&& #[trigger] first_vacant(old(sessions)@, first, h)
                            &&& final(sessions)@ == started(old(sessions)@, h, engine)
                            &&& final(sessions).next_handle() == next_in_cycle(h)
                            &&& out@ == start_response(h)
                        }
                }
            },
        },
{
    proof {
        use_type_invariant(&*sessions);
    }
    let engine = match created {
        Ok(engine) => engine,
        Err(error) => return json_error(error.as_str()),
    };
    let first: u32 = if sessions.next_handle < 1 {
        1
    } else {
        sessions.next_handle
    };
    let mut handle: u32 = first;
    let ghost m = sessions.sessions@;
    let ghost old_next = sessions.next_handle;
    loop
        invariant
            1 <= first,
            1 <= handle,
            first == first_candidate(old_next),
            old_next == old(sessions).next_handle(),
            old_next >= 1,
            created == Ok::<S, String>(engine),
            m == old(sessions)@,
            sessions.sessions@ == m,
            sessions.next_handle == old_next,
            !m.contains_key(0),
            forall|g: u32|
                g != 0 && cycle_distance(first, g) < cycle_distance(first, handle)
                    ==> #[trigger] m.contains_key(g),
        decreases u32::MAX - cycle_distance(first, handle),
    {
        proof {
            lemma_cycle_step(first, handle);
        }
        if !sessions.sessions.contains_key(&handle) {
            let mut map = BTreeMap::new();
            std::mem::swap(&mut map, &mut sessions.sessions);
            map.insert(handle, LocalSession { engine, output_json: None });
            let next: u32 = if handle == u32::MAX {
                1
            } else {
                handle + 1
            };
            *sessions = LocalRacingSessions { sessions: map, next_handle: next };
            let mut out = String::from_str(
                "{\"schema_version\":\"pitgun.racing-session-stream-start/v1\",\"handle\":",
            );
            push_decimal(&mut out, handle as u64);
            out.append("}");
            proof {
                assert(first_vacant(m, first, handle));
                assert(!handle_space_exhausted(m));
            }
            return out;
        }
        let next: u32 = if handle == u32::MAX {
            1
        } else {
            handle + 1
        };
        if next == first {
            proof {
                lemma_all_taken(m, first, handle);
            }
            return json_error("local Racing session handle space exhausted");
        }
        handle = next;
    }
}

/// Advances the session under `handle` by one batch.
///
/// `advance` runs the engine once and hands it back with either the batch
/// JSON and the kinds of its records, in order, or an error message. The
/// session is complete once a batch holds a terminal record; the output of
/// the first one is kept for completion.
pub fn pull_local_racing_session_json<S, F>(
    sessions: &mut LocalRacingSessions<S>,
    handle: u32,
    advance: F,
) -> (out: String) where F: FnOnce(S) -> (S, Result<(String, Vec<BatchEvent>), String>)
    requires
        forall|s: S| #[trigger] advance.requires((s,)),
    ensures
        !old(sessions)@.contains_key(handle) ==> {
            &&& out@ == json_error_text(unknown_handle_message(handle))
            &&& final(sessions)@ == old(sessions)@
        },
        old(sessions)@.contains_key(handle) && old(sessions)@[handle].output_json is Some ==> {
            &&& out@ == json_error_text(already_complete_message())
            &&& final(sessions)@ == old(sessions)@
        },
        old(sessions)@.contains_key(handle) && old(sessions)@[handle].output_json is None ==> exists|
            res: (S, Result<(String, Vec<BatchEvent>), String>),
        |
            {
                &&& #[trigger] advance.ensures((old(sessions)@[handle].engine,), res)
                &&& match res.1 {
                    Ok((batch, events)) => {
                        &&& final(sessions)@ == old(sessions)@.insert(
                            handle,
                            LocalSession { engine: res.0, output_json: first_complete(events@) },
                        )
                        &&& out@ == pull_response(handle, first_complete(events@) is Some, batch@)
                    },
                    Err(e) => {
                        &&& final(sessions)@ == old(sessions)@.insert(
                            handle,
                            LocalSession { engine: res.0, output_json: None },
                        )
                        &&& out@ == json_error_text(e@)
                    },
                }
            },
        final(sessions).next_handle() == old(sessions).next_handle(),
{
    proof {
        use_type_invariant(&*sessions);
    }
    let mut map = BTreeMap::new();
    std::mem::swap(&mut map, &mut sessions.sessions);
    let removed = map.remove(&handle);
    let session = match removed {
        None => {
            sessions.sessions = map;
            proof {
                assert(sessions.sessions@ =~= old(sessions)@);
            }
            let mut message = String::from_str("unknown local Racing session handle ");
            push_decimal(&mut message, handle as u64);
            return json_error(message.as_str());
        },
        Some(session) => session,
    };
    if session.output_json.is_some() {
        map.insert(handle, session);
        sessions.sessions = map;
        proof {
            assert(sessions.sessions@ =~= old(sessions)@);
        }
        return json_error("local Racing session completed; call complete or release");
    }
    let LocalSession { engine, output_json: _ } = session;
    let ghost old_engine = engine;
    let res = advance(engine);
    let ghost res_ghost = res;
    let (engine, outcome) = res;
    match outcome {
        Ok((batch, events)) => {
            let output = first_complete_output(events);
            let complete = output.is_some();
            map.insert(handle, LocalSession { engine, output_json: output });
            sessions.sessions = map;
            let mut out = String::from_str(
                "{\"schema_version\":\"pitgun.racing-session-stream-pull/v1\",\"handle\":",
            );
            push_decimal(&mut out, handle as u64);
            out.append(",\"complete\":");
            if complete {
                out.append("true");
            } else {
                out.append("false");
            }
            out.append(",\"batch\":");
            out.append(batch.as_str());
            out.append("}");
            proof {
                assert(advance.ensures((old_engine,), res_ghost));
            }
            out
        },
        Err(error) => {
            map.insert(handle, LocalSession { engine, output_json: None });
            sessions.sessions = map;
            proof {
                assert(advance.ensures((old_engine,), res_ghost));
            }
            json_error(error.as_str())
        },
    }
}

/// Consumes a completed session and answers with its race output.
pub fn complete_local_racing_session_json<S>(sessions: &mut LocalRacingSessions<S>, handle: u32) -> (out: String)
    ensures
        !old(sessions)@.contains_key(handle) ==> {
            &&& out@ == json_error_text(unknown_handle_message(handle))
            &&& final(sessions)@ == old(sessions)@
        },
        old(sessions)@.contains_key(handle) && old(sessions)@[handle].output_json is None ==> {
            &&& out@ == json_error_text(not_complete_message())
            &&& final(sessions)@ == old(sessions)@
        },
        old(sessions)@.contains_key(handle) && old(sessions)@[handle].output_json is Some ==> {
            &&& out@ == completion_response(handle, old(sessions)@[handle].output_json->0@)
            &&& final(sessions)@ == released(old(sessions)@, handle)
        },
        final(sessions).next_handle() == old(sessions).next_handle(),
{
    proof {
        use_type_invariant(&*sessions);
    }
    let mut map = BTreeMap::new();
    std::mem::swap(&mut map, &mut sessions.sessions);
    let removed = map.remove(&handle);
    let session = match removed {
        None => {
            sessions.sessions = map;
            proof {
                assert(sessions.sessions@ =~= old(sessions)@);
            }
            let mut message = String::from_str("unknown local Racing session handle ");
            push_decimal(&mut message, handle as u64);
            return json_error(message.as_str());
        },
        Some(session) => session,
    };
    match session.output_json {
        None => {
            map.insert(handle, session);
            sessions.sessions = map;
            proof {
                assert(sessions.sessions@ =~= old(sessions)@);
            }
            json_error("local Racing session is not complete; pull another batch")
        },
        Some(output) => {
            sessions.sessions = map;
            let mut out = String::from_str(
                "{\"schema_version\":\"pitgun.racing-local-session-completion/v1\",\"handle\":",
            );
            push_decimal(&mut out, handle as u64);
            out.append(",\"result\":");
            out.append(output.as_str());
            out.append("}");
            out
        },
    }
}

/// Drops a session, finished or not, without producing a result.
pub fn release_local_racing_session_json<S>(sessions: &mut LocalRacingSessions<S>, handle: u32) -> (out: String)
    ensures
        !old(sessions)@.contains_key(handle) ==> {
            &&& out@ == json_error_text(unknown_handle_message(handle))
            &&& final(sessions)@ == old(sessions)@
        },
        old(sessions)@.contains_key(handle) ==> {
            &&& out@ == release_response(handle)
            &&& final(sessions)@ == released(old(sessions)@, handle)
        },
        final(sessions).next_handle() == old(sessions).next_handle(),
{
    proof {
        use_type_invariant(&*sessions);
    }
    let mut map = BTreeMap::new();
    std::mem::swap(&mut map, &mut sessions.sessions);
    let removed = map.remove(&handle);
    sessions.sessions = map;
    if removed.is_none() {
        proof {
            assert(sessions.sessions@ =~= old(sessions)@);
        }
        let mut message = String::from_str("unknown local Racing session handle ");
        push_decimal(&mut message, handle as u64);
        return json_error(message.as_str());
    }
    let mut out = String::from_str(
        "{\"schema_version\":\"pitgun.racing-session-stream-release/v1\",\"handle\":",
    );
    push_decimal(&mut out, handle as u64);
    out.append(",\"released\":true}");
    out
}

/// Releasing the handle that a start has just allocated gives back the
/// registry as it was before the start.
pub proof fn lemma_release_undoes_start<S>(m: Map<u32, LocalSession<S>>, h: u32, engine: S)
    requires
        !m.contains_key(h),
    ensures
        released(started(m, h, engine), h) == m,
{
    assert(released(started(m, h, engine), h) =~= m);
}

/// A start never hands out a handle that a live session already holds, and
/// never hands out 0.
pub proof fn lemma_started_handle_is_fresh<S>(m: Map<u32, LocalSession<S>>, first: u32, h: u32)
    requires
        first_vacant(m, first, h),
    ensures
        h != 0,
        !m.contains_key(h),
{
}

/// Completing or releasing a session leaves every other session untouched.
pub proof fn lemma_release_keeps_others<S>(m: Map<u32, LocalSession<S>>, h: u32, g: u32)
    requires
        g != h,
        m.contains_key(g),
    ensures
        released(m, h).contains_key(g),
        released(m, h)[g] == m[g],
{
}

} // verus!
