use pitgun_racing::local_stream::{
    complete_local_racing_session_json, pull_local_racing_session_json,
    release_local_racing_session_json,
    first_complete_output, BatchEvent,
    start_local_racing_session_with_catalog_and_v3_power_unit_thermal_profile_json,
    LocalRacingSessions,
};

/// A fake engine: counts pulls and completes after `laps` pulls.
#[derive(Debug)]
struct Engine {
    pulls: u32,
    laps: u32,
}

fn advance(mut e: Engine) -> (Engine, Result<(String, Vec<BatchEvent>), String>) {
    e.pulls += 1;
    let batch = format!("{{\"lap\":{}}}", e.pulls);
    let mut events = vec![BatchEvent::Progress];
    if e.pulls >= e.laps {
        events.push(BatchEvent::Complete("{\"standings\":[]}".to_string()));
    }
    (e, Ok((batch, events)))
}

fn start(sessions: &mut LocalRacingSessions<Engine>, laps: u32) -> String {
    start_local_racing_session_with_catalog_and_v3_power_unit_thermal_profile_json(
        sessions,
        Ok(Engine { pulls: 0, laps }),
    )
}

#[test]
fn local_session_start_pull_complete_round_trip() {
    let mut sessions = LocalRacingSessions::new();
    assert_eq!(
        start(&mut sessions, 2),
        "{\"schema_version\":\"pitgun.racing-session-stream-start/v1\",\"handle\":1}"
    );
    assert_eq!(
        complete_local_racing_session_json(&mut sessions, 1),
        "{\"error\":\"local Racing session is not complete; pull another batch\"}"
    );
    assert_eq!(
        pull_local_racing_session_json(&mut sessions, 1, advance),
        "{\"schema_version\":\"pitgun.racing-session-stream-pull/v1\",\"handle\":1,\"complete\":false,\"batch\":{\"lap\":1}}"
    );
    assert_eq!(
        pull_local_racing_session_json(&mut sessions, 1, advance),
        "{\"schema_version\":\"pitgun.racing-session-stream-pull/v1\",\"handle\":1,\"complete\":true,\"batch\":{\"lap\":2}}"
    );
    assert_eq!(
        pull_local_racing_session_json(&mut sessions, 1, advance),
        "{\"error\":\"local Racing session completed; call complete or release\"}"
    );
    assert_eq!(
        complete_local_racing_session_json(&mut sessions, 1),
        "{\"schema_version\":\"pitgun.racing-local-session-completion/v1\",\"handle\":1,\"result\":{\"standings\":[]}}"
    );
    assert_eq!(
        complete_local_racing_session_json(&mut sessions, 1),
        "{\"error\":\"unknown local Racing session handle 1\"}"
    );
}

#[test]
fn local_session_handles_are_fresh_and_release_frees_them() {
    let mut sessions = LocalRacingSessions::new();
    assert!(start(&mut sessions, 1).ends_with("\"handle\":1}"));
    assert!(start(&mut sessions, 1).ends_with("\"handle\":2}"));
    assert_eq!(
        release_local_racing_session_json(&mut sessions, 1),
        "{\"schema_version\":\"pitgun.racing-session-stream-release/v1\",\"handle\":1,\"released\":true}"
    );
    assert_eq!(
        release_local_racing_session_json(&mut sessions, 1),
        "{\"error\":\"unknown local Racing session handle 1\"}"
    );
    // Allocation continues after the last handle handed out.
    assert!(start(&mut sessions, 1).ends_with("\"handle\":3}"));
    assert_eq!(
        pull_local_racing_session_json(&mut sessions, 9, advance),
        "{\"error\":\"unknown local Racing session handle 9\"}"
    );
}

#[test]
fn local_session_creation_failure_is_reported_and_allocates_nothing() {
    let mut sessions: LocalRacingSessions<Engine> = LocalRacingSessions::new();
    let out = start_local_racing_session_with_catalog_and_v3_power_unit_thermal_profile_json(
        &mut sessions,
        Err("invalid Racing catalog: \"bad\"\n".to_string()),
    );
    assert_eq!(out, "{\"error\":\"invalid Racing catalog: \\\"bad\\\"\\n\"}");
    assert!(start(&mut sessions, 1).ends_with("\"handle\":1}"));
}

#[test]
fn local_session_engine_error_keeps_the_session_pullable() {
    let mut sessions = LocalRacingSessions::new();
    start(&mut sessions, 1);
    let failing = |e: Engine| (e, Err::<(String, Vec<BatchEvent>), String>("solver failed".to_string()));
    assert_eq!(
        pull_local_racing_session_json(&mut sessions, 1, failing),
        "{\"error\":\"solver failed\"}"
    );
    assert!(pull_local_racing_session_json(&mut sessions, 1, advance).contains("\"complete\":true"));
}

#[test]
fn the_first_terminal_record_of_a_batch_is_kept() {
    assert_eq!(first_complete_output(vec![]), None);
    assert_eq!(first_complete_output(vec![BatchEvent::Progress, BatchEvent::Progress]), None);
    assert_eq!(
        first_complete_output(vec![
            BatchEvent::Progress,
            BatchEvent::Complete("first".to_string()),
            BatchEvent::Complete("second".to_string()),
        ]),
        Some("first".to_string())
    );
    let mut sessions = LocalRacingSessions::new();
    start(&mut sessions, 9);
    let two_terminals = |e: Engine| {
        (
            e,
            Ok::<(String, Vec<BatchEvent>), String>((
                "[]".to_string(),
                vec![BatchEvent::Complete("a".to_string()), BatchEvent::Complete("b".to_string())],
            )),
        )
    };
    assert!(pull_local_racing_session_json(&mut sessions, 1, two_terminals).contains("\"complete\":true"));
    assert_eq!(
        complete_local_racing_session_json(&mut sessions, 1),
        "{\"schema_version\":\"pitgun.racing-local-session-completion/v1\",\"handle\":1,\"result\":a}"
    );
}
