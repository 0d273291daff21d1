//! The event bus: who may connect, which events go to whom, and what the events
//! of a relay bring about.

use todoki::collections::Table;
use todoki::event_bus::{
    event_bus_websocket, finish_session, handle_event_bus_socket, handle_relay_event, parse_kinds,
    should_send_event, ClientSession, RelayAction, RelaySession, SocketInput, SocketMode,
    SocketStep, WsSubscribeParams,
};
use todoki::json::Json;
use todoki::manager::RelayManager;
use todoki::protocol::{
    AgentRole, AgentStatus, ClientMessage, Event, EventTime, SessionStatus, WsMessage,
};
use uuid::Uuid;

const SESSION: &str = "550e8400-e29b-41d4-a716-446655440000";
const AGENT: &str = "6ba7b810-9dad-11d1-80b4-00c04fd430c8";

fn id_of(text: &str) -> u128 {
    Uuid::parse_str(text).unwrap().as_u128()
}

fn make_test_event(kind: &str) -> Event {
    Event {
        cursor: 1,
        kind: kind.to_string(),
        time: EventTime::new(0, 0).unwrap(),
        agent_id: Uuid::new_v4().as_u128(),
        session_id: None,
        task_id: None,
        data: Json::object(),
    }
}

fn params() -> WsSubscribeParams {
    WsSubscribeParams {
        kinds: None,
        cursor: None,
        agent_id: None,
        task_id: None,
        relay_id: None,
        token: None,
    }
}

fn relay_up() -> Json {
    Json::object()
        .with("name", Json::text("R"))
        .with("role", Json::text("coding"))
        .with("command", Json::text("  cmd "))
        .with("command_args", Json::texts(&vec!["-x".to_string()]))
}

fn emit(kind: &str, data: Json) -> SocketInput {
    SocketInput::Message {
        message: ClientMessage::EmitEvent {
            kind: kind.to_string(),
            data,
        },
    }
}

fn registered_session(relays: &mut RelayManager) -> RelaySession {
    let mut p = params();
    p.kinds = Some("relay.*,permission.responded".to_string());
    let (mut session, _) = RelaySession::open("r".to_string(), &p);
    session.step(emit("relay.up", relay_up()), relays);
    session
}

#[test]
fn test_event_filtering_exact_match() {
    let event = make_test_event("task.created");
    let kinds = Some(vec!["task.created".to_string()]);

    assert!(should_send_event(&event, &kinds));
}

#[test]
fn test_event_filtering_wildcard() {
    let event = make_test_event("task.created");
    let kinds = Some(vec!["task.*".to_string()]);

    assert!(should_send_event(&event, &kinds));
}

#[test]
fn test_event_filtering_no_match() {
    let event = make_test_event("agent.started");
    let kinds = Some(vec!["task.*".to_string()]);

    assert!(!should_send_event(&event, &kinds));
}

#[test]
fn test_event_filtering_multiple_patterns() {
    let event = make_test_event("agent.requirement_analyzed");
    let kinds = Some(vec!["task.*".to_string(), "agent.*".to_string()]);

    assert!(should_send_event(&event, &kinds));
}

#[test]
fn test_event_filtering_no_filter() {
    let event = make_test_event("anything");
    let kinds = None;

    assert!(should_send_event(&event, &kinds));
}

#[test]
fn edge_patterns() {
    let event = make_test_event("task.created");
    let wants = |p: &str| should_send_event(&event, &Some(vec![p.to_string()]));
    assert!(wants("*"));
    assert!(wants("task.***"));
    assert!(wants("task.created*"));
    assert!(!wants("task.created.*"));
    assert!(!wants("*created"));
    assert!(!wants(""));
    assert!(!wants("task"));
    assert!(!should_send_event(&event, &Some(vec![])));
}

#[test]
fn kinds_are_split_and_trimmed() {
    assert_eq!(parse_kinds(&None), None);
    assert_eq!(
        parse_kinds(&Some(" task.* ,agent.started,".to_string())),
        Some(vec!["task.*".to_string(), "agent.started".to_string(), String::new()])
    );
    assert_eq!(parse_kinds(&Some(String::new())), Some(vec![String::new()]));
}

#[test]
fn tokens_are_checked() {
    let mut p = params();
    assert!(!event_bus_websocket(None, &p, "relay", "user"));
    assert!(event_bus_websocket(Some("Bearer user"), &p, "relay", "user"));
    assert!(!event_bus_websocket(Some("Bearer relay"), &p, "relay", "user"));
    assert!(!event_bus_websocket(Some("bearer user"), &p, "relay", "user"));
    p.token = Some("user".to_string());
    assert!(event_bus_websocket(None, &p, "relay", "user"));
    assert!(event_bus_websocket(Some("Basic x"), &p, "relay", "user"));
    // A wrong bearer token is not made up for by the query.
    assert!(!event_bus_websocket(Some("Bearer wrong"), &p, "relay", "user"));
    p.relay_id = Some("r".to_string());
    assert!(!event_bus_websocket(None, &p, "relay", "user"));
    assert!(event_bus_websocket(Some("Bearer relay"), &p, "relay", "user"));
    p.token = Some("relay".to_string());
    assert!(event_bus_websocket(None, &p, "relay", "user"));
}

#[test]
fn sockets_are_told_apart() {
    let mut p = params();
    assert!(matches!(handle_event_bus_socket(&p, false), SocketMode::Close));
    assert!(matches!(handle_event_bus_socket(&p, true), SocketMode::Client));
    p.relay_id = Some("r".to_string());
    assert!(matches!(handle_event_bus_socket(&p, false), SocketMode::Close));
    match handle_event_bus_socket(&p, true) {
        SocketMode::Relay { relay_id } => assert_eq!(relay_id, "r"),
        other => panic!("{other:?}"),
    }
}

#[test]
fn relay_is_greeted_and_registered() {
    let mut relays = RelayManager::new();
    let mut p = params();
    p.kinds = Some("relay.*".to_string());
    p.cursor = Some(7);
    let (mut session, greeting) = RelaySession::open("r".to_string(), &p);
    match greeting {
        WsMessage::Subscribed { kinds, cursor } => {
            assert_eq!(kinds, Some(vec!["relay.*".to_string()]));
            assert_eq!(cursor, 0);
        }
        other => panic!("{other:?}"),
    }
    let data = relay_up()
        .with("safe_paths", Json::texts(&vec!["/tmp".to_string()]))
        .with("labels", Json::object().with("os", Json::text("linux")))
        .with("projects", Json::ids(&vec![5, 5]))
        .with("setup_script", Json::text("echo"));
    match session.step_at(emit("relay.up", data), &mut relays, 99) {
        SocketStep::Perform {
            action: RelayAction::Reply {
                message: WsMessage::Registered { relay_id },
            },
        } => assert_eq!(relay_id, "r"),
        other => panic!("{other:?}"),
    }
    let info = relays.get_relay("r").unwrap();
    assert_eq!(info.name, "R");
    assert_eq!(info.role, "coding");
    assert_eq!(info.command, "cmd");
    assert_eq!(info.command_args, vec!["-x".to_string()]);
    assert_eq!(info.safe_paths, vec!["/tmp".to_string()]);
    assert_eq!(info.labels.get("os"), Some(&"linux".to_string()));
    assert_eq!(info.projects, vec![5]);
    assert_eq!(info.setup_script, Some("echo".to_string()));
    assert_eq!(info.connected_at, 99);
}

#[test]
fn registration_has_defaults() {
    let mut relays = RelayManager::new();
    let mut registered = false;
    let data = Json::object()
        .with("command", Json::text("c"))
        .with("command_args", Json::Array(vec![]))
        .with("safe_paths", Json::text("no list"))
        .with("labels", Json::Null)
        .with("projects", Json::texts(&vec!["no uuid".to_string()]));
    handle_relay_event("relay.up", &data, "r", &mut registered, &mut relays).unwrap();
    assert!(registered);
    let info = relays.get_relay("r").unwrap();
    assert_eq!(info.name, "unknown");
    assert_eq!(info.role, "general");
    assert!(info.command_args.is_empty());
    assert!(info.safe_paths.is_empty());
    assert_eq!(info.labels.len(), 0);
    assert!(info.projects.is_empty());
    assert_eq!(info.setup_script, None);
}

#[test]
fn incomplete_registrations_are_refused() {
    let cases = [
        (Json::object(), "relay.up missing or invalid command"),
        (Json::Null, "relay.up missing or invalid command"),
        (
            relay_up().with("command", Json::text(" \t ")),
            "relay.up missing or invalid command",
        ),
        (
            Json::object().with("command", Json::text("c")),
            "relay.up missing command_args",
        ),
        (
            relay_up().with("command_args", Json::Null),
            "relay.up invalid command_args: invalid type: null, expected a sequence",
        ),
    ];
    for (data, expected) in cases {
        let mut relays = RelayManager::new();
        let mut registered = false;
        match handle_relay_event("relay.up", &data, "r", &mut registered, &mut relays) {
            Ok(RelayAction::Reply {
                message: WsMessage::Error { message },
            }) => assert_eq!(message, expected),
            other => panic!("{other:?}"),
        }
        assert!(!registered);
        assert_eq!(relays.relay_count(), 0);
    }
}

#[test]
fn session_status_is_stored_and_frees_the_relay() {
    let mut relays = RelayManager::new();
    let mut registered = true;
    relays.register_at(
        "r".to_string(), "R".to_string(), AgentRole::General, "c".to_string(), vec![], vec![],
        Table::new(), vec![], None, 0,
    );
    relays.add_active_session("r", SESSION);
    for (name, status) in [
        ("running", SessionStatus::Running),
        ("exited", SessionStatus::Completed),
        ("completed", SessionStatus::Completed),
        ("failed", SessionStatus::Failed),
        ("cancelled", SessionStatus::Cancelled),
    ] {
        let data = Json::object()
            .with("session_id", Json::text(SESSION))
            .with("status", Json::text(name));
        match handle_relay_event("relay.session_status", &data, "r", &mut registered, &mut relays) {
            Ok(RelayAction::StoreStatus { session, session_id, status: stored }) => {
                assert_eq!(session, id_of(SESSION));
                assert_eq!(session_id, SESSION);
                assert_eq!(stored, status);
            }
            other => panic!("{other:?}"),
        }
    }
    finish_session(&mut relays, "r", SESSION, SessionStatus::Running);
    assert_eq!(relays.get_relay_for_session(SESSION), Some("r".to_string()));
    finish_session(&mut relays, "r", SESSION, SessionStatus::Completed);
    assert_eq!(relays.get_relay_for_session(SESSION), None);
}

#[test]
fn unknown_status_does_nothing_and_bad_ids_are_errors() {
    let mut relays = RelayManager::new();
    let mut registered = true;
    let data = Json::object()
        .with("session_id", Json::text(SESSION))
        .with("status", Json::text("odd"));
    let r = handle_relay_event("relay.session_status", &data, "r", &mut registered, &mut relays);
    assert!(matches!(r, Ok(RelayAction::Nothing)));
    let data = Json::object().with("session_id", Json::text("odd"));
    let r = handle_relay_event("relay.session_status", &data, "r", &mut registered, &mut relays);
    assert_eq!(r.err().map(|e| e.text), Some("odd".to_string()));
    let r = handle_relay_event("relay.session_status", &Json::Null, "r", &mut registered, &mut relays);
    assert_eq!(r.err().map(|e| e.text), Some(String::new()));
    let data = Json::object()
        .with("agent_id", Json::text(AGENT))
        .with("session_id", Json::text("odd"));
    let r = handle_relay_event("relay.artifact", &data, "r", &mut registered, &mut relays);
    assert_eq!(r.err().map(|e| e.text), Some("odd".to_string()));
    let data = Json::object().with("session_id", Json::text(SESSION));
    let r = handle_relay_event("relay.artifact", &data, "r", &mut registered, &mut relays);
    assert_eq!(r.err().map(|e| e.text), Some(String::new()));
}

#[test]
fn artifacts_are_stored() {
    let mut relays = RelayManager::new();
    let mut registered = true;
    let data = Json::object()
        .with("agent_id", Json::text(AGENT))
        .with("session_id", Json::text(SESSION))
        .with("artifact_type", Json::text("pr"))
        .with("data", Json::Bool(true));
    match handle_relay_event("relay.artifact", &data, "r", &mut registered, &mut relays) {
        Ok(RelayAction::StoreArtifact { agent, session, artifact_type, data }) => {
            assert_eq!(agent, id_of(AGENT));
            assert_eq!(session, id_of(SESSION));
            assert_eq!(artifact_type, "pr");
            assert!(matches!(data, Json::Bool(true)));
        }
        other => panic!("{other:?}"),
    }
    let data = Json::object()
        .with("agent_id", Json::text(AGENT))
        .with("session_id", Json::text(SESSION));
    match handle_relay_event("relay.artifact", &data, "r", &mut registered, &mut relays) {
        Ok(RelayAction::StoreArtifact { artifact_type, data, .. }) => {
            assert_eq!(artifact_type, "");
            assert!(matches!(data, Json::Null));
        }
        other => panic!("{other:?}"),
    }
}

#[test]
fn permission_requests_are_remembered() {
    let mut relays = RelayManager::new();
    let mut session = registered_session(&mut relays);
    relays.add_active_session("r", "s");
    let data = Json::object()
        .with("request_id", Json::text("q"))
        .with("session_id", Json::text("s"));
    let step = session.step(emit("relay.permission_request", data), &mut relays);
    assert!(matches!(step, SocketStep::Perform { action: RelayAction::Nothing }));
    assert_eq!(
        relays.get_pending_permission("q"),
        Some(("r".to_string(), "s".to_string()))
    );
}

#[test]
fn output_and_finished_prompts_ask_for_nothing() {
    let mut relays = RelayManager::new();
    let mut registered = false;
    for kind in ["relay.agent_output", "relay.prompt_completed"] {
        let r = handle_relay_event(kind, &Json::object(), "r", &mut registered, &mut relays);
        assert!(matches!(r, Ok(RelayAction::Nothing)));
        assert!(!registered);
    }
}

#[test]
fn other_events_are_passed_on_with_the_relay_they_come_from() {
    let mut relays = RelayManager::new();
    let mut registered = false;
    for kind in ["relay.spawn_completed", "relay.spawn_failed", "relay.error", "task.created"] {
        let data = Json::object()
            .with("relay_id", Json::text("spoofed"))
            .with("request_id", Json::text("q"));
        match handle_relay_event(kind, &data, "r", &mut registered, &mut relays) {
            Ok(RelayAction::Publish { event }) => {
                assert_eq!(event.kind, kind);
                assert_eq!(event.agent_id, 0);
                assert_eq!(event.task_id, None);
                assert_eq!(event.data.text_field("relay_id"), Some("r"));
                assert_eq!(event.data.text_field("request_id"), Some("q"));
            }
            other => panic!("{other:?}"),
        }
    }
    match handle_relay_event("x", &Json::text("plain"), "r", &mut registered, &mut relays) {
        Ok(RelayAction::Publish { event }) => assert_eq!(event.data.as_str(), Some("plain")),
        other => panic!("{other:?}"),
    }
}

#[test]
fn relays_receive_what_is_meant_for_them() {
    let mut relays = RelayManager::new();
    let (fresh, _) = RelaySession::open("r".to_string(), &params());
    assert!(!fresh.receives(&make_test_event("relay.spawn_requested")));
    let session = registered_session(&mut relays);
    let receives = |kind: &str, data: Json| {
        let mut event = make_test_event(kind);
        event.data = data;
        session.receives(&event)
    };
    let mine = || Json::object().with("relay_id", Json::text("r"));
    let other = || Json::object().with("relay_id", Json::text("s"));
    assert!(receives("relay.stop_requested", mine()));
    assert!(!receives("relay.stop_requested", other()));
    assert!(!receives("relay.stop_requested", Json::object().with("relay_id", Json::Null)));
    assert!(receives("relay.custom", mine()));
    assert!(!receives("relay.custom", Json::object()));
    assert!(receives("relay.spawn_requested", Json::object()));
    assert!(receives("relay.stop_requested", Json::object()));
    assert!(receives("relay.input_requested", Json::object()));
    assert!(receives("permission.responded", Json::object()));
    assert!(!receives("task.created", mine()));
}

#[test]
fn relay_connection_steps() {
    let mut relays = RelayManager::new();
    let mut session = registered_session(&mut relays);
    let mut event = make_test_event("permission.responded");
    event.task_id = Some(id_of(AGENT));
    event.session_id = Some(id_of(SESSION));
    event.agent_id = 0;
    match session.step(SocketInput::Event { event }, &mut relays) {
        SocketStep::Send {
            message: WsMessage::Event { cursor, kind, time, agent_id, session_id, task_id, data },
        } => {
            assert_eq!(cursor, 1);
            assert_eq!(kind, "permission.responded");
            assert_eq!(time, "1970-01-01T00:00:00+00:00");
            assert_eq!(agent_id, "00000000-0000-0000-0000-000000000000");
            assert_eq!(session_id, Some(SESSION.to_string()));
            assert_eq!(task_id, Some(AGENT.to_string()));
            assert!(data.get("relay_id").is_none());
        }
        other => panic!("{other:?}"),
    }
    let event = make_test_event("task.created");
    assert!(matches!(session.step(SocketInput::Event { event }, &mut relays), SocketStep::Wait));
    assert!(matches!(session.step(SocketInput::Lagged { count: 3 }, &mut relays), SocketStep::Wait));
    assert!(matches!(session.step(SocketInput::Unreadable, &mut relays), SocketStep::Wait));
    assert!(matches!(session.step(SocketInput::Ignored, &mut relays), SocketStep::Wait));
    let pong = SocketInput::Message { message: ClientMessage::Pong };
    assert!(matches!(session.step(pong, &mut relays), SocketStep::Wait));
    match session.step(SocketInput::Ping { payload: vec![1, 2] }, &mut relays) {
        SocketStep::Pong { payload } => assert_eq!(payload, vec![1, 2]),
        other => panic!("{other:?}"),
    }
    assert!(matches!(
        session.step(SocketInput::Heartbeat, &mut relays),
        SocketStep::Send { message: WsMessage::Ping }
    ));
    match session.step(emit("relay.session_status", Json::Null), &mut relays) {
        SocketStep::Reject { invalid } => assert_eq!(invalid.text, ""),
        other => panic!("{other:?}"),
    }
    for input in [
        SocketInput::BusClosed,
        SocketInput::Close,
        SocketInput::Failed,
        SocketInput::Ended,
    ] {
        assert!(matches!(session.step(input, &mut relays), SocketStep::End));
    }
}

#[test]
fn failed_sends_end_a_connection_where_they_matter() {
    assert!(!SocketStep::End.goes_on(true));
    assert!(SocketStep::Wait.goes_on(false));
    let send = SocketStep::Send { message: WsMessage::Ping };
    assert!(send.goes_on(true));
    assert!(!send.goes_on(false));
    let pong = SocketStep::Pong { payload: vec![] };
    assert!(pong.goes_on(true));
    assert!(!pong.goes_on(false));
    let notify = SocketStep::Notify { message: WsMessage::Ping };
    assert!(notify.goes_on(false));
    let perform = SocketStep::Perform { action: RelayAction::Nothing };
    assert!(perform.goes_on(false));
}

#[test]
fn closed_relay_leaves_its_sessions_failed() {
    let mut relays = RelayManager::new();
    let session = registered_session(&mut relays);
    relays.add_active_session("r", SESSION);
    relays.add_active_session("r", "no uuid");
    let down = session.close(&mut relays).unwrap();
    assert_eq!(down.failed_sessions, vec![id_of(SESSION)]);
    assert_eq!(down.session_status(), SessionStatus::Failed);
    assert_eq!(down.agent_status(), AgentStatus::Failed);
    assert_eq!(down.event.kind, "relay.down");
    assert_eq!(down.event.agent_id, 0);
    assert_eq!(down.event.data.text_field("relay_id"), Some("r"));
    assert!(!relays.is_connected("r"));
}

#[test]
fn closing_an_unregistered_relay_changes_nothing() {
    let mut relays = RelayManager::new();
    registered_session(&mut relays);
    let (session, _) = RelaySession::open("r".to_string(), &params());
    assert!(session.close(&mut relays).is_none());
    assert!(relays.is_connected("r"));
}

#[test]
fn clients_are_greeted() {
    let mut p = params();
    let (session, greeting) = ClientSession::open(&p);
    assert!(matches!(greeting, WsMessage::Subscribed { kinds: None, cursor: 0 }));
    assert!(session.replay_query().is_none());
    p.kinds = Some("task.*".to_string());
    p.cursor = Some(100);
    p.agent_id = Some(AGENT.to_string());
    p.task_id = Some("no uuid".to_string());
    let (session, greeting) = ClientSession::open(&p);
    match greeting {
        WsMessage::Subscribed { kinds, cursor } => {
            assert_eq!(kinds, Some(vec!["task.*".to_string()]));
            assert_eq!(cursor, 100);
        }
        other => panic!("{other:?}"),
    }
    let query = session.replay_query().unwrap();
    assert_eq!(query.cursor, 100);
    assert_eq!(query.kinds, Some(vec!["task.*".to_string()]));
    assert_eq!(query.agent_id, Some(id_of(AGENT)));
    assert_eq!(query.task_id, None);
    assert_eq!(query.limit, 1000);
    p.cursor = Some(0);
    let (session, _) = ClientSession::open(&p);
    assert_eq!(session.replay_query().map(|q| q.cursor), Some(0));
}

#[test]
fn replay_gives_the_events_in_order() {
    let mut p = params();
    p.kinds = Some("task.*".to_string());
    p.cursor = Some(5);
    let (session, _) = ClientSession::open(&p);
    let mut events = Vec::new();
    for (cursor, kind) in [(6, "task.a"), (7, "agent.b"), (8, "task.c"), (9, "agent.d")] {
        let mut event = make_test_event(kind);
        event.cursor = cursor;
        events.push(event);
    }
    let replay = session.replay(&events);
    let kinds: Vec<String> = replay
        .events
        .iter()
        .map(|m| match m {
            WsMessage::Event { kind, .. } => kind.clone(),
            other => panic!("{other:?}"),
        })
        .collect();
    assert_eq!(kinds, vec!["task.a".to_string(), "task.c".to_string()]);
    assert!(matches!(
        replay.complete,
        WsMessage::ReplayComplete { cursor: 9, count: 4 }
    ));
    let replay = session.replay(&vec![]);
    assert!(replay.events.is_empty());
    assert!(matches!(
        replay.complete,
        WsMessage::ReplayComplete { cursor: 5, count: 0 }
    ));
    match ClientSession::replay_failed("db down") {
        WsMessage::Error { message } => {
            assert_eq!(message, "Failed to fetch historical events: db down");
        }
        other => panic!("{other:?}"),
    }
}

#[test]
fn clients_receive_what_they_ask_for() {
    let mut p = params();
    p.agent_id = Some(AGENT.to_string());
    p.task_id = Some(SESSION.to_string());
    let (mut session, _) = ClientSession::open(&p);
    let mut event = make_test_event("task.created");
    assert!(!session.receives(&event));
    event.agent_id = id_of(AGENT);
    assert!(!session.receives(&event));
    event.task_id = Some(id_of(AGENT));
    assert!(!session.receives(&event));
    event.task_id = Some(id_of(SESSION));
    assert!(session.receives(&event));
    session.relay_id = Some("r".to_string());
    assert!(!session.receives(&event));
    event.data = Json::object().with("relay_id", Json::text("s"));
    assert!(!session.receives(&event));
    event.data = Json::object().with("relay_id", Json::text("r"));
    assert!(session.receives(&event));
    session.kinds = Some(vec!["agent.*".to_string()]);
    assert!(!session.receives(&event));
}

#[test]
fn client_connection_steps() {
    let (session, _) = ClientSession::open(&params());
    let event = make_test_event("task.created");
    assert!(matches!(
        session.step(SocketInput::Event { event }),
        SocketStep::Send { message: WsMessage::Event { .. } }
    ));
    match session.step(SocketInput::Lagged { count: 120 }) {
        SocketStep::Notify { message: WsMessage::Error { message } } => assert_eq!(
            message,
            "Event stream lagged by 120 events, consider reconnecting with cursor"
        ),
        other => panic!("{other:?}"),
    }
    assert!(matches!(session.step(SocketInput::Unreadable), SocketStep::Wait));
    assert!(matches!(session.step(SocketInput::Ignored), SocketStep::Wait));
    assert!(matches!(session.step(emit("relay.up", relay_up())), SocketStep::Wait));
    match session.step(SocketInput::Ping { payload: vec![9] }) {
        SocketStep::Pong { payload } => assert_eq!(payload, vec![9]),
        other => panic!("{other:?}"),
    }
    assert!(matches!(
        session.step(SocketInput::Heartbeat),
        SocketStep::Send { message: WsMessage::Ping }
    ));
    for input in [
        SocketInput::BusClosed,
        SocketInput::Close,
        SocketInput::Failed,
        SocketInput::Ended,
    ] {
        assert!(matches!(session.step(input), SocketStep::End));
    }
}

#[test]
fn commands_reach_their_relay_and_no_other() {
    let mut relays = RelayManager::new();
    let session = registered_session(&mut relays);
    let (mut other, _) = RelaySession::open("other".to_string(), &params());
    other.step(emit("relay.up", relay_up()), &mut relays);
    let command = relays
        .emit_relay_command("r", "relay.stop_requested", "q".to_string(), Json::object(), None)
        .unwrap();
    let mut event = make_test_event(&command.event.kind);
    event.data = command.event.data;
    assert!(session.receives(&event));
    assert!(!other.receives(&event));
}

#[test]
fn connection_of_one_relay_leaves_the_others_alone() {
    let mut relays = RelayManager::new();
    let mut session = registered_session(&mut relays);
    relays.add_active_session("r", "s");
    let (mut other, _) = RelaySession::open("other".to_string(), &params());
    other.step_at(emit("relay.up", relay_up().with("name", Json::text("O"))), &mut relays, 1);
    assert_eq!(relays.get_relay("r").unwrap().name, "R");
    assert_eq!(relays.get_relay_for_session("s"), Some("r".to_string()));
    session.step_at(emit("relay.up", relay_up()), &mut relays, 5);
    assert_eq!(relays.get_relay("r").unwrap().connected_at, 5);
    assert_eq!(relays.get_relay("other").unwrap().connected_at, 1);
    other.close(&mut relays);
    assert!(relays.is_connected("r"));
    assert!(!relays.is_connected("other"));
}
