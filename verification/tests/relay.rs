//! A relay: how it connects, and what it does for the server.

use agent_client_protocol::v1::schema::RequestPermissionOutcome;
use todoki::collections::Table;
use todoki::config::RelayConfig;
use todoki::event_bus::{handle_relay_event, parse_kinds, RelayAction};
use todoki::json::Json;
use todoki::manager::RelayManager;
use todoki::protocol::{
    AgentRole, ClientMessage, PermissionOutcome, RelayOutput, WsMessage,
};
use todoki::relay::{
    choose_identity, generate_relay_id, relay_id_for, ConnectionResult, ConnectionState,
    ConnectionStep, PermissionReply, ReconnectDelay, Relay, RunStep, ServerAction, ServerInput,
};

fn config(url: &str) -> RelayConfig {
    let mut labels: Table<String> = Table::new();
    labels.insert("os".to_string(), "linux".to_string());
    RelayConfig {
        url: url.to_string(),
        token: "tok".to_string(),
        name: Some("box".to_string()),
        role: AgentRole::Coding,
        command: "cmd".to_string(),
        command_args: vec!["-x".to_string()],
        safe_paths: vec!["/tmp".to_string()],
        labels,
        projects: vec![3],
        setup_script: Some("echo".to_string()),
    }
}

fn relay() -> Relay {
    Relay::with_id(config("wss://example.com"), "r".to_string())
}

fn url(server: &str) -> String {
    Relay::with_id(config(server), "r".to_string()).event_bus_url()
}

fn emitted(output: RelayOutput) -> (String, Json) {
    match output {
        RelayOutput::EmitEvent { kind, data } => (kind, data),
    }
}

fn is_hex(id: &str) -> bool {
    id.len() == 32 && id.chars().all(|c| matches!(c, '0'..='9' | 'a'..='f'))
}

#[test]
fn delays_double_up_to_a_minute() {
    let relay = relay();
    let mut delay = ReconnectDelay::new();
    let mut waited = Vec::new();
    for _ in 0..7 {
        match relay.run(&mut delay, ConnectionResult::Reconnect) {
            RunStep::Sleep { secs } => waited.push(secs),
            other => panic!("{other:?}"),
        }
    }
    assert_eq!(waited, vec![3, 6, 12, 24, 48, 60, 60]);
    assert!(matches!(
        relay.run(&mut delay, ConnectionResult::ReconnectImmediate),
        RunStep::Connect
    ));
    assert!(matches!(
        relay.run(&mut delay, ConnectionResult::Reconnect),
        RunStep::Sleep { secs: 3 }
    ));
    let fatal = ConnectionResult::FatalError { error: "boom".to_string() };
    match relay.run(&mut delay, fatal) {
        RunStep::Stop { error } => assert_eq!(error, "boom"),
        other => panic!("{other:?}"),
    }
}

#[test]
fn relay_ids_are_half_digests() {
    assert_eq!(relay_id_for("abc"), "ba7816bf8f01cfea414140de5dae2223");
    assert_eq!(relay_id_for(""), "e3b0c44298fc1c149afbf4c8996fb924");
    assert_ne!(relay_id_for("a"), relay_id_for("b"));
    assert!(is_hex(&relay_id_for("é")));
}

#[test]
fn machines_are_known_by_id_then_name_then_chance() {
    let some = |s: &str| Some(s.to_string());
    assert_eq!(choose_identity(some("m"), some("h"), 1), "m");
    assert_eq!(choose_identity(None, some("h"), 1), "h");
    assert_eq!(
        choose_identity(None, None, 1),
        "00000000-0000-0000-0000-000000000001"
    );
}

#[test]
fn relay_of_this_machine_has_an_id() {
    assert!(is_hex(&generate_relay_id()));
    let relay = Relay::new(config("wss://example.com"));
    assert!(is_hex(relay.id()));
    assert_eq!(relay.config().server_url(), "wss://example.com");
    match machine_uid::get() {
        Ok(id) => assert_eq!(relay.id(), relay_id_for(&id)),
        Err(_) => {
            if let Ok(host) = hostname::get() {
                assert_eq!(relay.id(), relay_id_for(&host.to_string_lossy()));
            }
        }
    }
}

#[test]
fn servers_are_reached_over_the_event_bus() {
    let tail = "?relay_id=r&kinds=relay.*,permission.responded&token=tok";
    let expected = format!("wss://example.com/ws/event-bus{tail}");
    assert_eq!(url("wss://example.com/ws/relays"), expected);
    assert_eq!(url("wss://example.com/ws/relay"), expected);
    assert_eq!(url("wss://example.com/ws/event-bus"), expected);
    assert_eq!(url("wss://example.com"), expected);
    assert_eq!(url("wss://example.com//"), expected);
}

#[test]
fn kinds_of_the_url_are_understood_by_the_server() {
    let url = url("wss://example.com");
    let query = url.split_once("&kinds=").unwrap().1;
    let kinds = query.split_once("&token=").unwrap().0.to_string();
    assert_eq!(
        parse_kinds(&Some(kinds)),
        Some(vec!["relay.*".to_string(), "permission.responded".to_string()])
    );
}

#[test]
fn registration_is_understood_by_the_server() {
    let relay = relay();
    let (kind, data) = match relay.register_message() {
        ClientMessage::EmitEvent { kind, data } => (kind, data),
        other => panic!("{other:?}"),
    };
    assert_eq!(kind, "relay.up");
    assert_eq!(data.text_field("relay_id"), Some("r"));
    assert_eq!(data.text_field("name"), Some("box"));
    let mut relays = RelayManager::new();
    let mut registered = false;
    let r = handle_relay_event(&kind, &data, relay.id(), &mut registered, &mut relays);
    assert!(matches!(
        r,
        Ok(RelayAction::Reply { message: WsMessage::Registered { .. } })
    ));
    assert!(registered);
    let info = relays.get_relay("r").unwrap();
    assert_eq!(info.name, "box");
    assert_eq!(info.role, "coding");
    assert_eq!(info.command, "cmd");
    assert_eq!(info.command_args, vec!["-x".to_string()]);
    assert_eq!(info.safe_paths, vec!["/tmp".to_string()]);
    assert_eq!(info.labels.get("os"), Some(&"linux".to_string()));
    assert_eq!(info.projects, vec![3]);
    assert_eq!(info.setup_script, Some("echo".to_string()));
}

#[test]
fn registration_without_script_says_null() {
    let mut c = config("wss://example.com");
    c.setup_script = None;
    match Relay::with_id(c, "r".to_string()).register_message_as("n") {
        ClientMessage::EmitEvent { data, .. } => {
            assert!(matches!(data.get("setup_script"), Some(Json::Null)));
            assert_eq!(data.text_field("name"), Some("n"));
            assert_eq!(
                data.get("projects").unwrap().text_list(),
                Ok(vec!["00000000-0000-0000-0000-000000000003".to_string()])
            );
        }
        other => panic!("{other:?}"),
    }
}

fn spawn_data() -> Json {
    Json::object()
        .with("agent_id", Json::text("a"))
        .with("session_id", Json::text("s"))
        .with("workdir", Json::text("/w"))
        .with("command", Json::text("c"))
        .with("args", Json::texts(&vec!["x".to_string()]))
        .with("env", Json::object().with("K", Json::text("V")))
        .with("task_id", Json::text("t"))
}

#[test]
fn spawn_commands_are_understood() {
    let relay = relay();
    let mut relays = RelayManager::new();
    relays.register_at(
        "r".to_string(), "R".to_string(), AgentRole::General, "c".to_string(), vec![], vec![],
        Table::new(), vec![], None, 0,
    );
    let command = relays
        .emit_relay_command("r", "relay.spawn_requested", "q".to_string(), spawn_data(), None)
        .unwrap();
    match relay.handle_server_event(&command.event.kind, &command.event.data) {
        ServerAction::Spawn { request_id, params } => {
            assert_eq!(request_id, "q");
            assert_eq!(params.agent_id, "a");
            assert_eq!(params.session_id, "s");
            assert_eq!(params.workdir, "/w");
            assert_eq!(params.command, "c");
            assert_eq!(params.args, vec!["x".to_string()]);
            assert_eq!(params.env.get("K"), Some(&"V".to_string()));
            assert_eq!(params.setup_script, Some("echo".to_string()));
            assert_eq!(params.task_id, Some("t".to_string()));
        }
        other => panic!("{other:?}"),
    }
}

#[test]
fn incomplete_spawn_commands_are_ignored() {
    let relay = relay();
    let full = || spawn_data().with("request_id", Json::text("q"));
    for key in ["request_id", "agent_id", "session_id", "workdir", "command", "args"] {
        let data = full().with(key, Json::Null);
        let action = relay.handle_server_event("relay.spawn_requested", &data);
        assert!(matches!(action, ServerAction::Ignore), "{key}");
    }
    let without_env = Json::object()
        .with("request_id", Json::text("q"))
        .with("agent_id", Json::text("a"))
        .with("session_id", Json::text("s"))
        .with("workdir", Json::text("/w"))
        .with("command", Json::text("c"))
        .with("args", Json::Array(vec![]));
    let action = relay.handle_server_event("relay.spawn_requested", &without_env);
    assert!(matches!(action, ServerAction::Ignore));
    match relay.handle_server_event("relay.spawn_requested", &full().with("env", Json::Null)) {
        ServerAction::Spawn { params, .. } => assert_eq!(params.env.len(), 0),
        other => panic!("{other:?}"),
    }
}

#[test]
fn stop_and_input_are_understood() {
    let relay = relay();
    let data = Json::object().with("session_id", Json::text("s"));
    match relay.handle_server_event("relay.stop_requested", &data) {
        ServerAction::Stop { session_id } => assert_eq!(session_id, "s"),
        other => panic!("{other:?}"),
    }
    let action = relay.handle_server_event("relay.stop_requested", &Json::object());
    assert!(matches!(action, ServerAction::Ignore));
    let action = relay.handle_server_event("relay.input_requested", &data);
    assert!(matches!(action, ServerAction::Ignore));
    let data = data.with("input", Json::text("go"));
    match relay.handle_server_event("relay.input_requested", &data) {
        ServerAction::Input { params } => {
            assert_eq!(params.session_id, "s");
            assert_eq!(params.input, "go");
        }
        other => panic!("{other:?}"),
    }
    let action = relay.handle_server_event("relay.up", &data);
    assert!(matches!(action, ServerAction::Ignore));
}

#[test]
fn incomplete_answers_are_reported() {
    let relay = relay();
    let report = |data: Json| match relay.handle_server_event("permission.responded", &data) {
        ServerAction::Emit { output } => emitted(output),
        other => panic!("{other:?}"),
    };
    let (kind, data) = report(Json::object().with("x", Json::Bool(true)));
    assert_eq!(kind, "relay.error");
    assert_eq!(data.text_field("relay_id"), Some("r"));
    assert_eq!(data.text_field("error_type"), Some("permission_response_failed"));
    assert_eq!(data.text_field("error"), Some("missing or invalid request_id"));
    assert!(data.get("request_id").is_none());
    assert!(matches!(data.get("raw_data").unwrap().get("x"), Some(Json::Bool(true))));
    let partial = Json::object().with("request_id", Json::text("q"));
    let (_, data) = report(partial.clone());
    assert_eq!(data.text_field("error"), Some("missing or invalid session_id"));
    assert_eq!(data.text_field("request_id"), Some("q"));
    assert!(data.get("session_id").is_none());
    assert!(data.get("raw_data").is_some());
    let (_, data) = report(partial.with("session_id", Json::text("s")));
    assert_eq!(data.text_field("error"), Some("missing outcome field"));
    assert_eq!(data.text_field("request_id"), Some("q"));
    assert_eq!(data.text_field("session_id"), Some("s"));
    assert!(data.get("raw_data").is_none());
}

#[test]
fn decisions_are_delivered_or_reported() {
    let relay = relay();
    let data = Json::object()
        .with("request_id", Json::text("q"))
        .with("session_id", Json::text("s"))
        .with("outcome", Json::text("raw"));
    let (request_id, session_id, raw) =
        match relay.handle_server_event("permission.responded", &data) {
            ServerAction::Decide { request_id, session_id, outcome } => {
                (request_id, session_id, outcome)
            }
            other => panic!("{other:?}"),
        };
    assert_eq!(request_id, "q");
    assert_eq!(session_id, "s");
    let selected = PermissionOutcome::Selected { option_id: "allow".to_string() };
    match relay.permission_reply(&request_id, &session_id, &raw, Some(selected)) {
        PermissionReply::Deliver {
            outcome: RequestPermissionOutcome::Selected(selected),
        } => assert_eq!(selected.option_id.to_string(), "allow"),
        other => panic!("{other:?}"),
    }
    assert!(matches!(
        relay.permission_reply(&request_id, &session_id, &raw, Some(PermissionOutcome::Cancelled)),
        PermissionReply::Deliver { outcome: RequestPermissionOutcome::Cancelled }
    ));
    match relay.permission_reply(&request_id, &session_id, &raw, None) {
        PermissionReply::Emit { output } => {
            let (kind, data) = emitted(output);
            assert_eq!(kind, "relay.error");
            assert_eq!(data.text_field("error"), Some("failed to parse outcome"));
            assert_eq!(data.text_field("raw_outcome"), Some("raw"));
            assert_eq!(data.text_field("session_id"), Some("s"));
        }
        other => panic!("{other:?}"),
    }
    let (kind, data) = emitted(relay.delivery_report("q", "s", "gone"));
    assert_eq!(kind, "relay.error");
    assert_eq!(data.text_field("error"), Some("failed to deliver response: gone"));
    assert_eq!(data.text_field("request_id"), Some("q"));
}

#[test]
fn spawns_are_reported() {
    let relay = relay();
    let (kind, data) = emitted(relay.spawn_report("q", "s", None));
    assert_eq!(kind, "relay.spawn_completed");
    assert_eq!(data.text_field("request_id"), Some("q"));
    assert_eq!(data.text_field("session_id"), Some("s"));
    assert_eq!(data.text_field("relay_id"), Some("r"));
    assert!(data.get("error").is_none());
    let (kind, data) = emitted(relay.spawn_report("q", "s", Some("no such file")));
    assert_eq!(kind, "relay.spawn_failed");
    assert_eq!(data.text_field("error"), Some("no such file"));
    match relay.spawn_report("q", "s", None).into_message() {
        ClientMessage::EmitEvent { kind, data } => {
            assert_eq!(kind, "relay.spawn_completed");
            assert_eq!(data.text_field("request_id"), Some("q"));
        }
        other => panic!("{other:?}"),
    }
}

fn message(message: WsMessage) -> ServerInput {
    ServerInput::Message { message }
}

fn subscribed() -> ServerInput {
    message(WsMessage::Subscribed { kinds: None, cursor: 0 })
}

fn confirmed() -> ServerInput {
    message(WsMessage::Registered { relay_id: "r".to_string() })
}

fn error() -> ServerInput {
    message(WsMessage::Error { message: "no".to_string() })
}

fn stop_event() -> ServerInput {
    message(WsMessage::Event {
        cursor: 1,
        kind: "relay.stop_requested".to_string(),
        time: String::new(),
        agent_id: String::new(),
        session_id: None,
        task_id: None,
        data: Json::object().with("session_id", Json::text("s")),
    })
}

#[test]
fn connection_runs_through_its_states() {
    let relay = relay();
    let mut state = ConnectionState::Subscribing;
    for input in [confirmed(), error(), stop_event(), ServerInput::Ignored, ServerInput::Close] {
        assert!(matches!(relay.step(&mut state, input), ConnectionStep::Wait));
        assert_eq!(state, ConnectionState::Subscribing);
    }
    assert!(matches!(relay.step(&mut state, subscribed()), ConnectionStep::Register));
    assert_eq!(state, ConnectionState::Registering);
    for input in [subscribed(), stop_event(), ServerInput::Ignored, ServerInput::Close] {
        assert!(matches!(relay.step(&mut state, input), ConnectionStep::Wait));
        assert_eq!(state, ConnectionState::Registering);
    }
    assert!(matches!(relay.step(&mut state, confirmed()), ConnectionStep::Serve));
    assert_eq!(state, ConnectionState::Running);
    for input in [subscribed(), error(), message(WsMessage::Ping), ServerInput::Ignored] {
        assert!(matches!(relay.step(&mut state, input), ConnectionStep::Wait));
    }
    assert!(matches!(
        relay.step(&mut state, stop_event()),
        ConnectionStep::Perform { action: ServerAction::Stop { .. } }
    ));
    for input in [ServerInput::Close, ServerInput::Failed, ServerInput::Ended] {
        let step = relay.step(&mut state, input);
        assert!(matches!(step, ConnectionStep::Disconnected));
        assert!(matches!(step.result(), Some(ConnectionResult::ReconnectImmediate)));
    }
}

#[test]
fn connections_that_never_work_are_given_up() {
    let relay = relay();
    let mut state = ConnectionState::Subscribing;
    for input in [ServerInput::Failed, ServerInput::Ended, ServerInput::NotConnected] {
        let step = relay.step(&mut state, input);
        assert!(matches!(step, ConnectionStep::GiveUp));
        assert!(matches!(step.result(), Some(ConnectionResult::Reconnect)));
    }
    let mut state = ConnectionState::Registering;
    for input in [
        error(),
        ServerInput::Failed,
        ServerInput::Ended,
        ServerInput::Timeout,
        ServerInput::NotSent,
    ] {
        assert!(matches!(relay.step(&mut state, input), ConnectionStep::GiveUp));
    }
    assert!(ConnectionStep::Wait.result().is_none());
}

#[test]
fn session_commands_are_understood() {
    let relay = relay();
    let mut relays = RelayManager::new();
    relays.register_at(
        "r".to_string(), "R".to_string(), AgentRole::General, "c".to_string(), vec![], vec![],
        Table::new(), vec![], None, 0,
    );
    let data = Json::object()
        .with("session_id", Json::text("s"))
        .with("input", Json::text("go"))
        .with("outcome", Json::text("o"));
    let act = |kind: &str| {
        let command = relays
            .emit_relay_command("r", kind, "q".to_string(), data.clone(), None)
            .unwrap();
        relay.handle_server_event(&command.event.kind, &command.event.data)
    };
    assert!(matches!(act("relay.stop_requested"), ServerAction::Stop { .. }));
    assert!(matches!(act("relay.input_requested"), ServerAction::Input { .. }));
    match act("permission.responded") {
        ServerAction::Decide { request_id, session_id, outcome } => {
            assert_eq!(request_id, "q");
            assert_eq!(session_id, "s");
            assert_eq!(outcome.as_str(), Some("o"));
        }
        other => panic!("{other:?}"),
    }
}

#[test]
fn spawn_reports_are_published() {
    let relay = relay();
    let mut relays = RelayManager::new();
    let mut registered = true;
    for error in [None, Some("no")] {
        let (kind, data) = emitted(relay.spawn_report("q", "s", error));
        match handle_relay_event(&kind, &data, relay.id(), &mut registered, &mut relays) {
            Ok(RelayAction::Publish { event }) => {
                assert_eq!(event.kind, kind);
                assert_eq!(event.data.text_field("request_id"), Some("q"));
                assert_eq!(event.data.text_field("session_id"), Some("s"));
                assert_eq!(event.data.text_field("relay_id"), Some("r"));
                assert_eq!(event.data.text_field("error"), error);
            }
            other => panic!("{other:?}"),
        }
    }
}

#[test]
fn a_registration_that_cannot_be_written_down_is_fatal() {
    let relay = relay();
    let not_encoded = || ServerInput::NotEncoded { error: "bad key".to_string() };
    let mut state = ConnectionState::Registering;
    match relay.step(&mut state, not_encoded()).result() {
        Some(ConnectionResult::FatalError { error }) => assert_eq!(error, "bad key"),
        other => panic!("{other:?}"),
    }
    let mut state = ConnectionState::Running;
    assert!(matches!(relay.step(&mut state, not_encoded()), ConnectionStep::Wait));
}

#[test]
fn reports_and_configurations_can_be_cloned() {
    let report = relay().spawn_report("q", "s", None);
    let (kind, data) = emitted(report.clone());
    assert_eq!(kind, "relay.spawn_completed");
    assert_eq!(data.text_field("request_id"), Some("q"));
    let copy = config("wss://example.com").clone();
    assert_eq!(copy.server_url(), "wss://example.com");
    assert_eq!(copy.labels().get("os"), Some(&"linux".to_string()));
    assert_eq!(copy.projects(), [3]);
}
