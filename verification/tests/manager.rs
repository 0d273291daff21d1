//! The relays that are connected to the server.

use todoki::collections::Table;
use todoki::json::Json;
use todoki::manager::RelayManager;
use todoki::protocol::AgentRole;
use uuid::Uuid;

fn register(manager: &mut RelayManager, id: &str, name: &str, role: AgentRole, projects: Vec<u128>) {
    manager.register(
        id.to_string(),
        name.to_string(),
        role,
        "agent-acp".to_string(),
        vec!["--dangerously-skip-permissions".to_string()],
        vec![],
        Table::new(),
        projects,
        None,
    );
}

fn project() -> u128 {
    Uuid::new_v4().as_u128()
}

#[test]
fn test_select_relay_by_role() {
    let mut manager = RelayManager::new();
    register(&mut manager, "coding-1", "Coding Relay", AgentRole::Coding, vec![]);
    register(&mut manager, "general-1", "General Relay", AgentRole::General, vec![]);

    let selected = manager.select_relay(None, Some(AgentRole::Coding), None);
    assert!(
        selected == Some("coding-1".to_string()) || selected == Some("general-1".to_string()),
        "Expected coding-1 or general-1, got {:?}",
        selected
    );

    let selected = manager.select_relay(None, Some(AgentRole::Business), None);
    assert_eq!(selected, Some("general-1".to_string()));

    let selected = manager.select_relay(None, None, None);
    assert!(selected.is_some());
}

#[test]
fn test_select_relay_idle_only() {
    let mut manager = RelayManager::new();
    register(&mut manager, "coding-1", "Coding Relay", AgentRole::Coding, vec![]);
    manager.add_active_session("coding-1", "session-1");

    let selected = manager.select_relay(None, Some(AgentRole::Coding), None);
    assert_eq!(selected, None);

    manager.remove_active_session("coding-1", "session-1");
    let selected = manager.select_relay(None, Some(AgentRole::Coding), None);
    assert_eq!(selected, Some("coding-1".to_string()));
}

#[test]
fn test_select_relay_preferred_id() {
    let mut manager = RelayManager::new();
    register(&mut manager, "coding-1", "Coding Relay 1", AgentRole::Coding, vec![]);
    register(&mut manager, "coding-2", "Coding Relay 2", AgentRole::Coding, vec![]);

    let selected = manager.select_relay(Some("coding-2"), Some(AgentRole::Coding), None);
    assert_eq!(selected, Some("coding-2".to_string()));

    manager.add_active_session("coding-2", "session-1");
    let selected = manager.select_relay(Some("coding-2"), Some(AgentRole::Coding), None);
    assert_eq!(selected, Some("coding-1".to_string()));
}

#[test]
fn test_select_relay_by_project() {
    let mut manager = RelayManager::new();
    let project_a = project();
    let project_b = project();
    register(&mut manager, "relay-a", "Relay A", AgentRole::General, vec![project_a]);
    register(&mut manager, "relay-universal", "Universal Relay", AgentRole::General, vec![]);

    let selected = manager.select_relay(None, None, Some(project_a));
    assert!(
        selected == Some("relay-a".to_string()) || selected == Some("relay-universal".to_string()),
        "Expected relay-a or relay-universal for project_a, got {:?}",
        selected
    );

    manager.add_active_session("relay-a", "session-1");
    let selected = manager.select_relay(None, None, Some(project_a));
    assert_eq!(selected, Some("relay-universal".to_string()));

    let selected = manager.select_relay(None, None, Some(project_b));
    assert_eq!(selected, Some("relay-universal".to_string()));

    manager.add_active_session("relay-universal", "session-2");
    let selected = manager.select_relay(None, None, Some(project_b));
    assert_eq!(selected, None);
}

#[test]
fn test_list_relays_by_project() {
    let mut manager = RelayManager::new();
    let project_a = project();
    let project_b = project();
    register(&mut manager, "relay-a", "Relay A", AgentRole::General, vec![project_a]);
    register(&mut manager, "relay-b", "Relay B", AgentRole::Coding, vec![project_b]);
    register(&mut manager, "relay-universal", "Universal Relay", AgentRole::General, vec![]);

    let relays_for_a = manager.list_relays_by_project(project_a);
    assert_eq!(relays_for_a.len(), 2);
    let relay_ids: Vec<&str> = relays_for_a.iter().map(|r| r.relay_id.as_str()).collect();
    assert!(relay_ids.contains(&"relay-a"));
    assert!(relay_ids.contains(&"relay-universal"));

    let relays_for_b = manager.list_relays_by_project(project_b);
    assert_eq!(relays_for_b.len(), 2);
    let relay_ids: Vec<&str> = relays_for_b.iter().map(|r| r.relay_id.as_str()).collect();
    assert!(relay_ids.contains(&"relay-b"));
    assert!(relay_ids.contains(&"relay-universal"));

    let project_c = project();
    let relays_for_c = manager.list_relays_by_project(project_c);
    assert_eq!(relays_for_c.len(), 1);
    assert_eq!(relays_for_c[0].relay_id, "relay-universal");
}

#[test]
fn preferred_relay_is_used_when_idle_whatever_its_role_and_project() {
    let mut manager = RelayManager::new();
    register(&mut manager, "qa-1", "QA", AgentRole::Qa, vec![1]);
    register(&mut manager, "coding-1", "Coding", AgentRole::Coding, vec![2]);
    let selected = manager.select_relay(Some("qa-1"), Some(AgentRole::Coding), Some(2));
    assert_eq!(selected, Some("qa-1".to_string()));
    manager.add_active_session("qa-1", "s");
    let selected = manager.select_relay(Some("qa-1"), Some(AgentRole::Coding), Some(2));
    assert_eq!(selected, Some("coding-1".to_string()));
    let selected = manager.select_relay(Some("unknown"), Some(AgentRole::Coding), Some(1));
    assert_eq!(selected, None);
}

#[test]
fn empty_manager_selects_nothing() {
    let manager = RelayManager::default();
    assert_eq!(manager.select_relay(None, None, None), None);
    assert_eq!(manager.relay_count(), 0);
    assert!(manager.list_relays().is_empty());
    assert!(manager.get_relay("r").is_none());
    assert!(!manager.is_connected("r"));
}

#[test]
fn reconnect_keeps_sessions_and_replaces_the_rest() {
    let mut manager = RelayManager::new();
    register(&mut manager, "r", "Old", AgentRole::Coding, vec![1, 1, 2]);
    manager.add_active_session("r", "s1");
    manager.add_active_session("r", "s2");
    manager.add_active_session("r", "s1");
    let info = manager.get_relay("r").unwrap();
    assert_eq!(info.active_session_count, 2);
    assert_eq!(info.projects.len(), 2);
    assert_eq!(info.role, "coding");
    register(&mut manager, "r", "New", AgentRole::Qa, vec![]);
    assert_eq!(manager.relay_count(), 1);
    let info = manager.get_relay("r").unwrap();
    assert_eq!(info.name, "New");
    assert_eq!(info.role, "qa");
    assert_eq!(info.active_session_count, 2);
    assert!(info.projects.is_empty());
}

#[test]
fn unregister_gives_the_sessions_back() {
    let mut manager = RelayManager::new();
    register(&mut manager, "r", "R", AgentRole::General, vec![]);
    register(&mut manager, "other", "Other", AgentRole::General, vec![]);
    manager.add_active_session("r", "s1");
    manager.add_active_session("r", "s2");
    manager.add_active_session("unknown", "s3");
    let mut sessions = manager.unregister("r");
    sessions.sort();
    assert_eq!(sessions, vec!["s1".to_string(), "s2".to_string()]);
    assert!(!manager.is_connected("r"));
    assert!(manager.is_connected("other"));
    assert_eq!(manager.relay_count(), 1);
    assert!(manager.unregister("r").is_empty());
}

#[test]
fn registered_relay_is_described() {
    let mut manager = RelayManager::new();
    let mut labels: Table<String> = Table::new();
    labels.insert("os".to_string(), "linux".to_string());
    let id = manager.register_at(
        "r".to_string(),
        "R".to_string(),
        AgentRole::Business,
        "cmd".to_string(),
        vec!["-x".to_string()],
        vec!["/tmp".to_string()],
        labels,
        vec![7],
        Some("echo hi".to_string()),
        1234,
    );
    assert_eq!(id, "r");
    let info = manager.get_relay("r").unwrap();
    assert_eq!(info.relay_id, "r");
    assert_eq!(info.name, "R");
    assert_eq!(info.role, "business");
    assert_eq!(info.command, "cmd");
    assert_eq!(info.command_args, vec!["-x".to_string()]);
    assert_eq!(info.safe_paths, vec!["/tmp".to_string()]);
    assert_eq!(info.labels.get("os"), Some(&"linux".to_string()));
    assert_eq!(info.labels.len(), 1);
    assert_eq!(info.projects, vec![7]);
    assert_eq!(info.setup_script, Some("echo hi".to_string()));
    assert_eq!(info.connected_at, 1234);
    assert_eq!(info.active_session_count, 0);
}

#[test]
fn register_reads_the_clock() {
    let before = chrono::Utc::now().timestamp();
    let mut manager = RelayManager::new();
    register(&mut manager, "r", "R", AgentRole::General, vec![]);
    let after = chrono::Utc::now().timestamp();
    let connected_at = manager.get_relay("r").unwrap().connected_at;
    assert!(before <= connected_at && connected_at <= after);
}

#[test]
fn permission_requests_are_answered_through_the_relay_of_the_session() {
    let mut manager = RelayManager::new();
    register(&mut manager, "r", "R", AgentRole::General, vec![]);
    manager.store_permission_request("r", "req", "s");
    assert_eq!(manager.get_pending_permission("req"), None);
    manager.add_active_session("r", "s");
    assert_eq!(manager.get_relay_for_session("s"), Some("r".to_string()));
    assert_eq!(manager.get_relay_for_session("t"), None);
    assert_eq!(
        manager.get_pending_permission("req"),
        Some(("r".to_string(), "s".to_string()))
    );
    assert_eq!(manager.get_pending_permission("unknown"), None);
    manager.remove_pending_permission("req");
    assert_eq!(manager.get_pending_permission("req"), None);
    manager.store_permission_request("r", "req", "s");
    manager.unregister("r");
    assert_eq!(manager.get_pending_permission("req"), None);
}

#[test]
fn commands_name_relay_and_request() {
    let mut manager = RelayManager::new();
    let refused = manager.emit_relay_command("r", "relay.stop_requested", "q".to_string(), Json::object(), None);
    assert_eq!(refused.err(), Some("relay r not connected".to_string()));
    register(&mut manager, "r", "R", AgentRole::General, vec![]);
    let data = Json::object()
        .with("relay_id", Json::text("spoofed"))
        .with("session_id", Json::text("s"));
    let command = manager
        .emit_relay_command("r", "relay.stop_requested", "q".to_string(), data, Some(9))
        .unwrap();
    assert_eq!(command.request_id, "q");
    assert_eq!(command.event.kind, "relay.stop_requested");
    assert_eq!(command.event.agent_id, 0);
    assert_eq!(command.event.task_id, Some(9));
    assert_eq!(command.event.data.text_field("relay_id"), Some("r"));
    assert_eq!(command.event.data.text_field("request_id"), Some("q"));
    assert_eq!(command.event.data.text_field("session_id"), Some("s"));
    let command = manager
        .emit_relay_command("r", "k", "q".to_string(), Json::Null, None)
        .unwrap();
    assert!(matches!(command.event.data, Json::Null));
}

#[test]
fn a_session_on_two_relays_is_reached_through_the_same_one() {
    let mut manager = RelayManager::new();
    for id in ["a", "b", "c"] {
        register(&mut manager, id, id, AgentRole::General, vec![]);
    }
    manager.add_active_session("b", "s");
    manager.add_active_session("c", "s");
    manager.store_permission_request("b", "req", "old");
    manager.store_permission_request("b", "req", "s");
    let found = manager.get_relay_for_session("s").unwrap();
    assert!(found == "b" || found == "c");
    for _ in 0..5 {
        assert_eq!(manager.get_relay_for_session("s"), Some(found.clone()));
        assert_eq!(
            manager.get_pending_permission("req"),
            Some((found.clone(), "s".to_string()))
        );
    }
    manager.store_permission_request("b", "other", "x");
    manager.remove_pending_permission("other");
    manager.unregister("a");
    assert_eq!(manager.get_pending_permission("req").map(|a| a.1), Some("s".to_string()));
}

#[test]
fn relays_without_sessions_are_idle() {
    let mut manager = RelayManager::new();
    register(&mut manager, "r", "R", AgentRole::General, vec![]);
    assert_eq!(manager.get_relay("r").unwrap().active_session_count, 0);
    assert_eq!(manager.select_relay(Some("r"), None, None), Some("r".to_string()));
    manager.add_active_session("r", "s");
    assert_eq!(manager.get_relay("r").unwrap().active_session_count, 1);
    assert_eq!(manager.select_relay(Some("r"), None, None), None);
}
