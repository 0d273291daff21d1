//! The configuration of a relay.

use std::path::PathBuf;
use todoki::collections::Table;
use todoki::config::{
    expand_tilde, parse_label, parse_relay_role, setup_script_path, Args, DaemonArgs, FileConfig,
    RelayConfig, RelaySettings, ServerConfig,
};
use todoki::protocol::AgentRole;

fn command() -> String {
    "agent-acp".to_string()
}

fn args() -> Args {
    Args {
        url: Some("wss://example.com/ws/relays".to_string()),
        token: Some("secret".to_string()),
        name: None,
        role: None,
        command: None,
        command_args: vec![],
        safe_paths: vec![],
        projects: vec![],
        labels: vec![],
        setup_script_file: None,
        config: PathBuf::from("~/.todoki-relay/config.toml"),
        daemonize: false,
        pid_file: PathBuf::from("/tmp/todoki-relay.pid"),
        log_file: PathBuf::from("/tmp/todoki-relay.log"),
    }
}

fn file() -> FileConfig {
    let mut labels: Table<String> = Table::new();
    labels.insert("os".to_string(), "linux".to_string());
    labels.insert("zone".to_string(), "a".to_string());
    FileConfig {
        server: ServerConfig::default(),
        relay: RelaySettings {
            name: Some("file-name".to_string()),
            role: AgentRole::Qa,
            command: Some("file-command".to_string()),
            command_args: vec!["file-arg".to_string()],
            safe_paths: vec!["/file".to_string()],
            labels,
            projects: vec![1],
            setup_script_file: Some(PathBuf::from("~/setup.sh")),
        },
    }
}

#[test]
fn labels_are_split_at_the_first_equals_sign() {
    assert_eq!(parse_label("a=b"), Ok(("a".to_string(), "b".to_string())));
    assert_eq!(parse_label("a=b=c"), Ok(("a".to_string(), "b=c".to_string())));
    assert_eq!(parse_label("="), Ok((String::new(), String::new())));
    assert_eq!(parse_label("é=ü"), Ok(("é".to_string(), "ü".to_string())));
    assert_eq!(
        parse_label("ab"),
        Err("invalid label format: ab, expected key=value".to_string())
    );
    assert_eq!(
        parse_label(""),
        Err("invalid label format: , expected key=value".to_string())
    );
}

#[test]
fn roles_are_read() {
    assert_eq!(parse_relay_role("qa"), Ok(AgentRole::Qa));
    assert_eq!(parse_relay_role("general"), Ok(AgentRole::General));
    assert_eq!(parse_relay_role("?"), Ok(AgentRole::General));
}

#[test]
fn home_is_expanded() {
    let path = PathBuf::from("~/a/b");
    assert_eq!(expand_tilde(&path, Some("/home/me")), PathBuf::from("/home/me/a/b"));
    assert_eq!(expand_tilde(&path, None), path);
    let path = PathBuf::from("/etc/x");
    assert_eq!(expand_tilde(&path, Some("/home/me")), path);
    let path = PathBuf::from("~x/y");
    assert_eq!(expand_tilde(&path, Some("/home/me")), path);
    let path = PathBuf::from("~");
    assert_eq!(expand_tilde(&path, Some("/home/me")), path);
    let path = PathBuf::from("~//etc");
    assert_eq!(expand_tilde(&path, Some("/home/me")), PathBuf::from("/etc"));
}

#[test]
fn defaults_count_where_nothing_is_said() {
    let config = RelayConfig::load(args(), FileConfig::default(), command(), None).unwrap();
    assert_eq!(config.server_url(), "wss://example.com/ws/relays");
    assert_eq!(config.token, "secret");
    assert_eq!(config.name, None);
    assert_eq!(config.role(), AgentRole::General);
    assert_eq!(config.command(), "agent-acp");
    assert_eq!(config.command_args(), ["--dangerously-skip-permissions".to_string()]);
    assert!(config.safe_paths().is_empty());
    assert!(config.projects().is_empty());
    assert_eq!(config.labels().len(), 0);
    assert_eq!(config.setup_script(), None);
}

#[test]
fn the_file_counts_before_the_defaults() {
    let config = RelayConfig::load(args(), file(), command(), Some("script".to_string())).unwrap();
    assert_eq!(config.name, Some("file-name".to_string()));
    assert_eq!(config.relay_name(), "file-name");
    assert_eq!(config.role(), AgentRole::Qa);
    assert_eq!(config.command(), "file-command");
    assert_eq!(config.command_args(), ["file-arg".to_string()]);
    assert_eq!(config.safe_paths(), ["/file".to_string()]);
    assert_eq!(config.projects(), [1]);
    assert_eq!(config.labels().get("os"), Some(&"linux".to_string()));
    assert_eq!(config.setup_script(), Some("script"));
}

#[test]
fn the_command_line_counts_before_the_file() {
    let mut args = args();
    args.name = Some("cli-name".to_string());
    args.role = Some(AgentRole::Coding);
    args.command = Some("cli-command".to_string());
    args.command_args = vec!["x".to_string(), "y".to_string()];
    args.safe_paths = vec!["/cli".to_string()];
    args.projects = vec![2, 3];
    args.labels = vec![
        ("os".to_string(), "bsd".to_string()),
        ("gpu".to_string(), "no".to_string()),
        ("gpu".to_string(), "yes".to_string()),
    ];
    let config = RelayConfig::load(args, file(), command(), None).unwrap();
    assert_eq!(config.name, Some("cli-name".to_string()));
    assert_eq!(config.role(), AgentRole::Coding);
    assert_eq!(config.command(), "cli-command");
    assert_eq!(config.command_args(), ["x".to_string(), "y".to_string()]);
    assert_eq!(config.safe_paths(), ["/cli".to_string()]);
    assert_eq!(config.projects(), [2, 3]);
    assert_eq!(config.labels().len(), 3);
    assert_eq!(config.labels().get("os"), Some(&"bsd".to_string()));
    assert_eq!(config.labels().get("zone"), Some(&"a".to_string()));
    assert_eq!(config.labels().get("gpu"), Some(&"yes".to_string()));
}

#[test]
fn names_fall_back_to_the_host() {
    let config = RelayConfig::load(args(), FileConfig::default(), command(), None).unwrap();
    assert_eq!(config.relay_name_on(Some("box".to_string())), "box");
    assert_eq!(config.relay_name_on(None), "relay");
    let host = hostname::get().map(|h| h.to_string_lossy().to_string()).ok();
    assert_eq!(config.relay_name(), host.unwrap_or("relay".to_string()));
    let config = RelayConfig::load(args(), file(), command(), None).unwrap();
    assert_eq!(config.relay_name_on(Some("box".to_string())), "file-name");
}

#[test]
fn script_of_the_command_line_comes_first() {
    let mut args = args();
    assert_eq!(setup_script_path(&args, &FileConfig::default(), Some("/h")), None);
    assert_eq!(
        setup_script_path(&args, &file(), Some("/h")),
        Some(PathBuf::from("/h/setup.sh"))
    );
    args.setup_script_file = Some(PathBuf::from("/x.sh"));
    assert_eq!(
        setup_script_path(&args, &file(), Some("/h")),
        Some(PathBuf::from("/x.sh"))
    );
}

#[test]
fn daemon_arguments_are_taken_over() {
    let mut args = args();
    args.daemonize = true;
    let daemon = DaemonArgs::parse_daemon_args(&args);
    assert!(daemon.daemonize);
    assert_eq!(daemon.pid_file, PathBuf::from("/tmp/todoki-relay.pid"));
    assert_eq!(daemon.log_file, PathBuf::from("/tmp/todoki-relay.log"));
}

#[test]
fn blank_settings_are_the_default() {
    let file = FileConfig::default();
    assert_eq!(file.server.url, None);
    assert_eq!(file.server.token, None);
    assert_eq!(file.relay.name, None);
    assert_eq!(file.relay.role, AgentRole::General);
    assert_eq!(file.relay.labels.len(), 0);
    assert!(file.relay.projects.is_empty());
}

#[test]
fn a_general_role_on_the_command_line_counts() {
    let mut args = args();
    args.role = Some(AgentRole::General);
    let mut file = FileConfig::default();
    file.relay.role = AgentRole::Coding;
    let config = RelayConfig::load(args, file, command(), None).unwrap();
    assert_eq!(config.role(), AgentRole::General);
}

fn server(url: Option<&str>, token: Option<&str>) -> FileConfig {
    let mut file = FileConfig::default();
    file.server.url = url.map(|s| s.to_string());
    file.server.token = token.map(|s| s.to_string());
    file
}

#[test]
fn the_server_of_the_file_counts_where_none_is_named() {
    let mut bare = args();
    bare.url = None;
    bare.token = None;
    let config = RelayConfig::load(bare, server(Some("ws://h"), Some("tok")), command(), None).unwrap();
    assert_eq!(config.server_url(), "ws://h");
    assert_eq!(config.token, "tok");
    let config = RelayConfig::load(args(), server(Some("ws://h"), Some("tok")), command(), None).unwrap();
    assert_eq!(config.server_url(), "wss://example.com/ws/relays");
    assert_eq!(config.token, "secret");
}

#[test]
fn server_and_token_have_to_be_named() {
    let bare = || {
        let mut args = args();
        args.url = None;
        args.token = None;
        args
    };
    let error = |file: FileConfig| RelayConfig::load(bare(), file, command(), None).err();
    assert_eq!(error(server(None, None)), Some("no server URL is configured".to_string()));
    assert_eq!(error(server(None, Some("t"))), Some("no server URL is configured".to_string()));
    assert_eq!(error(server(Some("u"), None)), Some("no token is configured".to_string()));
    assert_eq!(error(server(Some("u"), Some("t"))), None);
}
