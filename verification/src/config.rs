//! What a relay is told by its command line, its environment and its
//! configuration file.

use crate::collections::{copy_list, overlaid, overlay, text_map, Table};
use crate::outside::{host_name, join_path, path_joined, path_text, path_to_text};
use crate::protocol::{role_named, AgentRole};
use crate::text::{begins_with, find_char, law_occurrence, opt_str, opt_text, starts_with, texts};
use std::path::PathBuf;
use vstd::prelude::*;
use vstd::string::*;

verus! {

/// The argument that the command of a session is given unless others are
/// configured.
pub const DEFAULT_COMMAND_ARG: &'static str = "--dangerously-skip-permissions";

/// What the command line and the environment say.
#[derive(Debug, Clone)]
pub struct Args {
    /// WebSocket URL to connect to (e.g., wss://example.com/ws/relays).
    pub url: Option<String>,
    /// Authentication token.
    pub token: Option<String>,
    /// Relay name; the host name where there is none.
    pub name: Option<String>,
    /// Relay role for task routing, where one was said.
    pub role: Option<AgentRole>,
    /// Command that sessions run.
    pub command: Option<String>,
    /// Arguments of that command.
    pub command_args: Vec<String>,
    /// Allowed working directories.
    pub safe_paths: Vec<String>,
    /// Projects that the relay is bound to; none means all.
    pub projects: Vec<u128>,
    /// Labels for relay selection.
    pub labels: Vec<(String, String)>,
    /// Script to run before each session.
    pub setup_script_file: Option<PathBuf>,
    /// Configuration file.
    pub config: PathBuf,
    /// Run in the background.
    pub daemonize: bool,
    /// PID file, in the background.
    pub pid_file: PathBuf,
    /// Log file, in the background.
    pub log_file: PathBuf,
}

/// What the configuration file says of the server.
#[derive(Debug, Clone)]
pub struct ServerConfig {
    pub url: Option<String>,
    pub token: Option<String>,
}

/// What the configuration file says of the relay.
#[derive(Debug, Clone)]
pub struct RelaySettings {
    pub name: Option<String>,
    pub role: AgentRole,
    pub command: Option<String>,
    pub command_args: Vec<String>,
    pub safe_paths: Vec<String>,
    pub labels: Table<String>,
    pub projects: Vec<u128>,
    pub setup_script_file: Option<PathBuf>,
}

/// The configuration file, which counts less than command line and environment.
#[derive(Debug, Clone)]
pub struct FileConfig {
    pub server: ServerConfig,
    pub relay: RelaySettings,
}

impl Default for ServerConfig {
    fn default() -> (r: Self)
        ensures
            r.url is None,
            r.token is None,
    {
        ServerConfig { url: None, token: None }
    }
}

impl RelaySettings {
    /// Nothing is configured.
    pub open spec fn blank(self) -> bool {
        &&& self.name is None
        &&& self.role == AgentRole::General
        &&& self.command is None
        &&& self.command_args@.len() == 0
        &&& self.safe_paths@.len() == 0
        &&& self.labels@ == Map::<Seq<char>, String>::empty()
        &&& self.projects@.len() == 0
        &&& self.setup_script_file is None
    }
}

impl Default for RelaySettings {
    fn default() -> (r: Self)
        ensures
            r.blank(),
    {
        RelaySettings {
            name: None,
            role: AgentRole::General,
            command: None,
            command_args: Vec::new(),
            safe_paths: Vec::new(),
            labels: Table::new(),
            projects: Vec::new(),
            setup_script_file: None,
        }
    }
}

impl Default for FileConfig {
    fn default() -> (r: Self)
        ensures
            r.server.url is None,
            r.server.token is None,
            r.relay.blank(),
    {
        FileConfig { server: ServerConfig::default(), relay: RelaySettings::default() }
    }
}

/// The role that `s` names. Every text names one.
pub fn parse_relay_role(s: &str) -> (r: Result<AgentRole, String>)
    ensures
        r == Ok::<AgentRole, String>(role_named(s@)),
{
    Ok(AgentRole::from_str(s))
}

/// A label, written `key=value`. The key ends at the first `=`.
pub fn parse_label(s: &str) -> (r: Result<(String, String), String>)
    ensures
        r is Ok <==> s@.contains('='),
        r matches Ok((key, value)) ==> s@ == key@.push('=') + value@ && !key@.contains('='),
        r matches Err(e) ==> e@ == "invalid label format: "@ + s@ + ", expected key=value"@,
{
    match find_char(s, '=') {
        Some(i) => {
            let n: usize = s.unicode_len();
            let key = s.substring_char(0, i).to_owned();
            let value = s.substring_char(i + 1, n).to_owned();
            assert(s@ =~= key@.push('=') + value@);
            Ok((key, value))
        },
        None => Err("invalid label format: ".to_owned().concat(s).concat(", expected key=value")),
    }
}

/// `path` with a `~/` at its beginning replaced by the home directory, where
/// there is one.
pub open spec fn expanded(path: PathBuf, home: Option<Seq<char>>) -> PathBuf {
    if begins_with(path_text(path), "~/"@) && home is Some {
        path_joined(home->0, path_text(path).skip(2))
    } else {
        path
    }
}

/// Replaces a `~/` at the beginning of `path` by the home directory.
pub fn expand_tilde(path: &PathBuf, home: Option<&str>) -> (r: PathBuf)
    ensures
        r == expanded(*path, opt_str(home)),
{
    let text = path_to_text(path);
    if starts_with(text.as_str(), "~/") {
        if let Some(dir) = home {
            proof {
                reveal_strlit("~/");
            }
            let rest = text.as_str().substring_char(2, text.as_str().unicode_len());
            assert(rest@ =~= text@.skip(2));
            return join_path(dir, rest);
        }
    }
    path.clone()
}

/// The configuration of a relay.
#[derive(Debug)]
pub struct RelayConfig {
    pub url: String,
    pub token: String,
    pub name: Option<String>,
    pub role: AgentRole,
    pub command: String,
    pub command_args: Vec<String>,
    pub safe_paths: Vec<String>,
    pub labels: Table<String>,
    pub projects: Vec<u128>,
    pub setup_script: Option<String>,
}

/// What the configuration of a relay says.
pub struct ConfigView {
    pub url: Seq<char>,
    pub token: Seq<char>,
    pub name: Option<Seq<char>>,
    pub role: AgentRole,
    pub command: Seq<char>,
    pub command_args: Seq<Seq<char>>,
    pub safe_paths: Seq<Seq<char>>,
    pub labels: Map<Seq<char>, Seq<char>>,
    pub projects: Seq<u128>,
    pub setup_script: Option<Seq<char>>,
}

/// `first` where it is given, otherwise `second`.
pub open spec fn preferred<T>(first: Option<T>, second: Option<T>) -> Option<T> {
    if first is Some {
        first
    } else {
        second
    }
}

/// `first` where it has members, otherwise `second`.
pub open spec fn non_empty<T>(first: Seq<T>, second: Seq<T>) -> Seq<T> {
    if first.len() > 0 {
        first
    } else {
        second
    }
}

/// The server that command line and environment name, otherwise the file.
pub open spec fn server_named(args: Args, file: FileConfig) -> Option<Seq<char>> {
    preferred(opt_text(args.url), opt_text(file.server.url))
}

/// The token that command line and environment give, otherwise the file.
pub open spec fn token_given(args: Args, file: FileConfig) -> Option<Seq<char>> {
    preferred(opt_text(args.token), opt_text(file.server.token))
}

/// Command line and environment before configuration file before defaults. Of
/// the labels, those of the command line are put into those of the file.
pub open spec fn merged(
    args: Args,
    file: FileConfig,
    url: Seq<char>,
    token: Seq<char>,
    default_command: Seq<char>,
    setup_script: Option<Seq<char>>,
) -> ConfigView {
    ConfigView {
        url,
        token,
        name: preferred(opt_text(args.name), opt_text(file.relay.name)),
        role: match args.role {
            Some(role) => role,
            None => file.relay.role,
        },
        command: match preferred(opt_text(args.command), opt_text(file.relay.command)) {
            Some(c) => c,
            None => default_command,
        },
        command_args: non_empty(
            texts(args.command_args@),
            non_empty(texts(file.relay.command_args@), seq![DEFAULT_COMMAND_ARG@]),
        ),
        safe_paths: non_empty(texts(args.safe_paths@), texts(file.relay.safe_paths@)),
        labels: overlaid(text_map(file.relay.labels@), args.labels@),
        projects: non_empty(args.projects@, file.relay.projects@),
        setup_script,
    }
}

/// The script file to read before the configuration is put together.
pub fn setup_script_path(args: &Args, file: &FileConfig, home: Option<&str>) -> (r: Option<PathBuf>)
    ensures
        r == match preferred(args.setup_script_file, file.relay.setup_script_file) {
            Some(path) => Some(expanded(path, opt_str(home))),
            None => None,
        },
{
    match &args.setup_script_file {
        Some(path) => Some(expand_tilde(path, home)),
        None => match &file.relay.setup_script_file {
            Some(path) => Some(expand_tilde(path, home)),
            None => None,
        },
    }
}

impl RelayConfig {
    pub open spec fn view(&self) -> ConfigView {
        ConfigView {
            url: self.url@,
            token: self.token@,
            name: opt_text(self.name),
            role: self.role,
            command: self.command@,
            command_args: texts(self.command_args@),
            safe_paths: texts(self.safe_paths@),
            labels: text_map(self.labels@),
            projects: self.projects@,
            setup_script: opt_text(self.setup_script),
        }
    }

    /// Puts the configuration together. `file` is what the configuration file
    /// holds, `default_command` what sessions run unless a command is configured,
    /// and `setup_script` what the script file holds. A server and a token have to
    /// be named. Which command is the default is the caller's to say: the library
    /// names none.
    pub fn load(
        args: Args,
        file: FileConfig,
        default_command: String,
        setup_script: Option<String>,
    ) -> (r: Result<RelayConfig, String>)
        ensures
            match (server_named(args, file), token_given(args, file)) {
                (Some(url), Some(token)) => r matches Ok(c) && c@ == merged(
                    args,
                    file,
                    url,
                    token,
                    default_command@,
                    opt_text(setup_script),
                ),
                (None, _) => r matches Err(e) && e@ == "no server URL is configured"@,
                (Some(_), None) => r matches Err(e) && e@ == "no token is configured"@,
            },
    {
        let FileConfig { server, relay } = file;
        let url = match args.url {
            Some(url) => url,
            None => match server.url {
                Some(url) => url,
                None => {
                    return Err("no server URL is configured".to_owned());
                },
            },
        };
        let token = match args.token {
            Some(token) => token,
            None => match server.token {
                Some(token) => token,
                None => {
                    return Err("no token is configured".to_owned());
                },
            },
        };
        let name = match args.name {
            Some(name) => Some(name),
            None => relay.name,
        };
        let role = match args.role {
            Some(role) => role,
            None => relay.role,
        };
        let command = match args.command {
            Some(command) => command,
            None => match relay.command {
                Some(command) => command,
                None => default_command,
            },
        };
        let command_args = if args.command_args.len() > 0 {
            args.command_args
        } else if relay.command_args.len() > 0 {
            relay.command_args
        } else {
            let mut default_args: Vec<String> = Vec::new();
            default_args.push(DEFAULT_COMMAND_ARG.to_owned());
            assert(texts(default_args@) =~= seq![DEFAULT_COMMAND_ARG@]);
            default_args
        };
        let safe_paths = if args.safe_paths.len() > 0 {
            args.safe_paths
        } else {
            relay.safe_paths
        };
        let projects = if args.projects.len() > 0 {
            args.projects
        } else {
            relay.projects
        };
        let labels = overlay(relay.labels, &args.labels);
        Ok(
            RelayConfig {
                url,
                token,
                name,
                role,
                command,
                command_args,
                safe_paths,
                labels,
                projects,
                setup_script,
            },
        )
    }

    /// The URL of the server.
    pub fn server_url(&self) -> (r: &str)
        ensures
            r@ == self@.url,
    {
        self.url.as_str()
    }

    /// The name of the relay on a machine called `host`.
    pub fn relay_name_on(&self, host: Option<String>) -> (r: String)
        ensures
            r@ == match preferred(self@.name, opt_text(host)) {
                Some(name) => name,
                None => "relay"@,
            },
    {
        match &self.name {
            Some(name) => name.clone(),
            None => match host {
                Some(name) => name,
                None => "relay".to_owned(),
            },
        }
    }

    /// The name of the relay; where none is configured, that of this machine.
    pub fn relay_name(&self) -> (r: String)
        ensures
            self@.name matches Some(name) ==> r@ == name,
    {
        if self.name.is_some() {
            self.relay_name_on(None)
        } else {
            self.relay_name_on(host_name())
        }
    }

    /// The allowed working directories.
    pub fn safe_paths(&self) -> (r: &[String])
        ensures
            texts(r@) == self@.safe_paths,
    {
        self.safe_paths.as_slice()
    }

    /// The labels.
    pub fn labels(&self) -> (r: &Table<String>)
        ensures
            text_map(r@) == self@.labels,
    {
        &self.labels
    }

    /// The role.
    pub fn role(&self) -> (r: AgentRole)
        ensures
            r == self@.role,
    {
        self.role
    }

    /// The command that sessions run.
    pub fn command(&self) -> (r: &str)
        ensures
            r@ == self@.command,
    {
        self.command.as_str()
    }

    /// The arguments of that command.
    pub fn command_args(&self) -> (r: &[String])
        ensures
            texts(r@) == self@.command_args,
    {
        self.command_args.as_slice()
    }

    /// The projects that the relay is bound to; none means all.
    pub fn projects(&self) -> (r: &[u128])
        ensures
            r@ == self@.projects,
    {
        self.projects.as_slice()
    }

    /// The script to run before each session.
    pub fn setup_script(&self) -> (r: Option<&str>)
        ensures
            opt_str(r) == self@.setup_script,
    {
        match &self.setup_script {
            Some(script) => Some(script.as_str()),
            None => None,
        }
    }
}

impl Clone for RelayConfig {
    fn clone(&self) -> (r: Self)
        ensures
            r@ == self@,
    {
        RelayConfig {
            url: self.url.clone(),
            token: self.token.clone(),
            name: self.name.clone(),
            role: self.role,
            command: self.command.clone(),
            command_args: copy_list(&self.command_args),
            safe_paths: copy_list(&self.safe_paths),
            labels: self.labels.clone(),
            projects: self.projects.clone(),
            setup_script: self.setup_script.clone(),
        }
    }
}

/// What has to be known before the relay goes into the background.
#[derive(Debug, Clone)]
pub struct DaemonArgs {
    pub daemonize: bool,
    pub pid_file: PathBuf,
    pub log_file: PathBuf,
}

impl DaemonArgs {
    /// Takes from the command line what concerns the background.
    pub fn parse_daemon_args(args: &Args) -> (r: DaemonArgs)
        ensures
            r.daemonize == args.daemonize,
            r.pid_file == args.pid_file,
            r.log_file == args.log_file,
    {
        DaemonArgs {
            daemonize: args.daemonize,
            pid_file: args.pid_file.clone(),
            log_file: args.log_file.clone(),
        }
    }
}

/// What the command line says counts, whatever the file says.
pub proof fn law_command_line_counts(
    args: Args,
    file: FileConfig,
    url: Seq<char>,
    token: Seq<char>,
    default_command: Seq<char>,
    setup_script: Option<Seq<char>>,
)
    ensures
        args.url matches Some(u) ==> server_named(args, file) == Some(u@),
        args.token matches Some(t) ==> token_given(args, file) == Some(t@),
        ({
            let r = merged(args, file, url, token, default_command, setup_script);
            &&& args.name matches Some(name) ==> r.name == Some(name@)
            &&& args.role matches Some(role) ==> r.role == role
            &&& args.command matches Some(command) ==> r.command == command@
            &&& args.command_args@.len() > 0 ==> r.command_args == texts(args.command_args@)
            &&& args.safe_paths@.len() > 0 ==> r.safe_paths == texts(args.safe_paths@)
            &&& args.projects@.len() > 0 ==> r.projects == args.projects@
        }),
{
}

/// What the command line does not say, the file does.
pub proof fn law_file_fills_in(
    args: Args,
    file: FileConfig,
    url: Seq<char>,
    token: Seq<char>,
    default_command: Seq<char>,
    setup_script: Option<Seq<char>>,
)
    ensures
        args.url is None ==> server_named(args, file) == opt_text(file.server.url),
        args.token is None ==> token_given(args, file) == opt_text(file.server.token),
        ({
            let r = merged(args, file, url, token, default_command, setup_script);
            &&& args.name is None ==> r.name == opt_text(file.relay.name)
            &&& args.role is None ==> r.role == file.relay.role
            &&& args.command is None && file.relay.command is Some ==> Some(r.command) == opt_text(
                file.relay.command,
            )
            &&& args.command_args@.len() == 0 && file.relay.command_args@.len() > 0
                ==> r.command_args == texts(file.relay.command_args@)
            &&& args.safe_paths@.len() == 0 ==> r.safe_paths == texts(file.relay.safe_paths@)
            &&& args.projects@.len() == 0 ==> r.projects == file.relay.projects@
            &&& args.labels@.len() == 0 ==> r.labels == text_map(file.relay.labels@)
        }),
{
}

/// Where neither says anything, the defaults count.
pub proof fn law_defaults(
    args: Args,
    file: FileConfig,
    url: Seq<char>,
    token: Seq<char>,
    default_command: Seq<char>,
    setup_script: Option<Seq<char>>,
)
    ensures
        ({
            let r = merged(args, file, url, token, default_command, setup_script);
            &&& args.command is None && file.relay.command is None ==> r.command == default_command
            &&& args.command_args@.len() == 0 && file.relay.command_args@.len() == 0
                ==> r.command_args == seq![DEFAULT_COMMAND_ARG@]
        }),
{
}

/// A configuration always has arguments for its command.
pub proof fn law_command_has_arguments(
    args: Args,
    file: FileConfig,
    url: Seq<char>,
    token: Seq<char>,
    default_command: Seq<char>,
    setup_script: Option<Seq<char>>,
)
    ensures
        merged(args, file, url, token, default_command, setup_script).command_args.len() > 0,
{
}

/// A label that the command line gives last for a key counts; a label of the
/// file stays where the command line gives none for its key.
pub proof fn law_labels(
    base: Map<Seq<char>, Seq<char>>,
    pairs: Seq<(String, String)>,
    i: int,
    key: Seq<char>,
)
    ensures
        0 <= i < pairs.len() && pairs[i].0@ == key && (forall|j: int|
            i < j < pairs.len() ==> (#[trigger] pairs[j]).0@ != key) ==> overlaid(
            base,
            pairs,
        ).contains_key(key) && overlaid(base, pairs)[key] == pairs[i].1@,
        (forall|j: int| 0 <= j < pairs.len() ==> (#[trigger] pairs[j]).0@ != key) ==> (overlaid(
            base,
            pairs,
        ).contains_key(key) == base.contains_key(key) && (base.contains_key(key) ==> overlaid(
            base,
            pairs,
        )[key] == base[key])),
    decreases pairs.len(),
{
    if pairs.len() > 0 {
        law_labels(base, pairs.drop_last(), i, key);
        assert(pairs.last() == pairs[pairs.len() - 1]);
    }
}

/// A path that does not begin with `~/` stays as it is, and so does every path
/// where there is no home directory.
pub proof fn law_only_home_paths_expand(path: PathBuf, home: Option<Seq<char>>)
    ensures
        !begins_with(path_text(path), "~/"@) ==> expanded(path, home) == path,
        expanded(path, None) == path,
{
}

/// What is configured twice counts as it stands first; what is configured once
/// counts.
pub proof fn law_first_counts<T>(a: T, first: Option<T>, second: Option<T>, l: Seq<T>, m: Seq<T>)
    ensures
        preferred(Some(a), second) == Some(a),
        preferred(None, second) == second,
        l.len() > 0 ==> non_empty(l, m) == l,
        non_empty(Seq::empty(), m) == m,
{
}

/// Each part of a configuration, from what the command line says, what the file
/// says and what is the default.
pub proof fn law_merged(
    args: Args,
    file: FileConfig,
    url: Seq<char>,
    token: Seq<char>,
    default_command: Seq<char>,
    setup_script: Option<Seq<char>>,
)
    ensures
        ({
            let r = merged(args, file, url, token, default_command, setup_script);
            &&& r.url == url
            &&& r.token == token
            &&& r.name == match args.name {
                Some(n) => Some(n@),
                None => match file.relay.name {
                    Some(n) => Some(n@),
                    None => None,
                },
            }
            &&& r.role == match args.role {
                Some(role) => role,
                None => file.relay.role,
            }
            &&& r.command == match args.command {
                Some(c) => c@,
                None => match file.relay.command {
                    Some(c) => c@,
                    None => default_command,
                },
            }
            &&& r.command_args == if args.command_args@.len() > 0 {
                texts(args.command_args@)
            } else if file.relay.command_args@.len() > 0 {
                texts(file.relay.command_args@)
            } else {
                seq!["--dangerously-skip-permissions"@]
            }
            &&& r.safe_paths == if args.safe_paths@.len() > 0 {
                texts(args.safe_paths@)
            } else {
                texts(file.relay.safe_paths@)
            }
            &&& r.projects == if args.projects@.len() > 0 {
                args.projects@
            } else {
                file.relay.projects@
            }
            &&& r.labels == overlaid(text_map(file.relay.labels@), args.labels@)
            &&& r.setup_script == setup_script
        }),
        server_named(args, file) == match args.url {
            Some(u) => Some(u@),
            None => match file.server.url {
                Some(u) => Some(u@),
                None => None,
            },
        },
        token_given(args, file) == match args.token {
            Some(t) => Some(t@),
            None => match file.server.token {
                Some(t) => Some(t@),
                None => None,
            },
        },
{
}

/// A path that is `~/` with something after it leads from the home directory on to
/// that, where there is a home directory.
pub proof fn law_home_paths_expand(path: PathBuf, home: Seq<char>, rest: Seq<char>)
    requires
        path_text(path) == "~/"@ + rest,
    ensures
        expanded(path, Some(home)) == path_joined(home, rest),
{
    reveal_strlit("~/");
    law_occurrence(path_text(path), "~/"@, Seq::empty(), rest);
    assert(path_text(path).skip(2) =~= rest);
}

/// What a configuration says is what its fields hold. Settings without anything
/// configured are blank.
pub proof fn law_config_content(c: RelayConfig, s: RelaySettings)
    ensures
        c@.url == c.url@,
        c@.token == c.token@,
        c@.name == opt_text(c.name),
        c@.role == c.role,
        c@.command == c.command@,
        c@.command_args == texts(c.command_args@),
        c@.safe_paths == texts(c.safe_paths@),
        c@.labels == text_map(c.labels@),
        c@.projects == c.projects@,
        c@.setup_script == opt_text(c.setup_script),
        s.blank() <==> {
            &&& s.name is None
            &&& s.role == AgentRole::General
            &&& s.command is None
            &&& s.command_args@.len() == 0
            &&& s.safe_paths@.len() == 0
            &&& s.labels@ == Map::<Seq<char>, String>::empty()
            &&& s.projects@.len() == 0
            &&& s.setup_script_file is None
        },
{
}

} // verus!
