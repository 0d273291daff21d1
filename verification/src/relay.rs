//! A relay: how it connects to the event bus, and what it does for the server.

use crate::collections::{text_map, Table};
use crate::config::{ConfigView, RelayConfig};
use crate::event_bus::{
    forwarded, registration, registration_error, relay_event_action, text_list_or_empty,
    text_table_or_empty, RelayActionView,
};
use crate::json::{text_array, text_object, text_or_null, uuid_texts, Json, JsonView};
use crate::manager::{command_event, ConnectionView};
use crate::outside::{
    format_uuid, hex_digit, hex_encode, hex_text, host_name, machine_id, outcome_view,
    permission_outcome, random_uuid, sha256, sha256_digest, uuid_text,
};
use crate::protocol::{
    law_role_names, role_name, ClientMessage, ClientMessageView, PermissionOutcome, RelayOutput,
    RelayOutputView, SendInputParams, SpawnParamsView, SpawnSessionParams, WsMessage,
    WsMessageView, PERMISSION_RESPONDED, RELAY_AGENT_OUTPUT, RELAY_ARTIFACT, RELAY_ERROR,
    RELAY_INPUT_REQUESTED, RELAY_PERMISSION_REQUEST, RELAY_PROMPT_COMPLETED, RELAY_SESSION_STATUS,
    RELAY_SPAWN_COMPLETED, RELAY_SPAWN_FAILED, RELAY_SPAWN_REQUESTED, RELAY_STOP_REQUESTED,
    RELAY_UP,
};
use crate::text::{
    contains, contains_text, law_replace_absent, law_replace_first, law_replacement_occurs,
    occurs_at, opt_str, opt_text, replace, replace_all, same, texts, trim_end_char, trimmed,
    without_trailing,
};
use agent_client_protocol::v1::schema::RequestPermissionOutcome;
use vstd::arithmetic::power2::{lemma2_to64, lemma_pow2_unfold, pow2};
use vstd::prelude::*;
use vstd::string::*;
use vstd::utf8::*;

verus! {

/// Seconds before the first attempt to reconnect.
pub const RECONNECT_DELAY: u64 = 3;

/// Most seconds before an attempt to reconnect.
pub const MAX_RECONNECT_DELAY: u64 = 60;

/// Seconds within which a registration has to be confirmed.
pub const REGISTRATION_TIMEOUT_SECS: u64 = 30;

/// How many reports wait at most until they can be sent.
pub const BUFFER_SIZE: usize = 4096;

/// How a connection came to its end.
#[derive(Debug)]
pub enum ConnectionResult {
    /// The relay never came to work: connect again after a while.
    Reconnect,
    /// The relay was at work: connect again at once.
    ReconnectImmediate,
    /// The relay cannot go on.
    FatalError { error: String },
}

/// What a relay does after a connection has come to its end.
#[derive(Debug)]
pub enum RunStep {
    /// It waits, and connects again.
    Sleep { secs: u64 },
    /// It connects again.
    Connect,
    /// It stops all sessions and gives up.
    Stop { error: String },
}

/// The seconds before the next attempt to reconnect.
#[derive(Debug)]
pub struct ReconnectDelay {
    secs: u64,
}

/// The delay after one more attempt that failed: twice as long, up to a limit.
pub open spec fn longer_delay(secs: int) -> int {
    if 2 * secs < MAX_RECONNECT_DELAY {
        2 * secs
    } else {
        MAX_RECONNECT_DELAY as int
    }
}

impl ReconnectDelay {
    #[verifier::type_invariant]
    closed spec fn bounded(self) -> bool {
        RECONNECT_DELAY <= self.secs <= MAX_RECONNECT_DELAY
    }

    pub closed spec fn view(&self) -> int {
        self.secs as int
    }

    /// The delay at the start.
    pub fn new() -> (r: Self)
        ensures
            r@ == RECONNECT_DELAY,
    {
        ReconnectDelay { secs: RECONNECT_DELAY }
    }
}

/// A relay.
#[derive(Debug)]
pub struct Relay {
    config: RelayConfig,
    relay_id: String,
}

/// What is known of a relay.
pub struct RelayView {
    pub config: ConfigView,
    pub relay_id: Seq<char>,
}

/// The id of the relay on a machine that is known as `identity`: the first half
/// of the SHA-256 digest, in hexadecimal.
pub open spec fn relay_id_of(identity: Seq<char>) -> Seq<char> {
    hex_text(sha256(encode_utf8(identity)).take(16))
}

/// A lowercase hexadecimal digit.
pub open spec fn is_hex_digit(c: char) -> bool {
    '0' <= c <= '9' || 'a' <= c <= 'f'
}

/// 32 lowercase hexadecimal digits.
pub open spec fn is_relay_id(id: Seq<char>) -> bool {
    &&& id.len() == 32
    &&& forall|i: int| 0 <= i < id.len() ==> is_hex_digit(#[trigger] id[i])
}

/// The id of the relay on a machine that is known as `identity`.
pub fn relay_id_for(identity: &str) -> (r: String)
    ensures
        r@ == relay_id_of(identity@),
        is_relay_id(r@),
{
    let digest = sha256_digest(identity.as_bytes());
    let half = vstd::slice::slice_subrange(digest.as_slice(), 0, 16);
    assert(half@ =~= digest@.take(16));
    let id = hex_encode(half);
    assert forall|i: int| 0 <= i < id@.len() implies is_hex_digit(#[trigger] id@[i]) by {
        let byte = half@[i / 2] as int;
        let d = if i % 2 == 0 {
            byte / 16
        } else {
            byte % 16
        };
        assert(0 <= d < 16);
        assert(id@[i] == hex_digit(d));
    }
    id
}

/// What a machine is known as: its machine id, otherwise its name, otherwise a
/// random UUID.
pub open spec fn identity_of(
    machine: Option<Seq<char>>,
    host: Option<Seq<char>>,
    random: u128,
) -> Seq<char> {
    match machine {
        Some(id) => id,
        None => match host {
            Some(name) => name,
            None => uuid_text(random),
        },
    }
}

/// What a machine is known as.
pub fn choose_identity(machine: Option<String>, host: Option<String>, random: u128) -> (r: String)
    ensures
        r@ == identity_of(opt_text(machine), opt_text(host), random),
{
    match machine {
        Some(id) => id,
        None => match host {
            Some(name) => name,
            None => format_uuid(random),
        },
    }
}

/// The id of the relay on this machine.
pub fn generate_relay_id() -> (r: String)
    ensures
        is_relay_id(r@),
        exists|machine: Option<Seq<char>>, host: Option<Seq<char>>, random: u128|
            r@ == relay_id_of(#[trigger] identity_of(machine, host, random)),
{
    let machine = machine_id();
    let (host, random): (Option<String>, u128) = if machine.is_some() {
        (None, 0)
    } else {
        let host = host_name();
        if host.is_some() {
            (host, 0)
        } else {
            (None, random_uuid())
        }
    };
    let ghost identity = identity_of(opt_text(machine), opt_text(host), random);
    let chosen = choose_identity(machine, host, random);
    assert(chosen@ == identity);
    relay_id_for(chosen.as_str())
}

/// The path on the server that the event bus has.
pub const EVENT_BUS_PATH: &'static str = "/ws/event-bus";

/// The address of the event bus of a server. The paths of the relay endpoints
/// lead to the event bus.
pub open spec fn event_bus_address(server: Seq<char>) -> Seq<char> {
    let replaced = replace_all(
        replace_all(server, "/ws/relays"@, EVENT_BUS_PATH@),
        "/ws/relay"@,
        EVENT_BUS_PATH@,
    );
    if contains_text(replaced, EVENT_BUS_PATH@) {
        replaced
    } else {
        without_trailing(server, '/') + EVENT_BUS_PATH@
    }
}

/// The URL under which a relay connects to the event bus.
pub open spec fn event_bus_url(
    server: Seq<char>,
    relay_id: Seq<char>,
    token: Seq<char>,
) -> Seq<char> {
    event_bus_address(server) + "?relay_id="@ + relay_id
        + "&kinds=relay.*,permission.responded&token="@ + token
}

/// What a relay called `name` reports of itself.
pub open spec fn registration_data(relay: RelayView, name: Seq<char>) -> JsonView {
    JsonView::Object(Map::empty()).with("relay_id"@, JsonView::Text(relay.relay_id)).with(
        "name"@,
        JsonView::Text(name),
    ).with("role"@, JsonView::Text(role_name(relay.config.role))).with(
        "command"@,
        JsonView::Text(relay.config.command),
    ).with("command_args"@, text_array(relay.config.command_args)).with(
        "safe_paths"@,
        text_array(relay.config.safe_paths),
    ).with("labels"@, text_object(relay.config.labels)).with(
        "projects"@,
        text_array(uuid_texts(relay.config.projects)),
    ).with("setup_script"@, text_or_null(relay.config.setup_script))
}

/// What the server knows of a relay called `name` that connects at `now`.
pub open spec fn connection(relay: RelayView, name: Seq<char>, now: i64) -> ConnectionView {
    ConnectionView {
        relay_id: relay.relay_id,
        name,
        role: relay.config.role,
        command: trimmed(relay.config.command),
        command_args: relay.config.command_args,
        safe_paths: relay.config.safe_paths,
        labels: relay.config.labels,
        projects: relay.config.projects.to_set(),
        setup_script: relay.config.setup_script,
        connected_at: now,
        active_sessions: Set::empty(),
    }
}

/// A server that gets the registration of a relay called `name` knows of it what
/// its configuration says.
pub open spec fn understood(relay: RelayView, name: Seq<char>) -> bool {
    let data = registration_data(relay, name);
    &&& registration_error(data) is None
    &&& forall|now: i64| #[trigger]
        registration(relay.relay_id, data, now) == connection(relay, name, now)
}

proof fn lemma_registration_fields(relay: RelayView, name: Seq<char>)
    ensures
        ({
            let data = registration_data(relay, name);
            &&& data.field("name"@) == Some(JsonView::Text(name))
            &&& data.field("role"@) == Some(JsonView::Text(role_name(relay.config.role)))
            &&& data.field("command"@) == Some(JsonView::Text(relay.config.command))
            &&& data.field("command_args"@) == Some(text_array(relay.config.command_args))
            &&& data.field("safe_paths"@) == Some(text_array(relay.config.safe_paths))
            &&& data.field("labels"@) == Some(text_object(relay.config.labels))
            &&& data.field("projects"@) == Some(text_array(uuid_texts(relay.config.projects)))
            &&& data.field("setup_script"@) == Some(text_or_null(relay.config.setup_script))
        }),
{
    reveal_strlit("relay_id");
    reveal_strlit("name");
    reveal_strlit("role");
    reveal_strlit("command");
    reveal_strlit("command_args");
    reveal_strlit("safe_paths");
    reveal_strlit("labels");
    reveal_strlit("projects");
    reveal_strlit("setup_script");
    assert("name"@[0] == 'n' && "role"@[0] == 'r');
    assert("relay_id"@[0] == 'r' && "projects"@[0] == 'p');
    assert("command_args"@[0] == 'c' && "setup_script"@[0] == 's');
    assert("relay_id"@.len() == 8 && "name"@.len() == 4 && "role"@.len() == 4);
    assert("command"@.len() == 7 && "command_args"@.len() == 12 && "safe_paths"@.len() == 10);
    assert("labels"@.len() == 6 && "projects"@.len() == 8 && "setup_script"@.len() == 12);
}

impl Relay {
    pub closed spec fn view(&self) -> RelayView {
        RelayView { config: self.config@, relay_id: self.relay_id@ }
    }

    /// The relay with this id.
    pub fn with_id(config: RelayConfig, relay_id: String) -> (r: Relay)
        ensures
            r@ == (RelayView { config: config@, relay_id: relay_id@ }),
    {
        Relay { config, relay_id }
    }

    /// The relay on this machine.
    pub fn new(config: RelayConfig) -> (r: Relay)
        ensures
            r@.config == config@,
            is_relay_id(r@.relay_id),
            exists|machine: Option<Seq<char>>, host: Option<Seq<char>>, random: u128|
                r@.relay_id == relay_id_of(#[trigger] identity_of(machine, host, random)),
    {
        Relay::with_id(config, generate_relay_id())
    }

    /// The id of the relay.
    pub fn id(&self) -> (r: &str)
        ensures
            r@ == self@.relay_id,
    {
        self.relay_id.as_str()
    }

    /// The configuration of the relay.
    pub fn config(&self) -> (r: &RelayConfig)
        ensures
            r@ == self@.config,
    {
        &self.config
    }

    /// The URL under which the relay connects to the event bus.
    pub fn event_bus_url(&self) -> (r: String)
        ensures
            r@ == event_bus_url(self@.config.url, self@.relay_id, self@.config.token),
    {
        proof {
            reveal_strlit("/ws/relays");
            reveal_strlit("/ws/relay");
        }
        let server = self.config.server_url();
        let replaced = replace(
            replace(server, "/ws/relays", EVENT_BUS_PATH).as_str(),
            "/ws/relay",
            EVENT_BUS_PATH,
        );
        let address = if contains(replaced.as_str(), EVENT_BUS_PATH) {
            replaced
        } else {
            trim_end_char(server, '/').concat(EVENT_BUS_PATH)
        };
        address.concat("?relay_id=").concat(self.relay_id.as_str()).concat(
            "&kinds=relay.*,permission.responded&token=",
        ).concat(self.config.token.as_str())
    }

    /// The message by which a relay called `name` registers. A server understands
    /// it as long as the command is more than white space.
    pub fn register_message_as(&self, name: &str) -> (r: ClientMessage)
        ensures
            r@ == (ClientMessageView::EmitEvent {
                kind: RELAY_UP@,
                data: registration_data(self@, name@),
            }),
            trimmed(self@.config.command).len() > 0 ==> understood(self@, name@),
    {
        let data = Json::object().with("relay_id", Json::text(self.relay_id.as_str())).with(
            "name",
            Json::text(name),
        ).with("role", Json::text(self.config.role().as_str())).with(
            "command",
            Json::text(self.config.command()),
        ).with("command_args", Json::texts(&self.config.command_args)).with(
            "safe_paths",
            Json::texts(&self.config.safe_paths),
        ).with("labels", Json::table(&self.config.labels)).with(
            "projects",
            Json::ids(&self.config.projects),
        ).with("setup_script", Json::opt_text(self.config.setup_script()));
        proof {
            lemma_registration_fields(self@, name@);
            law_role_names(self@.config.role);
        }
        ClientMessage::EmitEvent { kind: RELAY_UP.to_owned(), data }
    }

    /// The message by which the relay registers.
    pub fn register_message(&self) -> (r: ClientMessage)
        ensures
            exists|name: Seq<char>|
                {
                    &&& self@.config.name matches Some(n) ==> name == n
                    &&& r@ == (ClientMessageView::EmitEvent {
                        kind: RELAY_UP@,
                        data: #[trigger] registration_data(self@, name),
                    })
                    &&& trimmed(self@.config.command).len() > 0 ==> understood(self@, name)
                },
    {
        let name = self.config.relay_name();
        self.register_message_as(name.as_str())
    }

    /// Takes in how a connection came to its end, and says what the relay does.
    pub fn run(&self, delay: &mut ReconnectDelay, result: ConnectionResult) -> (r: RunStep)
        ensures
            match result {
                ConnectionResult::Reconnect => {
                    &&& r matches RunStep::Sleep { secs } && secs == old(delay)@
                    &&& final(delay)@ == longer_delay(old(delay)@)
                },
                ConnectionResult::ReconnectImmediate => {
                    &&& r is Connect
                    &&& final(delay)@ == RECONNECT_DELAY
                },
                ConnectionResult::FatalError { error } => {
                    &&& r matches RunStep::Stop { error: e } && e@ == error@
                    &&& final(delay)@ == old(delay)@
                },
            },
            RECONNECT_DELAY <= final(delay)@ <= MAX_RECONNECT_DELAY,
    {
        proof {
            use_type_invariant(&*delay);
        }
        match result {
            ConnectionResult::Reconnect => {
                let secs: u64 = delay.secs;
                delay.secs = if 2 * secs < MAX_RECONNECT_DELAY {
                    2 * secs
                } else {
                    MAX_RECONNECT_DELAY
                };
                RunStep::Sleep { secs }
            },
            ConnectionResult::ReconnectImmediate => {
                delay.secs = RECONNECT_DELAY;
                RunStep::Connect
            },
            ConnectionResult::FatalError { error } => RunStep::Stop { error },
        }
    }
}

/// What the relay does for an event of the server.
#[derive(Debug)]
pub enum ServerAction {
    /// Nothing.
    Ignore,
    /// It starts a session; then `spawn_report`.
    Spawn { request_id: String, params: SpawnSessionParams },
    /// It stops a session.
    Stop { session_id: String },
    /// It hands input to a session.
    Input { params: SendInputParams },
    /// It reads the user's decision on a permission request; then
    /// `permission_reply`.
    Decide { request_id: String, session_id: String, outcome: Json },
    /// It reports to the server.
    Emit { output: RelayOutput },
}

/// The content of what the relay does.
pub enum ServerActionView {
    Ignore,
    Spawn { request_id: Seq<char>, params: SpawnParamsView },
    Stop { session_id: Seq<char> },
    Input { session_id: Seq<char>, input: Seq<char> },
    Decide { request_id: Seq<char>, session_id: Seq<char>, outcome: JsonView },
    Emit { output: RelayOutputView },
}

impl ServerAction {
    pub open spec fn view(&self) -> ServerActionView {
        match self {
            ServerAction::Ignore => ServerActionView::Ignore,
            ServerAction::Spawn { request_id, params } => ServerActionView::Spawn {
                request_id: request_id@,
                params: params@,
            },
            ServerAction::Stop { session_id } => ServerActionView::Stop { session_id: session_id@ },
            ServerAction::Input { params } => ServerActionView::Input {
                session_id: params.session_id@,
                input: params.input@,
            },
            ServerAction::Decide { request_id, session_id, outcome } => ServerActionView::Decide {
                request_id: request_id@,
                session_id: session_id@,
                outcome: outcome@,
            },
            ServerAction::Emit { output } => ServerActionView::Emit { output: output@ },
        }
    }
}

/// `data` say all that it takes to start a session: who asks, for which agent
/// and session, where, and with which command, arguments and environment.
pub open spec fn is_spawn_request(data: JsonView) -> bool {
    &&& data.text_field("request_id"@) is Some
    &&& data.text_field("agent_id"@) is Some
    &&& data.text_field("session_id"@) is Some
    &&& data.text_field("workdir"@) is Some
    &&& data.text_field("command"@) is Some
    &&& data.field("args"@) matches Some(args) && args.text_list() is Some
    &&& data.field("env"@) is Some
}

/// The session that `data` ask for. An environment that is no table of texts
/// counts as empty.
pub open spec fn spawn_params(data: JsonView, setup_script: Option<Seq<char>>) -> SpawnParamsView {
    SpawnParamsView {
        agent_id: data.text_field("agent_id"@)->0,
        session_id: data.text_field("session_id"@)->0,
        workdir: data.text_field("workdir"@)->0,
        command: data.text_field("command"@)->0,
        args: text_list_or_empty(data, "args"@),
        env: text_table_or_empty(data, "env"@),
        setup_script,
        task_id: data.text_field("task_id"@),
    }
}

/// The report that a permission request could not be answered.
pub open spec fn permission_error(
    relay_id: Seq<char>,
    request_id: Option<Seq<char>>,
    session_id: Option<Seq<char>>,
    error: Seq<char>,
) -> JsonView {
    let data = JsonView::Object(Map::empty()).with("relay_id"@, JsonView::Text(relay_id)).with(
        "error_type"@,
        JsonView::Text("permission_response_failed"@),
    ).with("error"@, JsonView::Text(error));
    let data = match request_id {
        Some(id) => data.with("request_id"@, JsonView::Text(id)),
        None => data,
    };
    match session_id {
        Some(id) => data.with("session_id"@, JsonView::Text(id)),
        None => data,
    }
}

/// What the relay does for the answer to a permission request: where the answer
/// is incomplete, it reports so, as far as it knows what the answer is for.
pub open spec fn decision_action(relay_id: Seq<char>, data: JsonView) -> ServerActionView {
    match (data.text_field("request_id"@), data.text_field("session_id"@), data.field("outcome"@)) {
        (None, _, _) => ServerActionView::Emit {
            output: RelayOutputView::EmitEvent {
                kind: RELAY_ERROR@,
                data: permission_error(
                    relay_id,
                    None,
                    None,
                    "missing or invalid request_id"@,
                ).with("raw_data"@, data),
            },
        },
        (Some(request_id), None, _) => ServerActionView::Emit {
            output: RelayOutputView::EmitEvent {
                kind: RELAY_ERROR@,
                data: permission_error(
                    relay_id,
                    Some(request_id),
                    None,
                    "missing or invalid session_id"@,
                ).with("raw_data"@, data),
            },
        },
        (Some(request_id), Some(session_id), None) => ServerActionView::Emit {
            output: RelayOutputView::EmitEvent {
                kind: RELAY_ERROR@,
                data: permission_error(
                    relay_id,
                    Some(request_id),
                    Some(session_id),
                    "missing outcome field"@,
                ),
            },
        },
        (Some(request_id), Some(session_id), Some(outcome)) => ServerActionView::Decide {
            request_id,
            session_id,
            outcome,
        },
    }
}

/// What the relay does for an event of the server.
pub open spec fn server_action(relay: RelayView, kind: Seq<char>, data: JsonView) ->
    ServerActionView {
    if kind == RELAY_SPAWN_REQUESTED@ {
        if is_spawn_request(data) {
            ServerActionView::Spawn {
                request_id: data.text_field("request_id"@)->0,
                params: spawn_params(data, relay.config.setup_script),
            }
        } else {
            ServerActionView::Ignore
        }
    } else if kind == RELAY_STOP_REQUESTED@ {
        match data.text_field("session_id"@) {
            Some(session_id) => ServerActionView::Stop { session_id },
            None => ServerActionView::Ignore,
        }
    } else if kind == RELAY_INPUT_REQUESTED@ {
        match (data.text_field("session_id"@), data.text_field("input"@)) {
            (Some(session_id), Some(input)) => ServerActionView::Input { session_id, input },
            _ => ServerActionView::Ignore,
        }
    } else if kind == PERMISSION_RESPONDED@ {
        decision_action(relay.relay_id, data)
    } else {
        ServerActionView::Ignore
    }
}

/// The report on a session that was to be started.
pub open spec fn spawn_report(
    relay_id: Seq<char>,
    request_id: Seq<char>,
    session_id: Seq<char>,
    error: Option<Seq<char>>,
) -> RelayOutputView {
    let data = JsonView::Object(Map::empty()).with("request_id"@, JsonView::Text(request_id)).with(
        "session_id"@,
        JsonView::Text(session_id),
    ).with("relay_id"@, JsonView::Text(relay_id));
    match error {
        None => RelayOutputView::EmitEvent { kind: RELAY_SPAWN_COMPLETED@, data },
        Some(e) => RelayOutputView::EmitEvent {
            kind: RELAY_SPAWN_FAILED@,
            data: data.with("error"@, JsonView::Text(e)),
        },
    }
}

/// What the relay does with the user's decision.
#[derive(Debug)]
pub enum PermissionReply {
    /// It hands the decision to the session; where that fails, `delivery_report`.
    Deliver { outcome: RequestPermissionOutcome },
    /// It reports that the decision cannot be read.
    Emit { output: RelayOutput },
}

impl Relay {
    fn spawn_request(&self, data: &Json) -> (r: Option<(String, SpawnSessionParams)>)
        ensures
            match r {
                Some((request_id, params)) => {
                    &&& is_spawn_request(data@)
                    &&& data@.text_field("request_id"@) == Some(request_id@)
                    &&& params@ == spawn_params(data@, self@.config.setup_script)
                },
                None => !is_spawn_request(data@),
            },
    {
        let request_id = data.text_field("request_id")?.to_owned();
        let agent_id = data.text_field("agent_id")?.to_owned();
        let session_id = data.text_field("session_id")?.to_owned();
        let workdir = data.text_field("workdir")?.to_owned();
        let command = data.text_field("command")?.to_owned();
        let args = match data.get("args")?.text_list() {
            Ok(list) => list,
            Err(_) => {
                return None;
            },
        };
        let env = match data.get("env")?.text_table() {
            Some(table) => table,
            None => {
                let none: Table<String> = Table::new();
                assert(text_map(none@) =~= Map::empty());
                none
            },
        };
        let task_id = match data.text_field("task_id") {
            Some(id) => Some(id.to_owned()),
            None => None,
        };
        let setup_script = match self.config.setup_script() {
            Some(script) => Some(script.to_owned()),
            None => None,
        };
        let params = SpawnSessionParams {
            agent_id,
            session_id,
            workdir,
            command,
            args,
            env,
            setup_script,
            task_id,
        };
        Some((request_id, params))
    }

    fn permission_error(
        &self,
        request_id: Option<&str>,
        session_id: Option<&str>,
        error: &str,
    ) -> (r: Json)
        ensures
            r@ == permission_error(self@.relay_id, opt_str(request_id), opt_str(session_id), error@),
    {
        let data = Json::object().with("relay_id", Json::text(self.relay_id.as_str())).with(
            "error_type",
            Json::text("permission_response_failed"),
        ).with("error", Json::text(error));
        let data = match request_id {
            Some(id) => data.with("request_id", Json::text(id)),
            None => data,
        };
        match session_id {
            Some(id) => data.with("session_id", Json::text(id)),
            None => data,
        }
    }

    fn decision(&self, data: &Json) -> (r: ServerAction)
        ensures
            r@ == decision_action(self@.relay_id, data@),
    {
        let request_id = match data.text_field("request_id") {
            Some(id) => id,
            None => {
                let data = self.permission_error(
                    None,
                    None,
                    "missing or invalid request_id",
                ).with("raw_data", data.clone());
                let output = RelayOutput::EmitEvent { kind: RELAY_ERROR.to_owned(), data };
                return ServerAction::Emit { output };
            },
        };
        let session_id = match data.text_field("session_id") {
            Some(id) => id,
            None => {
                let data = self.permission_error(
                    Some(request_id),
                    None,
                    "missing or invalid session_id",
                ).with("raw_data", data.clone());
                let output = RelayOutput::EmitEvent { kind: RELAY_ERROR.to_owned(), data };
                return ServerAction::Emit { output };
            },
        };
        match data.get("outcome") {
            Some(outcome) => ServerAction::Decide {
                request_id: request_id.to_owned(),
                session_id: session_id.to_owned(),
                outcome: outcome.clone(),
            },
            None => {
                let data = self.permission_error(
                    Some(request_id),
                    Some(session_id),
                    "missing outcome field",
                );
                let output = RelayOutput::EmitEvent { kind: RELAY_ERROR.to_owned(), data };
                ServerAction::Emit { output }
            },
        }
    }

    /// Says what the relay does for an event of the server.
    pub fn handle_server_event(&self, kind: &str, data: &Json) -> (r: ServerAction)
        ensures
            r@ == server_action(self@, kind@, data@),
    {
        if same(kind, RELAY_SPAWN_REQUESTED) {
            match self.spawn_request(data) {
                Some((request_id, params)) => ServerAction::Spawn { request_id, params },
                None => ServerAction::Ignore,
            }
        } else if same(kind, RELAY_STOP_REQUESTED) {
            match data.text_field("session_id") {
                Some(id) => ServerAction::Stop { session_id: id.to_owned() },
                None => ServerAction::Ignore,
            }
        } else if same(kind, RELAY_INPUT_REQUESTED) {
            match data.text_field("session_id") {
                Some(id) => match data.text_field("input") {
                    Some(input) => {
                        let params = SendInputParams {
                            session_id: id.to_owned(),
                            input: input.to_owned(),
                        };
                        ServerAction::Input { params }
                    },
                    None => ServerAction::Ignore,
                },
                None => ServerAction::Ignore,
            }
        } else if same(kind, PERMISSION_RESPONDED) {
            self.decision(data)
        } else {
            ServerAction::Ignore
        }
    }

    /// The report on a session that was to be started; `error` says why it was
    /// not.
    pub fn spawn_report(&self, request_id: &str, session_id: &str, error: Option<&str>) -> (r:
        RelayOutput)
        ensures
            r@ == spawn_report(self@.relay_id, request_id@, session_id@, opt_str(error)),
    {
        let data = Json::object().with("request_id", Json::text(request_id)).with(
            "session_id",
            Json::text(session_id),
        ).with("relay_id", Json::text(self.relay_id.as_str()));
        match error {
            None => RelayOutput::EmitEvent { kind: RELAY_SPAWN_COMPLETED.to_owned(), data },
            Some(e) => RelayOutput::EmitEvent {
                kind: RELAY_SPAWN_FAILED.to_owned(),
                data: data.with("error", Json::text(e)),
            },
        }
    }

    /// The decision as it is handed to the agent.
    pub fn parse_permission_outcome(outcome: PermissionOutcome) -> (r: RequestPermissionOutcome)
        ensures
            outcome_view(r) == outcome@,
    {
        permission_outcome(outcome)
    }

    /// What the relay does with the user's decision, where it could be read from
    /// `raw`.
    pub fn permission_reply(
        &self,
        request_id: &str,
        session_id: &str,
        raw: &Json,
        outcome: Option<PermissionOutcome>,
    ) -> (r: PermissionReply)
        ensures
            match outcome {
                Some(decision) => r matches PermissionReply::Deliver { outcome: o }
                    && outcome_view(o) == decision@,
                None => r matches PermissionReply::Emit { output } && output@ == (
                RelayOutputView::EmitEvent {
                    kind: RELAY_ERROR@,
                    data: permission_error(
                        self@.relay_id,
                        Some(request_id@),
                        Some(session_id@),
                        "failed to parse outcome"@,
                    ).with("raw_outcome"@, raw@),
                }),
            },
    {
        match outcome {
            Some(decision) => PermissionReply::Deliver {
                outcome: Self::parse_permission_outcome(decision),
            },
            None => {
                let data = self.permission_error(
                    Some(request_id),
                    Some(session_id),
                    "failed to parse outcome",
                ).with("raw_outcome", raw.clone());
                let output = RelayOutput::EmitEvent { kind: RELAY_ERROR.to_owned(), data };
                PermissionReply::Emit { output }
            },
        }
    }

    /// The report that a decision could not be handed to its session.
    pub fn delivery_report(&self, request_id: &str, session_id: &str, error: &str) -> (r:
        RelayOutput)
        ensures
            r@ == (RelayOutputView::EmitEvent {
                kind: RELAY_ERROR@,
                data: permission_error(
                    self@.relay_id,
                    Some(request_id@),
                    Some(session_id@),
                    "failed to deliver response: "@ + error@,
                ),
            }),
    {
        let message = "failed to deliver response: ".to_owned().concat(error);
        let data = self.permission_error(Some(request_id), Some(session_id), message.as_str());
        RelayOutput::EmitEvent { kind: RELAY_ERROR.to_owned(), data }
    }
}

/// How far a relay has come with a connection.
#[derive(Debug, Clone, Copy, PartialEq, Eq, Structural)]
pub enum ConnectionState {
    /// It waits for its subscription to be acknowledged.
    Subscribing,
    /// It waits for its registration to be confirmed.
    Registering,
    /// It is at work.
    Running,
}

/// Something that happens to the connection of a relay.
#[derive(Debug)]
pub enum ServerInput {
    /// The server sends a message.
    Message { message: WsMessage },
    /// The server sends a text that is no message, or a frame that means nothing
    /// here.
    Ignored,
    /// The server closes the connection.
    Close,
    /// The connection fails.
    Failed,
    /// The connection has ended.
    Ended,
    /// The server took too long to confirm the registration.
    Timeout,
    /// The registration could not be sent.
    NotSent,
    /// The registration could not be written down.
    NotEncoded { error: String },
    /// There is no connection.
    NotConnected,
}

/// The content of what happens to the connection.
pub enum ServerInputView {
    Message { message: WsMessageView },
    Ignored,
    Close,
    Failed,
    Ended,
    Timeout,
    NotSent,
    NotEncoded { error: Seq<char> },
    NotConnected,
}

impl ServerInput {
    pub open spec fn view(&self) -> ServerInputView {
        match self {
            ServerInput::Message { message } => ServerInputView::Message { message: message@ },
            ServerInput::Ignored => ServerInputView::Ignored,
            ServerInput::Close => ServerInputView::Close,
            ServerInput::Failed => ServerInputView::Failed,
            ServerInput::Ended => ServerInputView::Ended,
            ServerInput::Timeout => ServerInputView::Timeout,
            ServerInput::NotSent => ServerInputView::NotSent,
            ServerInput::NotEncoded { error } => ServerInputView::NotEncoded { error: error@ },
            ServerInput::NotConnected => ServerInputView::NotConnected,
        }
    }
}

/// What the relay does next.
#[derive(Debug)]
pub enum ConnectionStep {
    /// It waits.
    Wait,
    /// It sends its registration, and waits a while for the confirmation.
    Register,
    /// It starts to send its reports.
    Serve,
    /// It does what an event of the server asks for.
    Perform { action: ServerAction },
    /// It gives the connection up, as one that never came to work.
    GiveUp,
    /// The connection has ended after the relay was at work.
    Disconnected,
    /// It cannot go on, with this connection or another.
    Abort { error: String },
}

/// The content of what the relay does next.
pub enum ConnectionStepView {
    Wait,
    Register,
    Serve,
    Perform { action: ServerActionView },
    GiveUp,
    Disconnected,
    Abort { error: Seq<char> },
}

impl ConnectionStep {
    pub open spec fn view(&self) -> ConnectionStepView {
        match self {
            ConnectionStep::Wait => ConnectionStepView::Wait,
            ConnectionStep::Register => ConnectionStepView::Register,
            ConnectionStep::Serve => ConnectionStepView::Serve,
            ConnectionStep::Perform { action } => ConnectionStepView::Perform { action: action@ },
            ConnectionStep::GiveUp => ConnectionStepView::GiveUp,
            ConnectionStep::Disconnected => ConnectionStepView::Disconnected,
            ConnectionStep::Abort { error } => ConnectionStepView::Abort { error: error@ },
        }
    }

    /// How the connection came to its end, where this step ends it.
    pub fn result(&self) -> (r: Option<ConnectionResult>)
        ensures
            match self@ {
                ConnectionStepView::GiveUp => r matches Some(ConnectionResult::Reconnect),
                ConnectionStepView::Disconnected => r matches Some(
                    ConnectionResult::ReconnectImmediate,
                ),
                ConnectionStepView::Abort { error } => r matches Some(
                    ConnectionResult::FatalError { error: e },
                ) && e@ == error,
                _ => r is None,
            },
    {
        match self {
            ConnectionStep::GiveUp => Some(ConnectionResult::Reconnect),
            ConnectionStep::Disconnected => Some(ConnectionResult::ReconnectImmediate),
            ConnectionStep::Abort { error } => Some(
                ConnectionResult::FatalError { error: error.clone() },
            ),
            _ => None,
        }
    }
}

/// What the relay does next.
pub open spec fn connection_step(
    relay: RelayView,
    state: ConnectionState,
    input: ServerInputView,
) -> ConnectionStepView {
    match state {
        ConnectionState::Subscribing => match input {
            ServerInputView::Message { message: WsMessageView::Subscribed { .. } } =>
                ConnectionStepView::Register,
            ServerInputView::Failed | ServerInputView::Ended | ServerInputView::NotConnected =>
                ConnectionStepView::GiveUp,
            _ => ConnectionStepView::Wait,
        },
        ConnectionState::Registering => match input {
            ServerInputView::Message { message: WsMessageView::Registered { .. } } =>
                ConnectionStepView::Serve,
            ServerInputView::Message { message: WsMessageView::Error { .. } } =>
                ConnectionStepView::GiveUp,
            ServerInputView::Failed | ServerInputView::Ended | ServerInputView::Timeout
            | ServerInputView::NotSent => ConnectionStepView::GiveUp,
            ServerInputView::NotEncoded { error } => ConnectionStepView::Abort { error },
            _ => ConnectionStepView::Wait,
        },
        ConnectionState::Running => match input {
            ServerInputView::Message { message: WsMessageView::Event { kind, data, .. } } =>
                ConnectionStepView::Perform { action: server_action(relay, kind, data) },
            ServerInputView::Close | ServerInputView::Failed | ServerInputView::Ended =>
                ConnectionStepView::Disconnected,
            _ => ConnectionStepView::Wait,
        },
    }
}

/// How far the relay has come afterwards.
pub open spec fn connection_state(step: ConnectionStepView, state: ConnectionState) ->
    ConnectionState {
    match step {
        ConnectionStepView::Register => ConnectionState::Registering,
        ConnectionStepView::Serve => ConnectionState::Running,
        _ => state,
    }
}

impl Relay {
    /// Takes in what happens to the connection.
    pub fn step(&self, state: &mut ConnectionState, input: ServerInput) -> (r: ConnectionStep)
        ensures
            r@ == connection_step(self@, *old(state), input@),
            *final(state) == connection_state(r@, *old(state)),
    {
        match *state {
            ConnectionState::Subscribing => match input {
                ServerInput::Message { message: WsMessage::Subscribed { .. } } => {
                    *state = ConnectionState::Registering;
                    ConnectionStep::Register
                },
                ServerInput::Failed | ServerInput::Ended | ServerInput::NotConnected =>
                    ConnectionStep::GiveUp,
                _ => ConnectionStep::Wait,
            },
            ConnectionState::Registering => match input {
                ServerInput::Message { message: WsMessage::Registered { .. } } => {
                    *state = ConnectionState::Running;
                    ConnectionStep::Serve
                },
                ServerInput::Message { message: WsMessage::Error { .. } } =>
                    ConnectionStep::GiveUp,
                ServerInput::Failed | ServerInput::Ended | ServerInput::Timeout
                | ServerInput::NotSent => ConnectionStep::GiveUp,
                ServerInput::NotEncoded { error } => ConnectionStep::Abort { error },
                _ => ConnectionStep::Wait,
            },
            ConnectionState::Running => match input {
                ServerInput::Message { message: WsMessage::Event { kind, data, .. } } => {
                    let action = self.handle_server_event(kind.as_str(), &data);
                    ConnectionStep::Perform { action }
                },
                ServerInput::Close | ServerInput::Failed | ServerInput::Ended =>
                    ConnectionStep::Disconnected,
                _ => ConnectionStep::Wait,
            },
        }
    }
}

/// The delay after `n` attempts in a row that failed.
pub open spec fn delay_after(n: nat) -> int
    decreases n,
{
    if n == 0 {
        RECONNECT_DELAY as int
    } else {
        longer_delay(delay_after((n - 1) as nat))
    }
}

/// With every attempt that fails the delay doubles, up to the limit.
pub proof fn law_delay_doubles(n: nat)
    ensures
        delay_after(n) == if RECONNECT_DELAY * pow2(n) < MAX_RECONNECT_DELAY {
            RECONNECT_DELAY * pow2(n)
        } else {
            MAX_RECONNECT_DELAY as int
        },
        RECONNECT_DELAY <= delay_after(n) <= MAX_RECONNECT_DELAY,
        delay_after(n) <= delay_after(n + 1),
    decreases n,
{
    if n == 0 {
        lemma2_to64();
    } else {
        law_delay_doubles((n - 1) as nat);
        lemma_pow2_unfold(n);
    }
}

proof fn lemma_replace_at_end(base: Seq<char>, pattern: Seq<char>, with: Seq<char>)
    requires
        pattern.len() > 0,
        forall|i: int| 0 <= i < base.len() ==> !occurs_at(base + pattern, i, pattern),
    ensures
        replace_all(base + pattern, pattern, with) == base + with,
{
    let none = Seq::<char>::empty();
    assert(base + pattern + none =~= base + pattern);
    law_replace_first(base, pattern, none, with);
    assert(base + with + none =~= base + with);
}

/// Where `/ws/relay` occurs in a text that ends in a path below `/ws`, it occurs
/// within what stands before that path, or it is the beginning of the path.
proof fn lemma_no_overlap(base: Seq<char>, end: Seq<char>, i: int)
    requires
        !contains_text(base, "/ws/relay"@),
        end.len() > 1,
        end[0] == '/',
        end[1] == 'w',
        0 <= i < base.len(),
    ensures
        !occurs_at(base + end, i, "/ws/relay"@),
{
    reveal_strlit("/ws/relay");
    let p = "/ws/relay"@;
    let s = base + end;
    if occurs_at(s, i, p) {
        let found = s.subrange(i, i + p.len());
        if i + p.len() <= base.len() {
            assert(base.subrange(i, i + p.len()) =~= found);
            assert(occurs_at(base, i, p));
        } else {
            let k = base.len() - i;
            assert(found[k] == end[0]);
            assert(p[k] == '/');
            assert(k == 3);
            assert(found[k + 1] == end[1]);
        }
    }
}

proof fn lemma_plural_occurs(s: Seq<char>, i: int)
    requires
        occurs_at(s, i, "/ws/relays"@),
    ensures
        occurs_at(s, i, "/ws/relay"@),
{
    reveal_strlit("/ws/relay");
    reveal_strlit("/ws/relays");
    let found = s.subrange(i, i + "/ws/relays"@.len());
    assert(found.take("/ws/relay"@.len() as int) =~= s.subrange(i, i + "/ws/relay"@.len()));
    assert("/ws/relays"@.take("/ws/relay"@.len() as int) =~= "/ws/relay"@);
}

proof fn lemma_no_relay_path(s: Seq<char>)
    requires
        !contains_text(s, "/ws/relay"@),
    ensures
        replace_all(
            replace_all(s, "/ws/relays"@, EVENT_BUS_PATH@),
            "/ws/relay"@,
            EVENT_BUS_PATH@,
        ) == s,
{
    assert forall|i: int| !occurs_at(s, i, "/ws/relays"@) by {
        if occurs_at(s, i, "/ws/relays"@) {
            lemma_plural_occurs(s, i);
        }
    }
    law_replace_absent(s, "/ws/relays"@, EVENT_BUS_PATH@);
    law_replace_absent(s, "/ws/relay"@, EVENT_BUS_PATH@);
}

/// Whatever the server, a relay connects to the event bus.
pub proof fn law_address_names_event_bus(server: Seq<char>)
    ensures
        contains_text(event_bus_address(server), EVENT_BUS_PATH@),
{
    let base = without_trailing(server, '/');
    let s = base + EVENT_BUS_PATH@;
    assert(s.subrange(base.len() as int, s.len() as int) =~= EVENT_BUS_PATH@);
    assert(occurs_at(s, base.len() as int, EVENT_BUS_PATH@));
}

/// A server that is given by its event bus is taken as it is; one that is given
/// without a path gets the path of the event bus, after any slashes at its end.
pub proof fn law_address_of_plain_server(server: Seq<char>)
    requires
        !contains_text(server, "/ws/relay"@),
    ensures
        contains_text(server, EVENT_BUS_PATH@) ==> event_bus_address(server) == server,
        !contains_text(server, EVENT_BUS_PATH@) ==> event_bus_address(server) == without_trailing(
            server,
            '/',
        ) + EVENT_BUS_PATH@,
{
    lemma_no_relay_path(server);
}

/// A server that is given by one of its relay endpoints is reached over its
/// event bus.
pub proof fn law_relay_endpoints_lead_to_event_bus(base: Seq<char>)
    requires
        !contains_text(base, "/ws/relay"@),
    ensures
        event_bus_address(base + "/ws/relays"@) == base + EVENT_BUS_PATH@,
        event_bus_address(base + "/ws/relay"@) == base + EVENT_BUS_PATH@,
{
    reveal_strlit("/ws/relay");
    reveal_strlit("/ws/relays");
    reveal_strlit("/ws/event-bus");
    let one = "/ws/relay"@;
    let many = "/ws/relays"@;
    let bus = EVENT_BUS_PATH@;
    let target = base + bus;
    assert forall|i: int| !occurs_at(target, i, one) by {
        if 0 <= i < base.len() {
            lemma_no_overlap(base, bus, i);
        } else if occurs_at(target, i, one) {
            let found = target.subrange(i, i + one.len());
            let k = i - base.len();
            assert(found[0] == bus[k] && found[1] == bus[k + 1] && found[4] == bus[k + 4]);
            assert(bus[k] == '/' && bus[k + 1] == 'w');
            assert(k == 0);
        }
    }
    assert(target.subrange(base.len() as int, target.len() as int) =~= bus);
    assert(occurs_at(target, base.len() as int, bus));
    law_replace_absent(target, one, bus);
    // The plural form goes with the first replacement.
    assert forall|i: int| 0 <= i < base.len() implies !occurs_at(base + many, i, many) by {
        lemma_no_overlap(base, many, i);
        if occurs_at(base + many, i, many) {
            lemma_plural_occurs(base + many, i);
        }
    }
    lemma_replace_at_end(base, many, bus);
    // The singular form goes with the second.
    let singular = base + one;
    assert forall|i: int| !occurs_at(singular, i, many) by {
        if occurs_at(singular, i, many) {
            lemma_plural_occurs(singular, i);
            lemma_no_overlap(base, one, i);
        }
    }
    law_replace_absent(singular, many, bus);
    assert forall|i: int| 0 <= i < base.len() implies !occurs_at(singular, i, one) by {
        lemma_no_overlap(base, one, i);
    }
    lemma_replace_at_end(base, one, bus);
}

/// A relay does nothing for events of other kinds than the four that are meant
/// for it.
pub proof fn law_other_kinds_are_ignored(relay: RelayView, kind: Seq<char>, data: JsonView)
    requires
        kind != RELAY_SPAWN_REQUESTED@,
        kind != RELAY_STOP_REQUESTED@,
        kind != RELAY_INPUT_REQUESTED@,
        kind != PERMISSION_RESPONDED@,
    ensures
        server_action(relay, kind, data) == ServerActionView::Ignore,
{
}

/// A request to start a session that the manager gives out is one that the relay
/// acts on, with the parameters that were asked for and under the id under which
/// the answer is awaited.
pub proof fn law_spawn_command_is_understood(
    relay: RelayView,
    request_id: Seq<char>,
    data: JsonView,
    task_id: Option<u128>,
)
    requires
        data is Object,
        data.text_field("agent_id"@) is Some,
        data.text_field("session_id"@) is Some,
        data.text_field("workdir"@) is Some,
        data.text_field("command"@) is Some,
        data.field("args"@) is Some,
        data.field("args"@)->0.text_list() is Some,
        data.field("env"@) is Some,
    ensures
        ({
            let event = command_event(
                relay.relay_id,
                RELAY_SPAWN_REQUESTED@,
                request_id,
                data,
                task_id,
            );
            server_action(relay, event.kind, event.data) == (ServerActionView::Spawn {
                request_id,
                params: spawn_params(data, relay.config.setup_script),
            })
        }),
{
    let sent = command_event(
        relay.relay_id,
        RELAY_SPAWN_REQUESTED@,
        request_id,
        data,
        task_id,
    ).data;
    reveal_strlit("relay_id");
    reveal_strlit("request_id");
    reveal_strlit("agent_id");
    reveal_strlit("session_id");
    reveal_strlit("workdir");
    reveal_strlit("command");
    reveal_strlit("args");
    reveal_strlit("env");
    reveal_strlit("task_id");
    assert("relay_id"@.len() == 8 && "request_id"@.len() == 10);
    assert("relay_id"@[0] == 'r' && "request_id"@[0] == 'r');
    assert("agent_id"@[0] == 'a' && "session_id"@[0] == 's' && "workdir"@.len() == 7);
    assert("command"@.len() == 7 && "args"@.len() == 4 && "env"@.len() == 3 && "task_id"@.len()
        == 7);
    assert(sent.field("request_id"@) == Some(JsonView::Text(request_id)));
    assert(sent.field("agent_id"@) == data.field("agent_id"@));
    assert(sent.field("session_id"@) == data.field("session_id"@));
    assert(sent.field("workdir"@) == data.field("workdir"@));
    assert(sent.field("command"@) == data.field("command"@));
    assert(sent.field("args"@) == data.field("args"@));
    assert(sent.field("env"@) == data.field("env"@));
    assert(sent.field("task_id"@) == data.field("task_id"@));
}

/// The other commands that the manager gives out are understood in the same way:
/// to stop a session, to hand it input, and to hand it the user's decision.
pub proof fn law_session_commands_are_understood(
    relay: RelayView,
    request_id: Seq<char>,
    data: JsonView,
    task_id: Option<u128>,
    session_id: Seq<char>,
    input: Seq<char>,
    outcome: JsonView,
)
    requires
        data is Object,
        data.text_field("session_id"@) == Some(session_id),
    ensures
        ({
            let sent = |kind: Seq<char>|
                command_event(relay.relay_id, kind, request_id, data, task_id).data;
            &&& server_action(relay, RELAY_STOP_REQUESTED@, sent(RELAY_STOP_REQUESTED@)) == (
            ServerActionView::Stop { session_id })
            &&& data.text_field("input"@) == Some(input) ==> server_action(
                relay,
                RELAY_INPUT_REQUESTED@,
                sent(RELAY_INPUT_REQUESTED@),
            ) == (ServerActionView::Input { session_id, input })
            &&& data.field("outcome"@) == Some(outcome) ==> server_action(
                relay,
                PERMISSION_RESPONDED@,
                sent(PERMISSION_RESPONDED@),
            ) == (ServerActionView::Decide { request_id, session_id, outcome })
        }),
{
    lemma_commands_differ();
    reveal_strlit("relay_id");
    reveal_strlit("request_id");
    reveal_strlit("session_id");
    reveal_strlit("input");
    reveal_strlit("outcome");
    assert("relay_id"@.len() == 8 && "request_id"@.len() == 10 && "request_id"@[0] == 'r');
    assert("session_id"@[0] == 's' && "session_id"@.len() == 10 && "input"@.len() == 5
        && "outcome"@.len() == 7);
    let sent = data.with("relay_id"@, JsonView::Text(relay.relay_id)).with(
        "request_id"@,
        JsonView::Text(request_id),
    );
    assert(sent.field("request_id"@) == Some(JsonView::Text(request_id)));
    assert(sent.field("session_id"@) == data.field("session_id"@));
    assert(sent.field("input"@) == data.field("input"@));
    assert(sent.field("outcome"@) == data.field("outcome"@));
}

proof fn lemma_commands_differ()
    ensures
        RELAY_SPAWN_REQUESTED@ != RELAY_STOP_REQUESTED@,
        RELAY_SPAWN_REQUESTED@ != RELAY_INPUT_REQUESTED@,
        RELAY_SPAWN_REQUESTED@ != PERMISSION_RESPONDED@,
        RELAY_STOP_REQUESTED@ != RELAY_INPUT_REQUESTED@,
        RELAY_STOP_REQUESTED@ != PERMISSION_RESPONDED@,
        RELAY_INPUT_REQUESTED@ != PERMISSION_RESPONDED@,
{
    reveal_strlit("relay.spawn_requested");
    reveal_strlit("relay.stop_requested");
    reveal_strlit("relay.input_requested");
    reveal_strlit("permission.responded");
    assert(RELAY_SPAWN_REQUESTED@[0] == 'r' && RELAY_SPAWN_REQUESTED@[6] == 's');
    assert(RELAY_INPUT_REQUESTED@[0] == 'r' && RELAY_INPUT_REQUESTED@[6] == 'i');
    assert(RELAY_STOP_REQUESTED@[6] == 's' && RELAY_STOP_REQUESTED@[0] == 'r');
    assert(RELAY_STOP_REQUESTED@.len() == 20 && RELAY_SPAWN_REQUESTED@.len() == 21);
    assert(PERMISSION_RESPONDED@[0] == 'p');
}

/// The server publishes the report on a session that was to be started, with the
/// request and the session that it is about.
pub proof fn law_spawn_report_is_published(
    relay_id: Seq<char>,
    request_id: Seq<char>,
    session_id: Seq<char>,
    error: Option<Seq<char>>,
)
    ensures
        ({
            let report = spawn_report(relay_id, request_id, session_id, error);
            let event = forwarded(relay_id, report->kind, report->data);
            &&& relay_event_action(relay_id, report->kind, report->data) == Ok::<
                RelayActionView,
                Seq<char>,
            >(RelayActionView::Publish { event })
            &&& event.data == report->data
            &&& event.data.text_field("request_id"@) == Some(request_id)
        }),
{
    reveal_strlit("relay.spawn_completed");
    reveal_strlit("relay.spawn_failed");
    reveal_strlit("relay.up");
    reveal_strlit("relay.agent_output");
    reveal_strlit("relay.session_status");
    reveal_strlit("relay.permission_request");
    reveal_strlit("relay.artifact");
    reveal_strlit("relay.prompt_completed");
    assert(RELAY_SPAWN_COMPLETED@.len() == 21);
    assert(RELAY_SPAWN_FAILED@.len() == 18 && RELAY_SPAWN_FAILED@[6] == 's');
    assert(RELAY_AGENT_OUTPUT@.len() == 18 && RELAY_AGENT_OUTPUT@[6] == 'a');
    assert(RELAY_UP@.len() == 8);
    assert(RELAY_SESSION_STATUS@.len() == 20);
    assert(RELAY_PERMISSION_REQUEST@.len() == 24);
    assert(RELAY_ARTIFACT@.len() == 14);
    assert(RELAY_PROMPT_COMPLETED@.len() == 22);
    law_spawn_report_names_request(relay_id, request_id, session_id, error);
    let report = spawn_report(relay_id, request_id, session_id, error);
    assert(report->data->Object_0.insert("relay_id"@, JsonView::Text(relay_id))
        =~= report->data->Object_0);
}

/// Whether a session was started or not, the report says which request and which
/// session it is about, and which relay it comes from.
pub proof fn law_spawn_report_names_request(
    relay_id: Seq<char>,
    request_id: Seq<char>,
    session_id: Seq<char>,
    error: Option<Seq<char>>,
)
    ensures
        ({
            let data = spawn_report(relay_id, request_id, session_id, error)->data;
            &&& data.text_field("request_id"@) == Some(request_id)
            &&& data.text_field("session_id"@) == Some(session_id)
            &&& data.text_field("relay_id"@) == Some(relay_id)
            &&& data.text_field("error"@) == error
        }),
{
    reveal_strlit("relay_id");
    reveal_strlit("request_id");
    reveal_strlit("session_id");
    reveal_strlit("error");
    assert("relay_id"@.len() == 8 && "request_id"@[0] == 'r' && "session_id"@[0] == 's');
    assert("request_id"@.len() == 10 && "session_id"@.len() == 10 && "error"@.len() == 5);
}

/// A relay acts on events of the server only after its registration has been
/// confirmed, which in turn comes only after its subscription was acknowledged.
pub proof fn law_relay_works_only_when_registered(
    relay: RelayView,
    state: ConnectionState,
    input: ServerInputView,
)
    ensures
        ({
            let step = connection_step(relay, state, input);
            let after = connection_state(step, state);
            &&& step is Perform ==> state == ConnectionState::Running
            &&& after == ConnectionState::Running ==> state == ConnectionState::Running || (state
                == ConnectionState::Registering && input matches ServerInputView::Message {
                message: WsMessageView::Registered { .. },
            })
            &&& after == ConnectionState::Registering ==> state == ConnectionState::Registering
                || (state == ConnectionState::Subscribing
                && input matches ServerInputView::Message {
                message: WsMessageView::Subscribed { .. },
            })
        }),
{
}

/// A relay gives up for good only where its registration cannot be written down;
/// a server that cannot be reached is tried again.
pub proof fn law_only_encoding_is_fatal(
    relay: RelayView,
    state: ConnectionState,
    input: ServerInputView,
)
    ensures
        connection_step(relay, state, input) is Abort <==> state == ConnectionState::Registering
            && input is NotEncoded,
        connection_step(relay, ConnectionState::Subscribing, ServerInputView::NotConnected)
            == ConnectionStepView::GiveUp,
{
}

/// A connection that fails or ends is not kept: before the relay was at work it
/// is given up, afterwards the relay connects again at once.
pub proof fn law_lost_connection_ends(
    relay: RelayView,
    state: ConnectionState,
    input: ServerInputView,
)
    requires
        input is Failed || input is Ended,
    ensures
        state == ConnectionState::Running ==> connection_step(relay, state, input)
            == ConnectionStepView::Disconnected,
        state != ConnectionState::Running ==> connection_step(relay, state, input)
            == ConnectionStepView::GiveUp,
{
}

/// The delay starts at three seconds, and with every attempt that fails becomes
/// twice as long, up to a minute.
pub proof fn law_delays(secs: int)
    ensures
        RECONNECT_DELAY == 3,
        longer_delay(secs) == if 2 * secs < 60 {
            2 * secs
        } else {
            60
        },
{
}

/// A relay is known by the first half of a digest: its id has two digits for each
/// of the first sixteen bytes, the high half of the byte first.
pub proof fn law_relay_id(identity: Seq<char>, i: int)
    requires
        sha256(encode_utf8(identity)).len() >= 16,
    ensures
        relay_id_of(identity).len() == 32,
        0 <= i < 16 ==> {
            let byte = sha256(encode_utf8(identity))[i] as int;
            &&& relay_id_of(identity)[2 * i] == hex_digit(byte / 16)
            &&& relay_id_of(identity)[2 * i + 1] == hex_digit(byte % 16)
        },
{
    let half = sha256(encode_utf8(identity)).take(16);
    if 0 <= i < 16 {
        assert((2 * i) / 2 == i && (2 * i) % 2 == 0);
        assert((2 * i + 1) / 2 == i && (2 * i + 1) % 2 == 1);
        assert(half[i] == sha256(encode_utf8(identity))[i]);
    }
}

/// A machine is known by its machine id, without one by its name, and by chance
/// only where it has neither.
pub proof fn law_identity(machine: Seq<char>, host: Option<Seq<char>>, name: Seq<char>, random: u128)
    ensures
        identity_of(Some(machine), host, random) == machine,
        identity_of(None, Some(name), random) == name,
        identity_of(None, None, random) == uuid_text(random),
{
}

/// A relay connects to the event bus of its server, gives its id and its token, and
/// asks for the events of relays and for the answers to permission requests.
pub proof fn law_url(base: Seq<char>, relay_id: Seq<char>, token: Seq<char>)
    requires
        !contains_text(base, "/ws/relay"@),
    ensures
        event_bus_url(base + "/ws/relays"@, relay_id, token) == base + "/ws/event-bus"@
            + "?relay_id="@ + relay_id + "&kinds=relay.*,permission.responded&token="@ + token,
        event_bus_url(base + "/ws/relay"@, relay_id, token) == base + "/ws/event-bus"@
            + "?relay_id="@ + relay_id + "&kinds=relay.*,permission.responded&token="@ + token,
        !contains_text(base, "/ws/event-bus"@) ==> event_bus_url(base, relay_id, token)
            == without_trailing(base, '/') + "/ws/event-bus"@ + "?relay_id="@ + relay_id
            + "&kinds=relay.*,permission.responded&token="@ + token,
        contains_text(base, "/ws/event-bus"@) ==> event_bus_url(base, relay_id, token) == base
            + "?relay_id="@ + relay_id + "&kinds=relay.*,permission.responded&token="@ + token,
{
    law_relay_endpoints_lead_to_event_bus(base);
    law_address_of_plain_server(base);
}

/// What a relay reports of itself, field by field.
pub proof fn law_registration_data(relay: RelayView, name: Seq<char>)
    ensures
        ({
            let data = registration_data(relay, name);
            &&& data.field("relay_id"@) == Some(JsonView::Text(relay.relay_id))
            &&& data.field("name"@) == Some(JsonView::Text(name))
            &&& data.field("role"@) == Some(JsonView::Text(role_name(relay.config.role)))
            &&& data.field("command"@) == Some(JsonView::Text(relay.config.command))
            &&& data.field("command_args"@) == Some(text_array(relay.config.command_args))
            &&& data.field("safe_paths"@) == Some(text_array(relay.config.safe_paths))
            &&& data.field("labels"@) == Some(text_object(relay.config.labels))
            &&& data.field("projects"@) == Some(text_array(uuid_texts(relay.config.projects)))
            &&& data.field("setup_script"@) == Some(text_or_null(relay.config.setup_script))
        }),
{
    lemma_registration_fields(relay, name);
    reveal_strlit("relay_id");
    reveal_strlit("name");
    reveal_strlit("role");
    reveal_strlit("command");
    reveal_strlit("command_args");
    reveal_strlit("safe_paths");
    reveal_strlit("labels");
    reveal_strlit("projects");
    reveal_strlit("setup_script");
    assert("relay_id"@[0] == 'r' && "projects"@[0] == 'p');
    assert("relay_id"@.len() == 8 && "name"@.len() == 4 && "role"@.len() == 4);
    assert("command"@.len() == 7 && "command_args"@.len() == 12 && "safe_paths"@.len() == 10);
    assert("labels"@.len() == 6 && "projects"@.len() == 8 && "setup_script"@.len() == 12);
}

/// What the server knows of a relay that it understood is what its configuration
/// says, field by field.
pub proof fn law_understood(relay: RelayView, name: Seq<char>, now: i64, p: u128)
    requires
        understood(relay, name),
    ensures
        registration_error(registration_data(relay, name)) is None,
        ({
            let r = registration(relay.relay_id, registration_data(relay, name), now);
            &&& r.relay_id == relay.relay_id
            &&& r.name == name
            &&& r.role == relay.config.role
            &&& r.command == trimmed(relay.config.command)
            &&& r.command_args == relay.config.command_args
            &&& r.safe_paths == relay.config.safe_paths
            &&& r.labels == relay.config.labels
            &&& r.projects.contains(p) <==> relay.config.projects.contains(p)
            &&& r.setup_script == relay.config.setup_script
            &&& r.connected_at == now
            &&& r.active_sessions == Set::<Seq<char>>::empty()
        }),
{
    assert(relay.config.projects.contains(p) <==> relay.config.projects.to_set().contains(p));
}

/// What a relay does for each kind of event of the server. It starts a session where
/// the data say all that it takes, with what they say; it stops a session, hands it
/// input, or takes up the user's decision, where the data say which and what.
pub proof fn law_server_actions(relay: RelayView, kind: Seq<char>, data: JsonView)
    ensures
        ({
            let r = server_action(relay, kind, data);
            let text = |key: Seq<char>|
                match data.field(key) {
                    Some(JsonView::Text(t)) => Some(t),
                    _ => None,
                };
            let args = match data.field("args"@) {
                Some(v) => v.text_list(),
                None => None,
            };
            let complete = text("request_id"@) is Some && text("agent_id"@) is Some && text(
                "session_id"@,
            ) is Some && text("workdir"@) is Some && text("command"@) is Some && args is Some
                && data.field("env"@) is Some;
            &&& kind == "relay.spawn_requested"@ && complete ==> r is Spawn && {
                let params = r->params;
                &&& Some(r->Spawn_request_id) == text("request_id"@)
                &&& Some(params.agent_id) == text("agent_id"@)
                &&& Some(params.session_id) == text("session_id"@)
                &&& Some(params.workdir) == text("workdir"@)
                &&& Some(params.command) == text("command"@)
                &&& Some(params.args) == args
                &&& params.env == match data.field("env"@)->0.text_table() {
                    Some(t) => t,
                    None => Map::empty(),
                }
                &&& params.setup_script == relay.config.setup_script
                &&& params.task_id == text("task_id"@)
            }
            &&& kind == "relay.spawn_requested"@ && !complete ==> r is Ignore
            &&& kind == "relay.stop_requested"@ ==> match text("session_id"@) {
                Some(session_id) => r == (ServerActionView::Stop { session_id }),
                None => r is Ignore,
            }
            &&& kind == "relay.input_requested"@ ==> match (text("session_id"@), text("input"@)) {
                (Some(session_id), Some(input)) => r == (ServerActionView::Input {
                    session_id,
                    input,
                }),
                _ => r is Ignore,
            }
            &&& kind == "permission.responded"@ && text("request_id"@) is Some && text(
                "session_id"@,
            ) is Some && data.field("outcome"@) is Some ==> r == (ServerActionView::Decide {
                request_id: text("request_id"@)->0,
                session_id: text("session_id"@)->0,
                outcome: data.field("outcome"@)->0,
            })
            &&& kind == "permission.responded"@ && !(text("request_id"@) is Some && text(
                "session_id"@,
            ) is Some && data.field("outcome"@) is Some) ==> r is Emit
            &&& kind != "relay.spawn_requested"@ && kind != "relay.stop_requested"@ && kind
                != "relay.input_requested"@ && kind != "permission.responded"@ ==> r is Ignore
        }),
{
    lemma_commands_differ();
}

/// Only a request to stop stops a session, only a request to start starts one, only
/// a request for input hands input over, and only an answer to a permission request
/// is taken up as a decision.
pub proof fn law_actions_come_from_their_kinds(relay: RelayView, kind: Seq<char>, data: JsonView)
    ensures
        server_action(relay, kind, data) is Stop ==> kind == "relay.stop_requested"@,
        server_action(relay, kind, data) is Spawn ==> kind == "relay.spawn_requested"@,
        server_action(relay, kind, data) is Input ==> kind == "relay.input_requested"@,
        server_action(relay, kind, data) is Decide ==> kind == "permission.responded"@,
        server_action(relay, kind, data) is Emit ==> kind == "permission.responded"@,
{
    lemma_commands_differ();
}

/// A relay that is at work performs, for an event, what the event asks for by its
/// own kind and data: it starts the session of a request to start, hands input to
/// the session of a request for input, takes up the decision of an answer, and
/// stops a session for a request to stop and for nothing else.
pub proof fn law_running_relay_acts_on_events(
    relay: RelayView,
    event: WsMessageView,
    request_id: Seq<char>,
    session_id: Seq<char>,
    input: Seq<char>,
    outcome: JsonView,
)
    requires
        event is Event,
    ensures
        ({
            let kind = event->kind;
            let data = event->data;
            let step = connection_step(
                relay,
                ConnectionState::Running,
                ServerInputView::Message { message: event },
            );
            let action = step->action;
            let has = |key: Seq<char>, value: Seq<char>|
                data.field(key) == Some(JsonView::Text(value));
            &&& step is Perform
            &&& action == server_action(relay, kind, data)
            &&& action is Stop ==> kind == "relay.stop_requested"@
            &&& action is Spawn ==> kind == "relay.spawn_requested"@
            &&& action is Input ==> kind == "relay.input_requested"@
            &&& action is Decide || action is Emit ==> kind == "permission.responded"@
            &&& kind == "relay.stop_requested"@ && has("session_id"@, session_id) ==> action == (
            ServerActionView::Stop { session_id })
            &&& kind == "relay.spawn_requested"@ && has("request_id"@, request_id) && has(
                "session_id"@,
                session_id,
            ) && data.text_field("agent_id"@) is Some && data.text_field("workdir"@) is Some
                && data.text_field("command"@) is Some && data.field("args"@) is Some
                && data.field("args"@)->0.text_list() is Some && data.field("env"@) is Some
                ==> action is Spawn && {
                let params = action->params;
                &&& action->Spawn_request_id == request_id
                &&& params.session_id == session_id
                &&& has("agent_id"@, params.agent_id)
                &&& has("workdir"@, params.workdir)
                &&& has("command"@, params.command)
                &&& data.field("args"@)->0.text_list() == Some(params.args)
                &&& data.field("env"@)->0.text_table() matches Some(t) ==> params.env == t
            }
            &&& kind == "relay.input_requested"@ && has("session_id"@, session_id) && has(
                "input"@,
                input,
            ) ==> action == (ServerActionView::Input { session_id, input })
            &&& kind == "permission.responded"@ && has("request_id"@, request_id) && has(
                "session_id"@,
                session_id,
            ) && data.field("outcome"@) == Some(outcome) ==> action == (ServerActionView::Decide {
                request_id,
                session_id,
                outcome,
            })
        }),
{
    lemma_commands_differ();
}

/// An answer that is incomplete is reported as an error of the relay: the report
/// says what is missing, the request first, then the session, then the outcome, and
/// names what is known.
pub proof fn law_incomplete_answers(relay: RelayView, data: JsonView)
    ensures
        ({
            let r = server_action(relay, "permission.responded"@, data);
            let request = data.text_field("request_id"@);
            let session = data.text_field("session_id"@);
            let report = r->output->data;
            &&& request is None ==> r is Emit && {
                &&& r->output->kind == "relay.error"@
                &&& report.text_field("relay_id"@) == Some(relay.relay_id)
                &&& report.text_field("error_type"@) == Some("permission_response_failed"@)
                &&& report.text_field("error"@) == Some("missing or invalid request_id"@)
                &&& report.field("request_id"@) is None
                &&& report.field("session_id"@) is None
                &&& report.field("raw_data"@) == Some(data)
            }
            &&& request is Some && session is None ==> r is Emit && {
                &&& r->output->kind == "relay.error"@
                &&& report.text_field("relay_id"@) == Some(relay.relay_id)
                &&& report.text_field("error_type"@) == Some("permission_response_failed"@)
                &&& report.text_field("error"@) == Some("missing or invalid session_id"@)
                &&& report.text_field("request_id"@) == request
                &&& report.field("session_id"@) is None
                &&& report.field("raw_data"@) == Some(data)
            }
            &&& request is Some && session is Some && data.field("outcome"@) is None ==> r is Emit
                && {
                &&& r->output->kind == "relay.error"@
                &&& report.text_field("relay_id"@) == Some(relay.relay_id)
                &&& report.text_field("error_type"@) == Some("permission_response_failed"@)
                &&& report.text_field("error"@) == Some("missing outcome field"@)
                &&& report.text_field("request_id"@) == request
                &&& report.text_field("session_id"@) == session
                &&& report.field("raw_data"@) is None
            }
        }),
{
    lemma_commands_differ();
    lemma_report_keys();
}

proof fn lemma_report_keys()
    ensures
        "relay_id"@ != "error_type"@,
        "relay_id"@ != "error"@,
        "relay_id"@ != "request_id"@,
        "relay_id"@ != "session_id"@,
        "relay_id"@ != "raw_data"@,
        "error_type"@ != "error"@,
        "error_type"@ != "request_id"@,
        "error_type"@ != "session_id"@,
        "error_type"@ != "raw_data"@,
        "error"@ != "request_id"@,
        "error"@ != "session_id"@,
        "error"@ != "raw_data"@,
        "request_id"@ != "session_id"@,
        "request_id"@ != "raw_data"@,
        "session_id"@ != "raw_data"@,
{
    reveal_strlit("relay_id");
    reveal_strlit("error_type");
    reveal_strlit("error");
    reveal_strlit("request_id");
    reveal_strlit("session_id");
    reveal_strlit("raw_data");
    assert("relay_id"@.len() == 8 && "relay_id"@[1] == 'e');
    assert("error_type"@.len() == 10 && "error_type"@[0] == 'e');
    assert("error"@.len() == 5);
    assert("request_id"@.len() == 10 && "request_id"@[0] == 'r');
    assert("session_id"@.len() == 10 && "session_id"@[0] == 's');
    assert("raw_data"@.len() == 8 && "raw_data"@[1] == 'a');
}

/// The report that a permission request could not be answered names the relay, the
/// kind of error and the error, and the request and the session exactly where they
/// are known.
pub proof fn law_permission_error(
    relay_id: Seq<char>,
    request_id: Option<Seq<char>>,
    session_id: Option<Seq<char>>,
    error: Seq<char>,
)
    ensures
        ({
            let data = permission_error(relay_id, request_id, session_id, error);
            &&& data is Object
            &&& data.text_field("relay_id"@) == Some(relay_id)
            &&& data.text_field("error_type"@) == Some("permission_response_failed"@)
            &&& data.text_field("error"@) == Some(error)
            &&& data.text_field("request_id"@) == request_id
            &&& request_id is None ==> data.field("request_id"@) is None
            &&& data.text_field("session_id"@) == session_id
            &&& session_id is None ==> data.field("session_id"@) is None
        }),
{
    lemma_report_keys();
}

/// The report on a session that was to be started says by its kind whether it was.
pub proof fn law_spawn_report_kinds(
    relay_id: Seq<char>,
    request_id: Seq<char>,
    session_id: Seq<char>,
    error: Option<Seq<char>>,
)
    ensures
        error is None ==> spawn_report(relay_id, request_id, session_id, error)->kind
            == "relay.spawn_completed"@,
        error is Some ==> spawn_report(relay_id, request_id, session_id, error)->kind
            == "relay.spawn_failed"@,
        spawn_report(relay_id, request_id, session_id, error)->data.text_field("request_id"@)
            == Some(request_id),
        spawn_report(relay_id, request_id, session_id, error)->data.text_field("session_id"@)
            == Some(session_id),
        spawn_report(relay_id, request_id, session_id, error)->data.text_field("relay_id"@) == Some(
            relay_id,
        ),
        spawn_report(relay_id, request_id, session_id, error)->data.text_field("error"@) == error,
{
    law_spawn_report_names_request(relay_id, request_id, session_id, error);
}

/// What a relay does about each thing that happens to its connection, and how far it
/// has come then.
pub proof fn law_connection(relay: RelayView, state: ConnectionState, input: ServerInputView)
    ensures
        ({
            let step = connection_step(relay, state, input);
            let after = connection_state(step, state);
            let lost = input is Failed || input is Ended;
            let says_error = input matches ServerInputView::Message { message } && message is Error;
            let says_subscribed = input matches ServerInputView::Message { message } && message
                is Subscribed;
            let says_registered = input matches ServerInputView::Message { message } && message
                is Registered;
            let says_event = input matches ServerInputView::Message { message } && message is Event;
            &&& step is Register <==> state == ConnectionState::Subscribing && says_subscribed
            &&& step is Serve <==> state == ConnectionState::Registering && says_registered
            &&& step is Perform <==> state == ConnectionState::Running && says_event
            &&& step is Disconnected <==> state == ConnectionState::Running && (lost
                || input is Close)
            &&& step is GiveUp <==> (state == ConnectionState::Subscribing && (lost
                || input is NotConnected)) || (state == ConnectionState::Registering && (lost
                || says_error || input is Timeout || input is NotSent))
            &&& step is Abort <==> state == ConnectionState::Registering && input is NotEncoded
            &&& step is Abort ==> step->error == input->error
            &&& after == if step is Register {
                ConnectionState::Registering
            } else if step is Serve {
                ConnectionState::Running
            } else {
                state
            }
        }),
{
}

/// What the relay does, and what happens to its connection, is what is handed out
/// and in.
pub proof fn law_action_content(a: ServerAction, i: ServerInput, s: ConnectionStep)
    ensures
        match a {
            ServerAction::Ignore => a@ is Ignore,
            ServerAction::Spawn { request_id, params } => a@ == (ServerActionView::Spawn {
                request_id: request_id@,
                params: params@,
            }),
            ServerAction::Stop { session_id } => a@ == (ServerActionView::Stop {
                session_id: session_id@,
            }),
            ServerAction::Input { params } => a@ == (ServerActionView::Input {
                session_id: params.session_id@,
                input: params.input@,
            }),
            ServerAction::Decide { request_id, session_id, outcome } => a@ == (
            ServerActionView::Decide {
                request_id: request_id@,
                session_id: session_id@,
                outcome: outcome@,
            }),
            ServerAction::Emit { output } => a@ == (ServerActionView::Emit { output: output@ }),
        },
        match i {
            ServerInput::Message { message } => i@ == (ServerInputView::Message {
                message: message@,
            }),
            ServerInput::Ignored => i@ is Ignored,
            ServerInput::Close => i@ is Close,
            ServerInput::Failed => i@ is Failed,
            ServerInput::Ended => i@ is Ended,
            ServerInput::Timeout => i@ is Timeout,
            ServerInput::NotSent => i@ is NotSent,
            ServerInput::NotEncoded { error } => i@ == (ServerInputView::NotEncoded {
                error: error@,
            }),
            ServerInput::NotConnected => i@ is NotConnected,
        },
        match s {
            ConnectionStep::Wait => s@ is Wait,
            ConnectionStep::Register => s@ is Register,
            ConnectionStep::Serve => s@ is Serve,
            ConnectionStep::Perform { action } => s@ == (ConnectionStepView::Perform {
                action: action@,
            }),
            ConnectionStep::GiveUp => s@ is GiveUp,
            ConnectionStep::Disconnected => s@ is Disconnected,
            ConnectionStep::Abort { error } => s@ == (ConnectionStepView::Abort { error: error@ }),
        },
{
}

/// A relay id is made of 32 of the characters `0` to `9` and `a` to `f`.
pub proof fn law_relay_id_form(id: Seq<char>, i: int)
    requires
        is_relay_id(id),
    ensures
        id.len() == 32,
        0 <= i < 32 ==> ('0' <= id[i] <= '9' || 'a' <= id[i] <= 'f'),
{
}

/// In the address of a server that names a relay endpoint, each of these paths, the
/// plural one first, becomes the path of the event bus, and nothing else changes.
pub proof fn law_every_relay_endpoint_is_replaced(server: Seq<char>)
    requires
        contains_text(server, "/ws/relay"@),
    ensures
        event_bus_address(server) == replace_all(
            replace_all(server, "/ws/relays"@, "/ws/event-bus"@),
            "/ws/relay"@,
            "/ws/event-bus"@,
        ),
{
    reveal_strlit("/ws/relay");
    reveal_strlit("/ws/relays");
    let bus = "/ws/event-bus"@;
    let first = replace_all(server, "/ws/relays"@, bus);
    if contains_text(server, "/ws/relays"@) {
        law_replacement_occurs(server, "/ws/relays"@, bus);
    } else {
        law_replace_absent(server, "/ws/relays"@, bus);
    }
    if contains_text(first, "/ws/relay"@) {
        law_replacement_occurs(first, "/ws/relay"@, bus);
    } else {
        law_replace_absent(first, "/ws/relay"@, bus);
    }
}

/// A registration has half a minute to be confirmed, and some thousand reports can
/// wait.
pub proof fn law_limits()
    ensures
        REGISTRATION_TIMEOUT_SECS == 30,
        MAX_RECONNECT_DELAY == 60,
        BUFFER_SIZE == 4096,
{
}

} // verus!
