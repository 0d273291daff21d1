//! The event bus over WebSocket: who may connect, which events go to whom, and
//! what the events of a relay bring about.

use crate::collections::{copy_list, text_map, Table};
use crate::json::{Json, JsonView};
use crate::manager::{
    command_event, law_command_names_relay_and_request, law_with_sessions, ConnectionView,
    ManagerView, RelayManager,
};
use crate::outside::{id_list, now_seconds, parse_uuid, text_list_error, uuid_named};
use crate::protocol::{
    agent_status_after, event_message, law_role_of_name, opt_texts, role_named, status_named, AgentRole, AgentStatus,
    ClientMessage, ClientMessageView, Event, EventView, NewEvent, NewEventView, SessionStatus,
    WsMessage, WsMessageView, RELAY_AGENT_OUTPUT, RELAY_ARTIFACT, RELAY_DOWN,
    RELAY_INPUT_REQUESTED, RELAY_PERMISSION_REQUEST, RELAY_PROMPT_COMPLETED, RELAY_SESSION_STATUS,
    RELAY_SPAWN_REQUESTED, RELAY_STOP_REQUESTED, RELAY_UP,
};
use crate::text::{
    begins_with, decimal, law_occurrence, law_split, opt_str, opt_text, same, split, split_at_char, starts_with, strip_prefix,
    texts, to_decimal, trim, trim_end_char, trimmed, without_leading_space,
    without_trailing, without_trailing_space,
};
use vstd::prelude::*;
use vstd::string::*;

verus! {

/// Seconds between two signs of life on a connection.
pub const HEARTBEAT_SECS: u64 = 30;

/// What a connection asks for.
#[derive(Debug)]
pub struct WsSubscribeParams {
    /// The kinds of events, separated by commas; a kind may end in a wildcard.
    pub kinds: Option<String>,
    /// Where the replay of past events starts; no replay without it.
    pub cursor: Option<i64>,
    /// Only events of the agent with this id.
    pub agent_id: Option<String>,
    /// Only events of the task with this id.
    pub task_id: Option<String>,
    /// The connection is that of this relay.
    pub relay_id: Option<String>,
    /// The token, where no `Authorization` header carries it.
    pub token: Option<String>,
}

/// The token of an `Authorization` header that carries one.
pub open spec fn bearer(header: Option<Seq<char>>) -> Option<Seq<char>> {
    match header {
        Some(h) => if begins_with(h, "Bearer "@) {
            Some(h.skip("Bearer "@.len() as int))
        } else {
            None
        },
        None => None,
    }
}

/// The token that a connection presents: that of the header, and the one of the
/// query only where the header carries none.
pub open spec fn presented_token(
    header: Option<Seq<char>>,
    query: Option<Seq<char>>,
) -> Option<Seq<char>> {
    match bearer(header) {
        Some(t) => Some(t),
        None => query,
    }
}

/// The token that a connection has to present.
pub open spec fn expected_token(
    params: WsSubscribeParams,
    relay_token: Seq<char>,
    user_token: Seq<char>,
) -> Seq<char> {
    if params.relay_id is Some {
        relay_token
    } else {
        user_token
    }
}

/// Whether a connection may be served. A relay presents the relay token, any
/// other client the user token.
pub fn event_bus_websocket(
    auth_header: Option<&str>,
    params: &WsSubscribeParams,
    relay_token: &str,
    user_token: &str,
) -> (r: bool)
    ensures
        r == (presented_token(opt_str(auth_header), opt_text(params.token)) == Some(
            expected_token(*params, relay_token@, user_token@),
        )),
{
    let expected = if params.relay_id.is_some() {
        relay_token
    } else {
        user_token
    };
    let bearer = match auth_header {
        Some(header) => strip_prefix(header, "Bearer "),
        None => None,
    };
    match bearer {
        Some(token) => same(token.as_str(), expected),
        None => match &params.token {
            Some(token) => same(token.as_str(), expected),
            None => false,
        },
    }
}

/// How a connection is served.
#[derive(Debug)]
pub enum SocketMode {
    /// It is closed.
    Close,
    /// It is the connection of a relay.
    Relay { relay_id: String },
    /// It is the connection of any other client.
    Client,
}

/// Decides how a connection is served.
pub fn handle_event_bus_socket(params: &WsSubscribeParams, is_authenticated: bool) -> (r:
    SocketMode)
    ensures
        r is Close <==> !is_authenticated,
        r is Client <==> is_authenticated && params.relay_id is None,
        r matches SocketMode::Relay { relay_id } ==> opt_text(params.relay_id) == Some(relay_id@),
{
    if !is_authenticated {
        SocketMode::Close
    } else {
        match &params.relay_id {
            Some(relay_id) => SocketMode::Relay { relay_id: relay_id.clone() },
            None => SocketMode::Client,
        }
    }
}

/// The kinds that a list names: its pieces between commas, without the white
/// space around them.
pub open spec fn kinds_named(kinds: Option<Seq<char>>) -> Option<Seq<Seq<char>>> {
    match kinds {
        Some(s) => Some(split_at_char(s, ',').map_values(|k: Seq<char>| trimmed(k))),
        None => None,
    }
}

/// The kinds that `kinds` names.
pub fn parse_kinds(kinds: &Option<String>) -> (r: Option<Vec<String>>)
    ensures
        opt_texts(r) == kinds_named(opt_text(*kinds)),
{
    match kinds {
        Some(s) => {
            let pieces = split(s.as_str(), ',');
            let mut out: Vec<String> = Vec::new();
            let mut i: usize = 0;
            while i < pieces.len()
                invariant
                    i <= pieces@.len(),
                    texts(out@) == texts(pieces@).take(i as int).map_values(
                        |k: Seq<char>| trimmed(k),
                    ),
                decreases pieces@.len() - i,
            {
                let ghost before = texts(out@);
                out.push(trim(pieces[i].as_str()));
                i = i + 1;
                assert(texts(out@) =~= before.push(trimmed(pieces@[i - 1]@)));
                assert(texts(pieces@).take(i as int) == texts(pieces@).take(i - 1).push(
                    pieces@[i - 1]@,
                ));
            }
            assert(texts(pieces@).take(i as int) == texts(pieces@));
            Some(out)
        },
        None => None,
    }
}

/// A pattern stands for a kind: a pattern that ends in `*` for every kind that
/// begins with what stands before, any other pattern for itself.
pub open spec fn kind_matches(pattern: Seq<char>, kind: Seq<char>) -> bool {
    if pattern.len() > 0 && pattern.last() == '*' {
        begins_with(kind, without_trailing(pattern, '*'))
    } else {
        kind == pattern
    }
}

/// One of the patterns stands for the kind.
pub open spec fn any_matches(patterns: Seq<Seq<char>>, kind: Seq<char>) -> bool {
    exists|i: int| 0 <= i < patterns.len() && kind_matches(#[trigger] patterns[i], kind)
}

/// Events of this kind are asked for. Without a filter all are.
pub open spec fn wanted(kinds: Option<Seq<Seq<char>>>, kind: Seq<char>) -> bool {
    match kinds {
        Some(patterns) => any_matches(patterns, kind),
        None => true,
    }
}

/// Whether `pattern` stands for `kind`.
fn matches_kind(pattern: &str, kind: &str) -> (r: bool)
    ensures
        r == kind_matches(pattern@, kind@),
{
    let prefix = trim_end_char(pattern, '*');
    if prefix.as_str().unicode_len() == pattern.unicode_len() {
        proof {
            if pattern@.len() > 0 && pattern@.last() == '*' {
                lemma_without_trailing_shorter(pattern@.drop_last(), '*');
            }
        }
        same(kind, pattern)
    } else {
        starts_with(kind, prefix.as_str())
    }
}

proof fn lemma_without_trailing_shorter(s: Seq<char>, c: char)
    ensures
        without_trailing(s, c).len() <= s.len(),
    decreases s.len(),
{
    if s.len() > 0 && s.last() == c {
        lemma_without_trailing_shorter(s.drop_last(), c);
    }
}

/// Whether an event is asked for, by its kind.
pub fn should_send_event(event: &Event, kinds_filter: &Option<Vec<String>>) -> (r: bool)
    ensures
        r == wanted(opt_texts(*kinds_filter), event.kind@),
{
    match kinds_filter {
        Some(kinds) => {
            let mut i: usize = 0;
            while i < kinds.len()
                invariant
                    opt_texts(*kinds_filter) == Some(texts(kinds@)),
                    i <= kinds@.len(),
                    forall|j: int|
                        0 <= j < i ==> !kind_matches(#[trigger] texts(kinds@)[j], event.kind@),
                decreases kinds@.len() - i,
            {
                if matches_kind(kinds[i].as_str(), event.kind.as_str()) {
                    assert(kind_matches(texts(kinds@)[i as int], event.kind@));
                    return true;
                }
                i = i + 1;
            }
            false
        },
        None => true,
    }
}

/// The text under `key`, or `default` where there is none.
pub open spec fn text_or(data: JsonView, key: Seq<char>, default: Seq<char>) -> Seq<char> {
    match data.text_field(key) {
        Some(t) => t,
        None => default,
    }
}

fn text_field_or<'a>(data: &'a Json, key: &str, default: &'a str) -> (r: &'a str)
    ensures
        r@ == text_or(data@, key@, default@),
{
    match data.text_field(key) {
        Some(t) => t,
        None => default,
    }
}

/// The texts under `key`; none where there is no array of texts.
pub open spec fn text_list_or_empty(data: JsonView, key: Seq<char>) -> Seq<Seq<char>> {
    match data.field(key) {
        Some(v) => match v.text_list() {
            Some(list) => list,
            None => Seq::empty(),
        },
        None => Seq::empty(),
    }
}

fn texts_or_empty(data: &Json, key: &str) -> (r: Vec<String>)
    ensures
        texts(r@) == text_list_or_empty(data@, key@),
{
    if let Some(v) = data.get(key) {
        if let Ok(list) = v.text_list() {
            return list;
        }
    }
    let none: Vec<String> = Vec::new();
    assert(texts(none@) =~= Seq::empty());
    none
}

/// The table of texts under `key`; an empty one where there is none.
pub open spec fn text_table_or_empty(data: JsonView, key: Seq<char>) -> Map<Seq<char>, Seq<char>> {
    match data.field(key) {
        Some(v) => match v.text_table() {
            Some(t) => t,
            None => Map::empty(),
        },
        None => Map::empty(),
    }
}

fn table_or_empty(data: &Json, key: &str) -> (r: Table<String>)
    ensures
        text_map(r@) == text_table_or_empty(data@, key@),
{
    if let Some(v) = data.get(key) {
        if let Some(table) = v.text_table() {
            return table;
        }
    }
    let none: Table<String> = Table::new();
    assert(text_map(none@) =~= Map::empty());
    none
}

/// The UUIDs under `key`; none where there is no array of UUIDs.
pub open spec fn id_list_or_empty(data: JsonView, key: Seq<char>) -> Seq<u128> {
    match data.field(key) {
        Some(v) => match id_list(v) {
            Some(list) => list,
            None => Seq::empty(),
        },
        None => Seq::empty(),
    }
}

fn ids_or_empty(data: &Json, key: &str) -> (r: Vec<u128>)
    ensures
        r@ == id_list_or_empty(data@, key@),
{
    if let Some(v) = data.get(key) {
        if let Some(list) = v.id_list() {
            return list;
        }
    }
    Vec::new()
}

/// Why a relay that reports `data` is not registered: it has to name a command,
/// and the arguments of the command.
pub open spec fn registration_error(data: JsonView) -> Option<Seq<char>> {
    if trimmed(text_or(data, "command"@, Seq::empty())).len() == 0 {
        Some("relay.up missing or invalid command"@)
    } else {
        match data.field("command_args"@) {
            None => Some("relay.up missing command_args"@),
            Some(args) => match args.text_list() {
                None => Some("relay.up invalid command_args: "@ + text_list_error(args)),
                Some(_) => None,
            },
        }
    }
}

/// What a relay that reports `data` at `now` is registered as.
pub open spec fn registration(relay_id: Seq<char>, data: JsonView, now: i64) -> ConnectionView {
    ConnectionView {
        relay_id,
        name: text_or(data, "name"@, "unknown"@),
        role: role_named(text_or(data, "role"@, "general"@)),
        command: trimmed(text_or(data, "command"@, Seq::empty())),
        command_args: text_list_or_empty(data, "command_args"@),
        safe_paths: text_list_or_empty(data, "safe_paths"@),
        labels: text_table_or_empty(data, "labels"@),
        projects: id_list_or_empty(data, "projects"@).to_set(),
        setup_script: data.text_field("setup_script"@),
        connected_at: now,
        active_sessions: Set::empty(),
    }
}

/// Registers a relay by what it reports. Gives the answer to the relay.
fn register_relay(relay_id: &str, data: &Json, relays: &mut RelayManager, now: i64) -> (r: Result<
    WsMessage,
    WsMessage,
>)
    ensures
        match registration_error(data@) {
            None => {
                &&& final(relays)@ == old(relays)@.registered(registration(relay_id@, data@, now))
                &&& r matches Ok(m) && m@ == (WsMessageView::Registered { relay_id: relay_id@ })
            },
            Some(message) => {
                &&& final(relays)@ == old(relays)@
                &&& r matches Err(m) && m@ == (WsMessageView::Error { message })
            },
        },
{
    let name = text_field_or(data, "name", "unknown").to_owned();
    let role = AgentRole::from_str(text_field_or(data, "role", "general"));
    proof {
        reveal_strlit("");
        assert(""@ =~= Seq::empty());
    }
    let command = trim(text_field_or(data, "command", ""));
    if command.as_str().unicode_len() == 0 {
        return Err(WsMessage::Error { message: "relay.up missing or invalid command".to_owned() });
    }
    let command_args = match data.get("command_args") {
        None => {
            return Err(WsMessage::Error { message: "relay.up missing command_args".to_owned() });
        },
        Some(v) => match v.text_list() {
            Ok(list) => list,
            Err(e) => {
                let message = "relay.up invalid command_args: ".to_owned().concat(e.as_str());
                return Err(WsMessage::Error { message });
            },
        },
    };
    let setup_script = match data.text_field("setup_script") {
        Some(t) => Some(t.to_owned()),
        None => None,
    };
    relays.register_at(
        relay_id.to_owned(),
        name,
        role,
        command,
        command_args,
        texts_or_empty(data, "safe_paths"),
        table_or_empty(data, "labels"),
        ids_or_empty(data, "projects"),
        setup_script,
        now,
    );
    Ok(WsMessage::Registered { relay_id: relay_id.to_owned() })
}

/// What has to be done for an event of a relay.
#[derive(Debug)]
pub enum RelayAction {
    /// Nothing.
    Nothing,
    /// Answer the relay.
    Reply { message: WsMessage },
    /// Store the status of a session; then `finish_session`.
    StoreStatus { session: u128, session_id: String, status: SessionStatus },
    /// Store an artifact for the task of the agent, where it has one.
    StoreArtifact { agent: u128, session: u128, artifact_type: String, data: Json },
    /// Publish an event.
    Publish { event: NewEvent },
}

/// The content of what has to be done.
pub enum RelayActionView {
    Nothing,
    Reply { message: WsMessageView },
    StoreStatus { session: u128, session_id: Seq<char>, status: SessionStatus },
    StoreArtifact { agent: u128, session: u128, artifact_type: Seq<char>, data: JsonView },
    Publish { event: NewEventView },
}

impl RelayAction {
    pub open spec fn view(&self) -> RelayActionView {
        match self {
            RelayAction::Nothing => RelayActionView::Nothing,
            RelayAction::Reply { message } => RelayActionView::Reply { message: message@ },
            RelayAction::StoreStatus { session, session_id, status } =>
                RelayActionView::StoreStatus {
                    session: *session,
                    session_id: session_id@,
                    status: *status,
                },
            RelayAction::StoreArtifact { agent, session, artifact_type, data } =>
                RelayActionView::StoreArtifact {
                    agent: *agent,
                    session: *session,
                    artifact_type: artifact_type@,
                    data: data@,
                },
            RelayAction::Publish { event } => RelayActionView::Publish { event: event@ },
        }
    }
}

/// An id that is no UUID.
#[derive(Debug)]
pub struct InvalidId {
    pub text: String,
}

/// The action of a result; where there is none, the id that is no UUID.
pub open spec fn action_view(r: Result<RelayAction, InvalidId>) -> Result<
    RelayActionView,
    Seq<char>,
> {
    match r {
        Ok(action) => Ok(action@),
        Err(e) => Err(e.text@),
    }
}

/// What the status that a relay reports for a session asks for. A status that
/// is none asks for nothing.
pub open spec fn status_action(data: JsonView) -> Result<RelayActionView, Seq<char>> {
    let session_id = text_or(data, "session_id"@, Seq::empty());
    match uuid_named(session_id) {
        None => Err(session_id),
        Some(session) => match status_named(text_or(data, "status"@, Seq::empty())) {
            None => Ok(RelayActionView::Nothing),
            Some(status) => Ok(RelayActionView::StoreStatus { session, session_id, status }),
        },
    }
}

/// What an artifact that a relay reports asks for.
pub open spec fn artifact_action(data: JsonView) -> Result<RelayActionView, Seq<char>> {
    let agent_id = text_or(data, "agent_id"@, Seq::empty());
    let session_id = text_or(data, "session_id"@, Seq::empty());
    match uuid_named(agent_id) {
        None => Err(agent_id),
        Some(agent) => match uuid_named(session_id) {
            None => Err(session_id),
            Some(session) => Ok(
                RelayActionView::StoreArtifact {
                    agent,
                    session,
                    artifact_type: text_or(data, "artifact_type"@, Seq::empty()),
                    data: match data.field("data"@) {
                        Some(v) => v,
                        None => JsonView::Null,
                    },
                },
            ),
        },
    }
}

/// The event that passes on what a relay reports: the data say which relay it
/// comes from.
pub open spec fn forwarded(relay_id: Seq<char>, kind: Seq<char>, data: JsonView) -> NewEventView {
    NewEventView {
        kind,
        agent_id: 0,
        task_id: None,
        data: data.with("relay_id"@, JsonView::Text(relay_id)),
    }
}

/// What an event that `relay_id` reports asks for.
pub open spec fn relay_event_action(
    relay_id: Seq<char>,
    kind: Seq<char>,
    data: JsonView,
) -> Result<RelayActionView, Seq<char>> {
    if kind == RELAY_UP@ {
        Ok(
            RelayActionView::Reply {
                message: match registration_error(data) {
                    None => WsMessageView::Registered { relay_id },
                    Some(message) => WsMessageView::Error { message },
                },
            },
        )
    } else if kind == RELAY_SESSION_STATUS@ {
        status_action(data)
    } else if kind == RELAY_ARTIFACT@ {
        artifact_action(data)
    } else if kind == RELAY_AGENT_OUTPUT@ || kind == RELAY_PERMISSION_REQUEST@ || kind
        == RELAY_PROMPT_COMPLETED@ {
        Ok(RelayActionView::Nothing)
    } else {
        Ok(RelayActionView::Publish { event: forwarded(relay_id, kind, data) })
    }
}

/// What the server knows after an event that `relay_id` reports.
pub open spec fn relay_event_state(
    m: ManagerView,
    relay_id: Seq<char>,
    kind: Seq<char>,
    data: JsonView,
    now: i64,
) -> ManagerView {
    if kind == RELAY_UP@ {
        match registration_error(data) {
            None => m.registered(registration(relay_id, data, now)),
            Some(_) => m,
        }
    } else if kind == RELAY_PERMISSION_REQUEST@ {
        m.with_request(
            text_or(data, "request_id"@, Seq::empty()),
            text_or(data, "session_id"@, Seq::empty()),
        )
    } else {
        m
    }
}

/// The event is one by which a relay registers.
pub open spec fn registers(kind: Seq<char>, data: JsonView) -> bool {
    kind == RELAY_UP@ && registration_error(data) is None
}

proof fn lemma_kinds_differ()
    ensures
        RELAY_UP@ != RELAY_AGENT_OUTPUT@,
        RELAY_UP@ != RELAY_SESSION_STATUS@,
        RELAY_UP@ != RELAY_PERMISSION_REQUEST@,
        RELAY_UP@ != RELAY_ARTIFACT@,
        RELAY_UP@ != RELAY_PROMPT_COMPLETED@,
        RELAY_AGENT_OUTPUT@ != RELAY_SESSION_STATUS@,
        RELAY_AGENT_OUTPUT@ != RELAY_PERMISSION_REQUEST@,
        RELAY_AGENT_OUTPUT@ != RELAY_ARTIFACT@,
        RELAY_SESSION_STATUS@ != RELAY_PERMISSION_REQUEST@,
        RELAY_SESSION_STATUS@ != RELAY_ARTIFACT@,
        RELAY_PERMISSION_REQUEST@ != RELAY_ARTIFACT@,
        RELAY_PROMPT_COMPLETED@ != RELAY_SESSION_STATUS@,
        RELAY_PROMPT_COMPLETED@ != RELAY_PERMISSION_REQUEST@,
        RELAY_PROMPT_COMPLETED@ != RELAY_ARTIFACT@,
{
    reveal_strlit("relay.up");
    reveal_strlit("relay.agent_output");
    reveal_strlit("relay.session_status");
    reveal_strlit("relay.permission_request");
    reveal_strlit("relay.artifact");
    reveal_strlit("relay.prompt_completed");
    assert(RELAY_UP@.len() == 8);
    assert(RELAY_AGENT_OUTPUT@.len() == 18);
    assert(RELAY_SESSION_STATUS@.len() == 20);
    assert(RELAY_PERMISSION_REQUEST@.len() == 24);
    assert(RELAY_ARTIFACT@.len() == 14);
    assert(RELAY_PROMPT_COMPLETED@.len() == 22);
}

/// The UUID that `text` names, or that it names none.
fn require_uuid(text: &str) -> (r: Result<u128, InvalidId>)
    ensures
        match r {
            Ok(id) => uuid_named(text@) == Some(id),
            Err(e) => uuid_named(text@) is None && e.text@ == text@,
        },
{
    match parse_uuid(text) {
        Some(id) => Ok(id),
        None => Err(InvalidId { text: text.to_owned() }),
    }
}

fn handle_status(data: &Json) -> (r: Result<RelayAction, InvalidId>)
    ensures
        action_view(r) == status_action(data@),
{
    proof {
        reveal_strlit("");
        assert(""@ =~= Seq::empty());
    }
    let session_id = text_field_or(data, "session_id", "");
    match require_uuid(session_id) {
        Err(e) => Err(e),
        Ok(session) => match SessionStatus::from_str(text_field_or(data, "status", "")) {
            None => Ok(RelayAction::Nothing),
            Some(status) => Ok(
                RelayAction::StoreStatus { session, session_id: session_id.to_owned(), status },
            ),
        },
    }
}

fn handle_artifact(data: &Json) -> (r: Result<RelayAction, InvalidId>)
    ensures
        action_view(r) == artifact_action(data@),
{
    proof {
        reveal_strlit("");
        assert(""@ =~= Seq::empty());
    }
    let agent = match require_uuid(text_field_or(data, "agent_id", "")) {
        Ok(id) => id,
        Err(e) => {
            return Err(e);
        },
    };
    let session = match require_uuid(text_field_or(data, "session_id", "")) {
        Ok(id) => id,
        Err(e) => {
            return Err(e);
        },
    };
    Ok(
        RelayAction::StoreArtifact {
            agent,
            session,
            artifact_type: text_field_or(data, "artifact_type", "").to_owned(),
            data: match data.get("data") {
                Some(v) => v.clone(),
                None => Json::Null,
            },
        },
    )
}

/// Takes in an event that a relay reports at `now`. Says what has to be done; an
/// error where an id that is needed is no UUID.
pub fn handle_relay_event_at(
    kind: &str,
    data: &Json,
    relay_id: &str,
    is_registered: &mut bool,
    relays: &mut RelayManager,
    now: i64,
) -> (r: Result<RelayAction, InvalidId>)
    ensures
        action_view(r) == relay_event_action(relay_id@, kind@, data@),
        final(relays)@ == relay_event_state(old(relays)@, relay_id@, kind@, data@, now),
        *final(is_registered) == (*old(is_registered) || registers(kind@, data@)),
{
    proof {
        lemma_kinds_differ();
        reveal_strlit("");
        assert(""@ =~= Seq::empty());
    }
    if same(kind, RELAY_UP) {
        match register_relay(relay_id, data, relays, now) {
            Ok(message) => {
                *is_registered = true;
                Ok(RelayAction::Reply { message })
            },
            Err(message) => Ok(RelayAction::Reply { message }),
        }
    } else if same(kind, RELAY_AGENT_OUTPUT) || same(kind, RELAY_PROMPT_COMPLETED) {
        Ok(RelayAction::Nothing)
    } else if same(kind, RELAY_SESSION_STATUS) {
        handle_status(data)
    } else if same(kind, RELAY_PERMISSION_REQUEST) {
        relays.store_permission_request(
            relay_id,
            text_field_or(data, "request_id", ""),
            text_field_or(data, "session_id", ""),
        );
        Ok(RelayAction::Nothing)
    } else if same(kind, RELAY_ARTIFACT) {
        handle_artifact(data)
    } else {
        let data = data.clone().with("relay_id", Json::text(relay_id));
        let event = NewEvent { kind: kind.to_owned(), agent_id: 0, task_id: None, data };
        Ok(RelayAction::Publish { event })
    }
}

/// Takes in an event that a relay reports now; see `handle_relay_event_at`.
pub fn handle_relay_event(
    kind: &str,
    data: &Json,
    relay_id: &str,
    is_registered: &mut bool,
    relays: &mut RelayManager,
) -> (r: Result<RelayAction, InvalidId>)
    ensures
        action_view(r) == relay_event_action(relay_id@, kind@, data@),
        *final(is_registered) == (*old(is_registered) || registers(kind@, data@)),
        exists|now: i64|
            final(relays)@ == #[trigger] relay_event_state(
                old(relays)@,
                relay_id@,
                kind@,
                data@,
                now,
            ),
{
    let now: i64 = now_seconds();
    handle_relay_event_at(kind, data, relay_id, is_registered, relays, now)
}

/// A session whose status has been stored: where it has ended, the relay no
/// longer runs it.
pub open spec fn session_finished(
    m: ManagerView,
    relay_id: Seq<char>,
    session_id: Seq<char>,
    status: SessionStatus,
) -> ManagerView {
    if agent_status_after(status) is Some {
        m.with_sessions(relay_id, m.sessions(relay_id).remove(session_id))
    } else {
        m
    }
}

/// Takes in that the status of a session has been stored.
pub fn finish_session(
    relays: &mut RelayManager,
    relay_id: &str,
    session_id: &str,
    status: SessionStatus,
)
    ensures
        final(relays)@ == session_finished(old(relays)@, relay_id@, session_id@, status),
{
    if status.agent_status().is_some() {
        relays.remove_active_session(relay_id, session_id);
    }
}

/// Something that happens to a connection.
#[derive(Debug)]
pub enum SocketInput {
    /// An event comes over the bus.
    Event { event: Event },
    /// The connection was too slow, and events were lost.
    Lagged { count: u64 },
    /// The bus has closed.
    BusClosed,
    /// The other side sends a message.
    Message { message: ClientMessage },
    /// The other side sends a text that is no message.
    Unreadable,
    /// The other side sends a ping.
    Ping { payload: Vec<u8> },
    /// The other side sends a pong, or a frame that means nothing here.
    Ignored,
    /// The other side closes the connection.
    Close,
    /// The connection fails.
    Failed,
    /// The connection has ended.
    Ended,
    /// It is time for a sign of life.
    Heartbeat,
}

/// The content of what happens to a connection.
pub enum SocketInputView {
    Event { event: EventView },
    Lagged { count: u64 },
    BusClosed,
    Message { message: ClientMessageView },
    Unreadable,
    Ping { payload: Seq<u8> },
    Ignored,
    Close,
    Failed,
    Ended,
    Heartbeat,
}

impl SocketInput {
    pub open spec fn view(&self) -> SocketInputView {
        match self {
            SocketInput::Event { event } => SocketInputView::Event { event: event@ },
            SocketInput::Lagged { count } => SocketInputView::Lagged { count: *count },
            SocketInput::BusClosed => SocketInputView::BusClosed,
            SocketInput::Message { message } => SocketInputView::Message { message: message@ },
            SocketInput::Unreadable => SocketInputView::Unreadable,
            SocketInput::Ping { payload } => SocketInputView::Ping { payload: payload@ },
            SocketInput::Ignored => SocketInputView::Ignored,
            SocketInput::Close => SocketInputView::Close,
            SocketInput::Failed => SocketInputView::Failed,
            SocketInput::Ended => SocketInputView::Ended,
            SocketInput::Heartbeat => SocketInputView::Heartbeat,
        }
    }
}

/// What the server does next with a connection.
#[derive(Debug)]
pub enum SocketStep {
    /// It waits.
    Wait,
    /// It sends a message; a connection over which that fails has ended.
    Send { message: WsMessage },
    /// It sends a message; that this fails does not matter.
    Notify { message: WsMessage },
    /// It answers a ping; a connection over which that fails has ended.
    Pong { payload: Vec<u8> },
    /// It does what an event of the relay asks for.
    Perform { action: RelayAction },
    /// It drops an event of the relay with an id that is no UUID.
    Reject { invalid: InvalidId },
    /// It ends the connection.
    End,
}

/// The content of what the server does next.
pub enum SocketStepView {
    Wait,
    Send { message: WsMessageView },
    Notify { message: WsMessageView },
    Pong { payload: Seq<u8> },
    Perform { action: RelayActionView },
    Reject { invalid: Seq<char> },
    End,
}

impl SocketStep {
    pub open spec fn view(&self) -> SocketStepView {
        match self {
            SocketStep::Wait => SocketStepView::Wait,
            SocketStep::Send { message } => SocketStepView::Send { message: message@ },
            SocketStep::Notify { message } => SocketStepView::Notify { message: message@ },
            SocketStep::Pong { payload } => SocketStepView::Pong { payload: payload@ },
            SocketStep::Perform { action } => SocketStepView::Perform { action: action@ },
            SocketStep::Reject { invalid } => SocketStepView::Reject { invalid: invalid.text@ },
            SocketStep::End => SocketStepView::End,
        }
    }

    /// Whether the connection goes on after this step, in which what had to be
    /// sent was `sent` or not.
    pub fn goes_on(&self, sent: bool) -> (r: bool)
        ensures
            r == self@.goes_on(sent),
    {
        match self {
            SocketStep::End => false,
            SocketStep::Send { .. } => sent,
            SocketStep::Pong { .. } => sent,
            _ => true,
        }
    }
}

impl SocketStepView {
    /// The connection goes on after this step.
    pub open spec fn goes_on(self, sent: bool) -> bool {
        match self {
            SocketStepView::End => false,
            SocketStepView::Send { .. } => sent,
            SocketStepView::Pong { .. } => sent,
            _ => true,
        }
    }
}

/// The connection of a relay.
#[derive(Debug)]
pub struct RelaySession {
    relay_id: String,
    kinds: Option<Vec<String>>,
    registered: bool,
}

/// What the server knows of the connection of a relay.
pub struct RelaySessionView {
    pub relay_id: Seq<char>,
    pub kinds: Option<Seq<Seq<char>>>,
    pub registered: bool,
}

/// The data name another relay, or something that is no relay id.
pub open spec fn for_another_relay(data: JsonView, relay_id: Seq<char>) -> bool {
    data.field("relay_id"@) matches Some(v) && v.as_text() != Some(relay_id)
}

/// Events of this kind without a relay id go to no relay.
pub open spec fn needs_relay_id(kind: Seq<char>) -> bool {
    &&& begins_with(kind, "relay."@)
    &&& kind != RELAY_SPAWN_REQUESTED@
    &&& kind != RELAY_STOP_REQUESTED@
    &&& kind != RELAY_INPUT_REQUESTED@
}

impl RelaySessionView {
    /// The event is handed to the relay: it has registered, asks for events of
    /// this kind, and the event is meant for it.
    pub open spec fn receives(self, event: EventView) -> bool {
        &&& self.registered
        &&& wanted(self.kinds, event.kind)
        &&& !for_another_relay(event.data, self.relay_id)
        &&& event.data.field("relay_id"@) is None ==> !needs_relay_id(event.kind)
    }

    /// What is done next.
    pub open spec fn step(self, input: SocketInputView) -> SocketStepView {
        match input {
            SocketInputView::Event { event } => if self.receives(event) {
                SocketStepView::Send { message: event_message(event) }
            } else {
                SocketStepView::Wait
            },
            SocketInputView::Message {
                message: ClientMessageView::EmitEvent { kind, data },
            } => match relay_event_action(self.relay_id, kind, data) {
                Ok(action) => SocketStepView::Perform { action },
                Err(invalid) => SocketStepView::Reject { invalid },
            },
            SocketInputView::Ping { payload } => SocketStepView::Pong { payload },
            SocketInputView::Heartbeat => SocketStepView::Send { message: WsMessageView::Ping },
            SocketInputView::BusClosed | SocketInputView::Close | SocketInputView::Failed
            | SocketInputView::Ended => SocketStepView::End,
            _ => SocketStepView::Wait,
        }
    }

    /// What the server knows of the connection afterwards.
    pub open spec fn after(self, input: SocketInputView) -> RelaySessionView {
        match input {
            SocketInputView::Message {
                message: ClientMessageView::EmitEvent { kind, data },
            } => RelaySessionView {
                registered: self.registered || registers(kind, data),
                ..self
            },
            _ => self,
        }
    }

    /// What the server knows of the relays afterwards.
    pub open spec fn relays_after(
        self,
        m: ManagerView,
        input: SocketInputView,
        now: i64,
    ) -> ManagerView {
        match input {
            SocketInputView::Message {
                message: ClientMessageView::EmitEvent { kind, data },
            } => relay_event_state(m, self.relay_id, kind, data, now),
            _ => m,
        }
    }
}

/// What has to be done after the connection of a registered relay has ended: its
/// sessions, and the agents that ran them, have failed, and an event says so.
#[derive(Debug)]
pub struct RelayDown {
    pub failed_sessions: Vec<u128>,
    pub event: NewEvent,
}

impl RelayDown {
    /// What becomes of the sessions of the relay: they have failed.
    pub fn session_status(&self) -> (r: SessionStatus)
        ensures
            r == SessionStatus::Failed,
    {
        SessionStatus::Failed
    }

    /// What becomes of the agents that ran them: what becomes of any agent whose
    /// session has failed.
    pub fn agent_status(&self) -> (r: AgentStatus)
        ensures
            r == AgentStatus::Failed,
            agent_status_after(SessionStatus::Failed) == Some(r),
    {
        AgentStatus::Failed
    }
}

/// The UUIDs that those texts name that name one.
pub open spec fn named_ids(list: Seq<Seq<char>>) -> Seq<u128>
    decreases list.len(),
{
    if list.len() == 0 {
        Seq::empty()
    } else {
        match uuid_named(list.last()) {
            Some(id) => named_ids(list.drop_last()).push(id),
            None => named_ids(list.drop_last()),
        }
    }
}

/// The members of a set in some order, each once.
pub open spec fn listing(order: Seq<Seq<char>>, set: Set<Seq<char>>) -> bool {
    order.no_duplicates() && order.to_set() == set
}

/// The event that says that a relay has disconnected.
pub open spec fn down_event(relay_id: Seq<char>) -> NewEventView {
    NewEventView {
        kind: RELAY_DOWN@,
        agent_id: 0,
        task_id: None,
        data: JsonView::Object(Map::empty().insert("relay_id"@, JsonView::Text(relay_id))),
    }
}

/// The UUIDs that the texts of a list name.
fn parse_ids(list: &Vec<String>) -> (r: Vec<u128>)
    ensures
        r@ == named_ids(texts(list@)),
{
    let mut r: Vec<u128> = Vec::new();
    let mut i: usize = 0;
    while i < list.len()
        invariant
            i <= list@.len(),
            r@ == named_ids(texts(list@).take(i as int)),
        decreases list@.len() - i,
    {
        assert(texts(list@).take(i + 1).drop_last() == texts(list@).take(i as int));
        if let Some(id) = parse_uuid(list[i].as_str()) {
            r.push(id);
        }
        i = i + 1;
    }
    assert(texts(list@).take(i as int) == texts(list@));
    r
}

/// A copy of an optional list of strings.
fn copy_kinds(kinds: &Option<Vec<String>>) -> (r: Option<Vec<String>>)
    ensures
        opt_texts(r) == opt_texts(*kinds),
{
    match kinds {
        Some(list) => Some(copy_list(list)),
        None => None,
    }
}

impl RelaySession {
    pub closed spec fn view(&self) -> RelaySessionView {
        RelaySessionView {
            relay_id: self.relay_id@,
            kinds: opt_texts(self.kinds),
            registered: self.registered,
        }
    }

    /// The connection of a relay that has not registered yet, and the message
    /// that greets it.
    pub fn open(relay_id: String, params: &WsSubscribeParams) -> (r: (RelaySession, WsMessage))
        ensures
            r.0@ == (RelaySessionView {
                relay_id: relay_id@,
                kinds: kinds_named(opt_text(params.kinds)),
                registered: false,
            }),
            r.1@ == (WsMessageView::Subscribed {
                kinds: kinds_named(opt_text(params.kinds)),
                cursor: 0,
            }),
    {
        let kinds = parse_kinds(&params.kinds);
        let greeting = WsMessage::Subscribed { kinds: copy_kinds(&kinds), cursor: 0 };
        (RelaySession { relay_id, kinds, registered: false }, greeting)
    }

    /// Whether the event is handed to the relay.
    pub fn receives(&self, event: &Event) -> (r: bool)
        ensures
            r == self@.receives(event@),
    {
        if !self.registered || !should_send_event(event, &self.kinds) {
            return false;
        }
        match event.data.get("relay_id") {
            Some(v) => match v.as_str() {
                Some(id) => same(id, self.relay_id.as_str()),
                None => false,
            },
            None => {
                let kind = event.kind.as_str();
                !starts_with(kind, "relay.") || same(kind, RELAY_SPAWN_REQUESTED) || same(
                    kind,
                    RELAY_STOP_REQUESTED,
                ) || same(kind, RELAY_INPUT_REQUESTED)
            },
        }
    }

    /// Takes in what happens to the connection at `now`.
    pub fn step_at(&mut self, input: SocketInput, relays: &mut RelayManager, now: i64) -> (r:
        SocketStep)
        ensures
            r@ == old(self)@.step(input@),
            final(self)@ == old(self)@.after(input@),
            final(relays)@ == old(self)@.relays_after(old(relays)@, input@, now),
    {
        match input {
            SocketInput::Event { event } => if self.receives(&event) {
                SocketStep::Send { message: event.to_message() }
            } else {
                SocketStep::Wait
            },
            SocketInput::Message { message } => match message {
                ClientMessage::EmitEvent { kind, data } => {
                    let mut registered = self.registered;
                    let result = handle_relay_event_at(
                        kind.as_str(),
                        &data,
                        self.relay_id.as_str(),
                        &mut registered,
                        relays,
                        now,
                    );
                    self.registered = registered;
                    match result {
                        Ok(action) => SocketStep::Perform { action },
                        Err(invalid) => SocketStep::Reject { invalid },
                    }
                },
                ClientMessage::Pong => SocketStep::Wait,
            },
            SocketInput::Ping { payload } => SocketStep::Pong { payload },
            SocketInput::Heartbeat => SocketStep::Send { message: WsMessage::Ping },
            SocketInput::BusClosed | SocketInput::Close | SocketInput::Failed
            | SocketInput::Ended => SocketStep::End,
            SocketInput::Lagged { .. } | SocketInput::Unreadable | SocketInput::Ignored =>
                SocketStep::Wait,
        }
    }

    /// Takes in what happens to the connection now; see `step_at`.
    pub fn step(&mut self, input: SocketInput, relays: &mut RelayManager) -> (r: SocketStep)
        ensures
            r@ == old(self)@.step(input@),
            final(self)@ == old(self)@.after(input@),
            exists|now: i64|
                final(relays)@ == #[trigger] old(self)@.relays_after(old(relays)@, input@, now),
    {
        let now: i64 = now_seconds();
        self.step_at(input, relays, now)
    }

    /// Takes in that the connection has ended. A relay that has registered is
    /// forgotten.
    pub fn close(self, relays: &mut RelayManager) -> (r: Option<RelayDown>)
        ensures
            r is Some <==> self@.registered,
            final(relays)@ == if self@.registered {
                old(relays)@.unregistered(self@.relay_id)
            } else {
                old(relays)@
            },
            r matches Some(down) ==> {
                &&& down.event@ == down_event(self@.relay_id)
                &&& exists|order: Seq<Seq<char>>|
                    {
                        &&& #[trigger] listing(order, old(relays)@.sessions(self@.relay_id))
                        &&& down.failed_sessions@ == named_ids(order)
                    }
            },
    {
        if !self.registered {
            return None;
        }
        let orphaned = relays.unregister(self.relay_id.as_str());
        assert(listing(texts(orphaned@), old(relays)@.sessions(self@.relay_id)));
        let event = NewEvent {
            kind: RELAY_DOWN.to_owned(),
            agent_id: 0,
            task_id: None,
            data: Json::object().with("relay_id", Json::text(self.relay_id.as_str())),
        };
        Some(RelayDown { failed_sessions: parse_ids(&orphaned), event })
    }
}

/// The most events that a replay gives.
pub const REPLAY_LIMIT: u32 = 1000;

/// The connection of a client that is no relay.
#[derive(Debug)]
pub struct ClientSession {
    pub kinds: Option<Vec<String>>,
    pub agent_id: Option<u128>,
    pub task_id: Option<u128>,
    pub relay_id: Option<String>,
    pub cursor: Option<i64>,
}

/// What a client has subscribed to.
pub struct ClientSessionView {
    pub kinds: Option<Seq<Seq<char>>>,
    pub agent_id: Option<u128>,
    pub task_id: Option<u128>,
    pub relay_id: Option<Seq<char>>,
    pub cursor: Option<i64>,
}

/// The UUID that an optional text names.
pub open spec fn opt_uuid_named(t: Option<Seq<char>>) -> Option<u128> {
    match t {
        Some(s) => uuid_named(s),
        None => None,
    }
}

/// What the parameters of a connection subscribe to. An id that is no UUID
/// filters nothing.
pub open spec fn subscription(params: WsSubscribeParams) -> ClientSessionView {
    ClientSessionView {
        kinds: kinds_named(opt_text(params.kinds)),
        agent_id: opt_uuid_named(opt_text(params.agent_id)),
        task_id: opt_uuid_named(opt_text(params.task_id)),
        relay_id: opt_text(params.relay_id),
        cursor: params.cursor,
    }
}

impl ClientSessionView {
    /// Where the replay starts.
    pub open spec fn start(self) -> i64 {
        match self.cursor {
            Some(c) => c,
            None => 0,
        }
    }

    /// The event has the kind and the relay that are asked for.
    pub open spec fn kind_and_relay_match(self, event: EventView) -> bool {
        &&& wanted(self.kinds, event.kind)
        &&& self.relay_id matches Some(id) ==> event.data.text_field("relay_id"@) == Some(id)
    }

    /// The event has the agent and the task that are asked for.
    pub open spec fn agent_and_task_match(self, event: EventView) -> bool {
        &&& self.agent_id matches Some(id) ==> event.agent_id == id
        &&& self.task_id matches Some(id) ==> event.task_id == Some(id)
    }

    /// The event is handed to the client.
    pub open spec fn receives(self, event: EventView) -> bool {
        self.kind_and_relay_match(event) && self.agent_and_task_match(event)
    }

    /// What is done next.
    pub open spec fn step(self, input: SocketInputView) -> SocketStepView {
        match input {
            SocketInputView::Event { event } => if self.receives(event) {
                SocketStepView::Send { message: event_message(event) }
            } else {
                SocketStepView::Wait
            },
            SocketInputView::Lagged { count } => SocketStepView::Notify {
                message: WsMessageView::Error { message: lag_text(count) },
            },
            SocketInputView::Ping { payload } => SocketStepView::Pong { payload },
            SocketInputView::Heartbeat => SocketStepView::Send { message: WsMessageView::Ping },
            SocketInputView::BusClosed | SocketInputView::Close | SocketInputView::Failed
            | SocketInputView::Ended => SocketStepView::End,
            _ => SocketStepView::Wait,
        }
    }
}

/// What a client is told that was too slow for `count` events.
pub open spec fn lag_text(count: u64) -> Seq<char> {
    "Event stream lagged by "@ + decimal(count as nat)
        + " events, consider reconnecting with cursor"@
}

/// The past events that a client asks for.
#[derive(Debug)]
pub struct ReplayQuery {
    pub cursor: i64,
    pub kinds: Option<Vec<String>>,
    pub agent_id: Option<u128>,
    pub task_id: Option<u128>,
    pub limit: u32,
}

/// The messages of a replay: one for each event, and one that ends it.
#[derive(Debug)]
pub struct Replay {
    pub events: Vec<WsMessage>,
    pub complete: WsMessage,
}

/// What a list of events says.
pub open spec fn event_views(events: Seq<Event>) -> Seq<EventView> {
    events.map_values(|e: Event| e@)
}

/// What a list of messages says.
pub open spec fn message_views(messages: Seq<WsMessage>) -> Seq<WsMessageView> {
    messages.map_values(|m: WsMessage| m@)
}

/// The messages for those of the events that have the kind and the relay that
/// the client asks for, in order.
pub open spec fn replayed(session: ClientSessionView, events: Seq<EventView>) -> Seq<WsMessageView>
    decreases events.len(),
{
    if events.len() == 0 {
        Seq::empty()
    } else if session.kind_and_relay_match(events.last()) {
        replayed(session, events.drop_last()).push(event_message(events.last()))
    } else {
        replayed(session, events.drop_last())
    }
}

/// The UUID that an optional text names.
fn parse_opt_uuid(t: &Option<String>) -> (r: Option<u128>)
    ensures
        r == opt_uuid_named(opt_text(*t)),
{
    match t {
        Some(s) => parse_uuid(s.as_str()),
        None => None,
    }
}

impl ClientSession {
    pub open spec fn view(&self) -> ClientSessionView {
        ClientSessionView {
            kinds: opt_texts(self.kinds),
            agent_id: self.agent_id,
            task_id: self.task_id,
            relay_id: opt_text(self.relay_id),
            cursor: self.cursor,
        }
    }

    /// The connection of a client, and the message that greets it.
    pub fn open(params: &WsSubscribeParams) -> (r: (ClientSession, WsMessage))
        ensures
            r.0@ == subscription(*params),
            r.1@ == (WsMessageView::Subscribed {
                kinds: subscription(*params).kinds,
                cursor: subscription(*params).start(),
            }),
    {
        let session = ClientSession {
            kinds: parse_kinds(&params.kinds),
            agent_id: parse_opt_uuid(&params.agent_id),
            task_id: parse_opt_uuid(&params.task_id),
            relay_id: params.relay_id.clone(),
            cursor: params.cursor,
        };
        let greeting = WsMessage::Subscribed {
            kinds: copy_kinds(&session.kinds),
            cursor: session.start(),
        };
        (session, greeting)
    }

    /// Where the replay starts.
    fn start(&self) -> (r: i64)
        ensures
            r == self@.start(),
    {
        match self.cursor {
            Some(c) => c,
            None => 0,
        }
    }

    /// The past events that the client asks for; none where it gives no cursor.
    pub fn replay_query(&self) -> (r: Option<ReplayQuery>)
        ensures
            r is Some <==> self@.cursor is Some,
            r matches Some(query) ==> {
                &&& query.cursor == self@.cursor->0
                &&& opt_texts(query.kinds) == self@.kinds
                &&& query.agent_id == self@.agent_id
                &&& query.task_id == self@.task_id
                &&& query.limit == REPLAY_LIMIT
            },
    {
        match self.cursor {
            Some(cursor) => Some(
                ReplayQuery {
                    cursor,
                    kinds: copy_kinds(&self.kinds),
                    agent_id: self.agent_id,
                    task_id: self.task_id,
                    limit: REPLAY_LIMIT,
                },
            ),
            None => None,
        }
    }

    /// Whether the event has the kind and the relay that are asked for.
    fn matches_kind_and_relay(&self, event: &Event) -> (r: bool)
        ensures
            r == self@.kind_and_relay_match(event@),
    {
        if !should_send_event(event, &self.kinds) {
            return false;
        }
        match &self.relay_id {
            Some(relay_id) => match event.data.text_field("relay_id") {
                Some(id) => same(id, relay_id.as_str()),
                None => false,
            },
            None => true,
        }
    }

    /// Whether the event is handed to the client.
    pub fn receives(&self, event: &Event) -> (r: bool)
        ensures
            r == self@.receives(event@),
    {
        if !self.matches_kind_and_relay(event) {
            return false;
        }
        let agent_fits = match self.agent_id {
            Some(id) => event.agent_id == id,
            None => true,
        };
        let task_fits = match self.task_id {
            Some(id) => match event.task_id {
                Some(task) => task == id,
                None => false,
            },
            None => true,
        };
        agent_fits && task_fits
    }

    /// The messages that replay past events. The last one says where the replay
    /// ended and how many events there were.
    pub fn replay(&self, events: &Vec<Event>) -> (r: Replay)
        ensures
            message_views(r.events@) == replayed(self@, event_views(events@)),
            r.complete@ == (WsMessageView::ReplayComplete {
                cursor: if events@.len() > 0 {
                    events@.last().cursor
                } else {
                    self@.start()
                },
                count: events@.len() as int,
            }),
    {
        let mut out: Vec<WsMessage> = Vec::new();
        let mut i: usize = 0;
        assert(message_views(out@) =~= Seq::empty());
        while i < events.len()
            invariant
                i <= events@.len(),
                message_views(out@) == replayed(self@, event_views(events@).take(i as int)),
            decreases events@.len() - i,
        {
            let ghost before = message_views(out@);
            assert(event_views(events@).take(i + 1).drop_last() == event_views(events@).take(
                i as int,
            ));
            if self.matches_kind_and_relay(&events[i]) {
                out.push(events[i].to_message());
                assert(message_views(out@) =~= before.push(event_message(events@[i as int]@)));
            }
            i = i + 1;
        }
        assert(event_views(events@).take(i as int) == event_views(events@));
        let n: usize = events.len();
        let cursor: i64 = if n > 0 {
            events[n - 1].cursor
        } else {
            self.start()
        };
        Replay { events: out, complete: WsMessage::ReplayComplete { cursor, count: n } }
    }

    /// What a client is told whose past events could not be fetched.
    pub fn replay_failed(error: &str) -> (r: WsMessage)
        ensures
            r@ == (WsMessageView::Error {
                message: "Failed to fetch historical events: "@ + error@,
            }),
    {
        let message = "Failed to fetch historical events: ".to_owned().concat(error);
        WsMessage::Error { message }
    }

    /// What happens to the connection, and what is done next.
    pub fn step(&self, input: SocketInput) -> (r: SocketStep)
        ensures
            r@ == self@.step(input@),
    {
        match input {
            SocketInput::Event { event } => if self.receives(&event) {
                SocketStep::Send { message: event.to_message() }
            } else {
                SocketStep::Wait
            },
            SocketInput::Lagged { count } => {
                let message = "Event stream lagged by ".to_owned().concat(
                    to_decimal(count).as_str(),
                ).concat(" events, consider reconnecting with cursor");
                SocketStep::Notify { message: WsMessage::Error { message } }
            },
            SocketInput::Ping { payload } => SocketStep::Pong { payload },
            SocketInput::Heartbeat => SocketStep::Send { message: WsMessage::Ping },
            SocketInput::BusClosed | SocketInput::Close | SocketInput::Failed
            | SocketInput::Ended => SocketStep::End,
            SocketInput::Message { .. } | SocketInput::Unreadable | SocketInput::Ignored =>
                SocketStep::Wait,
        }
    }
}

/// Without a filter, events of every kind are asked for.
pub proof fn law_no_filter_wants_all(kind: Seq<char>)
    ensures
        wanted(None, kind),
{
}

/// A pattern `p*` stands for the kinds that begin with `p`, and a pattern
/// without a `*` at its end for itself alone.
pub proof fn law_wildcard_is_prefix(p: Seq<char>, kind: Seq<char>)
    requires
        p.len() > 0 ==> p.last() != '*',
    ensures
        kind_matches(p.push('*'), kind) == begins_with(kind, p),
        kind_matches(p, kind) == (kind == p),
{
    reveal_with_fuel(without_trailing, 2);
    assert(p.push('*').drop_last() == p);
}

/// The pattern `*` stands for every kind.
pub proof fn law_star_matches_all(kind: Seq<char>)
    ensures
        kind_matches(seq!['*'], kind),
{
    law_wildcard_is_prefix(Seq::empty(), kind);
    assert(seq!['*'] =~= Seq::<char>::empty().push('*'));
    assert(kind.subrange(0, 0) =~= Seq::<char>::empty());
}

/// Two filters together ask for what either of them asks for.
pub proof fn law_filters_add_up(a: Seq<Seq<char>>, b: Seq<Seq<char>>, kind: Seq<char>)
    ensures
        wanted(Some(a + b), kind) == (wanted(Some(a), kind) || wanted(Some(b), kind)),
{
    if any_matches(a, kind) {
        let i = choose|i: int| 0 <= i < a.len() && kind_matches(#[trigger] a[i], kind);
        assert(kind_matches((a + b)[i], kind));
    }
    if any_matches(b, kind) {
        let i = choose|i: int| 0 <= i < b.len() && kind_matches(#[trigger] b[i], kind);
        assert(kind_matches((a + b)[a.len() + i], kind));
    }
    if any_matches(a + b, kind) {
        let i = choose|i: int| 0 <= i < (a + b).len() && kind_matches(#[trigger] (a + b)[i], kind);
        if i < a.len() {
            assert(kind_matches(a[i], kind));
        } else {
            assert(kind_matches(b[i - a.len()], kind));
        }
    }
}

proof fn lemma_pieces(s: Seq<char>, sep: char)
    ensures
        split_at_char(s, sep).len() >= 1,
    decreases s.len(),
{
    if s.len() > 0 {
        lemma_pieces(s.drop_last(), sep);
    }
}

/// A list of kinds always names at least one, be it the empty text: a list that
/// is given filters.
pub proof fn law_given_kinds_filter(kinds: Seq<char>)
    ensures
        kinds_named(Some(kinds)) is Some,
        kinds_named(Some(kinds))->0.len() >= 1,
{
    lemma_pieces(kinds, ',');
}

/// A bearer token in the header decides alone: no token of the query makes up
/// for it. Without one, the token of the query counts.
pub proof fn law_bearer_token_decides(
    token: Seq<char>,
    header: Option<Seq<char>>,
    query: Option<Seq<char>>,
)
    ensures
        presented_token(Some("Bearer "@ + token), query) == Some(token),
        bearer(header) is None ==> presented_token(header, query) == query,
{
    let header = "Bearer "@ + token;
    assert(header.subrange(0, "Bearer "@.len() as int) == "Bearer "@);
    assert(header.skip("Bearer "@.len() as int) == token);
}

/// A relay that has not registered is handed no events.
pub proof fn law_unregistered_relay_receives_nothing(session: RelaySessionView, event: EventView)
    requires
        !session.registered,
    ensures
        !session.receives(event),
        session.step(SocketInputView::Event { event }) == SocketStepView::Wait,
{
}

/// A relay that has registered and asks for the kind of an event that names a
/// relay is handed the event exactly if it is that relay.
pub proof fn law_event_reaches_the_relay_it_names(
    session: RelaySessionView,
    event: EventView,
    relay_id: Seq<char>,
)
    requires
        session.registered,
        wanted(session.kinds, event.kind),
        event.data.text_field("relay_id"@) == Some(relay_id),
    ensures
        session.receives(event) == (session.relay_id == relay_id),
{
}

/// A command that the manager gives out for a relay reaches that relay, and no
/// other.
pub proof fn law_command_reaches_its_relay(
    session: RelaySessionView,
    event: EventView,
    relay_id: Seq<char>,
    kind: Seq<char>,
    request_id: Seq<char>,
    data: JsonView,
    task_id: Option<u128>,
)
    requires
        session.registered,
        wanted(session.kinds, kind),
        data is Object,
        event.kind == kind,
        event.data == command_event(relay_id, kind, request_id, data, task_id).data,
    ensures
        session.receives(event) == (session.relay_id == relay_id),
{
    law_command_names_relay_and_request(
        relay_id,
        kind,
        request_id,
        data,
        task_id,
        Seq::empty(),
    );
}

/// A relay that reports a command and its arguments is registered and connected
/// afterwards, and told so. One that does not changes nothing, and is told why.
pub proof fn law_registration(
    session: RelaySessionView,
    m: ManagerView,
    data: JsonView,
    now: i64,
)
    ensures
        ({
            let message = ClientMessageView::EmitEvent { kind: RELAY_UP@, data };
            let input = SocketInputView::Message { message };
            let step = session.step(input);
            match registration_error(data) {
                None => {
                    &&& session.after(input).registered
                    &&& session.relays_after(m, input, now).relays.contains_key(session.relay_id)
                    &&& step == (SocketStepView::Perform {
                        action: RelayActionView::Reply {
                            message: WsMessageView::Registered { relay_id: session.relay_id },
                        },
                    })
                },
                Some(message) => {
                    &&& session.after(input) == session
                    &&& session.relays_after(m, input, now) == m
                    &&& step == (SocketStepView::Perform {
                        action: RelayActionView::Reply {
                            message: WsMessageView::Error { message },
                        },
                    })
                },
            }
        }),
{
}

/// Whatever happens to its connection, a relay that has registered is connected,
/// stays registered, and keeps its id and its filter.
pub proof fn law_registered_relay_is_connected(
    session: RelaySessionView,
    m: ManagerView,
    input: SocketInputView,
    now: i64,
)
    requires
        session.registered ==> m.relays.contains_key(session.relay_id),
    ensures
        ({
            let after = session.after(input);
            &&& after.registered ==> session.relays_after(m, input, now).relays.contains_key(
                after.relay_id,
            )
            &&& session.registered ==> after.registered
            &&& after.relay_id == session.relay_id
            &&& after.kinds == session.kinds
        }),
{
    lemma_kinds_differ();
}

/// What happens to the connection of one relay leaves every other relay as it
/// was.
pub proof fn law_connection_concerns_one_relay(
    session: RelaySessionView,
    m: ManagerView,
    input: SocketInputView,
    now: i64,
    other: Seq<char>,
)
    requires
        other != session.relay_id,
    ensures
        ({
            let after = session.relays_after(m, input, now);
            &&& after.relays.contains_key(other) == m.relays.contains_key(other)
            &&& m.relays.contains_key(other) ==> after.relays[other] == m.relays[other]
        }),
{
    lemma_kinds_differ();
}

/// The moment at which something happens shows in nothing but the time at which
/// a relay is said to have connected.
pub proof fn law_clock_sets_connection_time_only(
    session: RelaySessionView,
    m: ManagerView,
    input: SocketInputView,
    first: i64,
    second: i64,
    relay_id: Seq<char>,
)
    ensures
        ({
            let a = session.relays_after(m, input, first);
            let b = session.relays_after(m, input, second);
            &&& a.pending == b.pending
            &&& a.relays.contains_key(relay_id) == b.relays.contains_key(relay_id)
            &&& a.relays.contains_key(relay_id) ==> a.relays[relay_id] == (ConnectionView {
                connected_at: a.relays[relay_id].connected_at,
                ..b.relays[relay_id]
            })
        }),
{
}

/// A session that has ended is no longer run by its relay; one that goes on
/// changes nothing.
pub proof fn law_ended_session_is_not_run(
    m: ManagerView,
    relay_id: Seq<char>,
    session_id: Seq<char>,
    status: SessionStatus,
)
    ensures
        status == SessionStatus::Running ==> session_finished(m, relay_id, session_id, status) == m,
        status != SessionStatus::Running ==> !session_finished(
            m,
            relay_id,
            session_id,
            status,
        ).runs(relay_id, session_id),
{
}

/// An event that is passed on for a relay names that relay, whatever relay its
/// data named, and keeps every other field.
pub proof fn law_forwarded_event_names_its_relay(
    relay_id: Seq<char>,
    kind: Seq<char>,
    data: JsonView,
    key: Seq<char>,
)
    requires
        data is Object,
    ensures
        forwarded(relay_id, kind, data).data.text_field("relay_id"@) == Some(relay_id),
        key != "relay_id"@ ==> forwarded(relay_id, kind, data).data.field(key) == data.field(key),
{
}

/// The sessions that fail with their relay are those that have a UUID.
pub proof fn law_orphaned_sessions_fail(order: Seq<Seq<char>>, set: Set<Seq<char>>, id: u128)
    requires
        listing(order, set),
    ensures
        named_ids(order).contains(id) <==> exists|t: Seq<char>|
            #![trigger set.contains(t)]
            set.contains(t) && uuid_named(t) == Some(id),
{
    lemma_named_ids(order, id);
    assert forall|t: Seq<char>| set.contains(t) <==> order.contains(t) by {
        assert(order.to_set().contains(t) <==> order.contains(t));
    }
    if named_ids(order).contains(id) {
        let i = choose|i: int| 0 <= i < order.len() && uuid_named(#[trigger] order[i]) == Some(id);
        assert(set.contains(order[i]));
    }
    if exists|t: Seq<char>|
        #![trigger set.contains(t)]
        set.contains(t) && uuid_named(t) == Some(id) {
        let t = choose|t: Seq<char>|
            #![trigger set.contains(t)]
            set.contains(t) && uuid_named(t) == Some(id);
        let i = order.index_of(t);
        assert(uuid_named(order[i]) == Some(id));
    }
}

proof fn lemma_named_ids(order: Seq<Seq<char>>, id: u128)
    ensures
        named_ids(order).contains(id) <==> exists|i: int|
            0 <= i < order.len() && uuid_named(#[trigger] order[i]) == Some(id),
    decreases order.len(),
{
    if order.len() > 0 {
        let init = order.drop_last();
        let last = order.last();
        lemma_named_ids(init, id);
        let found = exists|i: int|
            0 <= i < order.len() && uuid_named(#[trigger] order[i]) == Some(id);
        if uuid_named(last) == Some(id) {
            assert(uuid_named(order[order.len() - 1]) == Some(id));
            assert(named_ids(order)[named_ids(order).len() - 1] == id);
        } else {
            if found {
                let i = choose|i: int|
                    0 <= i < order.len() && uuid_named(#[trigger] order[i]) == Some(id);
                assert(uuid_named(init[i]) == Some(id));
                let k = named_ids(init).index_of(id);
                assert(named_ids(order)[k] == id);
            }
            if named_ids(order).contains(id) {
                let k = named_ids(order).index_of(id);
                assert(named_ids(init)[k] == id);
                let i = choose|i: int|
                    0 <= i < init.len() && uuid_named(#[trigger] init[i]) == Some(id);
                assert(uuid_named(order[i]) == Some(id));
            }
        }
    } else {
        assert(named_ids(order) =~= Seq::empty());
    }
}

/// A replay gives the events in their order: what it gives of two lists of
/// events, one after the other, is what it gives of the first and then of the
/// second.
pub proof fn law_replay_keeps_order(
    session: ClientSessionView,
    a: Seq<EventView>,
    b: Seq<EventView>,
)
    ensures
        replayed(session, a + b) == replayed(session, a) + replayed(session, b),
    decreases b.len(),
{
    if b.len() == 0 {
        assert(a + b == a);
        assert(replayed(session, a) + replayed(session, b) == replayed(session, a));
    } else {
        law_replay_keeps_order(session, a, b.drop_last());
        assert((a + b).drop_last() == a + b.drop_last());
        assert((a + b).last() == b.last());
    }
}

/// A replay gives an event exactly if it has the kind and the relay that the
/// client asks for; of an event that is handed to the client as it happens, the
/// replay would have given the same message.
pub proof fn law_replay_gives_what_is_asked_for(session: ClientSessionView, event: EventView)
    ensures
        session.kind_and_relay_match(event) ==> replayed(session, seq![event]) == seq![
            event_message(event),
        ],
        !session.kind_and_relay_match(event) ==> replayed(session, seq![event]) == Seq::<
            WsMessageView,
        >::empty(),
        session.receives(event) ==> session.step(SocketInputView::Event { event }) == (
        SocketStepView::Send { message: replayed(session, seq![event])[0] }),
{
    assert(seq![event].drop_last() =~= Seq::<EventView>::empty());
    assert(replayed(session, Seq::<EventView>::empty()) == Seq::<WsMessageView>::empty());
    if session.kind_and_relay_match(event) {
        assert(replayed(session, seq![event]) == seq![event_message(event)]);
    }
}

/// Parameters without filters subscribe to everything: every event is handed to
/// the client.
pub proof fn law_no_parameters_no_filter(params: WsSubscribeParams, event: EventView)
    requires
        params.kinds is None,
        params.agent_id is None,
        params.task_id is None,
        params.relay_id is None,
    ensures
        subscription(params).receives(event),
{
}

/// A header carries a token exactly if it is the word `Bearer`, a space and the
/// token. Such a token counts alone; without one the token of the query counts. A
/// relay has to present the relay token, any other client the user token.
pub proof fn law_tokens(
    header: Option<Seq<char>>,
    token: Seq<char>,
    query: Option<Seq<char>>,
    params: WsSubscribeParams,
    relay_token: Seq<char>,
    user_token: Seq<char>,
)
    ensures
        header == Some("Bearer "@ + token) ==> presented_token(header, query) == Some(token),
        (forall|t: Seq<char>| header != Some(#[trigger] ("Bearer "@ + t))) ==> presented_token(
            header,
            query,
        ) == query,
        params.relay_id is Some ==> expected_token(params, relay_token, user_token) == relay_token,
        params.relay_id is None ==> expected_token(params, relay_token, user_token) == user_token,
{
    law_bearer_token_decides(token, header, query);
    if header is Some && begins_with(header->0, "Bearer "@) {
        law_occurrence(header->0, "Bearer "@, Seq::empty(), Seq::empty());
        let t = header->0.skip("Bearer "@.len() as int);
        assert(header == Some("Bearer "@ + t));
    }
}

/// A list of kinds without a comma names one kind, itself without the white space
/// around it; a comma and such a list add one kind to those before. No list names
/// none.
pub proof fn law_kinds_named(before: Seq<char>, kind: Seq<char>)
    requires
        !kind.contains(','),
    ensures
        kinds_named(None) is None,
        kinds_named(Some(kind)) == Some(seq![trimmed(kind)]),
        kinds_named(Some(before)) is Some,
        kinds_named(Some(before.push(',') + kind)) == Some(
            kinds_named(Some(before))->0.push(trimmed(kind)),
        ),
{
    law_split(before, kind, ',');
    assert(kinds_named(Some(kind))->0 =~= seq![trimmed(kind)]);
    assert(kinds_named(Some(before.push(',') + kind))->0 =~= kinds_named(Some(before))->0.push(
        trimmed(kind),
    ));
}

/// What a single pattern asks for: with a `*` at its end every kind that is what
/// stands before with something after it, however many `*` there are; otherwise
/// the kind itself. An empty list of patterns asks for nothing.
pub proof fn law_patterns(p: Seq<char>, kind: Seq<char>)
    ensures
        !wanted(Some(Seq::empty()), kind),
        wanted(Some(seq![p]), kind) == kind_matches(p, kind),
        (p.len() == 0 || p.last() != '*') ==> {
            &&& kind_matches(p, kind) <==> kind == p
            &&& kind_matches(p.push('*'), kind) <==> exists|rest: Seq<char>|
                kind == #[trigger] (p + rest)
        },
        p.len() > 0 && p.last() == '*' ==> kind_matches(p.push('*'), kind) == kind_matches(p, kind),
{
    if kind_matches(p, kind) {
        assert(kind_matches(seq![p][0], kind));
    }
    if wanted(Some(seq![p]), kind) {
        let i = choose|i: int| 0 <= i < seq![p].len() && kind_matches(#[trigger] seq![p][i], kind);
        assert(seq![p][i] == p);
    }
    assert(p.push('*').drop_last() =~= p);
    if p.len() == 0 || p.last() != '*' {
        law_wildcard_is_prefix(p, kind);
        if begins_with(kind, p) {
            law_occurrence(kind, p, Seq::empty(), Seq::empty());
            assert(kind == p + kind.skip(p.len() as int));
        }
        if exists|rest: Seq<char>| kind == #[trigger] (p + rest) {
            let rest = choose|rest: Seq<char>| kind == #[trigger] (p + rest);
            law_occurrence(kind, p, Seq::empty(), rest);
        }
    }
}

/// What a relay is registered as is what it reports, field by field, with a default
/// for what it does not report in the right form.
pub proof fn law_registration_content(relay_id: Seq<char>, data: JsonView, now: i64)
    ensures
        ({
            let r = registration(relay_id, data, now);
            &&& r.relay_id == relay_id
            &&& r.connected_at == now
            &&& r.active_sessions == Set::<Seq<char>>::empty()
            &&& r.name == match data.field("name"@) {
                Some(JsonView::Text(t)) => t,
                _ => "unknown"@,
            }
            &&& r.role == match data.field("role"@) {
                Some(JsonView::Text(t)) => role_named(t),
                _ => AgentRole::General,
            }
            &&& data.field("command"@) matches Some(JsonView::Text(t)) ==> r.command == trimmed(t)
            &&& data.field("command_args"@) is Some && data.field(
                "command_args"@,
            )->0.text_list() is Some ==> Some(r.command_args) == data.field(
                "command_args"@,
            )->0.text_list()
            &&& r.safe_paths == match data.field("safe_paths"@) {
                Some(v) if v.text_list() is Some => v.text_list()->0,
                _ => Seq::empty(),
            }
            &&& r.labels == match data.field("labels"@) {
                Some(v) if v.text_table() is Some => v.text_table()->0,
                _ => Map::empty(),
            }
            &&& r.projects == match data.field("projects"@) {
                Some(v) if id_list(v) is Some => id_list(v)->0.to_set(),
                _ => Set::empty(),
            }
            &&& r.setup_script == match data.field("setup_script"@) {
                Some(JsonView::Text(t)) => Some(t),
                _ => None,
            }
        }),
{
    law_role_of_name("general"@);
    reveal_strlit("general");
    reveal_strlit("business");
    reveal_strlit("coding");
    reveal_strlit("qa");
    assert("general"@.len() == 7 && "business"@.len() == 8 && "coding"@.len() == 6 && "qa"@.len()
        == 2);
    assert(Seq::<u128>::empty().to_set() =~= Set::empty());
}

/// A relay is registered exactly if it reports a command that is more than white
/// space and a list of arguments; otherwise it is told which of these is wrong, the
/// command first.
pub proof fn law_registration_errors(data: JsonView)
    ensures
        ({
            let command_given = data.field("command"@) matches Some(JsonView::Text(t)) && trimmed(
                t,
            ).len() > 0;
            let args = data.field("command_args"@);
            &&& !command_given ==> registration_error(data) == Some(
                "relay.up missing or invalid command"@,
            )
            &&& command_given && args is None ==> registration_error(data) == Some(
                "relay.up missing command_args"@,
            )
            &&& command_given && args is Some && args->0.text_list() is None ==> registration_error(
                data,
            ) == Some("relay.up invalid command_args: "@ + text_list_error(args->0))
            &&& command_given && args is Some && args->0.text_list() is Some ==> registration_error(
                data,
            ) is None
        }),
{
    assert(without_leading_space(Seq::<char>::empty()) == Seq::<char>::empty());
    assert(without_trailing_space(Seq::<char>::empty()) == Seq::<char>::empty());
}

/// What each kind of event that a relay reports asks for. A registration is
/// answered; a status is stored for the session that is named, if it is a status;
/// an artifact is stored for the agent and session that are named; output,
/// permission requests and finished prompts ask for nothing; everything else is
/// published, with the relay put in.
pub proof fn law_relay_event_actions(relay_id: Seq<char>, kind: Seq<char>, data: JsonView)
    ensures
        ({
            let text = |key: Seq<char>|
                match data.field(key) {
                    Some(JsonView::Text(t)) => t,
                    _ => Seq::empty(),
                };
            let r = relay_event_action(relay_id, kind, data);
            let session = uuid_named(text("session_id"@));
            let agent = uuid_named(text("agent_id"@));
            let status = status_named(text("status"@));
            &&& kind == "relay.up"@ && registration_error(data) is None ==> r == Ok::<_, Seq<char>>(
                RelayActionView::Reply { message: WsMessageView::Registered { relay_id } },
            )
            &&& kind == "relay.up"@ ==> (registration_error(data) matches Some(message) ==> r == Ok::<
                _,
                Seq<char>,
            >(RelayActionView::Reply { message: WsMessageView::Error { message } }))
            &&& kind == "relay.session_status"@ && session is None ==> r == Err::<
                RelayActionView,
                _,
            >(text("session_id"@))
            &&& kind == "relay.session_status"@ && session is Some && status is None ==> r == Ok::<
                _,
                Seq<char>,
            >(RelayActionView::Nothing)
            &&& kind == "relay.session_status"@ && session is Some && status is Some ==> r == Ok::<
                _,
                Seq<char>,
            >(
                RelayActionView::StoreStatus {
                    session: session->0,
                    session_id: text("session_id"@),
                    status: status->0,
                },
            )
            &&& kind == "relay.artifact"@ && agent is None ==> r == Err::<RelayActionView, _>(
                text("agent_id"@),
            )
            &&& kind == "relay.artifact"@ && agent is Some && session is None ==> r == Err::<
                RelayActionView,
                _,
            >(text("session_id"@))
            &&& kind == "relay.artifact"@ && agent is Some && session is Some ==> r == Ok::<
                _,
                Seq<char>,
            >(
                RelayActionView::StoreArtifact {
                    agent: agent->0,
                    session: session->0,
                    artifact_type: text("artifact_type"@),
                    data: match data.field("data"@) {
                        Some(v) => v,
                        None => JsonView::Null,
                    },
                },
            )
            &&& kind == "relay.agent_output"@ || kind == "relay.permission_request"@ || kind
                == "relay.prompt_completed"@ ==> r == Ok::<_, Seq<char>>(RelayActionView::Nothing)
            &&& kind != "relay.up"@ && kind != "relay.session_status"@ && kind != "relay.artifact"@
                && kind != "relay.agent_output"@ && kind != "relay.permission_request"@ && kind
                != "relay.prompt_completed"@ ==> r is Ok && r->Ok_0 is Publish && {
                let event = r->Ok_0->event;
                &&& event.kind == kind
                &&& event.agent_id == 0
                &&& event.task_id is None
                &&& !(data is Object) ==> event.data == data
                &&& data is Object ==> event.data is Object && event.data->Object_0
                    == data->Object_0.insert("relay_id"@, JsonView::Text(relay_id))
            }
        }),
{
    lemma_kinds_differ();
}

/// What each kind of event that a relay reports changes: a registration that is in
/// order connects the relay, a permission request is remembered, and nothing else
/// changes anything.
pub proof fn law_relay_event_changes(
    m: ManagerView,
    relay_id: Seq<char>,
    kind: Seq<char>,
    data: JsonView,
    now: i64,
)
    ensures
        ({
            let text = |key: Seq<char>|
                match data.field(key) {
                    Some(JsonView::Text(t)) => t,
                    _ => Seq::empty(),
                };
            let after = relay_event_state(m, relay_id, kind, data, now);
            &&& kind == "relay.up"@ && registration_error(data) is None ==> {
                &&& after == m.registered(registration(relay_id, data, now))
                &&& registers(kind, data)
            }
            &&& kind == "relay.permission_request"@ ==> after.relays == m.relays && after.pending
                == m.pending.insert(text("request_id"@), text("session_id"@))
            &&& !(kind == "relay.up"@ && registration_error(data) is None) && kind
                != "relay.permission_request"@ ==> after == m
            &&& registers(kind, data) ==> kind == "relay.up"@ && registration_error(data) is None
        }),
{
    lemma_kinds_differ();
}

/// After a session has ended the same relays are connected as before. The relay
/// that ran it has the sessions that it had, without that one, and all else that
/// it had; every other relay and all requests are as they were. If it was the only
/// session, the relay is idle. A session that goes on changes nothing.
pub proof fn law_session_end(
    m: ManagerView,
    relay_id: Seq<char>,
    session_id: Seq<char>,
    status: SessionStatus,
    other: Seq<char>,
)
    ensures
        ({
            let after = session_finished(m, relay_id, session_id, status);
            let before = m.relays[relay_id];
            let r = after.relays[relay_id];
            &&& after.relays.dom() == m.relays.dom()
            &&& after.pending == m.pending
            &&& other != relay_id && m.relays.contains_key(other) ==> after.relays[other]
                == m.relays[other]
            &&& status == SessionStatus::Running ==> after == m
            &&& status != SessionStatus::Running && m.relays.contains_key(relay_id) ==> {
                &&& r.active_sessions == before.active_sessions.remove(session_id)
                &&& r.relay_id == before.relay_id
                &&& r.name == before.name
                &&& r.role == before.role
                &&& r.command == before.command
                &&& r.command_args == before.command_args
                &&& r.safe_paths == before.safe_paths
                &&& r.labels == before.labels
                &&& r.projects == before.projects
                &&& r.setup_script == before.setup_script
                &&& r.connected_at == before.connected_at
                &&& before.active_sessions == Set::empty().insert(session_id)
                    ==> r.active_sessions == Set::<Seq<char>>::empty()
            }
        }),
{
    law_with_sessions(m, relay_id, m.sessions(relay_id).remove(session_id), other);
    assert(Set::<Seq<char>>::empty().insert(session_id).remove(session_id) =~= Set::<
        Seq<char>,
    >::empty());
}

/// An event is handed to a relay exactly if the relay has registered, asks for the
/// kind, and the event names it; or names no relay, and is none of the events of
/// relays other than the three that ask a relay to start, to stop or to take input.
pub proof fn law_relay_receives(session: RelaySessionView, event: EventView)
    ensures
        session.receives(event) <==> session.registered && wanted(session.kinds, event.kind)
            && match event.data.field("relay_id"@) {
            Some(v) => v == JsonView::Text(session.relay_id),
            None => !begins_with(event.kind, "relay."@) || event.kind == "relay.spawn_requested"@
                || event.kind == "relay.stop_requested"@ || event.kind == "relay.input_requested"@,
        },
{
}

/// What is done about each thing that happens to the connection of a relay.
pub proof fn law_relay_steps(session: RelaySessionView, input: SocketInputView)
    ensures
        match input {
            SocketInputView::Event { event } => session.step(input) == if session.receives(event) {
                SocketStepView::Send { message: event_message(event) }
            } else {
                SocketStepView::Wait
            },
            SocketInputView::Message { message } => match message {
                ClientMessageView::EmitEvent { kind, data } => match relay_event_action(
                    session.relay_id,
                    kind,
                    data,
                ) {
                    Ok(action) => session.step(input) == (SocketStepView::Perform { action }),
                    Err(invalid) => session.step(input) == (SocketStepView::Reject { invalid }),
                },
                ClientMessageView::Pong => session.step(input) is Wait,
            },
            SocketInputView::Ping { payload } => session.step(input) == (SocketStepView::Pong {
                payload,
            }),
            SocketInputView::Heartbeat => session.step(input) == (SocketStepView::Send {
                message: WsMessageView::Ping,
            }),
            SocketInputView::Lagged { .. } => session.step(input) is Wait,
            SocketInputView::Unreadable => session.step(input) is Wait,
            SocketInputView::Ignored => session.step(input) is Wait,
            SocketInputView::BusClosed => session.step(input) is End,
            SocketInputView::Close => session.step(input) is End,
            SocketInputView::Failed => session.step(input) is End,
            SocketInputView::Ended => session.step(input) is End,
        },
{
}

/// What changes with each thing that happens to the connection of a relay: only an
/// event that the relay reports changes anything, and of the connection only that
/// it is registered.
pub proof fn law_relay_changes(
    session: RelaySessionView,
    m: ManagerView,
    input: SocketInputView,
    now: i64,
)
    ensures
        session.after(input).relay_id == session.relay_id,
        session.after(input).kinds == session.kinds,
        match input {
            SocketInputView::Message {
                message: ClientMessageView::EmitEvent { kind, data },
            } => {
                &&& session.after(input).registered <==> session.registered || (kind == "relay.up"@
                    && registration_error(data) is None)
                &&& session.relays_after(m, input, now) == relay_event_state(
                    m,
                    session.relay_id,
                    kind,
                    data,
                    now,
                )
            },
            _ => session.after(input) == session && session.relays_after(m, input, now) == m,
        },
{
}

/// A connection ends where the step says so, or where a message or a pong that has
/// to reach the other side was not sent; nothing else ends it.
pub proof fn law_connection_goes_on(step: SocketStepView, sent: bool)
    ensures
        !step.goes_on(sent) <==> step is End || (!sent && (step is Send || step is Pong)),
{
}

/// The event that says that a relay has disconnected.
pub proof fn law_down_event(relay_id: Seq<char>)
    ensures
        down_event(relay_id).kind == "relay.down"@,
        down_event(relay_id).agent_id == 0,
        down_event(relay_id).task_id is None,
        down_event(relay_id).data == JsonView::Object(
            Map::empty().insert("relay_id"@, JsonView::Text(relay_id)),
        ),
{
}

/// The sessions that fail stand in the order in which they are listed: one more
/// text adds the UUID that it names, if it names one.
pub proof fn law_named_ids(list: Seq<Seq<char>>, text: Seq<char>)
    ensures
        named_ids(Seq::empty()) == Seq::<u128>::empty(),
        named_ids(list.push(text)) == match uuid_named(text) {
            Some(id) => named_ids(list).push(id),
            None => named_ids(list),
        },
{
    assert(list.push(text).drop_last() =~= list);
}

/// What the parameters of a connection subscribe to.
pub proof fn law_subscription(params: WsSubscribeParams)
    ensures
        ({
            let s = subscription(params);
            &&& s.kinds == match params.kinds {
                Some(k) => kinds_named(Some(k@)),
                None => None,
            }
            &&& s.agent_id == match params.agent_id {
                Some(t) => uuid_named(t@),
                None => None,
            }
            &&& s.task_id == match params.task_id {
                Some(t) => uuid_named(t@),
                None => None,
            }
            &&& s.relay_id == match params.relay_id {
                Some(t) => Some(t@),
                None => None,
            }
            &&& s.cursor == params.cursor
            &&& params.cursor matches Some(c) ==> s.start() == c
            &&& params.cursor is None ==> s.start() == 0
        }),
{
}

/// Each filter of a client counts by itself: an event is handed out exactly if its
/// kind is asked for, and it has the agent, the task and the relay that are asked
/// for, wherever one is. A replay asks for kind and relay in the same way.
pub proof fn law_client_filters(s: ClientSessionView, e: EventView)
    ensures
        s.receives(e) <==> {
            &&& wanted(s.kinds, e.kind)
            &&& s.agent_id is None || s.agent_id == Some(e.agent_id)
            &&& s.task_id is None || s.task_id == e.task_id
            &&& s.relay_id is None || e.data.field("relay_id"@) == Some(
                JsonView::Text(s.relay_id->0),
            )
        },
        s.kind_and_relay_match(e) <==> {
            &&& wanted(s.kinds, e.kind)
            &&& s.relay_id is None || e.data.field("relay_id"@) == Some(
                JsonView::Text(s.relay_id->0),
            )
        },
{
}

/// A client that asks for one agent is handed no event of another, and a client
/// that asks for one task no event of another, whatever else it asks for.
pub proof fn law_each_filter_counts(s: ClientSessionView, e: EventView, agent: u128, task: u128)
    requires
        s.receives(e),
    ensures
        s.agent_id == Some(agent) ==> e.agent_id == agent,
        s.task_id == Some(task) ==> e.task_id == Some(task),
{
}

/// What is done about each thing that happens to the connection of a client.
pub proof fn law_client_steps(session: ClientSessionView, input: SocketInputView)
    ensures
        match input {
            SocketInputView::Event { event } => session.step(input) == if session.receives(event) {
                SocketStepView::Send { message: event_message(event) }
            } else {
                SocketStepView::Wait
            },
            SocketInputView::Lagged { count } => session.step(input) == (SocketStepView::Notify {
                message: WsMessageView::Error {
                    message: "Event stream lagged by "@ + decimal(count as nat)
                        + " events, consider reconnecting with cursor"@,
                },
            }),
            SocketInputView::Ping { payload } => session.step(input) == (SocketStepView::Pong {
                payload,
            }),
            SocketInputView::Heartbeat => session.step(input) == (SocketStepView::Send {
                message: WsMessageView::Ping,
            }),
            SocketInputView::Message { .. } => session.step(input) is Wait,
            SocketInputView::Unreadable => session.step(input) is Wait,
            SocketInputView::Ignored => session.step(input) is Wait,
            SocketInputView::BusClosed => session.step(input) is End,
            SocketInputView::Close => session.step(input) is End,
            SocketInputView::Failed => session.step(input) is End,
            SocketInputView::Ended => session.step(input) is End,
        },
{
}

/// A replay of no events gives none; one more event adds its message where it has
/// the kind and the relay that the client asks for, and nothing otherwise.
pub proof fn law_replay_goes_event_by_event(
    session: ClientSessionView,
    events: Seq<EventView>,
    e: EventView,
)
    ensures
        replayed(session, Seq::empty()) == Seq::<WsMessageView>::empty(),
        replayed(session, events.push(e)) == if wanted(session.kinds, e.kind) && (
        session.relay_id is None || e.data.field("relay_id"@) == Some(
            JsonView::Text(session.relay_id->0),
        )) {
            replayed(session, events).push(event_message(e))
        } else {
            replayed(session, events)
        },
{
    assert(events.push(e).drop_last() =~= events);
}

/// What a subscription, and lists of events and messages, say is what they hold.
pub proof fn law_session_content(
    s: ClientSession,
    events: Seq<Event>,
    messages: Seq<WsMessage>,
    i: int,
)
    ensures
        match s.kinds {
            Some(k) => s@.kinds == Some(texts(k@)),
            None => s@.kinds is None,
        },
        s@.agent_id == s.agent_id,
        s@.task_id == s.task_id,
        s@.relay_id == opt_text(s.relay_id),
        s@.cursor == s.cursor,
        event_views(events).len() == events.len(),
        0 <= i < events.len() ==> event_views(events)[i] == events[i]@,
        message_views(messages).len() == messages.len(),
        0 <= i < messages.len() ==> message_views(messages)[i] == messages[i]@,
{
}

/// What happens to a connection is what is handed in.
pub proof fn law_input_content(input: SocketInput)
    ensures
        match input {
            SocketInput::Event { event } => input@ is Event && input@->event == event@,
            SocketInput::Lagged { count } => input@ is Lagged && input@->count == count,
            SocketInput::BusClosed => input@ is BusClosed,
            SocketInput::Message { message } => input@ is Message && input@->message == message@,
            SocketInput::Unreadable => input@ is Unreadable,
            SocketInput::Ping { payload } => input@ is Ping && input@->payload == payload@,
            SocketInput::Ignored => input@ is Ignored,
            SocketInput::Close => input@ is Close,
            SocketInput::Failed => input@ is Failed,
            SocketInput::Ended => input@ is Ended,
            SocketInput::Heartbeat => input@ is Heartbeat,
        },
{
}

/// What is done next is what is handed out.
pub proof fn law_step_content(step: SocketStep, action: RelayAction)
    ensures
        match step {
            SocketStep::Wait => step@ is Wait,
            SocketStep::Send { message } => step@ == (SocketStepView::Send { message: message@ }),
            SocketStep::Notify { message } => step@ == (SocketStepView::Notify {
                message: message@,
            }),
            SocketStep::Pong { payload } => step@ == (SocketStepView::Pong { payload: payload@ }),
            SocketStep::Perform { action } => step@ == (SocketStepView::Perform {
                action: action@,
            }),
            SocketStep::Reject { invalid } => step@ == (SocketStepView::Reject {
                invalid: invalid.text@,
            }),
            SocketStep::End => step@ is End,
        },
        match action {
            RelayAction::Nothing => action@ is Nothing,
            RelayAction::Reply { message } => action@ == (RelayActionView::Reply {
                message: message@,
            }),
            RelayAction::StoreStatus { session, session_id, status } => action@ == (
            RelayActionView::StoreStatus { session, session_id: session_id@, status }),
            RelayAction::StoreArtifact { agent, session, artifact_type, data } => action@ == (
            RelayActionView::StoreArtifact {
                agent,
                session,
                artifact_type: artifact_type@,
                data: data@,
            }),
            RelayAction::Publish { event } => action@ == (RelayActionView::Publish {
                event: event@,
            }),
        },
{
}

/// A result is the action that it holds, or the id that is no UUID.
pub proof fn law_action_of_result(r: Result<RelayAction, InvalidId>)
    ensures
        match r {
            Ok(action) => action_view(r) == Ok::<RelayActionView, Seq<char>>(action@),
            Err(e) => action_view(r) == Err::<RelayActionView, Seq<char>>(e.text@),
        },
{
}

/// A listing of a set has each of its members once, and nothing else.
pub proof fn law_listing_has_each_member(
    order: Seq<Seq<char>>,
    set: Set<Seq<char>>,
    t: Seq<char>,
    i: int,
    j: int,
)
    requires
        listing(order, set),
    ensures
        order.contains(t) <==> set.contains(t),
        0 <= i < j < order.len() ==> order[i] != order[j],
{
    assert(order.to_set().contains(t) <==> order.contains(t));
}

/// A replay gives at most a thousand events, and a sign of life is due every half
/// minute.
pub proof fn law_bus_limits()
    ensures
        REPLAY_LIMIT == 1000,
        HEARTBEAT_SECS == 30,
{
}

} // verus!
