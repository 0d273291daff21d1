//! What relays, server and clients say to each other.

use crate::collections::{text_map, Table};
use crate::json::{Json, JsonView};
use crate::outside::{
    format_uuid, hex_digit, rfc3339, rfc3339_text, time_in_range, uuid_digit, uuid_named, uuid_text,
};
use crate::text::{opt_text, same, texts};
use vstd::arithmetic::div_mod::{
    lemma_basic_div, lemma_div_denominator, lemma_fundamental_div_mod, lemma_mod_bound,
};
use vstd::arithmetic::power::{lemma_pow0, lemma_pow1, lemma_pow_adds, lemma_pow_positive, pow};
use vstd::prelude::*;

verus! {

/// What a relay is for.
#[derive(Debug, Clone, Copy, PartialEq, Eq, Structural)]
pub enum AgentRole {
    General,
    Business,
    Coding,
    Qa,
}

/// The name of a role.
pub open spec fn role_name(role: AgentRole) -> Seq<char> {
    match role {
        AgentRole::General => "general"@,
        AgentRole::Business => "business"@,
        AgentRole::Coding => "coding"@,
        AgentRole::Qa => "qa"@,
    }
}

/// The role that a text names; a text that names none stands for `General`.
pub open spec fn role_named(s: Seq<char>) -> AgentRole {
    if s == "business"@ {
        AgentRole::Business
    } else if s == "coding"@ {
        AgentRole::Coding
    } else if s == "qa"@ {
        AgentRole::Qa
    } else {
        AgentRole::General
    }
}

impl AgentRole {
    /// The role that `s` names, `General` where it names none.
    pub fn from_str(s: &str) -> (r: AgentRole)
        ensures
            r == role_named(s@),
    {
        if same(s, "business") {
            AgentRole::Business
        } else if same(s, "coding") {
            AgentRole::Coding
        } else if same(s, "qa") {
            AgentRole::Qa
        } else {
            AgentRole::General
        }
    }

    /// The name of the role.
    pub fn as_str(&self) -> (r: &'static str)
        ensures
            r@ == role_name(*self),
    {
        match self {
            AgentRole::General => "general",
            AgentRole::Business => "business",
            AgentRole::Coding => "coding",
            AgentRole::Qa => "qa",
        }
    }
}

impl Default for AgentRole {
    fn default() -> (r: Self)
        ensures
            r == AgentRole::General,
    {
        AgentRole::General
    }
}

/// The name of a role names that role.
pub proof fn law_role_names(role: AgentRole)
    ensures
        role_named(role_name(role)) == role,
{
    reveal_strlit("general");
    reveal_strlit("business");
    reveal_strlit("coding");
    reveal_strlit("qa");
    assert("general"@.len() == 7 && "business"@.len() == 8 && "coding"@.len() == 6 && "qa"@.len()
        == 2);
}

/// An event that is about to be published.
#[derive(Debug)]
pub struct NewEvent {
    pub kind: String,
    pub agent_id: u128,
    pub task_id: Option<u128>,
    pub data: Json,
}

/// What an event that is about to be published says.
pub struct NewEventView {
    pub kind: Seq<char>,
    pub agent_id: u128,
    pub task_id: Option<u128>,
    pub data: JsonView,
}

impl NewEvent {
    pub open spec fn view(&self) -> NewEventView {
        NewEventView {
            kind: self.kind@,
            agent_id: self.agent_id,
            task_id: self.task_id,
            data: self.data@,
        }
    }
}

/// A relay reports that it is there, and what it can do.
pub const RELAY_UP: &'static str = "relay.up";

/// A relay has disconnected.
pub const RELAY_DOWN: &'static str = "relay.down";

/// A relay is to start a session.
pub const RELAY_SPAWN_REQUESTED: &'static str = "relay.spawn_requested";

/// A relay is to stop a session.
pub const RELAY_STOP_REQUESTED: &'static str = "relay.stop_requested";

/// A relay is to hand input to a session.
pub const RELAY_INPUT_REQUESTED: &'static str = "relay.input_requested";

/// A relay has started a session.
pub const RELAY_SPAWN_COMPLETED: &'static str = "relay.spawn_completed";

/// A relay could not start a session.
pub const RELAY_SPAWN_FAILED: &'static str = "relay.spawn_failed";

/// A session has written something.
pub const RELAY_AGENT_OUTPUT: &'static str = "relay.agent_output";

/// The status of a session has changed.
pub const RELAY_SESSION_STATUS: &'static str = "relay.session_status";

/// A session asks for a permission.
pub const RELAY_PERMISSION_REQUEST: &'static str = "relay.permission_request";

/// A session has produced an artifact.
pub const RELAY_ARTIFACT: &'static str = "relay.artifact";

/// A session has worked through a prompt.
pub const RELAY_PROMPT_COMPLETED: &'static str = "relay.prompt_completed";

/// A relay could not do what it was asked for.
pub const RELAY_ERROR: &'static str = "relay.error";

/// A permission request has been answered.
pub const PERMISSION_RESPONDED: &'static str = "permission.responded";

/// How far a session is.
#[derive(Debug, Clone, Copy, PartialEq, Eq, Structural)]
pub enum SessionStatus {
    Running,
    Completed,
    Failed,
    Cancelled,
}

/// How an agent is after its session has ended.
#[derive(Debug, Clone, Copy, PartialEq, Eq, Structural)]
pub enum AgentStatus {
    Exited,
    Failed,
    Stopped,
}

/// The status that a text names.
pub open spec fn status_named(s: Seq<char>) -> Option<SessionStatus> {
    if s == "running"@ {
        Some(SessionStatus::Running)
    } else if s == "exited"@ || s == "completed"@ {
        Some(SessionStatus::Completed)
    } else if s == "failed"@ {
        Some(SessionStatus::Failed)
    } else if s == "cancelled"@ {
        Some(SessionStatus::Cancelled)
    } else {
        None
    }
}

/// The status of the agent whose session has ended with this status; none for a
/// session that has not ended.
pub open spec fn agent_status_after(status: SessionStatus) -> Option<AgentStatus> {
    match status {
        SessionStatus::Running => None,
        SessionStatus::Completed => Some(AgentStatus::Exited),
        SessionStatus::Failed => Some(AgentStatus::Failed),
        SessionStatus::Cancelled => Some(AgentStatus::Stopped),
    }
}

impl SessionStatus {
    /// The status that `s` names.
    pub fn from_str(s: &str) -> (r: Option<SessionStatus>)
        ensures
            r == status_named(s@),
    {
        if same(s, "running") {
            Some(SessionStatus::Running)
        } else if same(s, "exited") || same(s, "completed") {
            Some(SessionStatus::Completed)
        } else if same(s, "failed") {
            Some(SessionStatus::Failed)
        } else if same(s, "cancelled") {
            Some(SessionStatus::Cancelled)
        } else {
            None
        }
    }

    /// The status of the agent after its session has ended.
    pub fn agent_status(&self) -> (r: Option<AgentStatus>)
        ensures
            r == agent_status_after(*self),
    {
        match self {
            SessionStatus::Running => None,
            SessionStatus::Completed => Some(AgentStatus::Exited),
            SessionStatus::Failed => Some(AgentStatus::Failed),
            SessionStatus::Cancelled => Some(AgentStatus::Stopped),
        }
    }
}

/// A point in time that can be written down.
#[derive(Debug, Clone, Copy)]
pub struct EventTime {
    secs: i64,
    nanos: u32,
}

impl EventTime {
    #[verifier::type_invariant]
    closed spec fn in_range(self) -> bool {
        time_in_range(self.secs, self.nanos)
    }

    /// The time in the notation of RFC 3339.
    pub closed spec fn view(&self) -> Seq<char> {
        rfc3339_text(self.secs, self.nanos)
    }

    /// The point in time `secs` seconds and `nanos` nanoseconds after the start
    /// of 1970, where there is one.
    pub fn new(secs: i64, nanos: u32) -> (r: Option<EventTime>)
        ensures
            r is Some <==> time_in_range(secs, nanos),
            r matches Some(t) ==> t@ == rfc3339_text(secs, nanos),
    {
        if rfc3339(secs, nanos).is_some() {
            Some(EventTime { secs, nanos })
        } else {
            None
        }
    }

    /// Writes the time in the notation of RFC 3339.
    pub fn to_rfc3339(&self) -> (r: String)
        ensures
            r@ == self@,
    {
        proof {
            use_type_invariant(self);
        }
        rfc3339(self.secs, self.nanos).unwrap()
    }
}

/// An event as the event bus hands it out.
#[derive(Debug)]
pub struct Event {
    pub cursor: i64,
    pub kind: String,
    pub time: EventTime,
    pub agent_id: u128,
    pub session_id: Option<u128>,
    pub task_id: Option<u128>,
    pub data: Json,
}

/// What an event says.
pub struct EventView {
    pub cursor: i64,
    pub kind: Seq<char>,
    pub time: Seq<char>,
    pub agent_id: u128,
    pub session_id: Option<u128>,
    pub task_id: Option<u128>,
    pub data: JsonView,
}

impl Event {
    pub open spec fn view(&self) -> EventView {
        EventView {
            cursor: self.cursor,
            kind: self.kind@,
            time: self.time@,
            agent_id: self.agent_id,
            session_id: self.session_id,
            task_id: self.task_id,
            data: self.data@,
        }
    }
}

/// What the server says to a client or a relay.
#[derive(Debug)]
pub enum WsMessage {
    Event {
        cursor: i64,
        kind: String,
        time: String,
        agent_id: String,
        session_id: Option<String>,
        task_id: Option<String>,
        data: Json,
    },
    ReplayComplete { cursor: i64, count: usize },
    Subscribed { kinds: Option<Vec<String>>, cursor: i64 },
    Registered { relay_id: String },
    Error { message: String },
    Ping,
    Pong,
}

/// The content of a message of the server.
pub enum WsMessageView {
    Event {
        cursor: i64,
        kind: Seq<char>,
        time: Seq<char>,
        agent_id: Seq<char>,
        session_id: Option<Seq<char>>,
        task_id: Option<Seq<char>>,
        data: JsonView,
    },
    ReplayComplete { cursor: i64, count: int },
    Subscribed { kinds: Option<Seq<Seq<char>>>, cursor: i64 },
    Registered { relay_id: Seq<char> },
    Error { message: Seq<char> },
    Ping,
    Pong,
}

/// The texts of an optional list of strings.
pub open spec fn opt_texts(list: Option<Vec<String>>) -> Option<Seq<Seq<char>>> {
    match list {
        Some(l) => Some(texts(l@)),
        None => None,
    }
}

impl WsMessage {
    pub open spec fn view(&self) -> WsMessageView {
        match self {
            WsMessage::Event { cursor, kind, time, agent_id, session_id, task_id, data } =>
                WsMessageView::Event {
                    cursor: *cursor,
                    kind: kind@,
                    time: time@,
                    agent_id: agent_id@,
                    session_id: opt_text(*session_id),
                    task_id: opt_text(*task_id),
                    data: data@,
                },
            WsMessage::ReplayComplete { cursor, count } => WsMessageView::ReplayComplete {
                cursor: *cursor,
                count: *count as int,
            },
            WsMessage::Subscribed { kinds, cursor } => WsMessageView::Subscribed {
                kinds: opt_texts(*kinds),
                cursor: *cursor,
            },
            WsMessage::Registered { relay_id } => WsMessageView::Registered {
                relay_id: relay_id@,
            },
            WsMessage::Error { message } => WsMessageView::Error { message: message@ },
            WsMessage::Ping => WsMessageView::Ping,
            WsMessage::Pong => WsMessageView::Pong,
        }
    }
}

/// The written form of an optional id.
pub open spec fn opt_uuid_text(id: Option<u128>) -> Option<Seq<char>> {
    match id {
        Some(i) => Some(uuid_text(i)),
        None => None,
    }
}

/// The message that tells of an event.
pub open spec fn event_message(e: EventView) -> WsMessageView {
    WsMessageView::Event {
        cursor: e.cursor,
        kind: e.kind,
        time: e.time,
        agent_id: uuid_text(e.agent_id),
        session_id: opt_uuid_text(e.session_id),
        task_id: opt_uuid_text(e.task_id),
        data: e.data,
    }
}

fn format_opt_uuid(id: Option<u128>) -> (r: Option<String>)
    ensures
        opt_text(r) == opt_uuid_text(id),
        id matches Some(i) ==> uuid_named(uuid_text(i)) == Some(i),
{
    match id {
        Some(i) => Some(format_uuid(i)),
        None => None,
    }
}

impl Event {
    /// The message that tells of this event.
    pub fn to_message(&self) -> (r: WsMessage)
        ensures
            r@ == event_message(self@),
            r matches WsMessage::Event { cursor, kind, time, agent_id, session_id, task_id, data }
                && {
                &&& cursor == self.cursor
                &&& kind@ == self.kind@
                &&& time@ == self.time@
                &&& data@ == self.data@
                &&& uuid_named(agent_id@) == Some(self.agent_id)
                &&& match self.session_id {
                    Some(id) => session_id matches Some(t) && uuid_named(t@) == Some(id),
                    None => session_id is None,
                }
                &&& match self.task_id {
                    Some(id) => task_id matches Some(t) && uuid_named(t@) == Some(id),
                    None => task_id is None,
                }
            },
    {
        WsMessage::Event {
            cursor: self.cursor,
            kind: self.kind.clone(),
            time: self.time.to_rfc3339(),
            agent_id: format_uuid(self.agent_id),
            session_id: format_opt_uuid(self.session_id),
            task_id: format_opt_uuid(self.task_id),
            data: self.data.clone(),
        }
    }
}

/// What a relay says to the server.
#[derive(Debug)]
pub enum ClientMessage {
    /// Publish an event.
    EmitEvent { kind: String, data: Json },
    /// The answer to a ping.
    Pong,
}

/// The content of a message of a relay.
pub enum ClientMessageView {
    EmitEvent { kind: Seq<char>, data: JsonView },
    Pong,
}

impl ClientMessage {
    pub open spec fn view(&self) -> ClientMessageView {
        match self {
            ClientMessage::EmitEvent { kind, data } => ClientMessageView::EmitEvent {
                kind: kind@,
                data: data@,
            },
            ClientMessage::Pong => ClientMessageView::Pong,
        }
    }
}

/// What a relay needs to know to start a session.
#[derive(Debug)]
pub struct SpawnSessionParams {
    pub agent_id: String,
    pub session_id: String,
    pub workdir: String,
    pub command: String,
    pub args: Vec<String>,
    pub env: Table<String>,
    pub setup_script: Option<String>,
    pub task_id: Option<String>,
}

/// The content of the parameters of a session.
pub struct SpawnParamsView {
    pub agent_id: Seq<char>,
    pub session_id: Seq<char>,
    pub workdir: Seq<char>,
    pub command: Seq<char>,
    pub args: Seq<Seq<char>>,
    pub env: Map<Seq<char>, Seq<char>>,
    pub setup_script: Option<Seq<char>>,
    pub task_id: Option<Seq<char>>,
}

impl SpawnSessionParams {
    pub open spec fn view(&self) -> SpawnParamsView {
        SpawnParamsView {
            agent_id: self.agent_id@,
            session_id: self.session_id@,
            workdir: self.workdir@,
            command: self.command@,
            args: texts(self.args@),
            env: text_map(self.env@),
            setup_script: opt_text(self.setup_script),
            task_id: opt_text(self.task_id),
        }
    }
}

/// Input for a session.
#[derive(Debug)]
pub struct SendInputParams {
    pub session_id: String,
    pub input: String,
}

/// What a relay has to report.
#[derive(Debug)]
pub enum RelayOutput {
    /// An event for the server.
    EmitEvent { kind: String, data: Json },
}

/// The content of what a relay has to report.
pub enum RelayOutputView {
    EmitEvent { kind: Seq<char>, data: JsonView },
}

impl RelayOutput {
    pub open spec fn view(&self) -> RelayOutputView {
        match self {
            RelayOutput::EmitEvent { kind, data } => RelayOutputView::EmitEvent {
                kind: kind@,
                data: data@,
            },
        }
    }

    /// The message that carries the report to the server.
    pub fn into_message(self) -> (r: ClientMessage)
        ensures
            r@ == match self@ {
                RelayOutputView::EmitEvent { kind, data } => ClientMessageView::EmitEvent {
                    kind,
                    data,
                },
            },
    {
        match self {
            RelayOutput::EmitEvent { kind, data } => ClientMessage::EmitEvent { kind, data },
        }
    }
}

impl Clone for RelayOutput {
    fn clone(&self) -> (r: Self)
        ensures
            r@ == self@,
    {
        match self {
            RelayOutput::EmitEvent { kind, data } => RelayOutput::EmitEvent {
                kind: kind.clone(),
                data: data.clone(),
            },
        }
    }
}

/// The user's decision on a permission request, as it is sent to a relay.
#[derive(Debug)]
pub enum PermissionOutcome {
    /// One of the options that were offered.
    Selected { option_id: String },
    /// None of them.
    Cancelled,
}

/// The content of a decision.
pub enum OutcomeView {
    Selected { option_id: Seq<char> },
    Cancelled,
}

impl PermissionOutcome {
    pub open spec fn view(&self) -> OutcomeView {
        match self {
            PermissionOutcome::Selected { option_id } => OutcomeView::Selected {
                option_id: option_id@,
            },
            PermissionOutcome::Cancelled => OutcomeView::Cancelled,
        }
    }
}

/// The three special roles have one name each, and every other text names the
/// general role.
pub proof fn law_role_of_name(s: Seq<char>)
    ensures
        role_named(s) == AgentRole::Business <==> s == "business"@,
        role_named(s) == AgentRole::Coding <==> s == "coding"@,
        role_named(s) == AgentRole::Qa <==> s == "qa"@,
        role_named(s) == AgentRole::General <==> s != "business"@ && s != "coding"@ && s != "qa"@,
        role_name(AgentRole::General) == "general"@,
        role_name(AgentRole::Business) == "business"@,
        role_name(AgentRole::Coding) == "coding"@,
        role_name(AgentRole::Qa) == "qa"@,
{
    reveal_strlit("business");
    reveal_strlit("coding");
    reveal_strlit("qa");
    assert("business"@.len() == 8 && "coding"@.len() == 6 && "qa"@.len() == 2);
}

/// Which texts name which status; no other text names any.
pub proof fn law_status_of_name(s: Seq<char>)
    ensures
        status_named(s) == Some(SessionStatus::Running) <==> s == "running"@,
        status_named(s) == Some(SessionStatus::Completed) <==> s == "exited"@ || s == "completed"@,
        status_named(s) == Some(SessionStatus::Failed) <==> s == "failed"@,
        status_named(s) == Some(SessionStatus::Cancelled) <==> s == "cancelled"@,
{
    reveal_strlit("running");
    reveal_strlit("exited");
    reveal_strlit("completed");
    reveal_strlit("failed");
    reveal_strlit("cancelled");
    assert("running"@.len() == 7 && "exited"@.len() == 6 && "completed"@.len() == 9);
    assert("failed"@.len() == 6 && "cancelled"@.len() == 9);
    assert("exited"@[0] == 'e' && "failed"@[0] == 'f');
    assert("completed"@[1] == 'o' && "cancelled"@[1] == 'a');
}

/// An agent has a final status exactly if its session is over: exited after a
/// completed session, failed after a failed one, stopped after a cancelled one.
pub proof fn law_agent_status(status: SessionStatus)
    ensures
        agent_status_after(status) is None <==> status == SessionStatus::Running,
        agent_status_after(status) == Some(AgentStatus::Exited) <==> status
            == SessionStatus::Completed,
        agent_status_after(status) == Some(AgentStatus::Failed) <==> status
            == SessionStatus::Failed,
        agent_status_after(status) == Some(AgentStatus::Stopped) <==> status
            == SessionStatus::Cancelled,
{
}

proof fn lemma_hex_digits_differ(a: int, b: int)
    requires
        0 <= a < 16,
        0 <= b < 16,
        hex_digit(a) == hex_digit(b),
    ensures
        a == b,
{
}

proof fn lemma_all_digits()
    ensures
        pow(16, 32) == 0x1_0000_0000_0000_0000_0000_0000_0000_0000int,
{
    lemma_pow1(16);
    lemma_pow_adds(16, 1, 1);
    assert(pow(16, 2) == 0x100);
    lemma_pow_adds(16, 2, 2);
    assert(pow(16, 4) == 0x1_0000);
    lemma_pow_adds(16, 4, 4);
    assert(pow(16, 8) == 0x1_0000_0000);
    lemma_pow_adds(16, 8, 8);
    assert(pow(16, 16) == 0x1_0000_0000_0000_0000);
    lemma_pow_adds(16, 16, 16);
}

/// What stands before the digit at place `j` is what stands before the one at place
/// `j + 1`, and that digit.
proof fn lemma_digit_step(a: int, j: nat)
    requires
        a >= 0,
    ensures
        a / pow(16, j) == 16 * (a / pow(16, j + 1)) + (a / pow(16, j)) % 16,
{
    lemma_pow_positive(16, j);
    lemma_pow_adds(16, j, 1);
    lemma_pow1(16);
    lemma_div_denominator(a, pow(16, j), 16);
    lemma_fundamental_div_mod(a / pow(16, j), 16);
}

/// Two numbers with the same hexadecimal digits agree from place `j` on.
proof fn lemma_same_digits(a: u128, b: u128, j: nat)
    requires
        j <= 32,
        forall|k: int| 0 <= k < 32 ==> #[trigger] uuid_digit(a, k) == uuid_digit(b, k),
    ensures
        a as int / pow(16, j) == b as int / pow(16, j),
    decreases 32 - j,
{
    if j == 32 {
        lemma_all_digits();
        lemma_basic_div(a as int, pow(16, 32));
        lemma_basic_div(b as int, pow(16, 32));
    } else {
        lemma_same_digits(a, b, j + 1);
        lemma_digit_step(a as int, j);
        lemma_digit_step(b as int, j);
        let k = 31 - j;
        assert((31 - k) as nat == j);
        assert(uuid_digit(a, k) == uuid_digit(b, k));
        lemma_mod_bound(a as int / pow(16, j), 16);
        lemma_mod_bound(b as int / pow(16, j), 16);
        lemma_hex_digits_differ((a as int / pow(16, j)) % 16, (b as int / pow(16, j)) % 16);
    }
}

/// Different UUIDs are written differently.
pub proof fn law_uuid_texts_differ(a: u128, b: u128)
    requires
        uuid_text(a) == uuid_text(b),
    ensures
        a == b,
{
    assert forall|k: int| 0 <= k < 32 implies #[trigger] uuid_digit(a, k) == uuid_digit(b, k) by {
        let i = if k < 8 {
            k
        } else if k < 12 {
            k + 1
        } else if k < 16 {
            k + 2
        } else if k < 20 {
            k + 3
        } else {
            k + 4
        };
        assert(uuid_text(a)[i] == uuid_digit(a, k));
        assert(uuid_text(b)[i] == uuid_digit(b, k));
    }
    lemma_same_digits(a, b, 0);
    lemma_pow0(16);
}

/// The message for an event carries the event: cursor, kind, time and data as they
/// are, the agent by its UUID, and session and task by theirs, exactly where the
/// event has one.
pub proof fn law_message_carries_event(e: Event)
    ensures
        event_message(e@) matches WsMessageView::Event {
            cursor,
            kind,
            time,
            agent_id,
            session_id,
            task_id,
            data,
        } && {
            &&& cursor == e.cursor
            &&& kind == e.kind@
            &&& time == e.time@
            &&& data == e.data@
            &&& agent_id == uuid_text(e.agent_id)
            &&& session_id is Some <==> e.session_id is Some
            &&& e.session_id matches Some(id) ==> session_id == Some(uuid_text(id))
            &&& task_id is Some <==> e.task_id is Some
            &&& e.task_id matches Some(id) ==> task_id == Some(uuid_text(id))
        },
{
}

/// Two events with the same message are the same event: whatever tells two events
/// apart, their agents among it, tells their messages apart.
pub proof fn law_messages_tell_events_apart(a: EventView, b: EventView)
    requires
        event_message(a) == event_message(b),
    ensures
        a == b,
{
    law_uuid_texts_differ(a.agent_id, b.agent_id);
    if a.session_id is Some && b.session_id is Some {
        law_uuid_texts_differ(a.session_id->0, b.session_id->0);
    }
    if a.task_id is Some && b.task_id is Some {
        law_uuid_texts_differ(a.task_id->0, b.task_id->0);
    }
}

/// What a message of the server says is what its fields hold.
pub proof fn law_server_message_content(m: WsMessage)
    ensures
        match m {
            WsMessage::Event { cursor, kind, time, agent_id, session_id, task_id, data } => {
                &&& m@ is Event
                &&& m@->Event_cursor == cursor
                &&& m@->kind == kind@
                &&& m@->time == time@
                &&& m@->agent_id == agent_id@
                &&& m@->session_id == opt_text(session_id)
                &&& m@->task_id == opt_text(task_id)
                &&& m@->data == data@
            },
            WsMessage::ReplayComplete { cursor, count } => m@ is ReplayComplete
                && m@->ReplayComplete_cursor == cursor && m@->count == count,
            WsMessage::Subscribed { kinds, cursor } => m@ is Subscribed && m@->Subscribed_cursor
                == cursor && match kinds {
                Some(list) => m@->kinds == Some(texts(list@)),
                None => m@->kinds is None,
            },
            WsMessage::Registered { relay_id } => m@ is Registered && m@->relay_id == relay_id@,
            WsMessage::Error { message } => m@ is Error && m@->message == message@,
            WsMessage::Ping => m@ is Ping,
            WsMessage::Pong => m@ is Pong,
        },
{
}

/// What a message of a relay, a report and a decision say is what their fields
/// hold.
pub proof fn law_relay_message_content(m: ClientMessage, o: RelayOutput, p: PermissionOutcome)
    ensures
        match m {
            ClientMessage::EmitEvent { kind, data } => m@ is EmitEvent && m@->kind == kind@
                && m@->data == data@,
            ClientMessage::Pong => m@ is Pong,
        },
        match o {
            RelayOutput::EmitEvent { kind, data } => o@->kind == kind@ && o@->data == data@,
        },
        match p {
            PermissionOutcome::Selected { option_id } => p@ is Selected && p@->option_id
                == option_id@,
            PermissionOutcome::Cancelled => p@ is Cancelled,
        },
{
}

/// What an event that is about to be published, and the parameters of a session,
/// say is what their fields hold.
pub proof fn law_event_and_params_content(e: NewEvent, p: SpawnSessionParams)
    ensures
        e@.kind == e.kind@,
        e@.agent_id == e.agent_id,
        e@.task_id == e.task_id,
        e@.data == e.data@,
        p@.agent_id == p.agent_id@,
        p@.session_id == p.session_id@,
        p@.workdir == p.workdir@,
        p@.command == p.command@,
        p@.args == texts(p.args@),
        p@.env.dom() == p.env@.dom(),
        forall|k: Seq<char>| #[trigger] p.env@.contains_key(k) ==> p@.env[k] == p.env@[k]@,
        p@.setup_script == opt_text(p.setup_script),
        p@.task_id == opt_text(p.task_id),
{
}

/// The kinds of events that the two sides know each other by.
pub proof fn law_event_kinds()
    ensures
        RELAY_UP@ == "relay.up"@,
        RELAY_DOWN@ == "relay.down"@,
        RELAY_SPAWN_REQUESTED@ == "relay.spawn_requested"@,
        RELAY_STOP_REQUESTED@ == "relay.stop_requested"@,
        RELAY_INPUT_REQUESTED@ == "relay.input_requested"@,
        RELAY_SPAWN_COMPLETED@ == "relay.spawn_completed"@,
        RELAY_SPAWN_FAILED@ == "relay.spawn_failed"@,
        RELAY_AGENT_OUTPUT@ == "relay.agent_output"@,
        RELAY_SESSION_STATUS@ == "relay.session_status"@,
        RELAY_PERMISSION_REQUEST@ == "relay.permission_request"@,
        RELAY_ARTIFACT@ == "relay.artifact"@,
        RELAY_PROMPT_COMPLETED@ == "relay.prompt_completed"@,
        RELAY_ERROR@ == "relay.error"@,
        PERMISSION_RESPONDED@ == "permission.responded"@,
{
}

} // verus!
