//! The relays that are connected to the server, and the sessions they run.

use crate::collections::{copy_list, copy_texts, text_map, Table, TextSet};
use crate::json::{Json, JsonView};
use crate::outside::now_seconds;
use crate::protocol::{role_name, AgentRole, NewEvent, NewEventView};
use crate::text::{opt_str, opt_text, texts};
use std::collections::HashSet;
use vstd::prelude::*;
use vstd::string::*;

verus! {

broadcast use vstd::std_specs::hash::group_hash_axioms;

/// A set of projects.
pub type ProjectSet = HashSet<u128>;

/// A connected relay.
#[derive(Debug)]
pub struct RelayConnection {
    pub relay_id: String,
    pub name: String,
    pub role: AgentRole,
    pub command: String,
    pub command_args: Vec<String>,
    pub safe_paths: Vec<String>,
    pub labels: Table<String>,
    pub projects: ProjectSet,
    pub setup_script: Option<String>,
    pub connected_at: i64,
    pub active_sessions: TextSet,
}

/// What is known of a connected relay.
pub struct ConnectionView {
    pub relay_id: Seq<char>,
    pub name: Seq<char>,
    pub role: AgentRole,
    pub command: Seq<char>,
    pub command_args: Seq<Seq<char>>,
    pub safe_paths: Seq<Seq<char>>,
    pub labels: Map<Seq<char>, Seq<char>>,
    pub projects: Set<u128>,
    pub setup_script: Option<Seq<char>>,
    pub connected_at: i64,
    pub active_sessions: Set<Seq<char>>,
}

impl RelayConnection {
    pub open spec fn view(&self) -> ConnectionView {
        ConnectionView {
            relay_id: self.relay_id@,
            name: self.name@,
            role: self.role,
            command: self.command@,
            command_args: texts(self.command_args@),
            safe_paths: texts(self.safe_paths@),
            labels: text_map(self.labels@),
            projects: self.projects@,
            setup_script: opt_text(self.setup_script),
            connected_at: self.connected_at,
            active_sessions: self.active_sessions@,
        }
    }
}

impl ConnectionView {
    /// The relay runs no session. A relay runs one session at a time.
    pub open spec fn idle(self) -> bool {
        self.active_sessions == Set::<Seq<char>>::empty()
    }

    /// The relay has the role asked for, or serves every role.
    pub open spec fn serves_role(self, required: Option<AgentRole>) -> bool {
        required matches Some(role) ==> self.role == role || self.role == AgentRole::General
    }

    /// The relay is bound to the project, or to none.
    pub open spec fn accepts_project(self, project: u128) -> bool {
        self.projects == Set::<u128>::empty() || self.projects.contains(project)
    }

    /// The relay accepts the project asked for.
    pub open spec fn serves_project(self, required: Option<u128>) -> bool {
        required matches Some(project) ==> self.accepts_project(project)
    }

    /// The relay is free for a task with these requirements.
    pub open spec fn available(self, role: Option<AgentRole>, project: Option<u128>) -> bool {
        self.idle() && self.serves_role(role) && self.serves_project(project)
    }
}

/// Public information about a connected relay.
#[derive(Debug, Clone)]
pub struct RelayInfo {
    pub relay_id: String,
    pub name: String,
    pub role: String,
    pub command: String,
    pub command_args: Vec<String>,
    pub safe_paths: Vec<String>,
    pub labels: Table<String>,
    pub projects: Vec<u128>,
    pub setup_script: Option<String>,
    pub connected_at: i64,
    pub active_session_count: usize,
}

impl RelayInfo {
    /// The information is that of the relay `c`; its projects stand in any
    /// order, each once.
    pub open spec fn describes(self, c: ConnectionView) -> bool {
        &&& self.relay_id@ == c.relay_id
        &&& self.name@ == c.name
        &&& self.role@ == role_name(c.role)
        &&& self.command@ == c.command
        &&& texts(self.command_args@) == c.command_args
        &&& texts(self.safe_paths@) == c.safe_paths
        &&& text_map(self.labels@) == c.labels
        &&& self.projects@.no_duplicates()
        &&& self.projects@.to_set() == c.projects
        &&& opt_text(self.setup_script) == c.setup_script
        &&& self.connected_at == c.connected_at
        &&& c.active_sessions.finite()
        &&& self.active_session_count == c.active_sessions.len()
    }
}

/// The relay ids of a list of relays.
pub open spec fn ids(list: Seq<RelayInfo>) -> Seq<Seq<char>> {
    list.map_values(|info: RelayInfo| info.relay_id@)
}

/// The relays in `relays` whose id is in `chosen`, in any order, each once.
pub open spec fn lists(
    list: Seq<RelayInfo>,
    relays: Map<Seq<char>, ConnectionView>,
    chosen: Set<Seq<char>>,
) -> bool {
    &&& ids(list).no_duplicates()
    &&& ids(list).to_set() == chosen
    &&& forall|i: int|
        0 <= i < list.len() ==> relays.contains_key((#[trigger] list[i]).relay_id@)
            && list[i].describes(relays[list[i].relay_id@])
}

/// The distinct members of a list of projects.
fn project_set(projects: &Vec<u128>) -> (r: ProjectSet)
    ensures
        r@ == projects@.to_set(),
{
    let mut r: ProjectSet = HashSet::new();
    let mut i: usize = 0;
    assert(r@ =~= projects@.take(0).to_set());
    while i < projects.len()
        invariant
            i <= projects@.len(),
            r@ == projects@.take(i as int).to_set(),
        decreases projects@.len() - i,
    {
        r.insert(projects[i]);
        proof {
            projects@.take(i as int).lemma_push_to_set_commute(projects@[i as int]);
            assert(projects@.take(i + 1) == projects@.take(i as int).push(projects@[i as int]));
        }
        i = i + 1;
    }
    assert(projects@.take(i as int) == projects@);
    r
}

/// The members of a set of projects, each once.
fn project_list(projects: &ProjectSet) -> (r: Vec<u128>)
    ensures
        r@.no_duplicates(),
        r@.to_set() == projects@,
{
    let mut r: Vec<u128> = Vec::new();
    for p in it: projects.iter()
        invariant
            it.seq().unref().to_set() == projects@,
            it.seq().no_duplicates(),
            it.seq().unref().take(it.seq().len() as int) == it.seq().unref(),
            r@ == it.seq().unref().take(it.index() as int),
    {
        r.push(*p);
    }
    r
}

impl RelayConnection {
    /// Whether the relay runs no session.
    fn is_idle(&self) -> (r: bool)
        ensures
            r == self@.idle(),
    {
        self.active_sessions.is_empty()
    }

    /// Whether the relay serves the role asked for.
    fn role_matches(&self, required: Option<AgentRole>) -> (r: bool)
        ensures
            r == self@.serves_role(required),
    {
        match required {
            None => true,
            Some(role) => self.role == role || self.role == AgentRole::General,
        }
    }

    /// Whether the relay is bound to the project, or to none.
    fn accepts_project(&self, project: u128) -> (r: bool)
        ensures
            r == self@.accepts_project(project),
    {
        self.projects.is_empty() || self.projects.contains(&project)
    }

    /// Public information about the relay.
    fn info(&self) -> (r: RelayInfo)
        ensures
            r.describes(self@),
    {
        RelayInfo {
            relay_id: self.relay_id.clone(),
            name: self.name.clone(),
            role: self.role.as_str().to_owned(),
            command: self.command.clone(),
            command_args: copy_list(&self.command_args),
            safe_paths: copy_list(&self.safe_paths),
            labels: copy_texts(&self.labels),
            projects: project_list(&self.projects),
            setup_script: self.setup_script.clone(),
            connected_at: self.connected_at,
            active_session_count: self.active_sessions.len(),
        }
    }
}

/// What the manager knows: the connected relays by id, and the session of each
/// permission request that waits for an answer.
pub struct ManagerView {
    pub relays: Map<Seq<char>, ConnectionView>,
    pub pending: Map<Seq<char>, Seq<char>>,
}

impl ManagerView {
    /// The sessions that `relay_id` runs; none where it is not connected.
    pub open spec fn sessions(self, relay_id: Seq<char>) -> Set<Seq<char>> {
        if self.relays.contains_key(relay_id) {
            self.relays[relay_id].active_sessions
        } else {
            Set::empty()
        }
    }

    /// The relay `c` is connected. It replaces a relay of the same id and takes
    /// over the sessions of that relay.
    pub open spec fn registered(self, c: ConnectionView) -> ManagerView {
        ManagerView {
            relays: self.relays.insert(
                c.relay_id,
                ConnectionView { active_sessions: self.sessions(c.relay_id), ..c },
            ),
            pending: self.pending,
        }
    }

    /// `relay_id` is no longer connected.
    pub open spec fn unregistered(self, relay_id: Seq<char>) -> ManagerView {
        ManagerView { relays: self.relays.remove(relay_id), pending: self.pending }
    }

    /// `relay_id` runs `sessions`, where it is connected.
    pub open spec fn with_sessions(
        self,
        relay_id: Seq<char>,
        sessions: Set<Seq<char>>,
    ) -> ManagerView {
        if self.relays.contains_key(relay_id) {
            ManagerView {
                relays: self.relays.insert(
                    relay_id,
                    ConnectionView { active_sessions: sessions, ..self.relays[relay_id] },
                ),
                pending: self.pending,
            }
        } else {
            self
        }
    }

    /// `relay_id` is connected and idle.
    pub open spec fn idle_relay(self, relay_id: Seq<char>) -> bool {
        self.relays.contains_key(relay_id) && self.relays[relay_id].idle()
    }

    /// `relay_id` is connected and free for a task with these requirements.
    pub open spec fn available(
        self,
        relay_id: Seq<char>,
        role: Option<AgentRole>,
        project: Option<u128>,
    ) -> bool {
        self.relays.contains_key(relay_id) && self.relays[relay_id].available(role, project)
    }

    /// `relay_id` is connected and runs `session_id`.
    pub open spec fn runs(self, relay_id: Seq<char>, session_id: Seq<char>) -> bool {
        self.relays.contains_key(relay_id) && self.relays[relay_id].active_sessions.contains(
            session_id,
        )
    }

    /// The ids of the relays that accept `project`.
    pub open spec fn accepting(self, project: u128) -> Set<Seq<char>> {
        self.relays.dom().filter(|id: Seq<char>| self.relays[id].accepts_project(project))
    }

    /// A permission request waits, and `relay_id` runs its session `session_id`.
    pub open spec fn answerable(
        self,
        request_id: Seq<char>,
        relay_id: Seq<char>,
        session_id: Seq<char>,
    ) -> bool {
        &&& self.pending.contains_key(request_id)
        &&& self.pending[request_id] == session_id
        &&& self.runs(relay_id, session_id)
    }

    /// `request_id` waits with the session `session_id`.
    pub open spec fn with_request(
        self,
        request_id: Seq<char>,
        session_id: Seq<char>,
    ) -> ManagerView {
        ManagerView { pending: self.pending.insert(request_id, session_id), ..self }
    }

    /// `request_id` no longer waits.
    pub open spec fn without_request(self, request_id: Seq<char>) -> ManagerView {
        ManagerView { pending: self.pending.remove(request_id), ..self }
    }

    /// `relay_id` is a right choice for a task: the preferred relay where that
    /// one is idle, otherwise any relay that is free for the task.
    pub open spec fn may_select(
        self,
        relay_id: Seq<char>,
        preferred: Option<Seq<char>>,
        role: Option<AgentRole>,
        project: Option<u128>,
    ) -> bool {
        if preferred is Some && self.idle_relay(preferred->0) {
            relay_id == preferred->0
        } else {
            self.available(relay_id, role, project)
        }
    }
}

/// The relays of a table, by id.
pub open spec fn connections(m: Map<Seq<char>, RelayConnection>) -> Map<
    Seq<char>,
    ConnectionView,
> {
    m.map_values(|c: RelayConnection| c@)
}

/// A command for a relay: the event that carries it, and the id under which the
/// answer will come.
#[derive(Debug)]
pub struct RelayCommand {
    pub event: NewEvent,
    pub request_id: String,
}

/// The event that carries a command to `relay_id`: the data say for which relay
/// it is and which request it answers.
pub open spec fn command_event(
    relay_id: Seq<char>,
    kind: Seq<char>,
    request_id: Seq<char>,
    data: JsonView,
    task_id: Option<u128>,
) -> NewEventView {
    NewEventView {
        kind,
        agent_id: 0,
        task_id,
        data: data.with("relay_id"@, JsonView::Text(relay_id)).with(
            "request_id"@,
            JsonView::Text(request_id),
        ),
    }
}

/// The first of the relays `keys` that runs `session_id`.
spec fn first_running(
    m: ManagerView,
    keys: Seq<Seq<char>>,
    session_id: Seq<char>,
) -> Option<Seq<char>>
    decreases keys.len(),
{
    if keys.len() == 0 {
        None
    } else {
        match first_running(m, keys.drop_last(), session_id) {
            Some(id) => Some(id),
            None => if m.runs(keys.last(), session_id) {
                Some(keys.last())
            } else {
                None
            },
        }
    }
}

proof fn lemma_first_running(m: ManagerView, keys: Seq<Seq<char>>, session_id: Seq<char>)
    ensures
        match first_running(m, keys, session_id) {
            Some(id) => keys.contains(id) && m.runs(id, session_id),
            None => forall|i: int| 0 <= i < keys.len() ==> !m.runs(#[trigger] keys[i], session_id),
        },
    decreases keys.len(),
{
    if keys.len() > 0 {
        let init = keys.drop_last();
        lemma_first_running(m, init, session_id);
        assert(keys.last() == keys[keys.len() - 1]);
        match first_running(m, init, session_id) {
            Some(id) => {
                assert(keys[init.index_of(id)] == id);
            },
            None => {
                assert forall|i: int| 0 <= i < keys.len() - 1 implies !m.runs(
                    #[trigger] keys[i],
                    session_id,
                ) by {
                    assert(init[i] == keys[i]);
                }
            },
        }
    }
}

proof fn lemma_first_stays(m: ManagerView, keys: Seq<Seq<char>>, n: int, session_id: Seq<char>)
    requires
        0 <= n <= keys.len(),
        first_running(m, keys.take(n), session_id) is Some,
    ensures
        first_running(m, keys, session_id) == first_running(m, keys.take(n), session_id),
    decreases keys.len() - n,
{
    if n < keys.len() {
        assert(keys.take(n + 1).drop_last() == keys.take(n));
        lemma_first_stays(m, keys, n + 1, session_id);
    } else {
        assert(keys.take(n) == keys);
    }
}

/// The relay and the session of an answer.
pub open spec fn answer_texts(answer: Option<(String, String)>) -> Option<(Seq<char>, Seq<char>)> {
    match answer {
        Some((relay_id, session_id)) => Some((relay_id@, session_id@)),
        None => None,
    }
}

/// The connected relays, kept in memory.
#[derive(Debug)]
pub struct RelayManager {
    relays: Table<RelayConnection>,
    pending: Table<String>,
}

impl RelayManager {
    #[verifier::type_invariant]
    closed spec fn keyed_by_id(self) -> bool {
        forall|id: Seq<char>| #[trigger]
            self.relays@.contains_key(id) ==> self.relays@[id].relay_id@ == id
    }

    pub closed spec fn view(&self) -> ManagerView {
        ManagerView { relays: connections(self.relays@), pending: text_map(self.pending@) }
    }

    /// The relay through which `session_id` is reached; the same one for as long as
    /// the manager does not change.
    pub closed spec fn relay_running(&self, session_id: Seq<char>) -> Option<Seq<char>> {
        first_running(self@, self.relays.keys(), session_id)
    }

    /// The relay and the session of a permission request that waits, where a relay
    /// runs that session.
    pub open spec fn pending_answer(&self, request_id: Seq<char>) -> Option<
        (Seq<char>, Seq<char>),
    > {
        if self@.pending.contains_key(request_id) {
            let session_id = self@.pending[request_id];
            match self.relay_running(session_id) {
                Some(relay_id) => Some((relay_id, session_id)),
                None => None,
            }
        } else {
            None
        }
    }

    /// A manager without relays.
    pub fn new() -> (r: Self)
        ensures
            r@.relays == Map::<Seq<char>, ConnectionView>::empty(),
            r@.pending == Map::<Seq<char>, Seq<char>>::empty(),
    {
        let r = RelayManager { relays: Table::new(), pending: Table::new() };
        assert(r@.relays =~= Map::<Seq<char>, ConnectionView>::empty());
        assert(r@.pending =~= Map::<Seq<char>, Seq<char>>::empty());
        r
    }

    /// Registers a relay that connected at `connected_at` under the id that it
    /// brings along. Where a relay of that id is connected already, the relay
    /// has reconnected: the old connection is replaced and its sessions go on.
    pub fn register_at(
        &mut self,
        relay_id: String,
        name: String,
        role: AgentRole,
        command: String,
        command_args: Vec<String>,
        safe_paths: Vec<String>,
        labels: Table<String>,
        projects: Vec<u128>,
        setup_script: Option<String>,
        connected_at: i64,
    ) -> (r: String)
        ensures
            r@ == relay_id@,
            final(self)@ == old(self)@.registered(
                (ConnectionView {
                    relay_id: relay_id@,
                    name: name@,
                    role,
                    command: command@,
                    command_args: texts(command_args@),
                    safe_paths: texts(safe_paths@),
                    labels: text_map(labels@),
                    projects: projects@.to_set(),
                    setup_script: opt_text(setup_script),
                    connected_at,
                    active_sessions: Set::empty(),
                }),
            ),
    {
        proof {
            use_type_invariant(&*self);
        }
        let ghost before = self@;
        let mut relays: Table<RelayConnection> = Table::new();
        std::mem::swap(&mut self.relays, &mut relays);
        let active_sessions = match relays.remove(relay_id.as_str()) {
            Some(old_connection) => old_connection.active_sessions,
            None => TextSet::new(),
        };
        let connection = RelayConnection {
            relay_id: relay_id.clone(),
            name,
            role,
            command,
            command_args,
            safe_paths,
            labels,
            projects: project_set(&projects),
            setup_script,
            connected_at,
            active_sessions,
        };
        relays.insert(relay_id.clone(), connection);
        self.relays = relays;
        assert(self@.relays =~= before.registered(connection@).relays);
        relay_id
    }

    /// Registers a relay that connects now; see `register_at`.
    pub fn register(
        &mut self,
        relay_id: String,
        name: String,
        role: AgentRole,
        command: String,
        command_args: Vec<String>,
        safe_paths: Vec<String>,
        labels: Table<String>,
        projects: Vec<u128>,
        setup_script: Option<String>,
    ) -> (r: String)
        ensures
            r@ == relay_id@,
            exists|connected_at: i64|
                final(self)@ == #[trigger] old(self)@.registered(
                    (ConnectionView {
                        relay_id: relay_id@,
                        name: name@,
                        role,
                        command: command@,
                        command_args: texts(command_args@),
                        safe_paths: texts(safe_paths@),
                        labels: text_map(labels@),
                        projects: projects@.to_set(),
                        setup_script: opt_text(setup_script),
                        connected_at,
                        active_sessions: Set::empty(),
                    }),
                ),
    {
        let connected_at: i64 = now_seconds();
        self.register_at(
            relay_id,
            name,
            role,
            command,
            command_args,
            safe_paths,
            labels,
            projects,
            setup_script,
            connected_at,
        )
    }

    /// Forgets a relay that has disconnected. Gives the sessions that it ran.
    pub fn unregister(&mut self, relay_id: &str) -> (r: Vec<String>)
        ensures
            final(self)@ == old(self)@.unregistered(relay_id@),
            texts(r@).no_duplicates(),
            texts(r@).to_set() == old(self)@.sessions(relay_id@),
    {
        proof {
            use_type_invariant(&*self);
        }
        let ghost before = self@;
        let mut relays: Table<RelayConnection> = Table::new();
        std::mem::swap(&mut self.relays, &mut relays);
        let removed = relays.remove(relay_id);
        self.relays = relays;
        assert(self@.relays =~= before.relays.remove(relay_id@));
        match removed {
            Some(connection) => connection.active_sessions.to_list(),
            None => {
                let none: Vec<String> = Vec::new();
                assert(texts(none@).to_set() =~= Set::<Seq<char>>::empty());
                none
            },
        }
    }

    /// Selects a relay for a task. If `preferred_id` is given and that relay is
    /// idle, it is used. Otherwise an idle relay is found that has the required
    /// role (or is general) and accepts the required project (or has no project
    /// restrictions).
    pub fn select_relay(
        &self,
        preferred_id: Option<&str>,
        required_role: Option<AgentRole>,
        required_project: Option<u128>,
    ) -> (r: Option<String>)
        ensures
            match r {
                Some(id) => self@.may_select(
                    id@,
                    opt_str(preferred_id),
                    required_role,
                    required_project,
                ),
                None => forall|id: Seq<char>|
                    !self@.may_select(id, opt_str(preferred_id), required_role, required_project),
            },
    {
        proof {
            use_type_invariant(self);
        }
        if let Some(id) = preferred_id {
            if let Some(connection) = self.relays.get(id) {
                if connection.is_idle() {
                    return Some(id.to_owned());
                }
            }
        }
        let n: usize = self.relays.len();
        let mut i: usize = 0;
        while i < n
            invariant
                n == self.relays.keys().len(),
                i <= n,
                self.keyed_by_id(),
                preferred_id matches Some(id) ==> !self@.idle_relay(id@),
                forall|j: int|
                    0 <= j < i ==> !self@.available(
                        #[trigger] self.relays.keys()[j],
                        required_role,
                        required_project,
                    ),
            decreases n - i,
        {
            let (_, connection) = self.relays.at(i);
            let fits = match required_project {
                None => true,
                Some(project) => connection.accepts_project(project),
            };
            if connection.is_idle() && connection.role_matches(required_role) && fits {
                return Some(connection.relay_id.clone());
            }
            i = i + 1;
        }
        proof {
            assert forall|id: Seq<char>| !self@.available(id, required_role, required_project) by {
                if self@.relays.contains_key(id) {
                    assert(self.relays.keys().to_set().contains(id));
                    let j = self.relays.keys().index_of(id);
                    assert(self.relays.keys()[j] == id);
                }
            }
        }
        None
    }

    /// Adds a session to those of a relay, or removes it.
    fn set_session(&mut self, relay_id: &str, session_id: &str, active: bool)
        ensures
            final(self)@ == old(self)@.with_sessions(
                relay_id@,
                if active {
                    old(self)@.sessions(relay_id@).insert(session_id@)
                } else {
                    old(self)@.sessions(relay_id@).remove(session_id@)
                },
            ),
    {
        proof {
            use_type_invariant(&*self);
        }
        let ghost before = self@;
        let ghost sessions = if active {
            before.sessions(relay_id@).insert(session_id@)
        } else {
            before.sessions(relay_id@).remove(session_id@)
        };
        let mut relays: Table<RelayConnection> = Table::new();
        std::mem::swap(&mut self.relays, &mut relays);
        if let Some(connection) = relays.remove(relay_id) {
            let mut connection = connection;
            if active {
                connection.active_sessions.insert(session_id);
            } else {
                connection.active_sessions.remove(session_id);
            }
            relays.insert(relay_id.to_owned(), connection);
        }
        self.relays = relays;
        assert(self@.relays =~= before.with_sessions(relay_id@, sessions).relays);
    }

    /// Adds a session to those that a relay runs.
    pub fn add_active_session(&mut self, relay_id: &str, session_id: &str)
        ensures
            final(self)@ == old(self)@.with_sessions(
                relay_id@,
                old(self)@.sessions(relay_id@).insert(session_id@),
            ),
    {
        self.set_session(relay_id, session_id, true);
    }

    /// Removes a session from those that a relay runs.
    pub fn remove_active_session(&mut self, relay_id: &str, session_id: &str)
        ensures
            final(self)@ == old(self)@.with_sessions(
                relay_id@,
                old(self)@.sessions(relay_id@).remove(session_id@),
            ),
    {
        self.set_session(relay_id, session_id, false);
    }

    /// Information about the relays that accept `project`, or about all.
    fn list(&self, project: Option<u128>) -> (r: Vec<RelayInfo>)
        ensures
            lists(
                r@,
                self@.relays,
                match project {
                    Some(p) => self@.accepting(p),
                    None => self@.relays.dom(),
                },
            ),
    {
        proof {
            use_type_invariant(self);
        }
        let ghost chosen = match project {
            Some(p) => self@.accepting(p),
            None => self@.relays.dom(),
        };
        let mut r: Vec<RelayInfo> = Vec::new();
        let n: usize = self.relays.len();
        let mut i: usize = 0;
        assert(ids(r@).to_set() =~= chosen.intersect(self.relays.keys().take(0).to_set()));
        while i < n
            invariant
                n == self.relays.keys().len(),
                i <= n,
                self.keyed_by_id(),
                self.relays.keys().no_duplicates(),
                self.relays.keys().to_set() == self.relays@.dom(),
                chosen == match project {
                    Some(p) => self@.accepting(p),
                    None => self@.relays.dom(),
                },
                ids(r@).no_duplicates(),
                ids(r@).to_set() == chosen.intersect(self.relays.keys().take(i as int).to_set()),
                forall|j: int|
                    0 <= j < r@.len() ==> self@.relays.contains_key((#[trigger] r@[j]).relay_id@)
                        && r@[j].describes(self@.relays[r@[j].relay_id@]),
            decreases n - i,
        {
            let (key, connection) = self.relays.at(i);
            let fits = match project {
                None => true,
                Some(p) => connection.accepts_project(p),
            };
            let ghost before = ids(r@);
            let ghost walked = self.relays.keys().take(i as int);
            proof {
                assert(self.relays.keys().take(i + 1) == walked.push(key@));
                walked.lemma_push_to_set_commute(key@);
                before.lemma_push_to_set_commute(key@);
                assert(!walked.contains(key@));
                assert(!before.to_set().contains(key@));
                assert(chosen.contains(key@) <==> fits);
            }
            if fits {
                r.push(connection.info());
                assert(ids(r@) =~= before.push(key@));
                assert(!before.contains(key@));
            }
            assert(ids(r@).to_set() =~= chosen.intersect(
                self.relays.keys().take(i + 1).to_set(),
            ));
            i = i + 1;
        }
        assert(self.relays.keys().take(n as int) == self.relays.keys());
        assert(ids(r@).to_set() =~= chosen);
        r
    }

    /// Information about all connected relays.
    pub fn list_relays(&self) -> (r: Vec<RelayInfo>)
        ensures
            lists(r@, self@.relays, self@.relays.dom()),
    {
        self.list(None)
    }

    /// Information about the relays that accept `project_id`: those bound to it,
    /// and those bound to no project.
    pub fn list_relays_by_project(&self, project_id: u128) -> (r: Vec<RelayInfo>)
        ensures
            lists(r@, self@.relays, self@.accepting(project_id)),
    {
        self.list(Some(project_id))
    }

    /// Information about one relay.
    pub fn get_relay(&self, relay_id: &str) -> (r: Option<RelayInfo>)
        ensures
            match r {
                Some(info) => self@.relays.contains_key(relay_id@) && info.describes(
                    self@.relays[relay_id@],
                ) && info.relay_id@ == relay_id@,
                None => !self@.relays.contains_key(relay_id@),
            },
    {
        proof {
            use_type_invariant(self);
        }
        match self.relays.get(relay_id) {
            Some(connection) => Some(connection.info()),
            None => None,
        }
    }

    /// Whether a relay is connected.
    pub fn is_connected(&self, relay_id: &str) -> (r: bool)
        ensures
            r == self@.relays.contains_key(relay_id@),
    {
        self.relays.get(relay_id).is_some()
    }

    /// How many relays are connected.
    pub fn relay_count(&self) -> (r: usize)
        ensures
            r == self@.relays.dom().len(),
            self@.relays.dom().finite(),
    {
        let n: usize = self.relays.len();
        assert(self@.relays.dom() =~= self.relays@.dom());
        n
    }

    /// The relay that runs the session; where several do, always the same one.
    pub fn get_relay_for_session(&self, session_id: &str) -> (r: Option<String>)
        ensures
            opt_text(r) == self.relay_running(session_id@),
            match r {
                Some(id) => self@.runs(id@, session_id@),
                None => forall|id: Seq<char>| !self@.runs(id, session_id@),
            },
    {
        proof {
            use_type_invariant(self);
            law_relay_running(*self, session_id@);
        }
        let n: usize = self.relays.len();
        let mut i: usize = 0;
        while i < n
            invariant
                n == self.relays.keys().len(),
                i <= n,
                self.keyed_by_id(),
                first_running(self@, self.relays.keys().take(i as int), session_id@) is None,
            decreases n - i,
        {
            let (key, connection) = self.relays.at(i);
            let ghost keys = self.relays.keys();
            proof {
                assert(keys.take(i + 1).drop_last() == keys.take(i as int));
                assert(keys.take(i + 1).last() == key@);
            }
            if connection.active_sessions.contains(session_id) {
                proof {
                    lemma_first_stays(self@, keys, i + 1, session_id@);
                }
                return Some(connection.relay_id.clone());
            }
            i = i + 1;
        }
        assert(self.relays.keys().take(n as int) == self.relays.keys());
        None
    }

    /// Remembers that a permission request of a session waits for an answer. The
    /// relay is not kept: it is found again by the session.
    pub fn store_permission_request(&mut self, relay_id: &str, request_id: &str, session_id: &str)
        ensures
            final(self)@ == old(self)@.with_request(request_id@, session_id@),
    {
        proof {
            use_type_invariant(&*self);
        }
        let ghost before = self@;
        let mut pending: Table<String> = Table::new();
        std::mem::swap(&mut self.pending, &mut pending);
        pending.insert(request_id.to_owned(), session_id.to_owned());
        self.pending = pending;
        assert(self@.pending =~= before.pending.insert(request_id@, session_id@));
    }

    /// The relay and the session of a permission request that waits, where a
    /// relay runs that session.
    pub fn get_pending_permission(&self, request_id: &str) -> (r: Option<(String, String)>)
        ensures
            answer_texts(r) == self.pending_answer(request_id@),
            match r {
                Some((relay_id, session_id)) => self@.answerable(
                    request_id@,
                    relay_id@,
                    session_id@,
                ),
                None => forall|relay_id: Seq<char>, session_id: Seq<char>|
                    !self@.answerable(request_id@, relay_id, session_id),
            },
    {
        match self.pending.get(request_id) {
            Some(session_id) => match self.get_relay_for_session(session_id.as_str()) {
                Some(relay_id) => Some((relay_id, session_id.clone())),
                None => None,
            },
            None => None,
        }
    }

    /// Forgets a permission request.
    pub fn remove_pending_permission(&mut self, request_id: &str)
        ensures
            final(self)@ == old(self)@.without_request(request_id@),
    {
        proof {
            use_type_invariant(&*self);
        }
        let ghost before = self@;
        let mut pending: Table<String> = Table::new();
        std::mem::swap(&mut self.pending, &mut pending);
        pending.remove(request_id);
        self.pending = pending;
        assert(self@.pending =~= before.pending.remove(request_id@));
    }

    /// The event that carries a command to a relay, to be published by the
    /// caller; an error where the relay is not connected.
    pub fn emit_relay_command(
        &self,
        relay_id: &str,
        kind: &str,
        request_id: String,
        data: Json,
        task_id: Option<u128>,
    ) -> (r: Result<RelayCommand, String>)
        ensures
            match r {
                Ok(command) => {
                    &&& self@.relays.contains_key(relay_id@)
                    &&& command.event@ == command_event(
                        relay_id@,
                        kind@,
                        request_id@,
                        data@,
                        task_id,
                    )
                    &&& command.request_id@ == request_id@
                },
                Err(message) => {
                    &&& !self@.relays.contains_key(relay_id@)
                    &&& message@ == "relay "@ + relay_id@ + " not connected"@
                },
            },
    {
        if !self.is_connected(relay_id) {
            return Err("relay ".to_owned().concat(relay_id).concat(" not connected"));
        }
        let data = data.with("relay_id", Json::text(relay_id)).with(
            "request_id",
            Json::text(request_id.as_str()),
        );
        let event = NewEvent { kind: kind.to_owned(), agent_id: 0, task_id, data };
        Ok(RelayCommand { event, request_id })
    }
}

impl Default for RelayManager {
    fn default() -> (r: Self)
        ensures
            r@.relays == Map::<Seq<char>, ConnectionView>::empty(),
            r@.pending == Map::<Seq<char>, Seq<char>>::empty(),
    {
        RelayManager::new()
    }
}

/// A relay that reconnects goes on with the sessions that it ran; a relay that
/// connects for the first time runs none.
pub proof fn law_reconnect_keeps_sessions(m: ManagerView, c: ConnectionView)
    ensures
        m.registered(c).relays.contains_key(c.relay_id),
        m.registered(c).sessions(c.relay_id) == m.sessions(c.relay_id),
        !m.relays.contains_key(c.relay_id) ==> m.registered(c).idle_relay(c.relay_id),
{
}

/// Registering twice under one id leaves what registering the second time alone
/// would have left.
pub proof fn law_last_registration_counts(m: ManagerView, c: ConnectionView, d: ConnectionView)
    requires
        c.relay_id == d.relay_id,
    ensures
        m.registered(c).registered(d) == m.registered(d),
{
    assert(m.registered(c).registered(d).relays =~= m.registered(d).relays);
}

/// Registering and unregistering a relay leaves a manager without it.
pub proof fn law_unregister_undoes_register(m: ManagerView, c: ConnectionView)
    ensures
        m.registered(c).unregistered(c.relay_id) == m.unregistered(c.relay_id),
        !m.relays.contains_key(c.relay_id) ==> m.registered(c).unregistered(c.relay_id) == m,
        !m.unregistered(c.relay_id).relays.contains_key(c.relay_id),
{
    assert(m.registered(c).unregistered(c.relay_id).relays =~= m.unregistered(c.relay_id).relays);
    if !m.relays.contains_key(c.relay_id) {
        assert(m.unregistered(c.relay_id).relays =~= m.relays);
    }
}

/// What happens to one relay leaves every other relay as it was.
pub proof fn law_other_relays_unchanged(
    m: ManagerView,
    c: ConnectionView,
    sessions: Set<Seq<char>>,
    other: Seq<char>,
)
    requires
        other != c.relay_id,
    ensures
        m.registered(c).relays.contains_key(other) == m.relays.contains_key(other),
        m.unregistered(c.relay_id).relays.contains_key(other) == m.relays.contains_key(other),
        m.with_sessions(c.relay_id, sessions).relays.contains_key(other)
            == m.relays.contains_key(other),
        m.relays.contains_key(other) ==> {
            &&& m.registered(c).relays[other] == m.relays[other]
            &&& m.unregistered(c.relay_id).relays[other] == m.relays[other]
            &&& m.with_sessions(c.relay_id, sessions).relays[other] == m.relays[other]
        },
{
}

/// How many relays are connected: one more after a new relay registers, as many
/// as before after a known one does, one fewer after a known one unregisters.
pub proof fn law_relay_count(m: ManagerView, c: ConnectionView)
    requires
        m.relays.dom().finite(),
    ensures
        m.relays.contains_key(c.relay_id) ==> m.registered(c).relays.dom().len()
            == m.relays.dom().len(),
        !m.relays.contains_key(c.relay_id) ==> m.registered(c).relays.dom().len()
            == m.relays.dom().len() + 1,
        m.relays.contains_key(c.relay_id) ==> m.unregistered(c.relay_id).relays.dom().len() + 1
            == m.relays.dom().len(),
{
}

/// Adding a session and removing it again leaves the manager as it was, where
/// the relay did not run that session before.
pub proof fn law_session_added_then_removed(
    m: ManagerView,
    relay_id: Seq<char>,
    session_id: Seq<char>,
)
    requires
        !m.runs(relay_id, session_id),
    ensures
        ({
            let added = m.with_sessions(relay_id, m.sessions(relay_id).insert(session_id));
            added.with_sessions(relay_id, added.sessions(relay_id).remove(session_id)) == m
        }),
{
    let added = m.with_sessions(relay_id, m.sessions(relay_id).insert(session_id));
    let removed = added.with_sessions(relay_id, added.sessions(relay_id).remove(session_id));
    if m.relays.contains_key(relay_id) {
        assert(removed.relays[relay_id].active_sessions =~= m.relays[relay_id].active_sessions);
        assert(removed.relays =~= m.relays);
    }
}

/// Whatever is asked for, the relay that is selected is connected and idle. It
/// serves the role and the project unless it is the preferred one.
pub proof fn law_selected_relay_is_idle(
    m: ManagerView,
    relay_id: Seq<char>,
    preferred: Option<Seq<char>>,
    role: Option<AgentRole>,
    project: Option<u128>,
)
    requires
        m.may_select(relay_id, preferred, role, project),
    ensures
        m.idle_relay(relay_id),
        preferred != Some(relay_id) ==> {
            &&& m.relays[relay_id].serves_role(role)
            &&& m.relays[relay_id].serves_project(project)
        },
{
}

/// A relay of which the information says that it runs no session is idle, and the
/// other way round.
pub proof fn law_no_sessions_is_idle(info: RelayInfo, c: ConnectionView)
    requires
        info.describes(c),
    ensures
        info.active_session_count == 0 <==> c.idle(),
{
    if info.active_session_count == 0 {
        c.active_sessions.lemma_len0_is_empty();
    }
}

/// A relay that runs a session is not selected, whatever is asked for.
pub proof fn law_busy_relay_is_not_selected(
    m: ManagerView,
    relay_id: Seq<char>,
    session_id: Seq<char>,
    preferred: Option<Seq<char>>,
    role: Option<AgentRole>,
    project: Option<u128>,
)
    ensures
        !m.with_sessions(relay_id, m.sessions(relay_id).insert(session_id)).may_select(
            relay_id,
            preferred,
            role,
            project,
        ),
{
    let added = m.with_sessions(relay_id, m.sessions(relay_id).insert(session_id));
    if m.relays.contains_key(relay_id) {
        assert(added.relays[relay_id].active_sessions.contains(session_id));
    }
}

/// An idle general relay that is bound to no project can be selected for every
/// role and project.
pub proof fn law_general_universal_relay_serves_all(
    m: ManagerView,
    relay_id: Seq<char>,
    role: Option<AgentRole>,
    project: Option<u128>,
)
    requires
        m.idle_relay(relay_id),
        m.relays[relay_id].role == AgentRole::General,
        m.relays[relay_id].projects == Set::<u128>::empty(),
    ensures
        m.may_select(relay_id, None, role, project),
{
}

/// A relay that accepts a project is connected, and a relay bound to no project
/// is among those that accept it.
pub proof fn law_universal_relay_is_listed(m: ManagerView, relay_id: Seq<char>, project: u128)
    ensures
        m.accepting(project).subset_of(m.relays.dom()),
        m.relays.contains_key(relay_id) && m.relays[relay_id].projects == Set::<u128>::empty()
            ==> m.accepting(project).contains(relay_id),
{
}

/// A stored permission request is answerable through any relay that runs its
/// session, for as long as it is not removed; removing it takes back storing it.
pub proof fn law_stored_request_is_answerable(
    m: ManagerView,
    request_id: Seq<char>,
    relay_id: Seq<char>,
    session_id: Seq<char>,
)
    ensures
        m.with_request(request_id, session_id).answerable(request_id, relay_id, session_id)
            == m.runs(relay_id, session_id),
        !m.without_request(request_id).answerable(request_id, relay_id, session_id),
        !m.pending.contains_key(request_id) ==> m.with_request(
            request_id,
            session_id,
        ).without_request(request_id) == m,
{
    if !m.pending.contains_key(request_id) {
        assert(m.with_request(request_id, session_id).without_request(request_id).pending
            =~= m.pending);
    }
}

/// A permission request is not answerable through a relay that disconnected.
pub proof fn law_no_answer_through_disconnected_relay(
    m: ManagerView,
    request_id: Seq<char>,
    relay_id: Seq<char>,
    session_id: Seq<char>,
)
    ensures
        !m.unregistered(relay_id).answerable(request_id, relay_id, session_id),
{
}

/// A session is reached through a relay that runs it, wherever one does.
pub proof fn law_relay_running(manager: RelayManager, session_id: Seq<char>)
    ensures
        match manager.relay_running(session_id) {
            Some(relay_id) => manager@.runs(relay_id, session_id),
            None => forall|relay_id: Seq<char>| !manager@.runs(relay_id, session_id),
        },
{
    let keys = manager.relays.keys();
    lemma_first_running(manager@, keys, session_id);
    manager.relays.lemma_keys();
    if manager.relay_running(session_id) is None {
        assert forall|relay_id: Seq<char>| !manager@.runs(relay_id, session_id) by {
            if manager@.runs(relay_id, session_id) {
                assert(keys.to_set().contains(relay_id));
                assert(keys[keys.index_of(relay_id)] == relay_id);
            }
        }
    }
}

/// The answer that a permission request gets names the session that was stored
/// for it and a relay that runs that session; it gets none exactly if nothing is
/// stored or no relay runs the session.
pub proof fn law_pending_answer(manager: RelayManager, request_id: Seq<char>)
    ensures
        match manager.pending_answer(request_id) {
            Some((relay_id, session_id)) => manager@.answerable(request_id, relay_id, session_id),
            None => !manager@.pending.contains_key(request_id) || forall|relay_id: Seq<char>|
                !manager@.runs(relay_id, manager@.pending[request_id]),
        },
{
    if manager@.pending.contains_key(request_id) {
        law_relay_running(manager, manager@.pending[request_id]);
    }
}

/// A permission request waits with the session that was stored for it last, until
/// it is removed: nothing that happens to relays, sessions or other requests
/// changes that.
pub proof fn law_request_waits_until_removed(
    m: ManagerView,
    request_id: Seq<char>,
    session_id: Seq<char>,
    other_request: Seq<char>,
    other_session: Seq<char>,
    c: ConnectionView,
    sessions: Set<Seq<char>>,
)
    requires
        other_request != request_id,
    ensures
        ({
            let stored = m.with_request(request_id, session_id);
            let waits = |n: ManagerView|
                n.pending.contains_key(request_id) && n.pending[request_id] == session_id;
            &&& waits(stored)
            &&& waits(stored.registered(c))
            &&& waits(stored.unregistered(c.relay_id))
            &&& waits(stored.with_sessions(c.relay_id, sessions))
            &&& waits(stored.with_request(other_request, other_session))
            &&& waits(stored.without_request(other_request))
            &&& !stored.without_request(request_id).pending.contains_key(request_id)
        }),
{
}

/// A command's data name the relay and the request, and keep every other field;
/// data that are no object are sent as they are.
pub proof fn law_command_names_relay_and_request(
    relay_id: Seq<char>,
    kind: Seq<char>,
    request_id: Seq<char>,
    data: JsonView,
    task_id: Option<u128>,
    key: Seq<char>,
)
    ensures
        ({
            let sent = command_event(relay_id, kind, request_id, data, task_id).data;
            &&& data is Object ==> {
                &&& sent.text_field("relay_id"@) == Some(relay_id)
                &&& sent.text_field("request_id"@) == Some(request_id)
                &&& key != "relay_id"@ && key != "request_id"@ ==> sent.field(key) == data.field(
                    key,
                )
            }
            &&& !(data is Object) ==> sent == data
        }),
{
    reveal_strlit("relay_id");
    reveal_strlit("request_id");
    assert("relay_id"@.len() != "request_id"@.len());
}

/// A relay can be selected, where none is preferred, exactly if it is connected,
/// runs no session, has the required role or the general one, and is bound to the
/// required project or to none. A preferred relay that is connected and runs no
/// session is the only choice; any other preference counts for nothing.
pub proof fn law_selection(
    m: ManagerView,
    id: Seq<char>,
    preferred: Seq<char>,
    role: Option<AgentRole>,
    project: Option<u128>,
)
    ensures
        m.may_select(id, None, role, project) <==> {
            let c = m.relays[id];
            &&& m.relays.contains_key(id)
            &&& forall|s: Seq<char>| !c.active_sessions.contains(s)
            &&& role matches Some(r) ==> c.role == r || c.role == AgentRole::General
            &&& project matches Some(p) ==> c.projects.contains(p) || (forall|q: u128|
                !c.projects.contains(q))
        },
        m.relays.contains_key(preferred) && (forall|s: Seq<char>|
            !m.relays[preferred].active_sessions.contains(s)) ==> (m.may_select(
            id,
            Some(preferred),
            role,
            project,
        ) <==> id == preferred),
        !(m.relays.contains_key(preferred) && (forall|s: Seq<char>|
            !m.relays[preferred].active_sessions.contains(s))) ==> (m.may_select(
            id,
            Some(preferred),
            role,
            project,
        ) <==> m.may_select(id, None, role, project)),
{
    let c = m.relays[id];
    lemma_empty(c.active_sessions);
    lemma_empty(c.projects);
    lemma_empty(m.relays[preferred].active_sessions);
}

proof fn lemma_empty<A>(s: Set<A>)
    ensures
        s == Set::<A>::empty() <==> forall|x: A| !s.contains(x),
{
    if forall|x: A| !s.contains(x) {
        assert(s =~= Set::<A>::empty());
    }
}

/// A relay that is selected for a role, with no preference, has that role or the
/// general one; and an idle relay of that role that is bound to the project, or to
/// none, can be selected.
pub proof fn law_selected_relay_has_the_role(
    m: ManagerView,
    id: Seq<char>,
    role: AgentRole,
    project: Option<u128>,
)
    ensures
        m.may_select(id, None, Some(role), project) ==> m.relays[id].role == role
            || m.relays[id].role == AgentRole::General,
        ({
            &&& m.relays.contains_key(id)
            &&& m.relays[id].active_sessions == Set::<Seq<char>>::empty()
            &&& m.relays[id].role == role
            &&& project matches Some(p) ==> m.relays[id].projects.contains(p)
                || m.relays[id].projects == Set::<u128>::empty()
        }) ==> m.may_select(id, None, Some(role), project),
{
}

/// After a relay has registered it is connected with all that it brought along and
/// the sessions that were run under its id; no other relay and no request has
/// changed.
pub proof fn law_registered(m: ManagerView, c: ConnectionView, other: Seq<char>)
    ensures
        ({
            let after = m.registered(c);
            let r = after.relays[c.relay_id];
            &&& after.relays.dom() == m.relays.dom().insert(c.relay_id)
            &&& r.relay_id == c.relay_id
            &&& r.name == c.name
            &&& r.role == c.role
            &&& r.command == c.command
            &&& r.command_args == c.command_args
            &&& r.safe_paths == c.safe_paths
            &&& r.labels == c.labels
            &&& r.projects == c.projects
            &&& r.setup_script == c.setup_script
            &&& r.connected_at == c.connected_at
            &&& m.relays.contains_key(c.relay_id) ==> r.active_sessions
                == m.relays[c.relay_id].active_sessions
            &&& !m.relays.contains_key(c.relay_id) ==> r.active_sessions == Set::<
                Seq<char>,
            >::empty()
            &&& other != c.relay_id && m.relays.contains_key(other) ==> after.relays[other]
                == m.relays[other]
            &&& after.pending == m.pending
        }),
{
}

/// After a relay has unregistered it is not connected; no other relay and no
/// request has changed.
pub proof fn law_unregistered(m: ManagerView, relay_id: Seq<char>, other: Seq<char>)
    ensures
        ({
            let after = m.unregistered(relay_id);
            &&& after.relays.dom() == m.relays.dom().remove(relay_id)
            &&& other != relay_id && m.relays.contains_key(other) ==> after.relays[other]
                == m.relays[other]
            &&& after.pending == m.pending
        }),
{
}

/// Setting the sessions of a relay changes these and nothing else; of a relay that
/// is not connected there is nothing to set. Such a relay runs no sessions.
pub proof fn law_with_sessions(
    m: ManagerView,
    relay_id: Seq<char>,
    sessions: Set<Seq<char>>,
    other: Seq<char>,
)
    ensures
        ({
            let after = m.with_sessions(relay_id, sessions);
            let before = m.relays[relay_id];
            let r = after.relays[relay_id];
            &&& after.relays.dom() == m.relays.dom()
            &&& m.relays.contains_key(relay_id) ==> {
                &&& r.active_sessions == sessions
                &&& r.relay_id == before.relay_id
                &&& r.name == before.name
                &&& r.role == before.role
                &&& r.command == before.command
                &&& r.command_args == before.command_args
                &&& r.safe_paths == before.safe_paths
                &&& r.labels == before.labels
                &&& r.projects == before.projects
                &&& r.setup_script == before.setup_script
                &&& r.connected_at == before.connected_at
            }
            &&& other != relay_id && m.relays.contains_key(other) ==> after.relays[other]
                == m.relays[other]
            &&& after.pending == m.pending
        }),
        m.relays.contains_key(relay_id) ==> m.sessions(relay_id)
            == m.relays[relay_id].active_sessions,
        !m.relays.contains_key(relay_id) ==> m.sessions(relay_id) == Set::<Seq<char>>::empty(),
{
    assert(m.with_sessions(relay_id, sessions).relays.dom() =~= m.relays.dom());
}

/// A relay runs a session exactly if it is connected and has it among its sessions.
/// A request is answerable through it exactly if it was stored with such a session.
pub proof fn law_runs_and_answers(
    m: ManagerView,
    relay_id: Seq<char>,
    session_id: Seq<char>,
    request_id: Seq<char>,
)
    ensures
        m.runs(relay_id, session_id) <==> m.relays.contains_key(relay_id)
            && m.relays[relay_id].active_sessions.contains(session_id),
        m.answerable(request_id, relay_id, session_id) <==> {
            &&& m.pending.contains_key(request_id)
            &&& m.pending[request_id] == session_id
            &&& m.relays.contains_key(relay_id)
            &&& m.relays[relay_id].active_sessions.contains(session_id)
        },
        m.idle_relay(relay_id) <==> m.relays.contains_key(relay_id) && (forall|s: Seq<char>|
            !m.relays[relay_id].active_sessions.contains(s)),
{
    lemma_empty(m.relays[relay_id].active_sessions);
}

/// Storing a request sets its session, removing it takes it away; no other request
/// and no relay changes.
pub proof fn law_requests(
    m: ManagerView,
    request_id: Seq<char>,
    session_id: Seq<char>,
    other: Seq<char>,
)
    ensures
        ({
            let stored = m.with_request(request_id, session_id);
            let removed = m.without_request(request_id);
            &&& stored.pending.dom() == m.pending.dom().insert(request_id)
            &&& stored.pending[request_id] == session_id
            &&& removed.pending.dom() == m.pending.dom().remove(request_id)
            &&& other != request_id && m.pending.contains_key(other) ==> stored.pending[other]
                == m.pending[other] && removed.pending[other] == m.pending[other]
            &&& stored.relays == m.relays
            &&& removed.relays == m.relays
        }),
{
}

/// The relays that accept a project are those that are connected and bound to it
/// or to none.
pub proof fn law_accepting(m: ManagerView, project: u128, id: Seq<char>)
    ensures
        m.accepting(project).contains(id) <==> m.relays.contains_key(id) && (
        m.relays[id].projects.contains(project) || (forall|q: u128|
            !m.relays[id].projects.contains(q))),
{
    lemma_empty(m.relays[id].projects);
}

/// The event of a command has the kind that is asked for and the task, no agent,
/// and the data with relay and request put in.
pub proof fn law_command_event(
    relay_id: Seq<char>,
    kind: Seq<char>,
    request_id: Seq<char>,
    data: JsonView,
    task_id: Option<u128>,
)
    ensures
        ({
            let event = command_event(relay_id, kind, request_id, data, task_id);
            &&& event.kind == kind
            &&& event.agent_id == 0
            &&& event.task_id == task_id
            &&& data is Object ==> event.data is Object && event.data->Object_0
                == data->Object_0.insert("relay_id"@, JsonView::Text(relay_id)).insert(
                "request_id"@,
                JsonView::Text(request_id),
            )
            &&& !(data is Object) ==> event.data == data
        }),
{
}

/// Information that describes a relay says of it, field by field, what is known.
pub proof fn law_information(info: RelayInfo, c: ConnectionView, p: u128)
    requires
        info.describes(c),
    ensures
        info.relay_id@ == c.relay_id,
        info.name@ == c.name,
        info.role@ == match c.role {
            AgentRole::General => "general"@,
            AgentRole::Business => "business"@,
            AgentRole::Coding => "coding"@,
            AgentRole::Qa => "qa"@,
        },
        info.command@ == c.command,
        texts(info.command_args@) == c.command_args,
        texts(info.safe_paths@) == c.safe_paths,
        text_map(info.labels@) == c.labels,
        info.projects@.no_duplicates(),
        info.projects@.contains(p) <==> c.projects.contains(p),
        opt_text(info.setup_script) == c.setup_script,
        info.connected_at == c.connected_at,
        info.active_session_count == c.active_sessions.len(),
        c.active_sessions.finite(),
{
    assert(info.projects@.contains(p) <==> info.projects@.to_set().contains(p));
}

/// A list of chosen relays holds each of them once, and none besides, with
/// information that describes it.
pub proof fn law_listing(
    list: Seq<RelayInfo>,
    relays: Map<Seq<char>, ConnectionView>,
    chosen: Set<Seq<char>>,
    i: int,
    j: int,
    id: Seq<char>,
)
    requires
        lists(list, relays, chosen),
    ensures
        0 <= i < list.len() ==> {
            &&& chosen.contains(list[i].relay_id@)
            &&& relays.contains_key(list[i].relay_id@)
            &&& list[i].describes(relays[list[i].relay_id@])
        },
        0 <= i < j < list.len() ==> list[i].relay_id@ != list[j].relay_id@,
        chosen.contains(id) ==> exists|k: int|
            0 <= k < list.len() && (#[trigger] list[k]).relay_id@ == id,
{
    let names = ids(list);
    if 0 <= i < list.len() {
        assert(names[i] == list[i].relay_id@);
        assert(names.to_set().contains(names[i]));
    }
    if 0 <= i < j < list.len() {
        assert(names[i] != names[j]);
    }
    if chosen.contains(id) {
        assert(names.to_set().contains(id));
        let k = names.index_of(id);
        assert(list[k].relay_id@ == id);
    }
}

/// What is known of a connected relay is what its fields hold.
pub proof fn law_connection_content(c: RelayConnection)
    ensures
        c@.relay_id == c.relay_id@,
        c@.name == c.name@,
        c@.role == c.role,
        c@.command == c.command@,
        c@.command_args == texts(c.command_args@),
        c@.safe_paths == texts(c.safe_paths@),
        c@.labels == text_map(c.labels@),
        c@.projects == c.projects@,
        c@.setup_script == opt_text(c.setup_script),
        c@.connected_at == c.connected_at,
        c@.active_sessions == c.active_sessions@,
{
}

/// What is known of the relays of a table stands under their keys.
pub proof fn law_connections(m: Map<Seq<char>, RelayConnection>, key: Seq<char>)
    ensures
        connections(m).dom() == m.dom(),
        m.contains_key(key) ==> connections(m)[key] == m[key]@,
{
    assert(connections(m).dom() =~= m.dom());
}

/// The texts of an answer are those of its relay and its session.
pub proof fn law_answer_texts(answer: Option<(String, String)>)
    ensures
        match answer {
            Some(a) => answer_texts(answer) == Some((a.0@, a.1@)),
            None => answer_texts(answer) is None,
        },
{
}

} // verus!
