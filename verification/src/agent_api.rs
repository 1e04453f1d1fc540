//! The server's side of the agent protocol: what agents register, report and
//! are asked to do, and the store that remembers it.
use vstd::prelude::*;
use crate::text::{concat_str, opt_string_copy, opt_view, str_eq};
use crate::system::{clock_nanos, is_simple_uuid, new_simple_uuid, proc_entry_exists, utc_now_rfc3339};
use crate::agent_table::{keys_view, table_contents, table_get, table_insert, table_keys, table_new, table_remove};
use dashmap::DashMap;

verus! {

/// How long an agent may stay silent before it is listed as offline: 180 s, in nanoseconds.
pub const AGENT_TIMEOUT_NANOS: u128 = 180_000_000_000;

pub struct AgentRegisterRequest {
    pub hostname: String,
    pub public_ip: String,
    pub arch: String,
    pub os: String,
    pub current_version: Option<String>,
    pub owner: Option<String>,
}

pub struct AgentRegisterResponse {
    pub agent_id: String,
    pub token: String,
}

/// The fields of a heartbeat's `core_status` object that the server reads:
/// each is present only when the object holds it with the right JSON type
/// (`installed` and `running` booleans, `pid` an unsigned integer, `uri` and
/// `version` strings).
pub struct CoreStatusReport {
    pub installed: Option<bool>,
    pub running: Option<bool>,
    pub pid: Option<u64>,
    pub uri: Option<String>,
    pub version: Option<String>,
}

pub struct AgentHeartbeatRequest {
    pub agent_id: String,
    pub token: String,
    pub public_ip: String,
    pub current_version: Option<String>,
    pub status: String,
    pub message: Option<String>,
    pub core_status: Option<CoreStatusReport>,
}

pub struct AgentHeartbeatResponse {
    pub ok: bool,
    pub message: Option<String>,
}

/// A command queued for an agent; `payload` is the JSON text of its arguments.
pub struct AgentCommand {
    pub id: String,
    pub command_type: String,
    pub payload: String,
    pub created_at: String,
}

pub struct AgentCommandsResponse {
    pub commands: Vec<AgentCommand>,
}

/// An agent's acknowledgement; `result` is JSON text.
pub struct AgentCommandAckRequest {
    pub agent_id: String,
    pub token: String,
    pub command_id: String,
    pub result: String,
}

pub struct AgentCommandAckResponse {
    pub ok: bool,
}

pub struct AgentInfo {
    pub agent_id: String,
    pub owner: String,
    pub hostname: String,
    pub public_ip: String,
    pub arch: String,
    pub os: String,
    pub current_version: Option<String>,
    pub status: String,
    pub message: Option<String>,
    pub core_installed: bool,
    pub core_version: Option<String>,
    pub core_running: bool,
    pub core_uri: Option<String>,
    pub last_heartbeat: String,
    pub registered_at: String,
}

pub struct AgentListResponse {
    pub agents: Vec<AgentInfo>,
}

/// A command sent by a user; `payload` is JSON text.
pub struct AgentCommandRequest {
    pub command_type: String,
    pub payload: String,
}

pub struct AgentCommandResponse {
    pub command_id: String,
    pub command_type: String,
    pub payload: String,
    pub created_at: String,
}

pub struct InstallCommandPayload {
    pub version: Option<String>,
    pub proxy: Option<String>,
}

pub struct UninstallCommandPayload {
    pub keep_config: bool,
}

pub struct RestartCommandPayload {
    pub uri: Option<String>,
    pub hostname: Option<String>,
}

pub struct StopCommandPayload {}

pub struct CommandView {
    pub id: Seq<char>,
    pub command_type: Seq<char>,
    pub payload: Seq<char>,
    pub created_at: Seq<char>,
}

impl View for AgentCommand {
    type V = CommandView;

    open spec fn view(&self) -> CommandView {
        CommandView {
            id: self.id@,
            command_type: self.command_type@,
            payload: self.payload@,
            created_at: self.created_at@,
        }
    }
}

pub open spec fn commands_view(v: Seq<AgentCommand>) -> Seq<CommandView> {
    v.map_values(|c: AgentCommand| c@)
}

pub struct AgentInfoView {
    pub agent_id: Seq<char>,
    pub owner: Seq<char>,
    pub hostname: Seq<char>,
    pub public_ip: Seq<char>,
    pub arch: Seq<char>,
    pub os: Seq<char>,
    pub current_version: Option<Seq<char>>,
    pub status: Seq<char>,
    pub message: Option<Seq<char>>,
    pub core_installed: bool,
    pub core_version: Option<Seq<char>>,
    pub core_running: bool,
    pub core_uri: Option<Seq<char>>,
    pub last_heartbeat: Seq<char>,
    pub registered_at: Seq<char>,
}

impl View for AgentInfo {
    type V = AgentInfoView;

    open spec fn view(&self) -> AgentInfoView {
        AgentInfoView {
            agent_id: self.agent_id@,
            owner: self.owner@,
            hostname: self.hostname@,
            public_ip: self.public_ip@,
            arch: self.arch@,
            os: self.os@,
            current_version: opt_view(self.current_version),
            status: self.status@,
            message: opt_view(self.message),
            core_installed: self.core_installed,
            core_version: opt_view(self.core_version),
            core_running: self.core_running,
            core_uri: opt_view(self.core_uri),
            last_heartbeat: self.last_heartbeat@,
            registered_at: self.registered_at@,
        }
    }
}

pub open spec fn infos_view(v: Seq<AgentInfo>) -> Seq<AgentInfoView> {
    v.map_values(|i: AgentInfo| i@)
}

impl AgentCommand {
    /// A copy with the same text in every field.
    pub fn duplicate(&self) -> (r: AgentCommand)
        ensures
            r@ == self@,
    {
        AgentCommand {
            id: self.id.clone(),
            command_type: self.command_type.clone(),
            payload: self.payload.clone(),
            created_at: self.created_at.clone(),
        }
    }
}

impl AgentInfo {
    /// A copy with the same value in every field.
    pub fn duplicate(&self) -> (r: AgentInfo)
        ensures
            r@ == self@,
    {
        AgentInfo {
            agent_id: self.agent_id.clone(),
            owner: self.owner.clone(),
            hostname: self.hostname.clone(),
            public_ip: self.public_ip.clone(),
            arch: self.arch.clone(),
            os: self.os.clone(),
            current_version: opt_string_copy(&self.current_version),
            status: self.status.clone(),
            message: opt_string_copy(&self.message),
            core_installed: self.core_installed,
            core_version: opt_string_copy(&self.core_version),
            core_running: self.core_running,
            core_uri: opt_string_copy(&self.core_uri),
            last_heartbeat: self.last_heartbeat.clone(),
            registered_at: self.registered_at.clone(),
        }
    }
}

/// Copies of every command, in order.
pub fn duplicate_commands(v: &Vec<AgentCommand>) -> (r: Vec<AgentCommand>)
    ensures
        commands_view(r@) == commands_view(v@),
{
    let mut r: Vec<AgentCommand> = Vec::new();
    let mut i: usize = 0;
    while i < v.len()
        invariant
            i <= v.len(),
            commands_view(r@) == commands_view(v@).take(i as int),
        decreases v.len() - i,
    {
        let d = v[i].duplicate();
        let ghost before = r@;
        r.push(d);
        assert(r@ == before.push(d));
        assert(commands_view(r@) =~= commands_view(before).push(d@));
        i = i + 1;
        assert(commands_view(r@) =~= commands_view(v@).take(i as int));
    }
    assert(commands_view(v@).take(v.len() as int) =~= commands_view(v@));
    r
}

/// What the server remembers of one agent.
pub struct AgentRecord {
    info: AgentInfo,
    token: String,
    commands: Vec<AgentCommand>,
    updated_at: u128,
}

pub struct RecordView {
    pub info: AgentInfoView,
    pub token: Seq<char>,
    pub commands: Seq<CommandView>,
    /// When the agent was last heard from, in nanoseconds since the Unix epoch.
    pub updated_at: u128,
}

impl View for AgentRecord {
    type V = RecordView;

    closed spec fn view(&self) -> RecordView {
        RecordView {
            info: self.info@,
            token: self.token@,
            commands: commands_view(self.commands@),
            updated_at: self.updated_at,
        }
    }
}

/// The id given to an agent: `agent-` and a fresh UUID.
pub open spec fn agent_id_from(uuid: Seq<char>) -> Seq<char> {
    "agent-"@ + uuid
}

/// A newly registered agent: online, no core reported, no commands, both
/// timestamps `stamp`, heard from at `now`.
pub open spec fn fresh_record(
    req: AgentRegisterRequest,
    owner: Seq<char>,
    agent_id: Seq<char>,
    token: Seq<char>,
    stamp: Seq<char>,
    now: u128,
) -> RecordView {
    RecordView {
        info: AgentInfoView {
            agent_id: agent_id,
            owner: owner,
            hostname: req.hostname@,
            public_ip: req.public_ip@,
            arch: req.arch@,
            os: req.os@,
            current_version: opt_view(req.current_version),
            status: "online"@,
            message: None,
            core_installed: false,
            core_version: None,
            core_running: false,
            core_uri: None,
            last_heartbeat: stamp,
            registered_at: stamp,
        },
        token: token,
        commands: seq![],
        updated_at: now,
    }
}

/// The process id whose liveness a heartbeat asks the server to look up: the
/// reported `pid` (cut to 32 bits), when the report has a pid but no `running`.
pub open spec fn pid_probe(core: Option<CoreStatusReport>) -> Option<u32> {
    match core {
        Some(c) => match (c.running, c.pid) {
            (None, Some(p)) => Some(p as u32),
            _ => None,
        },
        None => None,
    }
}

pub open spec fn reported_installed(old: bool, core: Option<CoreStatusReport>) -> bool {
    match core {
        Some(c) => match c.installed {
            Some(b) => b,
            None => old,
        },
        None => old,
    }
}

pub open spec fn reported_running(old: bool, core: Option<CoreStatusReport>, pid_alive: bool) -> bool {
    match core {
        Some(c) => match c.running {
            Some(b) => b,
            None => match c.pid {
                Some(_) => pid_alive,
                None => old,
            },
        },
        None => old,
    }
}

pub open spec fn reported_uri(old: Option<Seq<char>>, core: Option<CoreStatusReport>) -> Option<Seq<char>> {
    match core {
        Some(c) => match c.uri {
            Some(u) => Some(u@),
            None => old,
        },
        None => old,
    }
}

pub open spec fn reported_version(old: Option<Seq<char>>, core: Option<CoreStatusReport>) -> Option<Seq<char>> {
    match core {
        Some(c) => match c.version {
            Some(v) => Some(v@),
            None => old,
        },
        None => old,
    }
}

/// An agent's information after a heartbeat: the reported address, version,
/// status and message, the heartbeat time, and whatever the core report holds.
pub open spec fn touched_info(
    i: AgentInfoView,
    req: AgentHeartbeatRequest,
    stamp: Seq<char>,
    pid_alive: bool,
) -> AgentInfoView {
    AgentInfoView {
        agent_id: i.agent_id,
        owner: i.owner,
        hostname: i.hostname,
        public_ip: req.public_ip@,
        arch: i.arch,
        os: i.os,
        current_version: opt_view(req.current_version),
        status: req.status@,
        message: opt_view(req.message),
        core_installed: reported_installed(i.core_installed, req.core_status),
        core_version: reported_version(i.core_version, req.core_status),
        core_running: reported_running(i.core_running, req.core_status, pid_alive),
        core_uri: reported_uri(i.core_uri, req.core_status),
        last_heartbeat: stamp,
        registered_at: i.registered_at,
    }
}

/// A record after a heartbeat heard at `now`.
pub open spec fn touched_record(
    r: RecordView,
    req: AgentHeartbeatRequest,
    stamp: Seq<char>,
    now: u128,
    pid_alive: bool,
) -> RecordView {
    RecordView { info: touched_info(r.info, req, stamp, pid_alive), updated_at: now, ..r }
}

/// `touched_info`, then marked online: a status other than `online` is
/// replaced by `online` and its message dropped.
pub open spec fn beaten_info(
    i: AgentInfoView,
    req: AgentHeartbeatRequest,
    stamp: Seq<char>,
    pid_alive: bool,
) -> AgentInfoView {
    let t = touched_info(i, req, stamp, pid_alive);
    if t.status == "online"@ {
        t
    } else {
        AgentInfoView { status: "online"@, message: None, ..t }
    }
}

/// Whether an agent last heard from at `r.updated_at` counts as silent at `now`:
/// more than the timeout has passed (no time has passed if the clock went back).
pub open spec fn is_expired(r: RecordView, now: u128) -> bool {
    now > r.updated_at && now - r.updated_at > AGENT_TIMEOUT_NANOS
}

/// How an agent is listed at `now`: a silent agent is shown offline with the
/// message `heartbeat timeout`.
pub open spec fn listed_info(r: RecordView, now: u128) -> AgentInfoView {
    if is_expired(r, now) {
        AgentInfoView { status: "offline"@, message: Some("heartbeat timeout"@), ..r.info }
    } else {
        r.info
    }
}

/// The pid a heartbeat's core report asks to look up (see `pid_probe`).
pub fn pid_to_probe(core: &Option<CoreStatusReport>) -> (r: Option<u32>)
    ensures
        r == pid_probe(*core),
{
    match core {
        Some(c) => match (c.running, c.pid) {
            (None, Some(p)) => Some(p as u32),
            _ => None,
        },
        None => None,
    }
}

impl AgentRecord {
    /// A record for a newly registered agent, with the given id, token and times.
    pub fn from_parts(
        req: AgentRegisterRequest,
        owner: String,
        agent_id: String,
        token: String,
        stamp: String,
        now: u128,
    ) -> (r: Self)
        ensures
            r@ == fresh_record(req, owner@, agent_id@, token@, stamp@, now),
    {
        let registered_at = stamp.clone();
        let info = AgentInfo {
            agent_id,
            owner,
            hostname: req.hostname,
            public_ip: req.public_ip,
            arch: req.arch,
            os: req.os,
            current_version: req.current_version,
            status: String::from_str("online"),
            message: None,
            core_installed: false,
            core_version: None,
            core_running: false,
            core_uri: None,
            last_heartbeat: stamp,
            registered_at,
        };
        let r = AgentRecord { info, token, commands: Vec::new(), updated_at: now };
        assert(commands_view(r.commands@) =~= seq![]);
        r
    }

    /// A record for a newly registered agent: a fresh id `agent-<uuid>`, a
    /// fresh token (each UUID in its simple form), registered and heard from now.
    pub fn new(req: AgentRegisterRequest, owner: String) -> (r: Self)
        ensures
            exists|uuid: Seq<char>, token: Seq<char>, stamp: Seq<char>, now: u128|
                #![trigger fresh_record(req, owner@, agent_id_from(uuid), token, stamp, now)]
                is_simple_uuid(uuid) && is_simple_uuid(token) && r@ == fresh_record(
                    req,
                    owner@,
                    agent_id_from(uuid),
                    token,
                    stamp,
                    now,
                ),
    {
        let stamp = utc_now_rfc3339();
        let uuid = new_simple_uuid();
        let agent_id = concat_str("agent-", uuid.as_str());
        let token = new_simple_uuid();
        let now = clock_nanos();
        let ghost (u, t, st) = (uuid@, token@, stamp@);
        let r = Self::from_parts(req, owner, agent_id, token, stamp, now);
        assert(r@ == fresh_record(req, owner@, agent_id_from(u), t, st, now));
        r
    }

    /// Applies a heartbeat with the given heartbeat time, clock reading and
    /// answer to the liveness lookup of `pid_probe`.
    pub fn touch_with(
        &mut self,
        req: &AgentHeartbeatRequest,
        stamp: String,
        now: u128,
        pid_alive: bool,
    )
        ensures
            final(self)@ == touched_record(old(self)@, *req, stamp@, now, pid_alive),
    {
        self.info.public_ip = req.public_ip.clone();
        self.info.current_version = opt_string_copy(&req.current_version);
        self.info.status = req.status.clone();
        self.info.message = opt_string_copy(&req.message);
        self.info.last_heartbeat = stamp;
        match &req.core_status {
            Some(core) => {
                match core.installed {
                    Some(b) => {
                        self.info.core_installed = b;
                    },
                    None => {},
                }
                match core.running {
                    Some(b) => {
                        self.info.core_running = b;
                    },
                    None => match core.pid {
                        Some(_) => {
                            self.info.core_running = pid_alive;
                        },
                        None => {},
                    },
                }
                match &core.uri {
                    Some(u) => {
                        self.info.core_uri = Some(u.clone());
                    },
                    None => {},
                }
                match &core.version {
                    Some(v) => {
                        self.info.core_version = Some(v.clone());
                    },
                    None => {},
                }
            },
            None => {},
        }
        self.updated_at = now;
    }

    /// Applies a heartbeat now: the reported fields are taken over, and when
    /// the report names a pid but not whether the core runs, the process table
    /// is asked about that pid (off Linux every pid counts as running).
    pub fn touch(&mut self, req: &AgentHeartbeatRequest, on_linux: bool)
        ensures
            exists|stamp: Seq<char>, now: u128, alive: bool|
                final(self)@ == #[trigger] touched_record(old(self)@, *req, stamp, now, alive)
                    && (!on_linux && pid_probe(req.core_status) is Some ==> alive),
    {
        let stamp = utc_now_rfc3339();
        let alive = match pid_to_probe(&req.core_status) {
            Some(pid) => self.is_pid_running(pid, on_linux),
            None => false,
        };
        let now = clock_nanos();
        let ghost st = stamp@;
        self.touch_with(req, stamp, now, alive);
        assert(self@ == touched_record(old(self)@, *req, st, now, alive));
    }

    /// Whether the process `pid` exists on this machine: on Linux the process
    /// table under `/proc` is asked; elsewhere there is no such table and every
    /// pid counts as running.
    pub fn is_pid_running(&self, pid: u32, on_linux: bool) -> (r: bool)
        ensures
            !on_linux ==> r,
    {
        if on_linux {
            proc_entry_exists(pid)
        } else {
            true
        }
    }

    /// Whether the agent counts as silent at `now`.
    pub fn expired_at(&self, now: u128) -> (r: bool)
        ensures
            r == is_expired(self@, now),
    {
        now > self.updated_at && now - self.updated_at > AGENT_TIMEOUT_NANOS
    }

    /// Whether the agent counts as silent by the clock now: `expired_at` of the
    /// clock's reading, which nothing here constrains.
    pub fn expired(&self) -> bool {
        let now = clock_nanos();
        self.expired_at(now)
    }

    /// A copy of the record.
    pub fn duplicate(&self) -> (r: Self)
        ensures
            r@ == self@,
    {
        AgentRecord {
            info: self.info.duplicate(),
            token: self.token.clone(),
            commands: duplicate_commands(&self.commands),
            updated_at: self.updated_at,
        }
    }
}

/// The agents a store holds, by `(owner, agent id)`.
pub type StoreView = Map<(Seq<char>, Seq<char>), RecordView>;

/// What every store keeps true: a record sits under its own owner and id, and
/// no owner has two agents with the same hostname.
pub open spec fn store_wf(m: StoreView) -> bool {
    &&& forall|k: (Seq<char>, Seq<char>)| #[trigger]
        m.dom().contains(k) ==> m[k].info.owner == k.0 && m[k].info.agent_id == k.1
    &&& forall|k1: (Seq<char>, Seq<char>), k2: (Seq<char>, Seq<char>)|
        #![trigger m.dom().contains(k1), m.dom().contains(k2)]
        m.dom().contains(k1) && m.dom().contains(k2) && k1.0 == k2.0 && m[k1].info.hostname
            == m[k2].info.hostname ==> k1 == k2
}

/// Whether some owner has an agent with this id.
pub open spec fn has_agent(m: StoreView, agent_id: Seq<char>) -> bool {
    exists|o: Seq<char>| #[trigger] m.dom().contains((o, agent_id))
}

/// Whether the owner already has an agent with this hostname.
pub open spec fn has_hostname(m: StoreView, owner: Seq<char>, hostname: Seq<char>) -> bool {
    exists|k: (Seq<char>, Seq<char>)| #[trigger]
        m.dom().contains(k) && k.0 == owner && m[k].info.hostname == hostname
}

/// The key of the owner's agent with this hostname.
pub open spec fn hostname_key(m: StoreView, owner: Seq<char>, hostname: Seq<char>) -> (
    Seq<char>,
    Seq<char>,
) {
    choose|k: (Seq<char>, Seq<char>)| #[trigger]
        m.dom().contains(k) && k.0 == owner && m[k].info.hostname == hostname
}

/// A record after an accepted heartbeat heard at `now`.
pub open spec fn beaten_record(
    r: RecordView,
    req: AgentHeartbeatRequest,
    stamp: Seq<char>,
    now: u128,
    pid_alive: bool,
) -> RecordView {
    RecordView { info: beaten_info(r.info, req, stamp, pid_alive), updated_at: now, ..r }
}


/// The store and the answer `(agent id, token)` after registering `req` for
/// `owner`: an agent of the owner with the same hostname is answered with its
/// own id and token and nothing changes; otherwise a fresh record is stored
/// under `(owner, agent_id)`.
pub open spec fn register_spec(
    m: StoreView,
    owner: Seq<char>,
    req: AgentRegisterRequest,
    agent_id: Seq<char>,
    token: Seq<char>,
    stamp: Seq<char>,
    now: u128,
) -> (StoreView, (Seq<char>, Seq<char>)) {
    if has_hostname(m, owner, req.hostname@) {
        let k = hostname_key(m, owner, req.hostname@);
        (m, (k.1, m[k].token))
    } else {
        (
            m.insert((owner, agent_id), fresh_record(req, owner, agent_id, token, stamp, now)),
            (agent_id, token),
        )
    }
}

/// The store and the answer after a heartbeat for the agent under `key`:
/// accepted when the token matches, refused and without effect otherwise.
pub open spec fn heartbeat_spec(
    m: StoreView,
    key: (Seq<char>, Seq<char>),
    token: Seq<char>,
    req: AgentHeartbeatRequest,
    stamp: Seq<char>,
    now: u128,
    pid_alive: bool,
) -> (StoreView, bool) {
    if m[key].token == token {
        (m.insert(key, beaten_record(m[key], req, stamp, now, pid_alive)), true)
    } else {
        (m, false)
    }
}

/// The record under `key` with one more command queued.
pub open spec fn pushed(m: StoreView, key: (Seq<char>, Seq<char>), c: CommandView) -> StoreView {
    m.insert(key, RecordView { commands: m[key].commands.push(c), ..m[key] })
}

/// The record under `key` with its queue emptied.
pub open spec fn drained(m: StoreView, key: (Seq<char>, Seq<char>)) -> StoreView {
    m.insert(key, RecordView { commands: seq![], ..m[key] })
}

/// The record under `key` with the given core status.
pub open spec fn core_updated(
    m: StoreView,
    key: (Seq<char>, Seq<char>),
    installed: bool,
    version: Option<Seq<char>>,
    running: bool,
    uri: Option<Seq<char>>,
) -> StoreView {
    m.insert(
        key,
        RecordView {
            info: AgentInfoView {
                core_installed: installed,
                core_version: version,
                core_running: running,
                core_uri: uri,
                ..m[key].info
            },
            ..m[key]
        },
    )
}

/// `infos` lists, in some order and each once, the agents of `owner`, as they
/// are shown at `now`.
pub open spec fn lists_owner(m: StoreView, owner: Seq<char>, now: u128, infos: Seq<AgentInfoView>) -> bool {
    exists|ks: Seq<(Seq<char>, Seq<char>)>|
        #![trigger ks.len()]
        ks.no_duplicates() && ks.len() == infos.len() && (forall|k: (Seq<char>, Seq<char>)|
            #[trigger] ks.contains(k) <==> (m.dom().contains(k) && k.0 == owner)) && (forall|
            i: int,
        |
            0 <= i < ks.len() ==> #[trigger] infos[i] == listed_info(m[ks[i]], now))
}

/// Replacing a record by one with the same owner, id and hostname keeps a store well formed.
pub proof fn lemma_wf_same_identity(m: StoreView, k: (Seq<char>, Seq<char>), r: RecordView)
    requires
        store_wf(m),
        m.dom().contains(k),
        r.info.owner == m[k].info.owner,
        r.info.agent_id == m[k].info.agent_id,
        r.info.hostname == m[k].info.hostname,
    ensures
        store_wf(m.insert(k, r)),
{
    let n = m.insert(k, r);
    assert forall|k1: (Seq<char>, Seq<char>), k2: (Seq<char>, Seq<char>)|
        n.dom().contains(k1) && n.dom().contains(k2) && k1.0 == k2.0 && n[k1].info.hostname
            == n[k2].info.hostname implies k1 == k2 by {
        assert(m.dom().contains(k1) && m.dom().contains(k2));
        assert(n[k1].info.hostname == m[k1].info.hostname);
        assert(n[k2].info.hostname == m[k2].info.hostname);
    }
}


/// Storing an agent under a new `(owner, id)` (or over the record there) keeps a
/// store well formed, when the owner has no agent with its hostname.
pub proof fn lemma_wf_insert_new(m: StoreView, owner: Seq<char>, agent_id: Seq<char>, r: RecordView)
    requires
        store_wf(m),
        !has_hostname(m, owner, r.info.hostname),
        r.info.owner == owner,
        r.info.agent_id == agent_id,
    ensures
        store_wf(m.insert((owner, agent_id), r)),
{
    let key = (owner, agent_id);
    let n = m.insert(key, r);
    assert forall|k1: (Seq<char>, Seq<char>), k2: (Seq<char>, Seq<char>)|
        n.dom().contains(k1) && n.dom().contains(k2) && k1.0 == k2.0 && n[k1].info.hostname
            == n[k2].info.hostname implies k1 == k2 by {
        if k1 != key && k2 != key {
            assert(m.dom().contains(k1) && m.dom().contains(k2));
        } else if k1 == key && k2 != key {
            assert(m.dom().contains(k2) && k2.0 == owner && m[k2].info.hostname == r.info.hostname);
        } else if k2 == key && k1 != key {
            assert(m.dom().contains(k1) && k1.0 == owner && m[k1].info.hostname == r.info.hostname);
        }
    }
    assert forall|k: (Seq<char>, Seq<char>)| #[trigger]
        n.dom().contains(k) implies n[k].info.owner == k.0 && n[k].info.agent_id == k.1 by {
        if k != key {
            assert(m.dom().contains(k));
        }
    }
}

/// The agents of the server: a concurrent map from `(owner, agent id)` to record.
pub struct AgentStore {
    agents: DashMap<(String, String), AgentRecord>,
}

impl View for AgentStore {
    type V = StoreView;

    closed spec fn view(&self) -> StoreView {
        table_contents(self.agents)
    }
}

impl AgentStore {
    /// Every store keeps `store_wf`.
    #[verifier::type_invariant]
    spec fn inv(self) -> bool {
        store_wf(self@)
    }

    /// The store keeps `store_wf`.
    pub open spec fn wf(&self) -> bool {
        store_wf(self@)
    }

    /// An empty store.
    pub fn new() -> (s: Self)
        ensures
            s@ == Map::<(Seq<char>, Seq<char>), RecordView>::empty(),
            s.wf(),
    {
        AgentStore { agents: table_new() }
    }


    /// The id and token of the owner's agent with this hostname, if there is one.
    fn find_hostname(&self, owner: &String, hostname: &String) -> (r: Option<(String, String)>)
        requires
            self.wf(),
        ensures
            match r {
                Some(found) => has_hostname(self@, owner@, hostname@) && {
                    let k = hostname_key(self@, owner@, hostname@);
                    found.0@ == k.1 && found.1@ == self@[k].token
                },
                None => !has_hostname(self@, owner@, hostname@),
            },
    {
        let keys = table_keys(&self.agents);
        let mut i: usize = 0;
        while i < keys.len()
            invariant
                i <= keys.len(),
                store_wf(self@),
                forall|k: (Seq<char>, Seq<char>)|
                    self@.dom().contains(k) <==> keys_view(keys@).contains(k),
                forall|j: int|
                    0 <= j < i ==> !(#[trigger] keys_view(keys@)[j].0 == owner@ && self@[keys_view(
                        keys@,
                    )[j]].info.hostname == hostname@),
            decreases keys.len() - i,
        {
            let k = &keys[i];
            assert(keys_view(keys@)[i as int] == (k.0@, k.1@));
            assert(keys_view(keys@).contains((k.0@, k.1@)));
            if str_eq(k.0.as_str(), owner.as_str()) {
                match table_get(&self.agents, k) {
                    Some(rec) => {
                        if str_eq(rec.info.hostname.as_str(), hostname.as_str()) {
                            proof {
                                let kk = (k.0@, k.1@);
                                assert(self@.dom().contains(kk) && kk.0 == owner@
                                    && self@[kk].info.hostname == hostname@);
                                let hk = hostname_key(self@, owner@, hostname@);
                                assert(hk == kk);
                            }
                            return Some((k.1.clone(), rec.token.clone()));
                        }
                    },
                    None => {},
                }
            }
            i = i + 1;
        }
        proof {
            if has_hostname(self@, owner@, hostname@) {
                let k = choose|k: (Seq<char>, Seq<char>)| #[trigger]
                    self@.dom().contains(k) && k.0 == owner@ && self@[k].info.hostname == hostname@;
                assert(keys_view(keys@).contains(k));
                let j = choose|j: int|
                    0 <= j < keys_view(keys@).len() && keys_view(keys@)[j] == k;
                assert(keys_view(keys@)[j].0 == owner@);
            }
        }
        None
    }

    /// Stores `rec` under `(owner, id)`, where the owner has no agent with the
    /// record's hostname and the record carries that owner and id.
    fn insert_new(&mut self, owner: String, agent_id: String, rec: AgentRecord)
        requires
            old(self).wf(),
            !has_hostname(old(self)@, owner@, rec@.info.hostname),
            rec@.info.owner == owner@,
            rec@.info.agent_id == agent_id@,
        ensures
            final(self)@ == old(self)@.insert((owner@, agent_id@), rec@),
            final(self).wf(),
    {
        let ghost m = self@;
        let ghost key = (owner@, agent_id@);
        let ghost rv = rec@;
        proof {
            lemma_wf_insert_new(m, key.0, key.1, rv);
        }
        let mut t = table_new();
        std::mem::swap(&mut t, &mut self.agents);
        table_insert(&mut t, (owner, agent_id), rec);
        self.agents = t;
    }

    /// Registers `req` for `owner` with the given id, token and times (see `register_spec`).
    pub fn register_with(
        &mut self,
        owner: String,
        req: AgentRegisterRequest,
        agent_id: String,
        token: String,
        stamp: String,
        now: u128,
    ) -> (r: (String, String))
        ensures
            final(self).wf(),
            (final(self)@, (r.0@, r.1@)) == register_spec(
                old(self)@,
                owner@,
                req,
                agent_id@,
                token@,
                stamp@,
                now,
            ),
    {
        proof {
            use_type_invariant(&*self);
        }
        match self.find_hostname(&owner, &req.hostname) {
            Some(found) => found,
            None => {
                let rec = AgentRecord::from_parts(
                    req,
                    owner.clone(),
                    agent_id.clone(),
                    token.clone(),
                    stamp,
                    now,
                );
                let answer = (agent_id.clone(), token);
                self.insert_new(owner, agent_id, rec);
                answer
            },
        }
    }

    /// Registers `req` for `owner`: an agent of the owner with the same hostname
    /// is answered with its own id and token; otherwise a new agent is stored
    /// under a fresh id `agent-<uuid>` with a fresh token.
    pub fn register(&mut self, owner: String, req: AgentRegisterRequest) -> (r: (String, String))
        ensures
            final(self).wf(),
            exists|uuid: Seq<char>, token: Seq<char>, stamp: Seq<char>, now: u128|
                #![trigger register_spec(old(self)@, owner@, req, agent_id_from(uuid), token, stamp, now)]
                is_simple_uuid(uuid) && is_simple_uuid(token) && (final(self)@, (r.0@, r.1@))
                    == register_spec(old(self)@, owner@, req, agent_id_from(uuid), token, stamp, now),
            forall|a: Seq<char>|
                #[trigger] old(self)@.dom().contains((owner@, a)) && old(self)@[(owner@, a)].info.hostname
                    == req.hostname@ ==> r.0@ == a && r.1@ == old(self)@[(owner@, a)].token
                    && final(self)@ == old(self)@,
    {
        proof {
            use_type_invariant(&*self);
        }
        match self.find_hostname(&owner, &req.hostname) {
            Some(found) => {
                proof {
                    let w = seq!['0'; 32];
                    assert(is_simple_uuid(w));
                    assert((self@, (found.0@, found.1@)) == register_spec(
                        old(self)@,
                        owner@,
                        req,
                        agent_id_from(w),
                        w,
                        w,
                        0,
                    ));
                    assert forall|a: Seq<char>|
                        #[trigger] old(self)@.dom().contains((owner@, a)) && old(self)@[(owner@, a)].info.hostname
                            == req.hostname@ implies found.0@ == a && found.1@ == old(self)@[(owner@, a)].token by {
                        law_register_returns_stored(old(self)@, owner@, req, agent_id_from(w), w, w, 0, a);
                    }
                }
                found
            },
            None => {
                let ghost rq = req;
                let rec = AgentRecord::new(req, owner.clone());
                let ghost (uuid, token, stamp, now) = choose|
                    uuid: Seq<char>,
                    token: Seq<char>,
                    stamp: Seq<char>,
                    now: u128,
                |
                    #![trigger fresh_record(rq, owner@, agent_id_from(uuid), token, stamp, now)]
                    is_simple_uuid(uuid) && is_simple_uuid(token) && rec@ == fresh_record(
                        rq,
                        owner@,
                        agent_id_from(uuid),
                        token,
                        stamp,
                        now,
                    );
                proof {
                    assert forall|a: Seq<char>|
                        #[trigger] old(self)@.dom().contains((owner@, a)) implies old(self)@[(owner@, a)].info.hostname
                            != rq.hostname@ by {
                        if old(self)@[(owner@, a)].info.hostname == rq.hostname@ {
                            let k = (owner@, a);
                            assert(old(self)@.dom().contains(k) && k.0 == owner@
                                && old(self)@[k].info.hostname == rq.hostname@);
                        }
                    }
                }
                let agent_id = rec.info.agent_id.clone();
                let tok = rec.token.clone();
                let answer = (agent_id.clone(), tok);
                self.insert_new(owner, agent_id, rec);
                assert((self@, (answer.0@, answer.1@)) == register_spec(
                    old(self)@,
                    owner@,
                    rq,
                    agent_id_from(uuid),
                    token,
                    stamp,
                    now,
                ));
                answer
            },
        }
    }


    /// Writes back a record under a key it already sits under, with the same identity.
    fn put_back(&mut self, key: (String, String), rec: AgentRecord)
        requires
            old(self).wf(),
            old(self)@.dom().contains((key.0@, key.1@)),
            rec@.info.owner == old(self)@[(key.0@, key.1@)].info.owner,
            rec@.info.agent_id == old(self)@[(key.0@, key.1@)].info.agent_id,
            rec@.info.hostname == old(self)@[(key.0@, key.1@)].info.hostname,
        ensures
            final(self)@ == old(self)@.insert((key.0@, key.1@), rec@),
            final(self).wf(),
    {
        proof {
            lemma_wf_same_identity(self@, (key.0@, key.1@), rec@);
        }
        let mut t = table_new();
        std::mem::swap(&mut t, &mut self.agents);
        table_insert(&mut t, key, rec);
        self.agents = t;
    }

    /// Accepts a heartbeat for `agent_id` when the token matches, with the given
    /// heartbeat time, clock reading and answer to the liveness lookup (see `heartbeat_spec`).
    pub fn heartbeat_with(
        &mut self,
        agent_id: &str,
        token: &str,
        req: AgentHeartbeatRequest,
        stamp: String,
        now: u128,
        pid_alive: bool,
    ) -> (r: bool)
        ensures
            final(self).wf(),
            !has_agent(old(self)@, agent_id@) ==> !r && final(self)@ == old(self)@,
            has_agent(old(self)@, agent_id@) ==> exists|o: Seq<char>|
                #[trigger] old(self)@.dom().contains((o, agent_id@)) && (final(self)@, r)
                    == heartbeat_spec(
                    old(self)@,
                    (o, agent_id@),
                    token@,
                    req,
                    stamp@,
                    now,
                    pid_alive,
                ),
    {
        proof {
            use_type_invariant(&*self);
        }
        match self.locate(agent_id) {
            None => false,
            Some(key) => {
                let ghost k = (key.0@, key.1@);
                match table_get(&self.agents, &key) {
                    None => false,
                    Some(mut rec) => {
                        if !str_eq(rec.token.as_str(), token) {
                            assert(old(self)@.dom().contains(k));
                            return false;
                        }
                        rec.touch_with(&req, stamp, now, pid_alive);
                        if !str_eq(rec.info.status.as_str(), "online") {
                            rec.info.status = String::from_str("online");
                            rec.info.message = None;
                        }
                        self.put_back(key, rec);
                        assert(old(self)@.dom().contains(k));
                        true
                    },
                }
            },
        }
    }

    /// Accepts a heartbeat for `agent_id` when the token matches: the agent's
    /// report is taken over, it is marked online, and its heartbeat time and
    /// last-heard clock reading become the current ones. `on_linux` says whether
    /// the process table can be asked about a reported pid.
    pub fn heartbeat(&mut self, agent_id: &str, token: &str, req: AgentHeartbeatRequest, on_linux: bool) -> (r: bool)
        ensures
            final(self).wf(),
            !has_agent(old(self)@, agent_id@) ==> !r && final(self)@ == old(self)@,
            has_agent(old(self)@, agent_id@) ==> exists|
                o: Seq<char>,
                stamp: Seq<char>,
                now: u128,
                alive: bool,
            |
                #![trigger heartbeat_spec(old(self)@, (o, agent_id@), token@, req, stamp, now, alive)]
                old(self)@.dom().contains((o, agent_id@)) && (final(self)@, r) == heartbeat_spec(
                    old(self)@,
                    (o, agent_id@),
                    token@,
                    req,
                    stamp,
                    now,
                    alive,
                ) && (!on_linux && pid_probe(req.core_status) is Some ==> alive),
    {
        proof {
            use_type_invariant(&*self);
        }
        match self.locate(agent_id) {
            None => false,
            Some(key) => {
                let ghost k = (key.0@, key.1@);
                match table_get(&self.agents, &key) {
                    None => false,
                    Some(mut rec) => {
                        if !str_eq(rec.token.as_str(), token) {
                            assert(heartbeat_spec(old(self)@, k, token@, req, seq![], 0, true).1
                                == false);
                            return false;
                        }
                        let ghost before = rec@;
                        rec.touch(&req, on_linux);
                        let ghost (stamp, now, alive) = choose|
                            stamp: Seq<char>,
                            now: u128,
                            alive: bool,
                        | rec@ == #[trigger] touched_record(before, req, stamp, now, alive)
                            && (!on_linux && pid_probe(req.core_status) is Some ==> alive);
                        if !str_eq(rec.info.status.as_str(), "online") {
                            rec.info.status = String::from_str("online");
                            rec.info.message = None;
                        }
                        self.put_back(key, rec);
                        assert((self@, true) == heartbeat_spec(
                            old(self)@,
                            k,
                            token@,
                            req,
                            stamp,
                            now,
                            alive,
                        ));
                        true
                    },
                }
            },
        }
    }

    /// The information of some agent with this id, if any owner has one.
    pub fn get(&self, agent_id: &str) -> (r: Option<AgentInfo>)
        ensures
            r is None <==> !has_agent(self@, agent_id@),
            r matches Some(info) ==> exists|o: Seq<char>|
                #[trigger] self@.dom().contains((o, agent_id@)) && info@ == self@[(o, agent_id@)].info,
    {
        match self.locate(agent_id) {
            None => None,
            Some(key) => match table_get(&self.agents, &key) {
                None => None,
                Some(rec) => {
                    assert(self@.dom().contains((key.0@, agent_id@)));
                    Some(rec.info.duplicate())
                },
            },
        }
    }

    /// Queues a command for some agent with this id; false when no owner has one.
    pub fn push_command(&mut self, agent_id: &str, command: AgentCommand) -> (r: bool)
        ensures
            final(self).wf(),
            r == has_agent(old(self)@, agent_id@),
            !r ==> final(self)@ == old(self)@,
            r ==> exists|o: Seq<char>|
                #[trigger] old(self)@.dom().contains((o, agent_id@)) && final(self)@ == pushed(
                    old(self)@,
                    (o, agent_id@),
                    command@,
                ),
    {
        proof {
            use_type_invariant(&*self);
        }
        match self.locate(agent_id) {
            None => false,
            Some(key) => {
                let ghost k = (key.0@, key.1@);
                match table_get(&self.agents, &key) {
                    None => false,
                    Some(mut rec) => {
                        let ghost c = command@;
                        let ghost before = rec.commands@;
                        rec.commands.push(command);
                        assert(commands_view(rec.commands@) =~= commands_view(before).push(c));
                        self.put_back(key, rec);
                        assert(self@ =~= pushed(old(self)@, k, c));
                        true
                    },
                }
            },
        }
    }

    /// Hands out the queued commands of some agent with this id, oldest first,
    /// and empties its queue; nothing when no owner has such an agent.
    pub fn pop_commands(&mut self, agent_id: &str) -> (r: Vec<AgentCommand>)
        ensures
            final(self).wf(),
            !has_agent(old(self)@, agent_id@) ==> r@.len() == 0 && final(self)@ == old(self)@,
            has_agent(old(self)@, agent_id@) ==> exists|o: Seq<char>|
                #[trigger] old(self)@.dom().contains((o, agent_id@)) && commands_view(r@)
                    == old(self)@[(o, agent_id@)].commands && final(self)@ == drained(
                    old(self)@,
                    (o, agent_id@),
                ),
    {
        proof {
            use_type_invariant(&*self);
        }
        match self.locate(agent_id) {
            None => Vec::new(),
            Some(key) => {
                let ghost k = (key.0@, key.1@);
                match table_get(&self.agents, &key) {
                    None => Vec::new(),
                    Some(mut rec) => {
                        let cmds = duplicate_commands(&rec.commands);
                        rec.commands = Vec::new();
                        assert(commands_view(rec.commands@) =~= seq![]);
                        self.put_back(key, rec);
                        assert(self@ =~= drained(old(self)@, k));
                        cmds
                    },
                }
            },
        }
    }

    /// Removes the owner's agent with this id; true when there was one.
    pub fn delete(&mut self, owner: &str, agent_id: &str) -> (r: bool)
        ensures
            final(self).wf(),
            r == old(self)@.dom().contains((owner@, agent_id@)),
            final(self)@ == old(self)@.remove((owner@, agent_id@)),
    {
        proof {
            use_type_invariant(&*self);
        }
        let key = (String::from_str(owner), String::from_str(agent_id));
        let mut t = table_new();
        std::mem::swap(&mut t, &mut self.agents);
        let removed = table_remove(&mut t, &key);
        proof {
            law_delete_forgets(old(self)@, (key.0@, key.1@));
        }
        self.agents = t;
        removed.is_some()
    }

    /// Sets the core status of some agent with this id; nothing changes when no owner has one.
    pub fn update_core_status(
        &mut self,
        agent_id: &str,
        installed: bool,
        version: Option<String>,
        running: bool,
        uri: Option<String>,
    )
        ensures
            final(self).wf(),
            !has_agent(old(self)@, agent_id@) ==> final(self)@ == old(self)@,
            has_agent(old(self)@, agent_id@) ==> exists|o: Seq<char>|
                #[trigger] old(self)@.dom().contains((o, agent_id@)) && final(self)@ == core_updated(
                    old(self)@,
                    (o, agent_id@),
                    installed,
                    opt_view(version),
                    running,
                    opt_view(uri),
                ),
    {
        proof {
            use_type_invariant(&*self);
        }
        match self.locate(agent_id) {
            None => {},
            Some(key) => {
                let ghost k = (key.0@, key.1@);
                let ghost (v, u) = (opt_view(version), opt_view(uri));
                match table_get(&self.agents, &key) {
                    None => {},
                    Some(mut rec) => {
                        rec.info.core_installed = installed;
                        rec.info.core_version = version;
                        rec.info.core_running = running;
                        rec.info.core_uri = uri;
                        self.put_back(key, rec);
                        assert(self@ =~= core_updated(old(self)@, k, installed, v, running, u));
                    },
                }
            },
        }
    }

    /// The owner's agents as they are shown at `now`: silent ones as offline.
    pub fn list_by_owner_at(&self, owner: &str, now: u128) -> (r: Vec<AgentInfo>)
        ensures
            lists_owner(self@, owner@, now, infos_view(r@)),
    {
        let keys = table_keys(&self.agents);
        let mut out: Vec<AgentInfo> = Vec::new();
        let ghost mut ks: Seq<(Seq<char>, Seq<char>)> = seq![];
        let mut i: usize = 0;
        while i < keys.len()
            invariant
                i <= keys.len(),
                keys_view(keys@).no_duplicates(),
                forall|k: (Seq<char>, Seq<char>)|
                    self@.dom().contains(k) <==> keys_view(keys@).contains(k),
                ks.no_duplicates(),
                ks.len() == out@.len(),
                forall|k: (Seq<char>, Seq<char>)|
                    #[trigger] ks.contains(k) <==> (keys_view(keys@).subrange(0, i as int).contains(k)
                        && k.0 == owner@),
                forall|j: int|
                    0 <= j < ks.len() ==> #[trigger] infos_view(out@)[j] == listed_info(
                        self@[ks[j]],
                        now,
                    ),
            decreases keys.len() - i,
        {
            let k = &keys[i];
            let ghost kv = (k.0@, k.1@);
            let ghost pre = keys_view(keys@).subrange(0, i as int);
            let ghost post = keys_view(keys@).subrange(0, i + 1);
            let ghost ks0 = ks;
            assert(keys_view(keys@)[i as int] == kv);
            assert(post =~= pre.push(kv));
            proof {
                assert(!pre.contains(kv)) by {
                    if pre.contains(kv) {
                        let j = choose|j: int| 0 <= j < pre.len() && pre[j] == kv;
                        assert(keys_view(keys@)[j] == keys_view(keys@)[i as int]);
                    }
                }
                assert(!ks0.contains(kv));
                assert forall|x: (Seq<char>, Seq<char>)| #[trigger] post.contains(x) <==> (pre.contains(x) || x == kv) by {
                    if post.contains(x) {
                        let j = choose|j: int| 0 <= j < post.len() && post[j] == x;
                        if j < pre.len() {
                            assert(pre[j] == x);
                        }
                    }
                    if pre.contains(x) {
                        let j = choose|j: int| 0 <= j < pre.len() && pre[j] == x;
                        assert(post[j] == x);
                    }
                    if x == kv {
                        assert(post[i as int] == x);
                    }
                }
            }
            if str_eq(k.0.as_str(), owner) {
                assert(keys_view(keys@).contains(kv));
                match table_get(&self.agents, k) {
                    None => {},
                    Some(rec) => {
                        let mut info = rec.info.duplicate();
                        if rec.expired_at(now) {
                            info.status = String::from_str("offline");
                            info.message = Some(String::from_str("heartbeat timeout"));
                        }
                        let ghost before = out@;
                        out.push(info);
                        proof {
                            assert(infos_view(out@) =~= infos_view(before).push(listed_info(
                                self@[kv],
                                now,
                            )));
                            ks = ks.push(kv);
                            assert forall|x: (Seq<char>, Seq<char>)| #[trigger] ks.contains(x) <==> (ks0.contains(x) || x == kv) by {
                                if ks.contains(x) {
                                    let j = choose|j: int| 0 <= j < ks.len() && ks[j] == x;
                                    if j < ks0.len() {
                                        assert(ks0[j] == x);
                                    }
                                }
                                if ks0.contains(x) {
                                    let j = choose|j: int| 0 <= j < ks0.len() && ks0[j] == x;
                                    assert(ks[j] == x);
                                }
                                if x == kv {
                                    assert(ks[ks0.len() as int] == x);
                                }
                            }
                            assert forall|a: int, b: int| 0 <= a < b < ks.len() implies ks[a] != ks[b] by {
                                if b == ks0.len() {
                                    assert(ks0[a] == ks[a]);
                                    assert(ks0.contains(ks[a]));
                                } else {
                                    assert(ks0[a] == ks[a] && ks0[b] == ks[b]);
                                }
                            }
                        }
                    },
                }
            }
            i = i + 1;
        }
        assert(keys_view(keys@).subrange(0, keys.len() as int) =~= keys_view(keys@));
        assert(lists_owner(self@, owner@, now, infos_view(out@)));
        out
    }

    /// The owner's agents as they are shown now: silent ones as offline.
    pub fn list_by_owner(&self, owner: &str) -> (r: Vec<AgentInfo>)
        ensures
            exists|now: u128| lists_owner(self@, owner@, now, infos_view(r@)),
    {
        let now = clock_nanos();
        self.list_by_owner_at(owner, now)
    }

    /// The key of some agent with this id, if any owner has one.
    fn locate(&self, agent_id: &str) -> (r: Option<(String, String)>)
        ensures
            match r {
                Some(k) => self@.dom().contains((k.0@, k.1@)) && k.1@ == agent_id@,
                None => !has_agent(self@, agent_id@),
            },
    {
        let keys = table_keys(&self.agents);
        let mut i: usize = 0;
        while i < keys.len()
            invariant
                i <= keys.len(),
                forall|k: (Seq<char>, Seq<char>)|
                    self@.dom().contains(k) <==> keys_view(keys@).contains(k),
                forall|j: int| 0 <= j < i ==> keys_view(keys@)[j].1 != agent_id@,
            decreases keys.len() - i,
        {
            let k = &keys[i];
            if str_eq(k.1.as_str(), agent_id) {
                assert(keys_view(keys@)[i as int] == (k.0@, k.1@));
                return Some((k.0.clone(), k.1.clone()));
            }
            assert(keys_view(keys@)[i as int] == (k.0@, k.1@));
            i = i + 1;
        }
        proof {
            if has_agent(self@, agent_id@) {
                let o = choose|o: Seq<char>| #[trigger] self@.dom().contains((o, agent_id@));
                assert(keys_view(keys@).contains((o, agent_id@)));
                let j = choose|j: int| 0 <= j < keys_view(keys@).len() && keys_view(keys@)[j] == (o, agent_id@);
                assert(keys_view(keys@)[j].1 == agent_id@);
            }
        }
        None
    }
}

/// Holds the server's agent store.
pub struct AgentManager {
    pub store: AgentStore,
}

impl AgentManager {
    /// A manager with an empty store.
    pub fn new() -> (m: Self)
        ensures
            m.store@ == Map::<(Seq<char>, Seq<char>), RecordView>::empty(),
            m.store.wf(),
    {
        AgentManager { store: AgentStore::new() }
    }
}

impl Default for AgentStore {
    /// An empty store.
    fn default() -> (s: Self)
        ensures
            s@ == Map::<(Seq<char>, Seq<char>), RecordView>::empty(),
            s.wf(),
    {
        AgentStore::new()
    }
}

impl Default for AgentManager {
    /// A manager with an empty store.
    fn default() -> (m: Self)
        ensures
            m.store@ == Map::<(Seq<char>, Seq<char>), RecordView>::empty(),
            m.store.wf(),
    {
        AgentManager::new()
    }
}

/// The owner a registration is filed under: the one it names, else `default`.
pub open spec fn owner_of(req: AgentRegisterRequest) -> Seq<char> {
    match req.owner {
        Some(o) => o@,
        None => "default"@,
    }
}

/// Registers an agent under the owner it names (or `default`) and answers its id and token.
pub fn handle_register(manager: &mut AgentManager, req: AgentRegisterRequest) -> (r: AgentRegisterResponse)
    ensures
        final(manager).store.wf(),
        exists|uuid: Seq<char>, token: Seq<char>, stamp: Seq<char>, now: u128|
            #![trigger register_spec(old(manager).store@, owner_of(req), req, agent_id_from(uuid), token, stamp, now)]
            is_simple_uuid(uuid) && is_simple_uuid(token) && (final(manager).store@, (r.agent_id@, r.token@))
                == register_spec(
                old(manager).store@,
                owner_of(req),
                req,
                agent_id_from(uuid),
                token,
                stamp,
                now,
            ),
        forall|a: Seq<char>|
            #[trigger] old(manager).store@.dom().contains((owner_of(req), a))
                && old(manager).store@[(owner_of(req), a)].info.hostname == req.hostname@ ==> r.agent_id@
                == a && r.token@ == old(manager).store@[(owner_of(req), a)].token && final(manager).store@
                == old(manager).store@,
{
    let owner = match &req.owner {
        Some(o) => o.clone(),
        None => String::from_str("default"),
    };
    let ghost rq = req;
    assert(owner@ == owner_of(rq));
    let (agent_id, token) = manager.store.register(owner, req);
    proof {
        let (u, t, st, n) = choose|uu: Seq<char>, tk: Seq<char>, sp: Seq<char>, nw: u128|
            #![trigger register_spec(old(manager).store@, owner_of(rq), rq, agent_id_from(uu), tk, sp, nw)]
            is_simple_uuid(uu) && is_simple_uuid(tk) && (manager.store@, (agent_id@, token@))
                == register_spec(old(manager).store@, owner_of(rq), rq, agent_id_from(uu), tk, sp, nw);
        assert(register_spec(old(manager).store@, owner_of(rq), rq, agent_id_from(u), t, st, n) == (
            manager.store@,
            (agent_id@, token@),
        ));
    }
    AgentRegisterResponse { agent_id, token }
}

/// The answer to a heartbeat: refused ones carry the message `invalid agent_id or token`.
pub open spec fn heartbeat_answer(ok: bool) -> Option<Seq<char>> {
    if ok {
        None
    } else {
        Some("invalid agent_id or token"@)
    }
}

/// Applies an agent's heartbeat (see `AgentStore::heartbeat`) and answers whether it was accepted.
pub fn handle_heartbeat(manager: &mut AgentManager, req: AgentHeartbeatRequest, on_linux: bool) -> (r: AgentHeartbeatResponse)
    ensures
        final(manager).store.wf(),
        opt_view(r.message) == heartbeat_answer(r.ok),
        !has_agent(old(manager).store@, req.agent_id@) ==> !r.ok && final(manager).store@ == old(manager).store@,
        has_agent(old(manager).store@, req.agent_id@) ==> exists|
            o: Seq<char>,
            stamp: Seq<char>,
            now: u128,
            alive: bool,
        |
            #![trigger heartbeat_spec(old(manager).store@, (o, req.agent_id@), req.token@, req, stamp, now, alive)]
            old(manager).store@.dom().contains((o, req.agent_id@)) && (final(manager).store@, r.ok)
                == heartbeat_spec(
                old(manager).store@,
                (o, req.agent_id@),
                req.token@,
                req,
                stamp,
                now,
                alive,
            ) && (!on_linux && pid_probe(req.core_status) is Some ==> alive),
{
    let agent_id = req.agent_id.clone();
    let token = req.token.clone();
    let ok = manager.store.heartbeat(agent_id.as_str(), token.as_str(), req, on_linux);
    let message = if ok {
        None
    } else {
        Some(String::from_str("invalid agent_id or token"))
    };
    AgentHeartbeatResponse { ok, message }
}

/// Applies an agent's heartbeat with the given heartbeat time, clock reading
/// and answer to the liveness lookup of `pid_probe` (see
/// `AgentStore::heartbeat_with`), and answers whether it was accepted.
pub fn handle_heartbeat_with(
    manager: &mut AgentManager,
    req: AgentHeartbeatRequest,
    stamp: String,
    now: u128,
    pid_alive: bool,
) -> (r: AgentHeartbeatResponse)
    ensures
        final(manager).store.wf(),
        opt_view(r.message) == heartbeat_answer(r.ok),
        !has_agent(old(manager).store@, req.agent_id@) ==> !r.ok && final(manager).store@ == old(manager).store@,
        has_agent(old(manager).store@, req.agent_id@) ==> exists|o: Seq<char>|
            #[trigger] old(manager).store@.dom().contains((o, req.agent_id@)) && (final(manager).store@, r.ok)
                == heartbeat_spec(
                old(manager).store@,
                (o, req.agent_id@),
                req.token@,
                req,
                stamp@,
                now,
                pid_alive,
            ),
{
    let agent_id = req.agent_id.clone();
    let token = req.token.clone();
    let ok = manager.store.heartbeat_with(agent_id.as_str(), token.as_str(), req, stamp, now, pid_alive);
    let message = if ok {
        None
    } else {
        Some(String::from_str("invalid agent_id or token"))
    };
    AgentHeartbeatResponse { ok, message }
}

/// Hands an agent its queued commands (see `AgentStore::pop_commands`).
pub fn handle_get_commands(manager: &mut AgentManager, agent_id: String) -> (r: AgentCommandsResponse)
    ensures
        final(manager).store.wf(),
        !has_agent(old(manager).store@, agent_id@) ==> r.commands@.len() == 0 && final(manager).store@ == old(manager).store@,
        has_agent(old(manager).store@, agent_id@) ==> exists|o: Seq<char>|
            #[trigger] old(manager).store@.dom().contains((o, agent_id@)) && commands_view(
                r.commands@,
            ) == old(manager).store@[(o, agent_id@)].commands && final(manager).store@ == drained(
                old(manager).store@,
                (o, agent_id@),
            ),
{
    let commands = manager.store.pop_commands(agent_id.as_str());
    AgentCommandsResponse { commands }
}

/// Every acknowledgement is answered `ok`.
pub fn handle_ack_command(req: AgentCommandAckRequest) -> (r: AgentCommandAckResponse)
    ensures
        r.ok,
{
    AgentCommandAckResponse { ok: true }
}

/// The agents of the signed-in user (see `AgentStore::list_by_owner`).
pub fn handle_list_agents(manager: &AgentManager, username: String) -> (r: AgentListResponse)
    ensures
        exists|now: u128| lists_owner(manager.store@, username@, now, infos_view(r.agents@)),
{
    let agents = manager.store.list_by_owner(username.as_str());
    let ghost n = choose|now: u128| lists_owner(manager.store@, username@, now, infos_view(agents@));
    let r = AgentListResponse { agents };
    assert(lists_owner(manager.store@, username@, n, infos_view(r.agents@)));
    r
}

/// Deletes one of the signed-in user's agents; false (not found) when the user has no such agent.
pub fn handle_delete_agent(manager: &mut AgentManager, username: String, agent_id: String) -> (r: bool)
    ensures
        final(manager).store.wf(),
        r == old(manager).store@.dom().contains((username@, agent_id@)),
        final(manager).store@ == old(manager).store@.remove((username@, agent_id@)),
{
    manager.store.delete(username.as_str(), agent_id.as_str())
}

/// The command a user's request becomes, with the given id and creation time.
pub open spec fn command_of(req: AgentCommandRequest, id: Seq<char>, created_at: Seq<char>) -> CommandView {
    CommandView {
        id: id,
        command_type: req.command_type@,
        payload: req.payload@,
        created_at: created_at,
    }
}

/// Queues a user's command for an agent, under the given id and creation
/// time; `None` (not found) when no owner has the agent.
pub fn send_command_with(
    manager: &mut AgentManager,
    agent_id: String,
    req: AgentCommandRequest,
    id: String,
    created_at: String,
) -> (r: Option<AgentCommandResponse>)
    ensures
        final(manager).store.wf(),
        r is Some <==> has_agent(old(manager).store@, agent_id@),
        r is None ==> final(manager).store@ == old(manager).store@,
        r matches Some(resp) ==> {
            &&& resp.command_id@ == id@
            &&& resp.command_type@ == req.command_type@
            &&& resp.payload@ == req.payload@
            &&& resp.created_at@ == created_at@
            &&& exists|o: Seq<char>|
                #[trigger] old(manager).store@.dom().contains((o, agent_id@)) && final(manager).store@ == pushed(
                    old(manager).store@,
                    (o, agent_id@),
                    command_of(req, id@, created_at@),
                )
        },
{
    let command = AgentCommand { id, command_type: req.command_type, payload: req.payload, created_at };
    let kept = command.duplicate();
    let ok = manager.store.push_command(agent_id.as_str(), command);
    if !ok {
        return None;
    }
    Some(
        AgentCommandResponse {
            command_id: kept.id,
            command_type: kept.command_type,
            payload: kept.payload,
            created_at: kept.created_at,
        },
    )
}

/// Queues a user's command for an agent under a fresh id (a UUID in its simple form) and the
/// current time; `None` (not found) when no owner has the agent.
pub fn handle_send_command(manager: &mut AgentManager, agent_id: String, req: AgentCommandRequest) -> (r: Option<AgentCommandResponse>)
    ensures
        final(manager).store.wf(),
        r is Some <==> has_agent(old(manager).store@, agent_id@),
        r is None ==> final(manager).store@ == old(manager).store@,
        r matches Some(resp) ==> {
            &&& is_simple_uuid(resp.command_id@)
            &&& resp.command_type@ == req.command_type@
            &&& resp.payload@ == req.payload@
            &&& exists|o: Seq<char>|
                #[trigger] old(manager).store@.dom().contains((o, agent_id@)) && final(manager).store@ == pushed(
                    old(manager).store@,
                    (o, agent_id@),
                    command_of(req, resp.command_id@, resp.created_at@),
                )
        },
{
    let id = new_simple_uuid();
    let created_at = utc_now_rfc3339();
    send_command_with(manager, agent_id, req, id, created_at)
}

/// Registration is idempotent: registering again for the same owner with the
/// same hostname answers the same id and token and changes nothing.
pub proof fn law_register_idempotent(
    m: StoreView,
    owner: Seq<char>,
    req1: AgentRegisterRequest,
    id1: Seq<char>,
    token1: Seq<char>,
    stamp1: Seq<char>,
    now1: u128,
    req2: AgentRegisterRequest,
    id2: Seq<char>,
    token2: Seq<char>,
    stamp2: Seq<char>,
    now2: u128,
)
    requires
        store_wf(m),
        req2.hostname@ == req1.hostname@,
    ensures
        ({
            let (m1, answer) = register_spec(m, owner, req1, id1, token1, stamp1, now1);
            register_spec(m1, owner, req2, id2, token2, stamp2, now2) == (m1, answer)
        }),
{
    let h = req1.hostname@;
    let (m1, answer) = register_spec(m, owner, req1, id1, token1, stamp1, now1);
    if !has_hostname(m, owner, h) {
        let r = fresh_record(req1, owner, id1, token1, stamp1, now1);
        lemma_wf_insert_new(m, owner, id1, r);
        let key = (owner, id1);
        assert(m1.dom().contains(key) && key.0 == owner && m1[key].info.hostname == h);
        assert(has_hostname(m1, owner, h));
        let k = hostname_key(m1, owner, h);
        assert(k == key);
    }
}

/// A registered agent is in the store under its owner and the id it was
/// answered, with the token it was answered and the hostname it gave; the
/// store stays well formed.
pub proof fn law_registered_agent_is_stored(
    m: StoreView,
    owner: Seq<char>,
    req: AgentRegisterRequest,
    agent_id: Seq<char>,
    token: Seq<char>,
    stamp: Seq<char>,
    now: u128,
)
    requires
        store_wf(m),
    ensures
        ({
            let (m1, (id, tok)) = register_spec(m, owner, req, agent_id, token, stamp, now);
            &&& store_wf(m1)
            &&& m1.dom().contains((owner, id))
            &&& m1[(owner, id)].token == tok
            &&& m1[(owner, id)].info.hostname == req.hostname@
        }),
{
    let h = req.hostname@;
    if has_hostname(m, owner, h) {
        let k = hostname_key(m, owner, h);
        assert(m.dom().contains(k));
    } else {
        lemma_wf_insert_new(m, owner, agent_id, fresh_record(req, owner, agent_id, token, stamp, now));
    }
}


/// A registered agent's heartbeat with the id and token it was answered is
/// accepted, whichever record of that id the store finds, as long as no other
/// owner has an agent with the same id.
pub proof fn law_register_then_heartbeat(
    m: StoreView,
    owner: Seq<char>,
    req: AgentRegisterRequest,
    agent_id: Seq<char>,
    token: Seq<char>,
    stamp: Seq<char>,
    now: u128,
    beat: AgentHeartbeatRequest,
    beat_stamp: Seq<char>,
    beat_now: u128,
    alive: bool,
)
    requires
        store_wf(m),
    ensures
        ({
            let (m1, (id, tok)) = register_spec(m, owner, req, agent_id, token, stamp, now);
            forall|o: Seq<char>|
                #![trigger m1.dom().contains((o, id))]
                m1.dom().contains((o, id)) && (forall|o2: Seq<char>|
                    o2 != owner ==> !m1.dom().contains((o2, id))) ==> heartbeat_spec(
                    m1,
                    (o, id),
                    tok,
                    beat,
                    beat_stamp,
                    beat_now,
                    alive,
                ).1
        }),
{
    law_registered_agent_is_stored(m, owner, req, agent_id, token, stamp, now);
}

/// A heartbeat with the agent's token is accepted: the agent is online, heard
/// from at `now`, at the time `stamp`, and keeps its identity, token and queue.
pub proof fn law_heartbeat_accepted(
    m: StoreView,
    key: (Seq<char>, Seq<char>),
    req: AgentHeartbeatRequest,
    stamp: Seq<char>,
    now: u128,
    alive: bool,
)
    requires
        store_wf(m),
        m.dom().contains(key),
    ensures
        ({
            let (m1, ok) = heartbeat_spec(m, key, m[key].token, req, stamp, now, alive);
            &&& ok
            &&& store_wf(m1)
            &&& m1[key].info.status == "online"@
            &&& m1[key].updated_at == now
            &&& m1[key].info.last_heartbeat == stamp
            &&& m1[key].info.agent_id == m[key].info.agent_id
            &&& m1[key].info.owner == m[key].info.owner
            &&& m1[key].info.hostname == m[key].info.hostname
            &&& m1[key].token == m[key].token
            &&& m1[key].commands == m[key].commands
        }),
{
    lemma_wf_same_identity(m, key, beaten_record(m[key], req, stamp, now, alive));
}

/// A heartbeat with another token is refused and changes nothing.
pub proof fn law_heartbeat_wrong_token(
    m: StoreView,
    key: (Seq<char>, Seq<char>),
    token: Seq<char>,
    req: AgentHeartbeatRequest,
    stamp: Seq<char>,
    now: u128,
    alive: bool,
)
    requires
        m.dom().contains(key),
        m[key].token != token,
    ensures
        heartbeat_spec(m, key, token, req, stamp, now, alive) == (m, false),
{
}

/// Commands come out in the order they were queued, each once: the queue
/// handed out after a command is queued is the earlier queue followed by that
/// command, and the queue is empty afterwards.
pub proof fn law_commands_in_order_once(m: StoreView, key: (Seq<char>, Seq<char>), c: CommandView)
    requires
        store_wf(m),
        m.dom().contains(key),
    ensures
        ({
            let m1 = pushed(m, key, c);
            let m2 = drained(m1, key);
            &&& m1[key].commands == m[key].commands.push(c)
            &&& m2[key].commands.len() == 0
            &&& store_wf(m1) && store_wf(m2)
            &&& drained(m2, key) == m2
        }),
{
    let m1 = pushed(m, key, c);
    lemma_wf_same_identity(m, key, m1[key]);
    lemma_wf_same_identity(m1, key, RecordView { commands: seq![], ..m1[key] });
    let m2 = drained(m1, key);
    assert(drained(m2, key) =~= m2);
}

/// An agent just heard from is listed with the status its heartbeat left it
/// (online); one silent for longer than the timeout is listed offline with
/// the message `heartbeat timeout`.
pub proof fn law_listing_follows_timeout(r: RecordView, req: AgentHeartbeatRequest, stamp: Seq<char>, now: u128, later: u128, alive: bool)
    ensures
        listed_info(beaten_record(r, req, stamp, now, alive), now).status == "online"@,
        later > now && later - now > AGENT_TIMEOUT_NANOS ==> ({
            let shown = listed_info(beaten_record(r, req, stamp, now, alive), later);
            shown.status == "offline"@ && shown.message == Some("heartbeat timeout"@)
        }),
{
}

/// Deleting an agent forgets exactly that agent and keeps the store well formed.
pub proof fn law_delete_forgets(m: StoreView, key: (Seq<char>, Seq<char>))
    requires
        store_wf(m),
    ensures
        !m.remove(key).dom().contains(key),
        forall|k: (Seq<char>, Seq<char>)| k != key && m.dom().contains(k) ==> #[trigger] m.remove(key).dom().contains(k) && m.remove(key)[k] == m[k],
        store_wf(m.remove(key)),
{
    let n = m.remove(key);
    assert forall|k1: (Seq<char>, Seq<char>), k2: (Seq<char>, Seq<char>)|
        n.dom().contains(k1) && n.dom().contains(k2) && k1.0 == k2.0 && n[k1].info.hostname
            == n[k2].info.hostname implies k1 == k2 by {
        assert(m.dom().contains(k1) && m.dom().contains(k2));
    }
    assert forall|k: (Seq<char>, Seq<char>)| #[trigger]
        n.dom().contains(k) implies n[k].info.owner == k.0 && n[k].info.agent_id == k.1 by {
        assert(m.dom().contains(k));
    }
}

/// One change a store can undergo, as the store's operations make it: a
/// registration, an accepted or refused heartbeat, a queued command, a handed-out
/// queue, a core-status update or a deletion.
pub enum StoreOp {
    Register {
        owner: Seq<char>,
        req: AgentRegisterRequest,
        agent_id: Seq<char>,
        token: Seq<char>,
        stamp: Seq<char>,
        now: u128,
    },
    Heartbeat {
        key: (Seq<char>, Seq<char>),
        token: Seq<char>,
        beat: AgentHeartbeatRequest,
        stamp: Seq<char>,
        now: u128,
        alive: bool,
    },
    Push { key: (Seq<char>, Seq<char>), command: CommandView },
    Drain { key: (Seq<char>, Seq<char>) },
    CoreUpdate {
        key: (Seq<char>, Seq<char>),
        installed: bool,
        version: Option<Seq<char>>,
        running: bool,
        uri: Option<Seq<char>>,
    },
    Delete { key: (Seq<char>, Seq<char>) },
}

/// The store after `op`; an operation on an agent the store lacks changes nothing.
pub open spec fn apply_op(m: StoreView, op: StoreOp) -> StoreView {
    match op {
        StoreOp::Register { owner, req, agent_id, token, stamp, now } =>
            register_spec(m, owner, req, agent_id, token, stamp, now).0,
        StoreOp::Heartbeat { key, token, beat, stamp, now, alive } =>
            if m.dom().contains(key) { heartbeat_spec(m, key, token, beat, stamp, now, alive).0 } else { m },
        StoreOp::Push { key, command } =>
            if m.dom().contains(key) { pushed(m, key, command) } else { m },
        StoreOp::Drain { key } =>
            if m.dom().contains(key) { drained(m, key) } else { m },
        StoreOp::CoreUpdate { key, installed, version, running, uri } =>
            if m.dom().contains(key) { core_updated(m, key, installed, version, running, uri) } else { m },
        StoreOp::Delete { key } => m.remove(key),
    }
}

/// The store after each of `ops` in turn.
pub open spec fn apply_ops(m: StoreView, ops: Seq<StoreOp>) -> StoreView
    decreases ops.len(),
{
    if ops.len() == 0 {
        m
    } else {
        apply_ops(apply_op(m, ops[0]), ops.drop_first())
    }
}

/// Whether `op` leaves the agent under `key` in place: it does not delete it,
/// and a registration does not store a new agent under the same key.
pub open spec fn spares(op: StoreOp, key: (Seq<char>, Seq<char>)) -> bool {
    match op {
        StoreOp::Register { owner, agent_id, .. } => (owner, agent_id) != key,
        StoreOp::Delete { key: k } => k != key,
        _ => true,
    }
}

/// Registering with a hostname the owner already uses answers that agent's id
/// and token and changes nothing.
pub proof fn law_register_returns_stored(
    m: StoreView,
    owner: Seq<char>,
    req: AgentRegisterRequest,
    agent_id: Seq<char>,
    token: Seq<char>,
    stamp: Seq<char>,
    now: u128,
    existing: Seq<char>,
)
    requires
        store_wf(m),
        m.dom().contains((owner, existing)),
        m[(owner, existing)].info.hostname == req.hostname@,
    ensures
        register_spec(m, owner, req, agent_id, token, stamp, now) == (
            m,
            (existing, m[(owner, existing)].token),
        ),
{
    let key = (owner, existing);
    assert(m.dom().contains(key) && key.0 == owner && m[key].info.hostname == req.hostname@);
    assert(has_hostname(m, owner, req.hostname@));
    let k = hostname_key(m, owner, req.hostname@);
    assert(m.dom().contains(k) && m.dom().contains(key));
    assert(k == key);
}

/// Every operation keeps a store well formed, and one that spares an agent
/// keeps it stored with its hostname and token.
pub proof fn law_op_keeps_agent(m: StoreView, op: StoreOp, key: (Seq<char>, Seq<char>))
    requires
        store_wf(m),
    ensures
        store_wf(apply_op(m, op)),
        m.dom().contains(key) && spares(op, key) ==> {
            let n = apply_op(m, op);
            &&& n.dom().contains(key)
            &&& n[key].info.hostname == m[key].info.hostname
            &&& n[key].token == m[key].token
        },
{
    match op {
        StoreOp::Register { owner, req, agent_id, token, stamp, now } => {
            if !has_hostname(m, owner, req.hostname@) {
                lemma_wf_insert_new(m, owner, agent_id, fresh_record(req, owner, agent_id, token, stamp, now));
            }
        },
        StoreOp::Heartbeat { key: k, token, beat, stamp, now, alive } => {
            if m.dom().contains(k) {
                lemma_wf_same_identity(m, k, beaten_record(m[k], beat, stamp, now, alive));
            }
        },
        StoreOp::Push { key: k, command } => {
            if m.dom().contains(k) {
                lemma_wf_same_identity(m, k, RecordView { commands: m[k].commands.push(command), ..m[k] });
            }
        },
        StoreOp::Drain { key: k } => {
            if m.dom().contains(k) {
                lemma_wf_same_identity(m, k, RecordView { commands: seq![], ..m[k] });
            }
        },
        StoreOp::CoreUpdate { key: k, installed, version, running, uri } => {
            if m.dom().contains(k) {
                let n = core_updated(m, k, installed, version, running, uri);
                lemma_wf_same_identity(m, k, n[k]);
            }
        },
        StoreOp::Delete { key: k } => {
            law_delete_forgets(m, k);
        },
    }
}

/// Operations that spare an agent keep the store well formed and keep that
/// agent stored with its hostname and token.
pub proof fn law_ops_keep_agent(m: StoreView, ops: Seq<StoreOp>, key: (Seq<char>, Seq<char>))
    requires
        store_wf(m),
        m.dom().contains(key),
        forall|i: int| 0 <= i < ops.len() ==> spares(#[trigger] ops[i], key),
    ensures
        store_wf(apply_ops(m, ops)),
        apply_ops(m, ops).dom().contains(key),
        apply_ops(m, ops)[key].info.hostname == m[key].info.hostname,
        apply_ops(m, ops)[key].token == m[key].token,
    decreases ops.len(),
{
    if ops.len() > 0 {
        assert(spares(ops[0], key));
        law_op_keeps_agent(m, ops[0], key);
        let rest = ops.drop_first();
        assert forall|i: int| 0 <= i < rest.len() implies spares(#[trigger] rest[i], key) by {
            assert(rest[i] == ops[i + 1]);
        }
        law_ops_keep_agent(apply_op(m, ops[0]), rest, key);
    }
}

/// Registration stays idempotent across other calls: once an owner's agent is
/// registered, registering again with the same hostname answers the same id
/// and token and changes nothing, whatever heartbeats, commands, core updates,
/// other registrations and deletions of other agents came in between.
pub proof fn law_register_idempotent_across(
    m: StoreView,
    owner: Seq<char>,
    req1: AgentRegisterRequest,
    id1: Seq<char>,
    token1: Seq<char>,
    stamp1: Seq<char>,
    now1: u128,
    ops: Seq<StoreOp>,
    req2: AgentRegisterRequest,
    id2: Seq<char>,
    token2: Seq<char>,
    stamp2: Seq<char>,
    now2: u128,
)
    requires
        store_wf(m),
        req2.hostname@ == req1.hostname@,
        forall|i: int| 0 <= i < ops.len() ==> spares(
            #[trigger] ops[i],
            (owner, register_spec(m, owner, req1, id1, token1, stamp1, now1).1.0),
        ),
    ensures
        ({
            let (m1, answer) = register_spec(m, owner, req1, id1, token1, stamp1, now1);
            let m2 = apply_ops(m1, ops);
            register_spec(m2, owner, req2, id2, token2, stamp2, now2) == (m2, answer)
        }),
{
    let (m1, (a, t)) = register_spec(m, owner, req1, id1, token1, stamp1, now1);
    law_registered_agent_is_stored(m, owner, req1, id1, token1, stamp1, now1);
    law_ops_keep_agent(m1, ops, (owner, a));
    let m2 = apply_ops(m1, ops);
    law_register_returns_stored(m2, owner, req2, id2, token2, stamp2, now2, a);
}

/// A newly registered agent is stored with what its request reported: under
/// its owner and the id it was answered, with the answered token, the
/// request's hostname, address, architecture, operating system and version,
/// online with no message and no core reported, registered and last heard at
/// the same moment, with no commands queued; every other agent is untouched.
pub proof fn law_new_agent_keeps_request(
    m: StoreView,
    owner: Seq<char>,
    req: AgentRegisterRequest,
    agent_id: Seq<char>,
    token: Seq<char>,
    stamp: Seq<char>,
    now: u128,
)
    requires
        store_wf(m),
        !has_hostname(m, owner, req.hostname@),
    ensures
        ({
            let (m1, (id, tok)) = register_spec(m, owner, req, agent_id, token, stamp, now);
            let i = m1[(owner, id)].info;
            &&& id == agent_id && tok == token
            &&& m1.dom() == m.dom().insert((owner, agent_id))
            &&& m1[(owner, id)].token == token
            &&& i.agent_id == agent_id && i.owner == owner
            &&& i.hostname == req.hostname@
            &&& i.public_ip == req.public_ip@
            &&& i.arch == req.arch@
            &&& i.os == req.os@
            &&& i.current_version == opt_view(req.current_version)
            &&& i.status == "online"@ && i.message is None
            &&& !i.core_installed && !i.core_running && i.core_version is None && i.core_uri is None
            &&& i.last_heartbeat == stamp && i.registered_at == stamp
            &&& m1[(owner, id)].commands.len() == 0
            &&& m1[(owner, id)].updated_at == now
            &&& forall|k: (Seq<char>, Seq<char>)|
                #[trigger] m.dom().contains(k) && k != (owner, agent_id) ==> m1[k] == m[k]
        }),
{
    let (m1, _) = register_spec(m, owner, req, agent_id, token, stamp, now);
    assert(m1.dom() =~= m.dom().insert((owner, agent_id)));
}

} // verus!
