//! The agent's side of the protocol: when it registers, and what it sends to
//! which URL of the server.
use vstd::prelude::*;
use crate::agent_api::{AgentCommandAckRequest, AgentHeartbeatRequest, AgentRegisterRequest, CoreStatusReport};
use crate::config::AgentConfig;
use crate::agent_api::{heartbeat_spec, store_wf, StoreView};
use crate::ip_monitor::{reports_core, MonitorView};
use crate::text::{concat_str, opt_string_copy, opt_view};

verus! {

/// A command as the agent receives it; `payload` is the JSON text of its arguments.
pub struct AgentCommand {
    pub id: String,
    pub command_type: String,
    pub payload: String,
    pub created_at: String,
}

pub struct AgentCommandsResponse {
    pub commands: Vec<AgentCommand>,
}

/// The agent's settings together with the id and token the server gave it.
pub struct WebClient {
    config: AgentConfig,
    agent_id: String,
    token: String,
}

pub struct WebClientView {
    pub server_url: Seq<char>,
    pub arch: Option<Seq<char>>,
    pub owner: Option<Seq<char>>,
    pub agent_id: Seq<char>,
    pub token: Seq<char>,
}

impl View for WebClient {
    type V = WebClientView;

    closed spec fn view(&self) -> WebClientView {
        WebClientView {
            server_url: self.config.server_url@,
            arch: opt_view(self.config.arch),
            owner: opt_view(self.config.owner),
            agent_id: self.agent_id@,
            token: self.token@,
        }
    }
}

/// Whether the agent still has to register: it lacks a token or an id.
pub open spec fn must_register(w: WebClientView) -> bool {
    w.token.len() == 0 || w.agent_id.len() == 0
}

impl WebClient {
    /// A client for the configured server, holding the configured token (if
    /// any) and no agent id yet.
    pub fn new(config: AgentConfig) -> (w: Self)
        ensures
            w@.server_url == config.server_url@,
            w@.arch == opt_view(config.arch),
            w@.owner == opt_view(config.owner),
            w@.agent_id.len() == 0,
            w@.token == (match config.token {
                Some(t) => t@,
                None => Seq::<char>::empty(),
            }),
    {
        let token = match &config.token {
            Some(t) => t.clone(),
            None => String::new(),
        };
        WebClient { config, agent_id: String::new(), token }
    }

    pub fn agent_id(&self) -> (r: &str)
        ensures
            r@ == self@.agent_id,
    {
        self.agent_id.as_str()
    }

    pub fn token(&self) -> (r: &str)
        ensures
            r@ == self@.token,
    {
        self.token.as_str()
    }

    /// Whether a registration has to come first.
    pub fn needs_registration(&self) -> (r: bool)
        ensures
            r == must_register(self@),
    {
        self.token.as_str().is_empty() || self.agent_id.as_str().is_empty()
    }

    /// `<server>/api/v1/agent/register`.
    pub fn register_url(&self) -> (r: String)
        ensures
            r@ == self@.server_url + "/api/v1/agent/register"@,
    {
        concat_str(self.config.server_url.as_str(), "/api/v1/agent/register")
    }

    /// `<server>/api/v1/agent/heartbeat`.
    pub fn heartbeat_url(&self) -> (r: String)
        ensures
            r@ == self@.server_url + "/api/v1/agent/heartbeat"@,
    {
        concat_str(self.config.server_url.as_str(), "/api/v1/agent/heartbeat")
    }

    /// `<server>/api/v1/agent/commands/<agent id>`.
    pub fn commands_url(&self) -> (r: String)
        ensures
            r@ == self@.server_url + "/api/v1/agent/commands/"@ + self@.agent_id,
    {
        let head = concat_str(self.config.server_url.as_str(), "/api/v1/agent/commands/");
        concat_str(head.as_str(), self.agent_id.as_str())
    }

    /// `<server>/api/v1/agent/commands/ack`.
    pub fn ack_url(&self) -> (r: String)
        ensures
            r@ == self@.server_url + "/api/v1/agent/commands/ack"@,
    {
        concat_str(self.config.server_url.as_str(), "/api/v1/agent/commands/ack")
    }

    /// The registration: this machine's hostname and OS, the configured
    /// architecture (else this machine's), the configured owner, no public IP
    /// and no version.
    pub fn register_request(&self, hostname: String, os: String, machine_arch: String) -> (r: AgentRegisterRequest)
        ensures
            r.hostname@ == hostname@,
            r.public_ip@.len() == 0,
            r.arch@ == (match self@.arch {
                Some(a) => a,
                None => machine_arch@,
            }),
            r.os@ == os@,
            r.current_version is None,
            opt_view(r.owner) == self@.owner,
    {
        let arch = match &self.config.arch {
            Some(a) => a.clone(),
            None => machine_arch,
        };
        AgentRegisterRequest {
            hostname,
            public_ip: String::new(),
            arch,
            os,
            current_version: None,
            owner: opt_string_copy(&self.config.owner),
        }
    }

    /// Takes over what the server's registration answer holds: its `agent_id`
    /// and its `token`, each when present. Answers whether a token came, in
    /// which case the settings are to be saved.
    pub fn apply_register_response(&mut self, agent_id: Option<String>, token: Option<String>) -> (save: bool)
        ensures
            save == token is Some,
            final(self)@.server_url == old(self)@.server_url,
            final(self)@.arch == old(self)@.arch,
            final(self)@.owner == old(self)@.owner,
            final(self)@.agent_id == (match agent_id {
                Some(a) => a@,
                None => old(self)@.agent_id,
            }),
            final(self)@.token == (match token {
                Some(t) => t@,
                None => old(self)@.token,
            }),
    {
        match agent_id {
            Some(a) => {
                self.agent_id = a;
            },
            None => {},
        }
        match token {
            Some(t) => {
                self.token = t;
                true
            },
            None => false,
        }
    }

    /// The heartbeat to send, once registered: none without a token; else the
    /// id, token and address, status `running`, and the core report.
    pub fn heartbeat_request(&self, ip: &str, core_status: Option<CoreStatusReport>) -> (r: Option<AgentHeartbeatRequest>)
        ensures
            r is None <==> self@.token.len() == 0,
            r matches Some(req) ==> {
                &&& req.agent_id@ == self@.agent_id
                &&& req.token@ == self@.token
                &&& req.public_ip@ == ip@
                &&& req.current_version is None
                &&& req.status@ == "running"@
                &&& req.message is None
                &&& req.core_status == core_status
            },
    {
        if self.token.as_str().is_empty() {
            return None;
        }
        Some(
            AgentHeartbeatRequest {
                agent_id: self.agent_id.clone(),
                token: self.token.clone(),
                public_ip: String::from_str(ip),
                current_version: None,
                status: String::from_str("running"),
                message: None,
                core_status,
            },
        )
    }

    /// Whether the agent asks the server for commands: only once it has an id.
    pub fn polls_commands(&self) -> (r: bool)
        ensures
            r == (self@.agent_id.len() > 0),
    {
        !self.agent_id.as_str().is_empty()
    }

    /// The acknowledgement of a command: none without an id; else the id,
    /// token, command id and an empty JSON object as result.
    pub fn ack_request(&self, command_id: &str) -> (r: Option<AgentCommandAckRequest>)
        ensures
            r is None <==> self@.agent_id.len() == 0,
            r matches Some(ack) ==> {
                &&& ack.agent_id@ == self@.agent_id
                &&& ack.token@ == self@.token
                &&& ack.command_id@ == command_id@
                &&& ack.result@ == "{}"@
            },
    {
        if self.agent_id.as_str().is_empty() {
            return None;
        }
        Some(
            AgentCommandAckRequest {
                agent_id: self.agent_id.clone(),
                token: self.token.clone(),
                command_id: String::from_str(command_id),
                result: String::from_str("{}"),
            },
        )
    }
}

/// What the agent reports about its core is what the server shows once it
/// accepts the heartbeat: whether the core is installed, whether it runs, its
/// URI, and the agent's address.
pub proof fn law_core_report_reaches_server(
    m: StoreView,
    key: (Seq<char>, Seq<char>),
    v: MonitorView,
    report: CoreStatusReport,
    req: AgentHeartbeatRequest,
    stamp: Seq<char>,
    now: u128,
    alive: bool,
)
    requires
        store_wf(m),
        m.dom().contains(key),
        reports_core(report, v),
        req.core_status == Some(report),
        req.token@ == m[key].token,
    ensures
        ({
            let (m1, ok) = heartbeat_spec(m, key, req.token@, req, stamp, now, alive);
            &&& ok
            &&& m1[key].info.core_running == (v.current_pid is Some)
            &&& m1[key].info.core_uri == Some(v.uri)
            &&& m1[key].info.core_installed == report.installed->0
            &&& m1[key].info.public_ip == req.public_ip@
        }),
{
}

} // verus!
