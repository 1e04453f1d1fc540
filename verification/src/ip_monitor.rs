//! The agent's decisions: when to (re)start or stop `easytier-core`, what it
//! reports about it, and how a command from the server is carried out.
use vstd::prelude::*;
use vstd::utf8::encode_utf8;
use crate::agent_api::CoreStatusReport;
use crate::config::AgentConfig;
use crate::network::{first_address, first_field, prefix_len_of, LineField};
use crate::process::{ProcessManager, ProcessManagerView};
use crate::suffix::{hex2, octets, parse_u8_exec, suffix_bytes, xor_hex, xor_hex_exec};
use crate::system::path_is_file;
use crate::text::{chars_of, concat_str, decimal_text, opt_view, str_eq, string_from, u32_text, u64_text};
use crate::web_client::{WebClient, WebClientView};

verus! {

/// The agent: its settings, its link to the server, how it runs the core, the
/// pid of the core it started, and the address and hostname it last saw.
pub struct IpMonitor {
    config: AgentConfig,
    web: WebClient,
    pm: ProcessManager,
    current_pid: Option<u32>,
    last_ip: String,
    last_hostname: String,
}

pub struct MonitorView {
    pub bin_path: Seq<char>,
    pub uri: Seq<char>,
    pub key: Seq<char>,
    pub arch: Option<Seq<char>>,
    pub check_interval: u64,
    pub web: WebClientView,
    pub pm: ProcessManagerView,
    pub current_pid: Option<u32>,
    pub last_ip: Seq<char>,
    pub last_hostname: Seq<char>,
}

impl View for IpMonitor {
    type V = MonitorView;

    closed spec fn view(&self) -> MonitorView {
        MonitorView {
            bin_path: self.config.bin_path@,
            uri: self.config.uri@,
            key: self.config.key@,
            arch: opt_view(self.config.arch),
            check_interval: self.config.check_interval,
            web: self.web@,
            pm: self.pm@,
            current_pid: self.current_pid,
            last_ip: self.last_ip@,
            last_hostname: self.last_hostname@,
        }
    }
}

/// How an attempt to start the core ended: started with a pid, not started,
/// or failed.
pub enum StartOutcome {
    Started(u32),
    NotStarted,
    Failed,
}

/// Stop the core with pid `stop` (if any), then start it with hostname `start` (if any).
pub struct CoreRestart {
    pub stop: Option<u32>,
    pub start: Option<String>,
}

/// What a command from the server asks of the agent, besides the
/// acknowledgement that always follows.
pub enum CommandPlan {
    /// Stop and start the core again.
    Restart(CoreRestart),
    /// Download and install the core in the given version (the latest when none).
    Install { version: Option<String> },
    /// Stop the core (pid `stop`), then remove it; its config stays when `keep_config`.
    Uninstall { stop: Option<u32>, keep_config: bool },
    /// Stop the core (pid `stop`).
    Stop { stop: Option<u32> },
    /// An unknown command: nothing to do.
    Ignore,
}

/// After the network was read as `ip` and `hostname`: the hostname is kept;
/// when the address changed, the running core (if any) is to be stopped and a
/// core started under the new hostname. The pid and address stay until a start succeeds.
pub open spec fn network_step(v: MonitorView, ip: Seq<char>, hostname: Seq<char>) -> (MonitorView, Option<(Option<u32>, Seq<char>)>) {
    let v2 = MonitorView { last_hostname: hostname, ..v };
    if ip != v.last_ip {
        (v2, Some((v.current_pid, hostname)))
    } else {
        (v2, None)
    }
}

/// After a start for address `ip` ended: a started core's pid and the address are remembered.
pub open spec fn started_step(v: MonitorView, ip: Seq<char>, outcome: StartOutcome) -> MonitorView {
    match outcome {
        StartOutcome::Started(pid) => MonitorView { current_pid: Some(pid), last_ip: ip, ..v },
        _ => v,
    }
}

/// A restart: the running core (if any) is stopped and forgotten; a core is
/// started again under the last hostname, if there is one.
pub open spec fn restart_step(v: MonitorView) -> (MonitorView, (Option<u32>, Option<Seq<char>>)) {
    (
        MonitorView { current_pid: None, ..v },
        (v.current_pid, if v.last_hostname.len() > 0 { Some(v.last_hostname) } else { None }),
    )
}

/// After a restart's start ended: a started core's pid is remembered.
pub open spec fn restarted_step(v: MonitorView, outcome: StartOutcome) -> MonitorView {
    match outcome {
        StartOutcome::Started(pid) => MonitorView { current_pid: Some(pid), ..v },
        _ => v,
    }
}

/// The view of a restart plan.
pub open spec fn restart_view(r: CoreRestart) -> (Option<u32>, Option<Seq<char>>) {
    (r.stop, opt_view(r.start))
}

/// A version as the download wants it: with a leading `v`.
pub open spec fn normalized_version(v: Seq<char>) -> Seq<char> {
    if v.len() > 0 && v[0] == 'v' {
        v
    } else {
        seq!['v'] + v
    }
}

/// The core's release archive on GitHub for a version and architecture.
pub open spec fn download_url(version: Seq<char>, arch: Seq<char>) -> Seq<char> {
    "https://github.com/EasyTier/EasyTier/releases/download/"@ + version + "/easytier-linux-"@ + arch
        + "-"@ + version + ".zip"@
}

/// Whether computing the hostname suffix would fail on an empty key: the
/// output offers an address, there are bytes to encode, and the key has none.
pub open spec fn suffix_needs_key(stdout: Seq<char>, key: Seq<char>) -> bool {
    match first_address(stdout) {
        Some(ip) => suffix_bytes(ip, prefix_len_of(stdout)).len() > 0 && encode_utf8(key).len() == 0,
        None => false,
    }
}

/// The hostname the core is started under: `<hostname>-<suffix>`.
pub open spec fn node_name(stdout: Seq<char>, hostname: Seq<char>, key: Seq<char>) -> Seq<char> {
    let ip = first_address(stdout)->0;
    let bytes = suffix_bytes(ip, prefix_len_of(stdout));
    hostname + seq!['-'] + xor_hex(bytes, encode_utf8(key), bytes.len())
}

/// The core status the agent reports in state `v`: installed (as the disk says),
/// running exactly when it holds a pid, that pid, and the configured URI.
pub open spec fn reports_core(r: CoreStatusReport, v: MonitorView) -> bool {
    &&& r.installed is Some
    &&& r.running == Some(v.current_pid is Some)
    &&& r.pid == (match v.current_pid {
        Some(p) => Some(p as u64),
        None => None,
    })
    &&& opt_view(r.uri) == Some(v.uri)
    &&& r.version is None
}

impl IpMonitor {
    /// A monitor that has not yet seen an address and runs no core.
    pub fn new(config: AgentConfig, web: WebClient, pm: ProcessManager) -> (m: Self)
        ensures
            m@.bin_path == config.bin_path@,
            m@.uri == config.uri@,
            m@.key == config.key@,
            m@.arch == opt_view(config.arch),
            m@.check_interval == config.check_interval,
            m@.web == web@,
            m@.pm == pm@,
            m@.current_pid is None,
            m@.last_ip.len() == 0,
            m@.last_hostname.len() == 0,
    {
        IpMonitor {
            config,
            web,
            pm,
            current_pid: None,
            last_ip: String::new(),
            last_hostname: String::new(),
        }
    }

    pub fn web(&self) -> (r: &WebClient)
        ensures
            r@ == self@.web,
    {
        &self.web
    }

    /// Takes over the server's registration answer (see `WebClient::apply_register_response`).
    pub fn apply_register_response(&mut self, agent_id: Option<String>, token: Option<String>) -> (save: bool)
        ensures
            save == token is Some,
            final(self)@.web.server_url == old(self)@.web.server_url,
            final(self)@.web.arch == old(self)@.web.arch,
            final(self)@.web.owner == old(self)@.web.owner,
            final(self)@.web.agent_id == (match agent_id {
                Some(a) => a@,
                None => old(self)@.web.agent_id,
            }),
            final(self)@.web.token == (match token {
                Some(t) => t@,
                None => old(self)@.web.token,
            }),
            final(self)@ == (MonitorView { web: final(self)@.web, ..old(self)@ }),
    {
        self.web.apply_register_response(agent_id, token)
    }

    pub fn pm(&self) -> (r: &ProcessManager)
        ensures
            r@ == self@.pm,
    {
        &self.pm
    }

    pub fn current_pid(&self) -> (r: Option<u32>)
        ensures
            r == self@.current_pid,
    {
        self.current_pid
    }

    pub fn last_ip(&self) -> (r: &str)
        ensures
            r@ == self@.last_ip,
    {
        self.last_ip.as_str()
    }

    pub fn last_hostname(&self) -> (r: &str)
        ensures
            r@ == self@.last_hostname,
    {
        self.last_hostname.as_str()
    }

    pub fn key(&self) -> (r: &str)
        ensures
            r@ == self@.key,
    {
        self.config.key.as_str()
    }

    pub fn bin_path(&self) -> (r: &str)
        ensures
            r@ == self@.bin_path,
    {
        self.config.bin_path.as_str()
    }

    /// Whether the address is due to be checked again: at least the configured
    /// interval (in seconds) has passed since the last check.
    pub fn check_due(&self, elapsed_nanos: u128) -> (r: bool)
        ensures
            r == (elapsed_nanos >= self@.check_interval as u128 * 1_000_000_000),
    {
        elapsed_nanos >= self.config.check_interval as u128 * 1_000_000_000
    }

    /// Whether the address is due to be checked, given the time since the last
    /// check: always before the first check, else as `check_due` says.
    pub fn check_due_since(&self, elapsed_nanos: Option<u128>) -> (r: bool)
        ensures
            r == (match elapsed_nanos {
                Some(e) => e >= self@.check_interval as u128 * 1_000_000_000,
                None => true,
            }),
    {
        match elapsed_nanos {
            Some(e) => self.check_due(e),
            None => true,
        }
    }

    /// Whether the core's binary is a file on disk.
    pub fn is_core_installed(&self) -> bool {
        path_is_file(self.config.bin_path.as_str())
    }

    /// The hostname suffix: the address octets and the prefix length, each
    /// XOR-ed with the key's bytes in turn, as upper-case hex.
    pub fn encrypt(&self, ip: &str, mask: &str, key: &str) -> (r: String)
        requires
            suffix_bytes(ip@, mask@).len() > 0 ==> encode_utf8(key@).len() > 0,
        ensures
            r@ == xor_hex(suffix_bytes(ip@, mask@), encode_utf8(key@), suffix_bytes(ip@, mask@).len()),
    {
        let ip_chars = chars_of(ip);
        let mut parts = octets(ip_chars.as_slice());
        let mask_chars = chars_of(mask);
        let ghost before = parts@;
        match parse_u8_exec(mask_chars.as_slice()) {
            Some(m) => parts.push(m),
            None => {},
        }
        assert(parts@ =~= suffix_bytes(ip@, mask@));
        let key_bytes = key.as_bytes();
        let hex = xor_hex_exec(parts.as_slice(), key_bytes);
        string_from(hex.as_slice())
    }


    /// Whether computing the hostname from this output would need key bytes the
    /// key does not have (see `suffix_needs_key`).
    pub fn identity_needs_key(&self, stdout: &str) -> (r: bool)
        ensures
            r == suffix_needs_key(stdout@, self@.key),
    {
        let text = chars_of(stdout);
        match first_field(text.as_slice(), LineField::Address) {
            None => false,
            Some(ip) => {
                let mask = match first_field(text.as_slice(), LineField::PrefixLen) {
                    Some(m) => m,
                    None => vec!['2', '4'],
                };
                assert(mask@ =~= prefix_len_of(stdout@));
                let mut parts = octets(ip.as_slice());
                match parse_u8_exec(mask.as_slice()) {
                    Some(m) => parts.push(m),
                    None => {},
                }
                assert(parts@ =~= suffix_bytes(ip@, mask@));
                parts.len() > 0 && self.config.key.as_str().as_bytes().len() == 0
            },
        }
    }

    /// From the output of `ip -4 addr show` and the machine's hostname: the
    /// address, the prefix length, and the hostname the core runs under.
    /// `None` when the output offers no address.
    pub fn network_identity(&self, stdout: &str, hostname: &str) -> (r: Option<(String, String, String)>)
        requires
            !suffix_needs_key(stdout@, self@.key),
        ensures
            r is None <==> first_address(stdout@) is None,
            r matches Some(t) ==> {
                &&& Some(t.0@) == first_address(stdout@)
                &&& t.1@ == prefix_len_of(stdout@)
                &&& t.2@ == node_name(stdout@, hostname@, self@.key)
            },
    {
        let text = chars_of(stdout);
        let ip = match first_field(text.as_slice(), LineField::Address) {
            None => {
                return None;
            },
            Some(a) => string_from(a.as_slice()),
        };
        let mask = match first_field(text.as_slice(), LineField::PrefixLen) {
            Some(m) => string_from(m.as_slice()),
            None => String::from_str("24"),
        };
        proof {
            reveal_strlit("24");
        }
        assert(mask@ == prefix_len_of(stdout@));
        let suffix = self.encrypt(ip.as_str(), mask.as_str(), self.config.key.as_str());
        let head = concat_str(hostname, "-");
        let calculated = concat_str(head.as_str(), suffix.as_str());
        proof {
            reveal_strlit("-");
        }
        assert(calculated@ =~= node_name(stdout@, hostname@, self@.key));
        Some((ip, mask, calculated))
    }

    /// The network was read as `ip` and `hostname` (see `network_step`).
    pub fn on_network(&mut self, ip: &str, hostname: &str) -> (r: Option<CoreRestart>)
        ensures
            final(self)@ == network_step(old(self)@, ip@, hostname@).0,
            match (r, network_step(old(self)@, ip@, hostname@).1) {
                (Some(plan), Some(p)) => plan.stop == p.0 && (plan.start matches Some(h) && h@ == p.1),
                (None, None) => true,
                _ => false,
            },
    {
        self.last_hostname = String::from_str(hostname);
        if !str_eq(ip, self.last_ip.as_str()) {
            Some(CoreRestart { stop: self.current_pid, start: Some(String::from_str(hostname)) })
        } else {
            None
        }
    }

    /// A start for address `ip` ended (see `started_step`).
    pub fn on_core_started(&mut self, ip: &str, outcome: StartOutcome)
        ensures
            final(self)@ == started_step(old(self)@, ip@, outcome),
    {
        match outcome {
            StartOutcome::Started(pid) => {
                self.current_pid = Some(pid);
                self.last_ip = String::from_str(ip);
            },
            _ => {},
        }
    }

    /// What the heartbeat reports about the core, given whether its binary is
    /// installed: that answer, whether the agent runs it and under which pid,
    /// and the URI.
    pub fn core_status_with(&self, installed: bool) -> (r: CoreStatusReport)
        ensures
            reports_core(r, self@),
            r.installed == Some(installed),
    {
        let pid = match self.current_pid {
            Some(p) => Some(p as u64),
            None => None,
        };
        CoreStatusReport {
            installed: Some(installed),
            running: Some(self.current_pid.is_some()),
            pid,
            uri: Some(self.config.uri.clone()),
            version: None,
        }
    }

    /// What the heartbeat reports about the core: whether its binary is a file
    /// on disk (see `is_core_installed`), whether the agent runs it and under
    /// which pid, and the URI.
    pub fn core_status(&self) -> (r: CoreStatusReport)
        ensures
            reports_core(r, self@),
    {
        let installed = self.is_core_installed();
        self.core_status_with(installed)
    }

    /// Stops and forgets the running core, and plans a start under the last
    /// hostname (see `restart_step`).
    pub fn restart_core(&mut self) -> (r: CoreRestart)
        ensures
            (final(self)@, restart_view(r)) == restart_step(old(self)@),
    {
        let stop = self.current_pid;
        self.current_pid = None;
        let start = if self.last_hostname.as_str().is_empty() {
            None
        } else {
            Some(self.last_hostname.clone())
        };
        CoreRestart { stop, start }
    }

    /// A restart's start ended (see `restarted_step`).
    pub fn on_core_restarted(&mut self, outcome: StartOutcome)
        ensures
            final(self)@ == restarted_step(old(self)@, outcome),
    {
        match outcome {
            StartOutcome::Started(pid) => {
                self.current_pid = Some(pid);
            },
            _ => {},
        }
    }

    /// Stops and forgets the running core; returns its pid.
    fn stop_core(&mut self) -> (r: Option<u32>)
        ensures
            r == old(self)@.current_pid,
            final(self)@ == (MonitorView { current_pid: None, ..old(self)@ }),
    {
        let stop = self.current_pid;
        self.current_pid = None;
        stop
    }

    /// Decides what a command of the given type asks; `version` and
    /// `keep_config` are what its payload holds under those names (a string
    /// and a boolean), when it does.
    pub fn plan_command(&mut self, command_type: &str, version: Option<String>, keep_config: Option<bool>) -> (r: CommandPlan)
        ensures
            command_type@ == "restart"@ ==> (r matches CommandPlan::Restart(plan) && (final(self)@, restart_view(plan)) == restart_step(old(self)@)),
            command_type@ == "install"@ ==> (r matches CommandPlan::Install { version: v } && opt_view(v) == opt_view(version) && final(self)@ == old(self)@),
            command_type@ == "uninstall"@ ==> (r matches CommandPlan::Uninstall { stop, keep_config: keep }
                && stop == old(self)@.current_pid && keep == (match keep_config {
                    Some(b) => b,
                    None => false,
                }) && final(self)@ == (MonitorView { current_pid: None, ..old(self)@ })),
            command_type@ == "stop"@ ==> (r matches CommandPlan::Stop { stop } && stop == old(self)@.current_pid
                && final(self)@ == (MonitorView { current_pid: None, ..old(self)@ })),
            command_type@ != "restart"@ && command_type@ != "install"@ && command_type@ != "uninstall"@
                && command_type@ != "stop"@ ==> (r is Ignore && final(self)@ == old(self)@),
    {
        proof {
            reveal_strlit("restart");
            reveal_strlit("install");
            reveal_strlit("uninstall");
            reveal_strlit("stop");
            assert("restart"@[0] == 'r' && "install"@[0] == 'i' && "uninstall"@[0] == 'u'
                && "stop"@[0] == 's');
            assert("restart"@ != "install"@ && "restart"@ != "uninstall"@ && "restart"@ != "stop"@);
            assert("install"@ != "uninstall"@ && "install"@ != "stop"@ && "uninstall"@ != "stop"@);
        }
        if str_eq(command_type, "restart") {
            CommandPlan::Restart(self.restart_core())
        } else if str_eq(command_type, "install") {
            CommandPlan::Install { version }
        } else if str_eq(command_type, "uninstall") {
            let stop = self.stop_core();
            let keep = match keep_config {
                Some(b) => b,
                None => false,
            };
            CommandPlan::Uninstall { stop, keep_config: keep }
        } else if str_eq(command_type, "stop") {
            let stop = self.stop_core();
            CommandPlan::Stop { stop }
        } else {
            CommandPlan::Ignore
        }
    }

    /// After a successful install: a running core is restarted on the new
    /// binary (see `restart_step`); with none running nothing happens.
    pub fn after_install(&mut self) -> (r: Option<CoreRestart>)
        ensures
            old(self)@.current_pid is None ==> r is None && final(self)@ == old(self)@,
            old(self)@.current_pid is Some ==> (r matches Some(plan) && (final(self)@, restart_view(plan))
                == restart_step(old(self)@)),
    {
        if self.current_pid.is_some() {
            Some(self.restart_core())
        } else {
            None
        }
    }

    /// The architecture to install for: the configured one, else this machine's.
    pub fn install_arch(&self, machine_arch: String) -> (r: String)
        ensures
            r@ == (match self@.arch {
                Some(a) => a,
                None => machine_arch@,
            }),
    {
        match &self.config.arch {
            Some(a) => a.clone(),
            None => machine_arch,
        }
    }
}

/// The version an install asks for: a given non-empty version; `None` when
/// none or an empty one was given, and the latest release is to be looked up.
pub fn requested_version(version: Option<&str>) -> (r: Option<String>)
    ensures
        match version {
            Some(v) => if v@.len() > 0 {
                r matches Some(s) && s@ == v@
            } else {
                r is None
            },
            None => r is None,
        },
{
    match version {
        Some(v) => if v.is_empty() {
            None
        } else {
            Some(String::from_str(v))
        },
        None => None,
    }
}

/// The tag of the latest release, or `v2.6.4` when the answer holds none.
pub fn latest_tag_or_default(tag: Option<String>) -> (r: String)
    ensures
        r@ == (match tag {
            Some(t) => t@,
            None => "v2.6.4"@,
        }),
{
    match tag {
        Some(t) => t,
        None => String::from_str("v2.6.4"),
    }
}

/// A version with a leading `v` (added when missing).
pub fn normalize_version(v: &str) -> (r: String)
    ensures
        r@ == normalized_version(v@),
{
    let cs = chars_of(v);
    if cs.len() > 0 && cs[0] == 'v' {
        String::from_str(v)
    } else {
        proof {
            reveal_strlit("v");
        }
        concat_str("v", v)
    }
}

/// The URL of the core's release archive for a version and architecture.
pub fn core_download_url(version: &str, arch: &str) -> (r: String)
    ensures
        r@ == download_url(version@, arch@),
{
    let a = concat_str("https://github.com/EasyTier/EasyTier/releases/download/", version);
    let b = concat_str(a.as_str(), "/easytier-linux-");
    let c = concat_str(b.as_str(), arch);
    let d = concat_str(c.as_str(), "-");
    let e = concat_str(d.as_str(), version);
    let f = concat_str(e.as_str(), ".zip");
    f
}

/// The directory the release archive unpacks into: `easytier-linux-<arch>`.
pub fn archive_dir_name(arch: &str) -> (r: String)
    ensures
        r@ == "easytier-linux-"@ + arch@,
{
    concat_str("easytier-linux-", arch)
}

/// What `std::path::Path::parent` gives for a path: its directory part, if it
/// has one (`None` for a root or an empty path).
pub uninterp spec fn path_parent_of(path: Seq<char>) -> Option<Seq<char>>;

/// `Path::new(path).parent()`, as text. What the directory part is follows
/// std's component rules and is named, not written out: `path_parent_of`.
#[verifier::external_body]
fn path_parent(path: &str) -> (r: Option<String>)
    ensures
        opt_view(r) == path_parent_of(path@),
{
    match std::path::Path::new(path).parent() {
        Some(p) => Some(p.to_string_lossy().into_owned()),
        None => None,
    }
}

/// The directory a core binary is installed into, given the directory part of
/// its path: that part when it is not empty, else `/usr/local/bin`.
pub open spec fn install_dir_for(parent: Option<Seq<char>>) -> Seq<char> {
    match parent {
        Some(p) => if p.len() > 0 {
            p
        } else {
            "/usr/local/bin"@
        },
        None => "/usr/local/bin"@,
    }
}

/// The install directory for a binary whose path has the directory part `parent`.
pub fn install_dir_from_parent(parent: Option<String>) -> (r: String)
    ensures
        r@ == install_dir_for(opt_view(parent)),
{
    match parent {
        Some(p) => if p.as_str().is_empty() {
            String::from_str("/usr/local/bin")
        } else {
            p
        },
        None => String::from_str("/usr/local/bin"),
    }
}

/// The directory the core binary at `bin_path` is installed into: the
/// directory of the path, or `/usr/local/bin` when the path names none.
pub fn install_dir(bin_path: &str) -> (r: String)
    ensures
        r@ == install_dir_for(path_parent_of(bin_path@)),
{
    let parent = path_parent(bin_path);
    install_dir_from_parent(parent)
}

/// What `std::path::Path::join` gives for a base path and a name: the name
/// appended as a new component.
pub uninterp spec fn path_joined(base: Seq<char>, name: Seq<char>) -> Seq<char>;

/// `Path::new(base).join(name)`, as text. Where a separator goes follows std's
/// path rules and is named, not written out: `path_joined`.
#[verifier::external_body]
fn path_join(base: &str, name: &str) -> (r: String)
    ensures
        r@ == path_joined(base@, name@),
{
    std::path::Path::new(base).join(name).to_string_lossy().into_owned()
}

/// Where the command-line tool sits beside a core binary: `easytier-cli` in the
/// directory of the binary's path, when the path has one.
pub open spec fn cli_path_for(bin_path: Seq<char>) -> Option<Seq<char>> {
    match path_parent_of(bin_path) {
        Some(dir) => Some(path_joined(dir, "easytier-cli"@)),
        None => None,
    }
}

/// The path of `easytier-cli` beside the core binary at `bin_path`, removed
/// with the binary when an uninstall does not keep the configuration.
pub fn cli_path(bin_path: &str) -> (r: Option<String>)
    ensures
        opt_view(r) == cli_path_for(bin_path@),
{
    match path_parent(bin_path) {
        Some(dir) => Some(path_join(dir.as_str(), "easytier-cli")),
        None => None,
    }
}

/// The scratch directory an install unpacks into:
/// `/tmp/easytier-agent-install-<pid>-<seconds>-<version>-<arch>-<nonce>`.
pub open spec fn install_temp_dir_for(
    pid: u32,
    secs: u64,
    version: Seq<char>,
    arch: Seq<char>,
    nonce: u32,
) -> Seq<char> {
    "/tmp/easytier-agent-install-"@ + decimal_text(pid as nat) + "-"@ + decimal_text(secs as nat)
        + "-"@ + version + "-"@ + arch + "-"@ + decimal_text(nonce as nat)
}

/// The scratch directory for an install by process `pid` at `secs` seconds
/// since the epoch, of `version` for `arch`, told apart by `nonce`.
pub fn install_temp_dir(pid: u32, secs: u64, version: &str, arch: &str, nonce: u32) -> (r: String)
    ensures
        r@ == install_temp_dir_for(pid, secs, version@, arch@, nonce),
{
    let p = u32_text(pid);
    let t = u64_text(secs);
    let n = u32_text(nonce);
    let a = concat_str("/tmp/easytier-agent-install-", p.as_str());
    let b = concat_str(a.as_str(), "-");
    let c = concat_str(b.as_str(), t.as_str());
    let d = concat_str(c.as_str(), "-");
    let e = concat_str(d.as_str(), version);
    let f = concat_str(e.as_str(), "-");
    let g = concat_str(f.as_str(), arch);
    let h = concat_str(g.as_str(), "-");
    concat_str(h.as_str(), n.as_str())
}

/// The same address read again does not touch the core: no stop, no start,
/// the pid and the address stay.
pub proof fn law_same_address_keeps_core(v: MonitorView, hostname: Seq<char>)
    ensures
        network_step(v, v.last_ip, hostname).1 is None,
        network_step(v, v.last_ip, hostname).0.current_pid == v.current_pid,
        network_step(v, v.last_ip, hostname).0.last_ip == v.last_ip,
{
}

/// A new address stops the core that runs (if any) and starts one under the
/// new hostname; once that start succeeds the agent runs the new pid at the
/// new address, and reading that address again starts nothing more.
pub proof fn law_new_address_runs_new_core(v: MonitorView, ip: Seq<char>, hostname: Seq<char>, pid: u32)
    requires
        ip != v.last_ip,
    ensures
        network_step(v, ip, hostname).1 == Some((v.current_pid, hostname)),
        ({
            let w = started_step(network_step(v, ip, hostname).0, ip, StartOutcome::Started(pid));
            &&& w.current_pid == Some(pid)
            &&& w.last_ip == ip
            &&& w.last_hostname == hostname
            &&& network_step(w, ip, hostname).1 is None
        }),
{
}

/// A start that did not succeed leaves the address unrecorded, so the next
/// reading of the same address tries again.
pub proof fn law_unstarted_core_is_retried(v: MonitorView, ip: Seq<char>, hostname: Seq<char>, outcome: StartOutcome)
    requires
        ip != v.last_ip,
        !(outcome is Started),
    ensures
        ({
            let w = started_step(network_step(v, ip, hostname).0, ip, outcome);
            network_step(w, ip, hostname).1 == Some((v.current_pid, hostname))
        }),
{
}

/// A restart stops exactly the core that ran, and a successful start makes
/// the new pid the one the agent runs; a failed one leaves none.
pub proof fn law_restart_replaces_pid(v: MonitorView, outcome: StartOutcome)
    ensures
        restart_step(v).1.0 == v.current_pid,
        restart_step(v).1.1 is Some <==> v.last_hostname.len() > 0,
        restarted_step(restart_step(v).0, outcome).current_pid == (match outcome {
            StartOutcome::Started(p) => Some(p),
            _ => None,
        }),
{
}

/// A version is normalized once: the result starts with `v`, and normalizing
/// it again changes nothing.
pub proof fn law_version_normalized_once(v: Seq<char>)
    ensures
        normalized_version(v).len() > 0 && normalized_version(v)[0] == 'v',
        normalized_version(normalized_version(v)) == normalized_version(v),
{
}

pub open spec fn is_upper_hex(c: char) -> bool {
    ('0' <= c && c <= '9') || ('A' <= c && c <= 'F')
}

/// The suffix has two upper-case hex digits per encoded byte.
pub proof fn law_suffix_shape(data: Seq<u8>, key: Seq<u8>, n: nat)
    requires
        key.len() > 0,
        n <= data.len(),
    ensures
        xor_hex(data, key, n).len() == 2 * n,
        forall|i: int| 0 <= i < 2 * n ==> is_upper_hex(#[trigger] xor_hex(data, key, n)[i]),
    decreases n,
{
    if n > 0 {
        law_suffix_shape(data, key, (n - 1) as nat);
        let i = (n - 1) as int;
        let b = data[i] ^ key[i % (key.len() as int)];
        let prev = xor_hex(data, key, (n - 1) as nat);
        let h = hex2(b);
        assert(b / 16 < 16 && b % 16 < 16) by (bit_vector);
        assert(is_upper_hex(h[0]) && is_upper_hex(h[1]));
        assert forall|j: int| 0 <= j < 2 * n implies is_upper_hex(#[trigger] xor_hex(data, key, n)[j]) by {
            if j < 2 * (n - 1) {
                assert(xor_hex(data, key, n)[j] == prev[j]);
            } else {
                assert(xor_hex(data, key, n)[j] == h[j - 2 * (n - 1)]);
            }
        }
    }
}

} // verus!
