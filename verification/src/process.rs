//! What the agent asks of the operating system to run and stop `easytier-core`.
use vstd::prelude::*;
use crate::config::AgentConfig;
use crate::text::{decimal_text, opt_view, u32_text};

verus! {

/// Knows how `easytier-core` is started: its binary, the config-server URI and
/// the optional machine id.
pub struct ProcessManager {
    bin_path: String,
    uri: String,
    machine_id: Option<String>,
}

pub struct ProcessManagerView {
    pub bin_path: Seq<char>,
    pub uri: Seq<char>,
    pub machine_id: Option<Seq<char>>,
}

impl View for ProcessManager {
    type V = ProcessManagerView;

    closed spec fn view(&self) -> ProcessManagerView {
        ProcessManagerView {
            bin_path: self.bin_path@,
            uri: self.uri@,
            machine_id: opt_view(self.machine_id),
        }
    }
}

/// The arguments that start `easytier-core` for a hostname.
pub open spec fn start_args_spec(pm: ProcessManagerView, hostname: Seq<char>) -> Seq<Seq<char>> {
    let base = seq!["-w"@, pm.uri, "--hostname"@, hostname];
    match pm.machine_id {
        Some(mid) => base + seq!["--machine-id"@, mid],
        None => base,
    }
}

pub open spec fn strings_view(v: Seq<String>) -> Seq<Seq<char>> {
    v.map_values(|s: String| s@)
}

impl ProcessManager {
    /// Takes the binary, URI and machine id from the settings.
    pub fn new(config: AgentConfig) -> (pm: Self)
        ensures
            pm@.bin_path == config.bin_path@,
            pm@.uri == config.uri@,
            pm@.machine_id == opt_view(config.machine_id),
    {
        Self { bin_path: config.bin_path, uri: config.uri, machine_id: config.machine_id }
    }

    /// The program to run.
    pub fn bin_path(&self) -> (r: &str)
        ensures
            r@ == self@.bin_path,
    {
        self.bin_path.as_str()
    }

    /// `-w <uri> --hostname <hostname>`, then `--machine-id <id>` when an id is set.
    pub fn start_args(&self, hostname: &str) -> (args: Vec<String>)
        ensures
            strings_view(args@) == start_args_spec(self@, hostname@),
    {
        let mut args: Vec<String> = Vec::new();
        args.push(String::from_str("-w"));
        args.push(self.uri.clone());
        args.push(String::from_str("--hostname"));
        args.push(String::from_str(hostname));
        match &self.machine_id {
            Some(mid) => {
                args.push(String::from_str("--machine-id"));
                args.push(mid.clone());
            },
            None => {},
        }
        assert(strings_view(args@) =~= start_args_spec(self@, hostname@));
        args
    }

    /// The arguments of `kill` that stop the process `pid`.
    pub fn stop_args(&self, pid: u32) -> (args: Vec<String>)
        ensures
            strings_view(args@) == seq![decimal_text(pid as nat)],
    {
        let mut args: Vec<String> = Vec::new();
        args.push(u32_text(pid));
        assert(strings_view(args@) =~= seq![decimal_text(pid as nat)]);
        args
    }

    /// The arguments of `kill` that probe whether `pid` runs; with no pid there
    /// is nothing to probe and the core is not running.
    pub fn probe_args(&self, pid: Option<u32>) -> (args: Option<Vec<String>>)
        ensures
            pid is None ==> args is None,
            pid matches Some(p) ==> (args matches Some(a) && strings_view(a@) == seq!["-0"@,
                decimal_text(p as nat)]),
    {
        match pid {
            None => None,
            Some(p) => {
                let mut args: Vec<String> = Vec::new();
                args.push(String::from_str("-0"));
                args.push(u32_text(p));
                assert(strings_view(args@) =~= seq!["-0"@, decimal_text(p as nat)]);
                Some(args)
            },
        }
    }
}

} // verus!
