use easytier_agent::config::AgentConfig;
use easytier_agent::ip_monitor::{
    archive_dir_name, cli_path, core_download_url, install_dir, install_temp_dir, install_dir_from_parent, latest_tag_or_default, normalize_version, requested_version,
    CommandPlan, IpMonitor, StartOutcome,
};
use easytier_agent::network::{first_field, LineField};
use easytier_agent::text::{u32_text, u64_text};
use easytier_agent::process::ProcessManager;
use easytier_agent::web_client::WebClient;

fn config(key: &str, machine_id: Option<&str>) -> AgentConfig {
    AgentConfig {
        server_url: "http://localhost:11211".to_string(),
        token: None,
        check_interval: 180,
        bin_path: "/nonexistent/easytier-core".to_string(),
        uri: "udp://config.example:22020/alice".to_string(),
        key: key.to_string(),
        machine_id: machine_id.map(|m| m.to_string()),
        arch: None,
        log: false,
        owner: Some("alice".to_string()),
    }
}

fn monitor(key: &str) -> IpMonitor {
    let c = config(key, None);
    IpMonitor::new(c.clone(), WebClient::new(c.clone()), ProcessManager::new(c))
}

const IP_OUTPUT: &str = "1: lo: <LOOPBACK,UP,LOWER_UP> mtu 65536 qdisc noqueue state UNKNOWN group default qlen 1000\n    inet 127.0.0.1/8 scope host lo\n       valid_lft forever preferred_lft forever\n2: eth0: <BROADCAST,MULTICAST,UP,LOWER_UP> mtu 1500\n    inet 192.168.1.5/24 brd 192.168.1.255 scope global eth0\n       valid_lft forever preferred_lft forever\n";

fn field(s: &str, which: LineField) -> Option<String> {
    let chars: Vec<char> = s.chars().collect();
    first_field(&chars, which).map(|v| v.into_iter().collect())
}

#[test]
fn address_skips_loopback() {
    assert_eq!(field(IP_OUTPUT, LineField::Address), Some("192.168.1.5".to_string()));
}

#[test]
fn prefix_len_is_taken_from_first_inet_line() {
    // The loopback line is the first with a prefix length.
    assert_eq!(field(IP_OUTPUT, LineField::PrefixLen), Some("8".to_string()));
}

#[test]
fn no_address_lines() {
    let out = "1: lo: <LOOPBACK>\n    inet 127.0.0.1/8 scope host lo\n";
    assert_eq!(field(out, LineField::Address), None);
    assert_eq!(field("", LineField::Address), None);
    assert_eq!(field("inet", LineField::Address), None);
    assert_eq!(field("inet ", LineField::Address), None);
    assert_eq!(field("    inet    ", LineField::Address), None);
}

#[test]
fn address_line_variants() {
    assert_eq!(field("\tinet 10.0.0.7 scope global", LineField::Address), Some("10.0.0.7".to_string()));
    assert_eq!(field("inet\t10.0.0.7/8", LineField::Address), None);
    assert_eq!(field("  inet   10.0.0.7/16/x  ", LineField::PrefixLen), Some("16".to_string()));
    assert_eq!(field("inet /24", LineField::Address), None);
    assert_eq!(field("inet /24\ninet 10.1.1.1/30\n", LineField::Address), Some("10.1.1.1".to_string()));
    assert_eq!(field("inet 10.0.0.7\ninet 10.0.0.8/12", LineField::PrefixLen), Some("12".to_string()));
    assert_eq!(field("inet 10.0.0.7\r\n", LineField::Address), Some("10.0.0.7".to_string()));
    assert_eq!(field("inet6 ::1/128", LineField::Address), None);
    assert_eq!(field("\u{a0}inet 10.2.2.2/24", LineField::Address), Some("10.2.2.2".to_string()));
}

#[test]
fn encrypt_exact_value() {
    let m = monitor("sdwan");
    // 192^'s', 168^'d', 1^'w', 5^'a', 24^'n'
    assert_eq!(m.encrypt("192.168.1.5", "24", "sdwan"), "B3CC766476");
}

#[test]
fn encrypt_parsing_rules() {
    let m = monitor("k");
    // key 'k' = 0x6B; "+5" parses to 5, "256" and "x" are dropped, the mask is not a number.
    assert_eq!(m.encrypt("+5.256.x.0", "abc", "k"), "6E6B");
    assert_eq!(m.encrypt("", "", ""), "");
    assert_eq!(m.encrypt("1..2", "+", "\u{e9}"), "C2AB");
    assert_eq!(m.encrypt("007", "-1", "AB"), "46");
}

#[test]
fn network_identity_builds_hostname() {
    let m = monitor("sdwan");
    let (ip, mask, name) = m.network_identity(IP_OUTPUT, "node").unwrap();
    assert_eq!(ip, "192.168.1.5");
    assert_eq!(mask, "8");
    // 192^s,168^d,1^w,5^a, 8^n
    assert_eq!(name, "node-B3CC766466");
    assert!(m.network_identity("nothing here", "node").is_none());
    let (_, mask, _) = m.network_identity("inet 10.0.0.1", "h").unwrap();
    assert_eq!(mask, "24");
}

#[test]
fn process_arguments() {
    let pm = ProcessManager::new(config("k", Some("m-1")));
    assert_eq!(
        pm.start_args("host-A1"),
        vec!["-w", "udp://config.example:22020/alice", "--hostname", "host-A1", "--machine-id", "m-1"]
    );
    let pm = ProcessManager::new(config("k", None));
    assert_eq!(pm.start_args("h"), vec!["-w", "udp://config.example:22020/alice", "--hostname", "h"]);
    assert_eq!(pm.stop_args(1234), vec!["1234"]);
    assert_eq!(pm.stop_args(0), vec!["0"]);
    assert_eq!(pm.stop_args(u32::MAX), vec!["4294967295"]);
    assert!(pm.probe_args(None).is_none());
    assert_eq!(pm.probe_args(Some(77)).unwrap(), vec!["-0", "77"]);
    assert_eq!(pm.bin_path(), "/nonexistent/easytier-core");
}

#[test]
fn same_address_keeps_core() {
    let mut m = monitor("k");
    let plan = m.on_network("10.0.0.1", "h-1").unwrap();
    assert_eq!(plan.stop, None);
    assert_eq!(plan.start.as_deref(), Some("h-1"));
    m.on_core_started("10.0.0.1", StartOutcome::Started(42));
    assert_eq!(m.current_pid(), Some(42));
    assert_eq!(m.last_ip(), "10.0.0.1");
    assert!(m.on_network("10.0.0.1", "h-2").is_none());
    assert_eq!(m.last_hostname(), "h-2");
    assert_eq!(m.current_pid(), Some(42));
}

#[test]
fn new_address_restarts_core() {
    let mut m = monitor("k");
    m.on_network("10.0.0.1", "h-1");
    m.on_core_started("10.0.0.1", StartOutcome::Started(42));
    let plan = m.on_network("10.0.0.2", "h-2").unwrap();
    assert_eq!(plan.stop, Some(42));
    assert_eq!(plan.start.as_deref(), Some("h-2"));
    m.on_core_started("10.0.0.2", StartOutcome::Started(43));
    assert_eq!(m.current_pid(), Some(43));
    assert_eq!(m.last_ip(), "10.0.0.2");
}

#[test]
fn failed_start_is_retried() {
    let mut m = monitor("k");
    m.on_network("10.0.0.1", "h");
    m.on_core_started("10.0.0.1", StartOutcome::Failed);
    assert_eq!(m.last_ip(), "");
    assert!(m.on_network("10.0.0.1", "h").is_some());
    m.on_core_started("10.0.0.1", StartOutcome::NotStarted);
    assert_eq!(m.current_pid(), None);
    assert!(m.on_network("10.0.0.1", "h").is_some());
}

#[test]
fn restart_command() {
    let mut m = monitor("k");
    match m.plan_command("restart", None, None) {
        CommandPlan::Restart(plan) => {
            assert_eq!(plan.stop, None);
            assert!(plan.start.is_none());
        }
        _ => panic!("expected a restart"),
    }
    m.on_network("10.0.0.1", "h");
    m.on_core_started("10.0.0.1", StartOutcome::Started(5));
    match m.plan_command("restart", None, None) {
        CommandPlan::Restart(plan) => {
            assert_eq!(plan.stop, Some(5));
            assert_eq!(plan.start.as_deref(), Some("h"));
        }
        _ => panic!("expected a restart"),
    }
    assert_eq!(m.current_pid(), None);
    m.on_core_restarted(StartOutcome::Started(6));
    assert_eq!(m.current_pid(), Some(6));
}

#[test]
fn stop_uninstall_install_and_unknown_commands() {
    let mut m = monitor("k");
    m.on_network("10.0.0.1", "h");
    m.on_core_started("10.0.0.1", StartOutcome::Started(9));
    match m.plan_command("stop", None, None) {
        CommandPlan::Stop { stop } => assert_eq!(stop, Some(9)),
        _ => panic!("expected a stop"),
    }
    match m.plan_command("stop", None, None) {
        CommandPlan::Stop { stop } => assert_eq!(stop, None),
        _ => panic!("expected a stop"),
    }
    m.on_core_restarted(StartOutcome::Started(10));
    match m.plan_command("uninstall", None, None) {
        CommandPlan::Uninstall { stop, keep_config } => {
            assert_eq!(stop, Some(10));
            assert!(!keep_config);
        }
        _ => panic!("expected an uninstall"),
    }
    match m.plan_command("uninstall", None, Some(true)) {
        CommandPlan::Uninstall { stop, keep_config } => {
            assert_eq!(stop, None);
            assert!(keep_config);
        }
        _ => panic!("expected an uninstall"),
    }
    match m.plan_command("install", Some("2.0.0".to_string()), None) {
        CommandPlan::Install { version } => assert_eq!(version.as_deref(), Some("2.0.0")),
        _ => panic!("expected an install"),
    }
    assert!(matches!(m.plan_command("reboot", None, None), CommandPlan::Ignore));
    assert!(matches!(m.plan_command("Stop", None, None), CommandPlan::Ignore));
}

#[test]
fn after_install_restarts_only_a_running_core() {
    let mut m = monitor("k");
    assert!(m.after_install().is_none());
    m.on_network("10.0.0.1", "h");
    m.on_core_started("10.0.0.1", StartOutcome::Started(3));
    let plan = m.after_install().unwrap();
    assert_eq!(plan.stop, Some(3));
    assert_eq!(plan.start.as_deref(), Some("h"));
    assert_eq!(m.current_pid(), None);
}

#[test]
fn core_status_report() {
    let mut m = monitor("k");
    let r = m.core_status();
    assert_eq!(r.installed, Some(false));
    assert_eq!(r.running, Some(false));
    assert_eq!(r.pid, None);
    assert_eq!(r.uri.as_deref(), Some("udp://config.example:22020/alice"));
    assert!(r.version.is_none());
    m.on_network("10.0.0.1", "h");
    m.on_core_started("10.0.0.1", StartOutcome::Started(8));
    let r = m.core_status();
    assert_eq!(r.running, Some(true));
    assert_eq!(r.pid, Some(8));
    assert!(!m.is_core_installed());
}

#[test]
fn check_interval() {
    let m = monitor("k");
    assert!(!m.check_due(179_999_999_999));
    assert!(m.check_due(180_000_000_000));
    assert!(m.check_due(u128::MAX));
}

#[test]
fn install_versions_and_urls() {
    assert_eq!(requested_version(Some("1.2.3")).as_deref(), Some("1.2.3"));
    assert!(requested_version(Some("")).is_none());
    assert!(requested_version(None).is_none());
    assert_eq!(latest_tag_or_default(Some("v2.7.0".to_string())), "v2.7.0");
    assert_eq!(latest_tag_or_default(None), "v2.6.4");
    assert_eq!(normalize_version("2.1.0"), "v2.1.0");
    assert_eq!(normalize_version("v2.1.0"), "v2.1.0");
    assert_eq!(normalize_version(""), "v");
    assert_eq!(normalize_version(&normalize_version("1")), "v1");
    assert_eq!(
        core_download_url("v2.6.4", "x86_64"),
        "https://github.com/EasyTier/EasyTier/releases/download/v2.6.4/easytier-linux-x86_64-v2.6.4.zip"
    );
    assert_eq!(archive_dir_name("aarch64"), "easytier-linux-aarch64");
    let m = monitor("k");
    assert_eq!(m.install_arch("riscv64".to_string()), "riscv64");
}

#[test]
fn install_dir_falls_back_without_a_directory() {
    assert_eq!(install_dir("/usr/local/bin/easytier-core"), "/usr/local/bin");
    assert_eq!(install_dir("/opt/et/easytier-core"), "/opt/et");
    assert_eq!(install_dir("easytier-core"), "/usr/local/bin");
    assert_eq!(install_dir("/"), "/usr/local/bin");
    assert_eq!(install_dir(""), "/usr/local/bin");
    assert_eq!(install_dir("bin/core"), "bin");
    assert_eq!(install_dir_from_parent(Some(String::new())), "/usr/local/bin");
    assert_eq!(install_dir_from_parent(None), "/usr/local/bin");
    assert_eq!(install_dir_from_parent(Some("/srv".to_string())), "/srv");
}

#[test]
fn first_check_is_always_due() {
    let m = monitor("k");
    assert!(m.check_due_since(None));
    assert!(!m.check_due_since(Some(179_999_999_999)));
    assert!(m.check_due_since(Some(180_000_000_000)));
}

#[test]
fn core_status_with_reports_the_given_answer() {
    let mut m = monitor("k");
    let r = m.core_status_with(true);
    assert_eq!(r.installed, Some(true));
    assert_eq!(r.running, Some(false));
    assert_eq!(r.pid, None);
    assert_eq!(r.uri.as_deref(), Some("udp://config.example:22020/alice"));
    m.on_network("10.0.0.2", "h-X");
    m.on_core_started("10.0.0.2", StartOutcome::Started(42));
    let r = m.core_status_with(false);
    assert_eq!(r.installed, Some(false));
    assert_eq!(r.running, Some(true));
    assert_eq!(r.pid, Some(42));
    // The configured binary does not exist.
    assert_eq!(m.core_status().installed, Some(false));
}

#[test]
fn cli_sits_beside_the_core() {
    assert_eq!(cli_path("/usr/local/bin/easytier-core").as_deref(), Some("/usr/local/bin/easytier-cli"));
    assert_eq!(cli_path("/core").as_deref(), Some("/easytier-cli"));
    assert_eq!(cli_path("core").as_deref(), Some("easytier-cli"));
    assert_eq!(cli_path("/"), None);
}

#[test]
fn install_temp_dir_name() {
    assert_eq!(
        install_temp_dir(1234, 1_700_000_000, "v2.6.4", "x86_64", 0),
        "/tmp/easytier-agent-install-1234-1700000000-v2.6.4-x86_64-0"
    );
    assert_eq!(u64_text(u64::MAX), "18446744073709551615");
    assert_eq!(u32_text(0), "0");
}
