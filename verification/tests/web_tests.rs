use easytier_agent::config::AgentConfig;
use easytier_agent::agent_api::AgentStore;
use easytier_agent::ip_monitor::{IpMonitor, StartOutcome};
use easytier_agent::process::ProcessManager;
use easytier_agent::web_client::WebClient;

fn config(token: Option<&str>, arch: Option<&str>) -> AgentConfig {
    AgentConfig {
        server_url: "http://srv:11211".to_string(),
        token: token.map(|t| t.to_string()),
        check_interval: 60,
        bin_path: "/usr/local/bin/easytier-core".to_string(),
        uri: "udp://cfg/bob".to_string(),
        key: "sdwan".to_string(),
        machine_id: None,
        arch: arch.map(|a| a.to_string()),
        log: false,
        owner: Some("bob".to_string()),
    }
}

#[test]
fn fresh_client_must_register() {
    let w = WebClient::new(config(None, None));
    assert!(w.needs_registration());
    assert_eq!(w.agent_id(), "");
    assert_eq!(w.token(), "");
    let w = WebClient::new(config(Some("t0"), None));
    assert_eq!(w.token(), "t0");
    assert!(w.needs_registration());
}

#[test]
fn urls() {
    let mut w = WebClient::new(config(None, None));
    assert_eq!(w.register_url(), "http://srv:11211/api/v1/agent/register");
    assert_eq!(w.heartbeat_url(), "http://srv:11211/api/v1/agent/heartbeat");
    assert_eq!(w.ack_url(), "http://srv:11211/api/v1/agent/commands/ack");
    w.apply_register_response(Some("agent-1".to_string()), None);
    assert_eq!(w.commands_url(), "http://srv:11211/api/v1/agent/commands/agent-1");
}

#[test]
fn registration_request() {
    let w = WebClient::new(config(None, None));
    let r = w.register_request("box".to_string(), "linux".to_string(), "x86_64".to_string());
    assert_eq!(r.hostname, "box");
    assert_eq!(r.public_ip, "");
    assert_eq!(r.arch, "x86_64");
    assert_eq!(r.os, "linux");
    assert!(r.current_version.is_none());
    assert_eq!(r.owner.as_deref(), Some("bob"));
    let w = WebClient::new(config(None, Some("mips")));
    let r = w.register_request("box".to_string(), "linux".to_string(), "x86_64".to_string());
    assert_eq!(r.arch, "mips");
}

#[test]
fn registration_answer() {
    let mut w = WebClient::new(config(None, None));
    assert!(!w.apply_register_response(Some("agent-9".to_string()), None));
    assert!(w.needs_registration());
    assert!(w.apply_register_response(None, Some("tok".to_string())));
    assert!(!w.needs_registration());
    assert_eq!(w.agent_id(), "agent-9");
    assert_eq!(w.token(), "tok");
}

#[test]
fn heartbeat_needs_a_token() {
    let mut w = WebClient::new(config(None, None));
    assert!(w.heartbeat_request("1.2.3.4", None).is_none());
    w.apply_register_response(Some("agent-9".to_string()), Some("tok".to_string()));
    let hb = w.heartbeat_request("1.2.3.4", None).unwrap();
    assert_eq!(hb.agent_id, "agent-9");
    assert_eq!(hb.token, "tok");
    assert_eq!(hb.public_ip, "1.2.3.4");
    assert_eq!(hb.status, "running");
    assert!(hb.message.is_none());
    assert!(hb.current_version.is_none());
    assert!(hb.core_status.is_none());
}

#[test]
fn polling_and_ack_need_an_id() {
    let mut w = WebClient::new(config(Some("tok"), None));
    assert!(!w.polls_commands());
    assert!(w.ack_request("c1").is_none());
    w.apply_register_response(Some("agent-2".to_string()), None);
    assert!(w.polls_commands());
    let ack = w.ack_request("c1").unwrap();
    assert_eq!(ack.agent_id, "agent-2");
    assert_eq!(ack.token, "tok");
    assert_eq!(ack.command_id, "c1");
    assert_eq!(ack.result, "{}");
}

#[test]
fn monitor_takes_registration() {
    let c = config(None, None);
    let mut m = IpMonitor::new(c.clone(), WebClient::new(c.clone()), ProcessManager::new(c));
    assert!(m.apply_register_response(Some("a".to_string()), Some("t".to_string())));
    assert_eq!(m.web().agent_id(), "a");
    assert!(!m.web().needs_registration());
}

#[test]
fn core_report_reaches_server() {
    let mut store = AgentStore::new();
    let c = config(None, None);
    let mut m = IpMonitor::new(c.clone(), WebClient::new(c.clone()), ProcessManager::new(c));
    let reg = m.web().register_request("box".to_string(), "linux".to_string(), "x86_64".to_string());
    let (id, tok) = store.register("bob".to_string(), reg);
    m.apply_register_response(Some(id.clone()), Some(tok));
    m.on_network("10.9.8.7", "box-X");
    m.on_core_started("10.9.8.7", StartOutcome::Started(321));
    let hb = m.web().heartbeat_request("10.9.8.7", Some(m.core_status())).unwrap();
    let (hb_id, hb_tok) = (hb.agent_id.clone(), hb.token.clone());
    assert!(store.heartbeat(&hb_id, &hb_tok, hb, true));
    let info = store.get(&id).unwrap();
    assert!(info.core_running);
    assert!(!info.core_installed);
    assert_eq!(info.core_uri.as_deref(), Some("udp://cfg/bob"));
    assert_eq!(info.public_ip, "10.9.8.7");
    assert_eq!(info.status, "online");
}

#[test]
fn suffix_shape() {
    let c = config(None, None);
    let m = IpMonitor::new(c.clone(), WebClient::new(c.clone()), ProcessManager::new(c));
    let s = m.encrypt("255.0.17.3", "32", "key");
    assert_eq!(s.len(), 10);
    assert!(s.chars().all(|ch| ch.is_ascii_digit() || ('A'..='F').contains(&ch)));
}
