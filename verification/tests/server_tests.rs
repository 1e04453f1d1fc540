use easytier_agent::agent_api::{
    handle_ack_command, handle_delete_agent, handle_get_commands, handle_heartbeat, handle_heartbeat_with, handle_list_agents,
    handle_register, handle_send_command, send_command_with, AgentCommand, AgentCommandAckRequest,
    AgentCommandRequest, AgentHeartbeatRequest, AgentManager, AgentRegisterRequest, AgentStore,
    CoreStatusReport, pid_to_probe,
};
use easytier_agent::client_releases::{
    latest_release_response, latest_release_url, proxy_download_url, Release, ReleaseAsset,
};

fn reg(hostname: &str, owner: Option<&str>) -> AgentRegisterRequest {
    AgentRegisterRequest {
        hostname: hostname.to_string(),
        public_ip: "".to_string(),
        arch: "x86_64".to_string(),
        os: "linux".to_string(),
        current_version: Some("1.0".to_string()),
        owner: owner.map(|o| o.to_string()),
    }
}

fn beat(agent_id: &str, token: &str, status: &str, core: Option<CoreStatusReport>) -> AgentHeartbeatRequest {
    AgentHeartbeatRequest {
        agent_id: agent_id.to_string(),
        token: token.to_string(),
        public_ip: "203.0.113.9".to_string(),
        current_version: Some("2.0".to_string()),
        status: status.to_string(),
        message: Some("hello".to_string()),
        core_status: core,
    }
}

fn cmd(id: &str) -> AgentCommand {
    AgentCommand {
        id: id.to_string(),
        command_type: "restart".to_string(),
        payload: "{}".to_string(),
        created_at: "t".to_string(),
    }
}

fn is_lower_hex(s: &str) -> bool {
    s.chars().all(|c| c.is_ascii_digit() || ('a'..='f').contains(&c))
}

#[test]
fn register_with_exact_record() {
    let mut s = AgentStore::new();
    let (id, tok) = s.register_with(
        "alice".to_string(),
        reg("box", Some("alice")),
        "agent-x".to_string(),
        "tok-x".to_string(),
        "2024-01-01T00:00:00+00:00".to_string(),
        5,
    );
    assert_eq!((id.as_str(), tok.as_str()), ("agent-x", "tok-x"));
    let info = s.get("agent-x").unwrap();
    assert_eq!(info.agent_id, "agent-x");
    assert_eq!(info.owner, "alice");
    assert_eq!(info.hostname, "box");
    assert_eq!(info.status, "online");
    assert!(info.message.is_none());
    assert!(!info.core_installed && !info.core_running);
    assert_eq!(info.current_version.as_deref(), Some("1.0"));
    assert_eq!(info.last_heartbeat, "2024-01-01T00:00:00+00:00");
    assert_eq!(info.registered_at, "2024-01-01T00:00:00+00:00");
}

#[test]
fn register_is_idempotent_per_owner_and_hostname() {
    let mut s = AgentStore::new();
    let (id1, tok1) = s.register("alice".to_string(), reg("box", None));
    assert!(id1.starts_with("agent-"));
    assert_eq!(id1.len(), 38);
    assert!(is_lower_hex(&id1[6..]));
    assert_eq!(tok1.len(), 32);
    assert!(is_lower_hex(&tok1));
    let (id2, tok2) = s.register("alice".to_string(), reg("box", None));
    assert_eq!((id1.clone(), tok1.clone()), (id2, tok2));
    let (id3, _) = s.register("bob".to_string(), reg("box", None));
    assert_ne!(id1, id3);
    let (id4, tok4) = s.register("alice".to_string(), reg("other", None));
    assert_ne!(id1, id4);
    assert_ne!(tok1, tok4);
    assert_eq!(s.list_by_owner("alice").len(), 2);
    assert_eq!(s.list_by_owner("bob").len(), 1);
    assert_eq!(s.list_by_owner("carol").len(), 0);
}

#[test]
fn heartbeat_accepts_only_the_token() {
    let mut s = AgentStore::new();
    let (id, tok) = s.register("alice".to_string(), reg("box", None));
    assert!(!s.heartbeat(&id, "wrong", beat(&id, "wrong", "running", None), true));
    assert_eq!(s.get(&id).unwrap().public_ip, "");
    assert!(!s.heartbeat("agent-missing", &tok, beat("agent-missing", &tok, "running", None), true));
    assert!(s.heartbeat(&id, &tok, beat(&id, &tok, "running", None), true));
    let info = s.get(&id).unwrap();
    assert_eq!(info.public_ip, "203.0.113.9");
    assert_eq!(info.current_version.as_deref(), Some("2.0"));
    assert_eq!(info.status, "online");
    assert!(info.message.is_none());
    assert!(s.heartbeat(&id, &tok, beat(&id, &tok, "online", None), true));
    let info = s.get(&id).unwrap();
    assert_eq!(info.status, "online");
    assert_eq!(info.message.as_deref(), Some("hello"));
}

#[test]
fn heartbeat_with_exact_values() {
    let mut s = AgentStore::new();
    s.register_with("o".to_string(), reg("h", None), "a".to_string(), "t".to_string(), "s0".to_string(), 1);
    let core = CoreStatusReport {
        installed: Some(true),
        running: None,
        pid: Some(77),
        uri: Some("udp://u".to_string()),
        version: Some("2.6.4".to_string()),
    };
    assert!(s.heartbeat_with("a", "t", beat("a", "t", "running", Some(core)), "s1".to_string(), 2, true));
    let info = s.get("a").unwrap();
    assert!(info.core_installed);
    assert!(info.core_running);
    assert_eq!(info.core_uri.as_deref(), Some("udp://u"));
    assert_eq!(info.core_version.as_deref(), Some("2.6.4"));
    assert_eq!(info.last_heartbeat, "s1");
    assert_eq!(info.registered_at, "s0");
    // A report without pid or running keeps the earlier running flag.
    let core = CoreStatusReport { installed: None, running: None, pid: None, uri: None, version: None };
    assert!(s.heartbeat_with("a", "t", beat("a", "t", "running", Some(core)), "s2".to_string(), 3, false));
    let info = s.get("a").unwrap();
    assert!(info.core_installed && info.core_running);
    assert_eq!(info.core_uri.as_deref(), Some("udp://u"));
}

#[test]
fn heartbeat_pid_is_looked_up() {
    let mut s = AgentStore::new();
    let (id, tok) = s.register("o".to_string(), reg("h", None));
    let core = |pid: u64| CoreStatusReport { installed: None, running: None, pid: Some(pid), uri: None, version: None };
    // Process 1 exists on Linux; 2^32 + 1 is cut to 1.
    assert!(s.heartbeat(&id, &tok, beat(&id, &tok, "running", Some(core(1))), true));
    assert!(s.get(&id).unwrap().core_running);
    assert!(s.heartbeat(&id, &tok, beat(&id, &tok, "running", Some(core(4_000_000_000))), true));
    assert!(!s.get(&id).unwrap().core_running);
    assert!(s.heartbeat(&id, &tok, beat(&id, &tok, "running", Some(core(4_294_967_297))), true));
    assert!(s.get(&id).unwrap().core_running);
    let running = CoreStatusReport { installed: None, running: Some(false), pid: Some(1), uri: None, version: None };
    assert!(s.heartbeat(&id, &tok, beat(&id, &tok, "running", Some(running)), true));
    assert!(!s.get(&id).unwrap().core_running);
}

#[test]
fn listing_marks_silent_agents_offline() {
    let mut s = AgentStore::new();
    s.register_with("o".to_string(), reg("h", None), "a".to_string(), "t".to_string(), "s".to_string(), 1_000);
    let now = s.list_by_owner_at("o", 1_000 + 180_000_000_000);
    assert_eq!(now[0].status, "online");
    let later = s.list_by_owner_at("o", 1_000 + 180_000_000_001);
    assert_eq!(later[0].status, "offline");
    assert_eq!(later[0].message.as_deref(), Some("heartbeat timeout"));
    let earlier = s.list_by_owner_at("o", 0);
    assert_eq!(earlier[0].status, "online");
    // The record itself is not changed by listing.
    assert_eq!(s.get("a").unwrap().status, "online");
    // Just registered through the clock: online.
    let (id, _) = s.register("p".to_string(), reg("h", None));
    let listed = s.list_by_owner("p");
    assert_eq!(listed.len(), 1);
    assert_eq!(listed[0].agent_id, id);
    assert_eq!(listed[0].status, "online");
}

#[test]
fn commands_come_out_in_order_once() {
    let mut s = AgentStore::new();
    let (id, _) = s.register("o".to_string(), reg("h", None));
    assert!(s.pop_commands(&id).is_empty());
    assert!(s.push_command(&id, cmd("c1")));
    assert!(s.push_command(&id, cmd("c2")));
    assert!(!s.push_command("agent-none", cmd("c3")));
    let got: Vec<String> = s.pop_commands(&id).into_iter().map(|c| c.id).collect();
    assert_eq!(got, vec!["c1", "c2"]);
    assert!(s.pop_commands(&id).is_empty());
    assert!(s.pop_commands("agent-none").is_empty());
}

#[test]
fn delete_only_within_owner() {
    let mut s = AgentStore::new();
    let (id, _) = s.register("alice".to_string(), reg("h", None));
    assert!(!s.delete("bob", &id));
    assert!(s.get(&id).is_some());
    assert!(s.delete("alice", &id));
    assert!(s.get(&id).is_none());
    assert!(!s.delete("alice", &id));
    assert!(s.list_by_owner("alice").is_empty());
}

#[test]
fn core_status_update() {
    let mut s = AgentStore::new();
    let (id, _) = s.register("o".to_string(), reg("h", None));
    s.update_core_status(&id, true, Some("2.6.4".to_string()), true, Some("udp://x".to_string()));
    let info = s.get(&id).unwrap();
    assert!(info.core_installed && info.core_running);
    assert_eq!(info.core_version.as_deref(), Some("2.6.4"));
    assert_eq!(info.core_uri.as_deref(), Some("udp://x"));
    s.update_core_status("agent-none", false, None, false, None);
    assert!(s.get(&id).unwrap().core_installed);
}

#[test]
fn handlers() {
    let mut m = AgentManager::new();
    let r = handle_register(&mut m, reg("h", None));
    assert_eq!(m.store.list_by_owner("default").len(), 1);
    let hb = handle_heartbeat(&mut m, beat(&r.agent_id, &r.token, "running", None), true);
    assert!(hb.ok && hb.message.is_none());
    let hb = handle_heartbeat(&mut m, beat(&r.agent_id, "bad", "running", None), true);
    assert!(!hb.ok);
    assert_eq!(hb.message.as_deref(), Some("invalid agent_id or token"));
    let req = AgentCommandRequest { command_type: "stop".to_string(), payload: "{\"a\":1}".to_string() };
    let sent = handle_send_command(&mut m, r.agent_id.clone(), req).unwrap();
    assert_eq!(sent.command_id.len(), 32);
    assert!(is_lower_hex(&sent.command_id));
    assert_eq!(sent.command_type, "stop");
    assert_eq!(sent.payload, "{\"a\":1}");
    let req = AgentCommandRequest { command_type: "stop".to_string(), payload: "{}".to_string() };
    assert!(handle_send_command(&mut m, "agent-none".to_string(), req).is_none());
    let req = AgentCommandRequest { command_type: "install".to_string(), payload: "{}".to_string() };
    let sent2 = send_command_with(&mut m, r.agent_id.clone(), req, "id-2".to_string(), "when".to_string()).unwrap();
    assert_eq!(sent2.command_id, "id-2");
    assert_eq!(sent2.created_at, "when");
    let got = handle_get_commands(&mut m, r.agent_id.clone());
    assert_eq!(got.commands.len(), 2);
    assert_eq!(got.commands[0].id, sent.command_id);
    assert_eq!(got.commands[1].id, "id-2");
    assert!(handle_get_commands(&mut m, r.agent_id.clone()).commands.is_empty());
    let ack = AgentCommandAckRequest {
        agent_id: r.agent_id.clone(),
        token: r.token.clone(),
        command_id: "id-2".to_string(),
        result: "{}".to_string(),
    };
    assert!(handle_ack_command(ack).ok);
    let list = handle_list_agents(&m, "default".to_string());
    assert_eq!(list.agents.len(), 1);
    assert_eq!(list.agents[0].hostname, "h");
    assert!(!handle_delete_agent(&mut m, "someone".to_string(), r.agent_id.clone()));
    assert!(handle_delete_agent(&mut m, "default".to_string(), r.agent_id.clone()));
    assert!(handle_list_agents(&m, "default".to_string()).agents.is_empty());
    let named = handle_register(&mut m, reg("h", Some("alice")));
    assert_eq!(m.store.get(&named.agent_id).unwrap().owner, "alice");
}

#[test]
fn proxy_links() {
    assert_eq!(
        proxy_download_url("https://github.com/EasyTier/EasyTier/releases/download/v1/a.zip"),
        "https://hub.04510451.xyz/https://github.com/EasyTier/EasyTier/releases/download/v1/a.zip"
    );
    assert_eq!(proxy_download_url("https://example.com/a.zip"), "https://example.com/a.zip");
    assert_eq!(proxy_download_url("https://github.com"), "https://github.com");
    assert_eq!(proxy_download_url(""), "");
    let once = proxy_download_url("https://github.com/x");
    assert_eq!(proxy_download_url(&once), once);
    assert_eq!(latest_release_url(), "https://api.github.com/repos/EasyTier/EasyTier/releases/latest");
}

#[test]
fn latest_release() {
    assert!(latest_release_response(None).release.is_none());
    let rel = Release {
        tag_name: "v2.6.4".to_string(),
        prerelease: true,
        assets: vec![
            ReleaseAsset {
                name: "a.zip".to_string(),
                browser_download_url: "https://github.com/a.zip".to_string(),
                size: 10,
            },
            ReleaseAsset { name: "b.zip".to_string(), browser_download_url: "https://cdn/b.zip".to_string(), size: 20 },
        ],
    };
    let resp = latest_release_response(Some(rel)).release.unwrap();
    assert_eq!(resp.tag_name, "v2.6.4");
    assert!(resp.prerelease);
    assert_eq!(resp.assets.len(), 2);
    assert_eq!(resp.assets[0].browser_download_url, "https://hub.04510451.xyz/https://github.com/a.zip");
    assert_eq!(resp.assets[0].name, "a.zip");
    assert_eq!(resp.assets[0].size, 10);
    assert_eq!(resp.assets[1].browser_download_url, "https://cdn/b.zip");
}

#[test]
fn heartbeat_pid_counts_as_running_off_linux() {
    let mut s = AgentStore::new();
    let (id, tok) = s.register("o".to_string(), reg("h", None));
    let core = CoreStatusReport { installed: None, running: None, pid: Some(4_000_000_000), uri: None, version: None };
    assert!(s.heartbeat(&id, &tok, beat(&id, &tok, "running", Some(core)), false));
    assert!(s.get(&id).unwrap().core_running);
    let stopped = CoreStatusReport { installed: None, running: Some(false), pid: Some(1), uri: None, version: None };
    assert!(s.heartbeat(&id, &tok, beat(&id, &tok, "running", Some(stopped)), false));
    assert!(!s.get(&id).unwrap().core_running);
    let mut m = AgentManager::new();
    let r = handle_register(&mut m, reg("h", None));
    let core = CoreStatusReport { installed: None, running: None, pid: Some(4_000_000_000), uri: None, version: None };
    assert!(handle_heartbeat(&mut m, beat(&r.agent_id, &r.token, "running", Some(core)), false).ok);
    assert!(m.store.get(&r.agent_id).unwrap().core_running);
}

#[test]
fn pid_to_probe_values() {
    let core = |running: Option<bool>, pid: Option<u64>| CoreStatusReport { installed: None, running, pid, uri: None, version: None };
    assert_eq!(pid_to_probe(&None), None);
    assert_eq!(pid_to_probe(&Some(core(None, Some(77)))), Some(77));
    assert_eq!(pid_to_probe(&Some(core(None, Some(4_294_967_297)))), Some(1));
    assert_eq!(pid_to_probe(&Some(core(Some(true), Some(77)))), None);
    assert_eq!(pid_to_probe(&Some(core(None, None))), None);
}

#[test]
fn register_is_idempotent_after_other_calls() {
    let mut s = AgentStore::new();
    let (id, tok) = s.register("alice".to_string(), reg("box", None));
    assert!(s.heartbeat(&id, &tok, beat(&id, &tok, "running", None), true));
    let c = AgentCommand {
        id: "c1".to_string(),
        command_type: "stop".to_string(),
        payload: "{}".to_string(),
        created_at: "t".to_string(),
    };
    assert!(s.push_command(&id, c));
    s.update_core_status(&id, true, Some("2.6.4".to_string()), true, None);
    let (other, _) = s.register("alice".to_string(), reg("other", None));
    assert!(s.delete("alice", &other));
    let mut again = reg("box", None);
    again.public_ip = "198.51.100.1".to_string();
    again.arch = "aarch64".to_string();
    let (id2, tok2) = s.register("alice".to_string(), again);
    assert_eq!((id2, tok2), (id.clone(), tok));
    let info = s.get(&id).unwrap();
    assert_eq!(info.public_ip, "203.0.113.9");
    assert_eq!(info.arch, "x86_64");
    assert_eq!(s.list_by_owner("alice").len(), 1);
}

#[test]
fn handlers_give_simple_uuid_ids() {
    let mut m = AgentManager::new();
    let r = handle_register(&mut m, reg("h", Some("carol")));
    assert!(r.agent_id.starts_with("agent-"));
    assert_eq!(r.agent_id.len(), 38);
    assert!(is_lower_hex(&r.agent_id[6..]));
    assert_eq!(r.token.len(), 32);
    assert!(is_lower_hex(&r.token));
}

#[test]
fn handle_heartbeat_with_exact_values() {
    let mut m = AgentManager::new();
    let r = handle_register(&mut m, reg("h", None));
    let core = CoreStatusReport { installed: None, running: None, pid: Some(9), uri: None, version: None };
    let hb = handle_heartbeat_with(&mut m, beat(&r.agent_id, &r.token, "busy", Some(core)), "s9".to_string(), 5, true);
    assert!(hb.ok && hb.message.is_none());
    let info = m.store.get(&r.agent_id).unwrap();
    assert!(info.core_running);
    assert_eq!(info.status, "online");
    assert!(info.message.is_none());
    assert_eq!(info.last_heartbeat, "s9");
    let hb = handle_heartbeat_with(&mut m, beat(&r.agent_id, "bad", "busy", None), "s10".to_string(), 6, false);
    assert!(!hb.ok);
    assert_eq!(hb.message.as_deref(), Some("invalid agent_id or token"));
    assert_eq!(m.store.get(&r.agent_id).unwrap().last_heartbeat, "s9");
}
