//! The session registry on concrete values: create, overwrite, look up.

use rhaicp::session::{McpServerDesc, RhaiAgent};

fn stdio(name: &str, command: &str) -> McpServerDesc {
    McpServerDesc::Stdio {
        name: name.to_string(),
        command: command.to_string(),
        args: vec!["--fast".to_string()],
        env: Vec::new(),
    }
}

fn name_of(s: &McpServerDesc) -> &str {
    s.name()
}

#[test]
fn created_session_is_found() {
    let mut agent = RhaiAgent::new();
    let id = "sess-1".to_string();
    agent.create_session(&id, vec![stdio("echo", "echo-server")]);
    let servers = agent.get_mcp_servers(&id).expect("session should exist");
    assert_eq!(servers.len(), 1);
    assert_eq!(name_of(&servers[0]), "echo");
}

#[test]
fn unknown_session_yields_nothing() {
    let agent = RhaiAgent::new();
    assert!(agent.get_mcp_servers(&"nope".to_string()).is_none());
}

#[test]
fn create_overwrites_by_id() {
    let mut agent = RhaiAgent::new();
    let id = "sess-1".to_string();
    agent.create_session(&id, vec![stdio("echo", "echo-server")]);
    agent.create_session(&id, vec![stdio("calc", "calc-server"), stdio("b", "b")]);
    let servers = agent.get_mcp_servers(&id).unwrap();
    assert_eq!(servers.len(), 2);
    assert_eq!(name_of(&servers[0]), "calc");
}

#[test]
fn loaded_session_has_empty_server_list() {
    let mut agent = RhaiAgent::new();
    let id = "restored".to_string();
    agent.create_session(&id, Vec::new());
    let servers = agent.get_mcp_servers(&id).unwrap();
    assert!(servers.is_empty());
}

#[test]
fn sessions_are_independent() {
    let mut agent = RhaiAgent::default();
    let a = "a".to_string();
    let b = "b".to_string();
    agent.create_session(&a, vec![stdio("echo", "echo-server")]);
    agent.create_session(&b, vec![stdio("calc", "calc-server")]);
    assert_eq!(name_of(&agent.get_mcp_servers(&a).unwrap()[0]), "echo");
    assert_eq!(name_of(&agent.get_mcp_servers(&b).unwrap()[0]), "calc");
}
