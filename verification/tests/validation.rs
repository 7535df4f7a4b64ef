use mcp_config::{validate_mcp_config, McpConfig, McpServer, NameMap, ValidationError};

fn server(command: &str) -> McpServer {
    McpServer { command: command.to_string(), args: Vec::new(), env: None }
}

fn config(entries: Vec<(&str, McpServer)>) -> McpConfig {
    let mut mcp_servers = NameMap::new();
    for (name, entry) in entries {
        mcp_servers.insert(name.to_string(), entry);
    }
    McpConfig { mcp_servers }
}

#[test]
fn rejects_a_configuration_without_servers() {
    let outcome = validate_mcp_config(&config(vec![]));
    assert!(matches!(outcome, Err(ValidationError::EmptyServerSet)));
}

#[test]
fn rejects_an_empty_command_and_names_the_server() {
    let outcome = validate_mcp_config(&config(vec![("x", server(""))]));
    match outcome {
        Err(ValidationError::EmptyCommand(name)) => assert_eq!(name, "x"),
        other => panic!("unexpected outcome: {:?}", other),
    }
}

#[test]
fn accepts_a_server_with_a_command_and_nothing_else() {
    let outcome = validate_mcp_config(&config(vec![("x", server("node"))]));
    assert!(outcome.is_ok());
}

#[test]
fn accepts_servers_with_arguments_and_environment() {
    let mut env = NameMap::new();
    env.insert("KEY".to_string(), "value".to_string());
    let full = McpServer {
        command: "npx".to_string(),
        args: vec!["-y".to_string(), "server".to_string()],
        env: Some(env),
    };
    let outcome = validate_mcp_config(&config(vec![("a", full), ("b", server("node"))]));
    assert!(outcome.is_ok());
}

#[test]
fn rejects_an_empty_server_name() {
    let outcome = validate_mcp_config(&config(vec![("", server("node"))]));
    assert!(matches!(outcome, Err(ValidationError::EmptyServerName)));
}

#[test]
fn looks_at_the_name_before_the_command() {
    let outcome = validate_mcp_config(&config(vec![("", server(""))]));
    assert!(matches!(outcome, Err(ValidationError::EmptyServerName)));
}

#[test]
fn the_first_entry_with_a_fault_decides() {
    let outcome =
        validate_mcp_config(&config(vec![("ok", server("node")), ("b", server("")), ("", server("x"))]));
    match outcome {
        Err(ValidationError::EmptyCommand(name)) => assert_eq!(name, "b"),
        other => panic!("unexpected outcome: {:?}", other),
    }
    let outcome =
        validate_mcp_config(&config(vec![("ok", server("node")), ("", server("x")), ("b", server(""))]));
    assert!(matches!(outcome, Err(ValidationError::EmptyServerName)));
}

#[test]
fn a_fault_behind_valid_entries_is_found() {
    let outcome = validate_mcp_config(&config(vec![
        ("a", server("one")),
        ("b", server("two")),
        ("c", server("")),
    ]));
    match outcome {
        Err(ValidationError::EmptyCommand(name)) => assert_eq!(name, "c"),
        other => panic!("unexpected outcome: {:?}", other),
    }
}

#[test]
fn messages_are_those_shown_to_the_user() {
    assert_eq!(
        ValidationError::EmptyServerSet.message(),
        "At least one MCP server must be configured"
    );
    assert_eq!(ValidationError::EmptyServerName.message(), "Server name cannot be empty");
    assert_eq!(
        ValidationError::EmptyCommand("files".to_string()).message(),
        "Command for server 'files' cannot be empty"
    );
}
