use mcp_config::{
    load_mcp_config, save_mcp_config, ConfigError, Field, McpConfig, McpServer, NameMap,
    ParseError, ShapeError,
};

fn server(command: &str, args: &[&str], env: Option<&[(&str, &str)]>) -> McpServer {
    McpServer {
        command: command.to_string(),
        args: args.iter().map(|a| a.to_string()).collect(),
        env: env.map(|pairs| {
            let mut map = NameMap::new();
            for (name, value) in pairs {
                map.insert(name.to_string(), value.to_string());
            }
            map
        }),
    }
}

fn config(entries: Vec<(&str, McpServer)>) -> McpConfig {
    let mut mcp_servers = NameMap::new();
    for (name, entry) in entries {
        mcp_servers.insert(name.to_string(), entry);
    }
    McpConfig { mcp_servers }
}

fn pairs(map: &NameMap<String>) -> Vec<(String, String)> {
    map.entries().clone()
}

fn assert_same_server(left: &McpServer, right: &McpServer) {
    assert_eq!(left.command, right.command);
    assert_eq!(left.args, right.args);
    assert_eq!(left.env.as_ref().map(pairs), right.env.as_ref().map(pairs));
}

fn assert_same_config(left: &McpConfig, right: &McpConfig) {
    assert_eq!(left.mcp_servers.len(), right.mcp_servers.len());
    for (name, entry) in left.mcp_servers.entries() {
        let other = right.mcp_servers.get(name).expect("a server is missing");
        assert_same_server(entry, other);
    }
}

fn shape_error(text: &str) -> ShapeError {
    match load_mcp_config(Some(text)) {
        Err(ConfigError::Parse(ParseError::Shape(e))) => e,
        other => panic!("unexpected outcome: {:?}", other),
    }
}

#[test]
fn no_file_is_no_configuration_and_no_error() {
    assert!(matches!(load_mcp_config(None), Ok(None)));
}

#[test]
fn text_that_is_not_json_is_a_parse_error() {
    match load_mcp_config(Some("not json")) {
        Err(ConfigError::Parse(ParseError::Syntax(detail))) => {
            assert_eq!(detail, "expected ident at line 1 column 2")
        },
        other => panic!("unexpected outcome: {:?}", other),
    }
}

#[test]
fn an_empty_file_is_a_parse_error() {
    assert!(matches!(load_mcp_config(Some("")), Err(ConfigError::Parse(ParseError::Syntax(_)))));
}

#[test]
fn text_behind_the_document_is_a_parse_error() {
    assert!(matches!(
        load_mcp_config(Some("{\"mcpServers\": {}} x")),
        Err(ConfigError::Parse(ParseError::Syntax(_)))
    ));
}

#[test]
fn saves_the_servers_in_pretty_printed_json() {
    let text = save_mcp_config(&config(vec![("x", server("node", &["a", "b"], None))])).unwrap();
    let expected = "{\n  \"mcpServers\": {\n    \"x\": {\n      \"command\": \"node\",\n      \"args\": [\n        \"a\",\n        \"b\"\n      ]\n    }\n  }\n}";
    assert_eq!(text, expected);
}

#[test]
fn saves_the_environment_behind_the_arguments() {
    let text =
        save_mcp_config(&config(vec![("x", server("node", &[], Some(&[("K", "V")])))])).unwrap();
    let expected = "{\n  \"mcpServers\": {\n    \"x\": {\n      \"command\": \"node\",\n      \"args\": [],\n      \"env\": {\n        \"K\": \"V\"\n      }\n    }\n  }\n}";
    assert_eq!(text, expected);
}

#[test]
fn an_absent_environment_is_left_out_and_an_empty_one_is_written() {
    let absent = save_mcp_config(&config(vec![("x", server("node", &[], None))])).unwrap();
    assert!(!absent.contains("env"));
    assert!(!absent.contains("null"));
    let empty = save_mcp_config(&config(vec![("x", server("node", &[], Some(&[])))])).unwrap();
    assert!(empty.contains("\"env\": {}"));
}

#[test]
fn saves_an_empty_registry_though_it_is_not_valid() {
    let text = save_mcp_config(&config(vec![])).unwrap();
    assert_eq!(text, "{\n  \"mcpServers\": {}\n}");
    let loaded = load_mcp_config(Some(&text)).unwrap().expect("a configuration");
    assert!(loaded.mcp_servers.is_empty());
}

#[test]
fn what_is_saved_is_loaded_again() {
    let saved = config(vec![
        ("files", server("npx", &["-y", "files", "/tmp"], Some(&[("HOME", "/root"), ("A", "")]))),
        ("plain", server("node", &[], None)),
        ("empty env", server("python", &["-m", "srv"], Some(&[]))),
        ("quotes \"and\" \\ slashes\n", server("cmd \u{1F600}", &["", "\t"], None)),
    ]);
    let text = save_mcp_config(&saved).unwrap();
    let loaded = load_mcp_config(Some(&text)).unwrap().expect("a configuration");
    assert_same_config(&saved, &loaded);
    assert_same_config(&loaded, &saved);
    let order: Vec<&str> = loaded.mcp_servers.entries().iter().map(|e| e.0.as_str()).collect();
    assert_eq!(order, vec!["files", "plain", "empty env", "quotes \"and\" \\ slashes\n"]);
    assert!(loaded.mcp_servers.get("plain").unwrap().env.is_none());
    assert!(loaded.mcp_servers.get("empty env").unwrap().env.as_ref().unwrap().is_empty());
}

#[test]
fn a_later_save_replaces_the_earlier_one() {
    let mut edited = config(vec![
        ("keep", server("node", &["k"], None)),
        ("drop", server("python", &[], None)),
    ]);
    let first = save_mcp_config(&edited).unwrap();
    assert!(first.contains("drop"));
    edited.mcp_servers.remove("drop");
    edited.mcp_servers.insert("added".to_string(), server("deno", &[], None));
    let second = save_mcp_config(&edited).unwrap();
    assert!(!second.contains("drop"));
    let loaded = load_mcp_config(Some(&second)).unwrap().expect("a configuration");
    assert!(loaded.mcp_servers.get("drop").is_none());
    assert_eq!(loaded.mcp_servers.len(), 2);
    assert_same_config(&edited, &loaded);
}

#[test]
fn loads_a_document_written_by_hand() {
    let text = "{\"mcpServers\":{\"a\":{\"args\":[\"1\"],\"env\":{\"X\":\"y\"},\"command\":\"run\"}}}";
    let loaded = load_mcp_config(Some(text)).unwrap().expect("a configuration");
    let expected = config(vec![("a", server("run", &["1"], Some(&[("X", "y")])))]);
    assert_same_config(&expected, &loaded);
}

#[test]
fn a_null_environment_is_none() {
    let text = "{\"mcpServers\":{\"a\":{\"command\":\"run\",\"args\":[],\"env\":null}}}";
    let loaded = load_mcp_config(Some(text)).unwrap().expect("a configuration");
    assert!(loaded.mcp_servers.get("a").unwrap().env.is_none());
}

#[test]
fn members_that_the_shape_does_not_name_are_passed_over() {
    let text = "{\"version\":2,\"mcpServers\":{\"a\":{\"command\":\"run\",\"args\":[],\"disabled\":true}}}";
    let loaded = load_mcp_config(Some(text)).unwrap().expect("a configuration");
    assert_same_config(&config(vec![("a", server("run", &[], None))]), &loaded);
}

#[test]
fn a_loaded_registry_may_hold_what_validation_refuses() {
    let text = "{\"mcpServers\":{\"\":{\"command\":\"\",\"args\":[]}}}";
    let loaded = load_mcp_config(Some(text)).unwrap().expect("a configuration");
    assert_eq!(loaded.mcp_servers.get("").unwrap().command, "");
}

#[test]
fn a_server_name_written_twice_keeps_the_later_entry() {
    let text = "{\"mcpServers\":{\"a\":{\"command\":\"one\",\"args\":[]},\"a\":{\"command\":\"two\",\"args\":[]}}}";
    let loaded = load_mcp_config(Some(text)).unwrap().expect("a configuration");
    assert_eq!(loaded.mcp_servers.len(), 1);
    assert_eq!(loaded.mcp_servers.get("a").unwrap().command, "two");
}

#[test]
fn a_document_that_is_no_object_is_refused() {
    assert_eq!(shape_error("[]"), ShapeError::Mismatch(Field::Document));
    assert_eq!(shape_error("\"not json\""), ShapeError::Mismatch(Field::Document));
    assert_eq!(shape_error("null"), ShapeError::Mismatch(Field::Document));
    assert_eq!(shape_error("12"), ShapeError::Mismatch(Field::Document));
}

#[test]
fn a_document_without_servers_member_is_refused() {
    assert_eq!(shape_error("{}"), ShapeError::Missing(Field::McpServers));
    assert_eq!(shape_error("{\"servers\":{}}"), ShapeError::Missing(Field::McpServers));
}

#[test]
fn servers_that_are_no_object_are_refused() {
    assert_eq!(shape_error("{\"mcpServers\":[]}"), ShapeError::Mismatch(Field::McpServers));
    assert_eq!(shape_error("{\"mcpServers\":null}"), ShapeError::Mismatch(Field::McpServers));
}

#[test]
fn a_server_entry_of_another_shape_is_refused() {
    assert_eq!(shape_error("{\"mcpServers\":{\"a\":\"node\"}}"), ShapeError::Mismatch(Field::Server));
    assert_eq!(
        shape_error("{\"mcpServers\":{\"a\":[\"node\",[],null]}}"),
        ShapeError::Mismatch(Field::Server)
    );
    assert_eq!(
        shape_error("{\"mcpServers\":{\"a\":{\"args\":[]}}}"),
        ShapeError::Missing(Field::Command)
    );
    assert_eq!(
        shape_error("{\"mcpServers\":{\"a\":{\"command\":7,\"args\":[]}}}"),
        ShapeError::Mismatch(Field::Command)
    );
    assert_eq!(
        shape_error("{\"mcpServers\":{\"a\":{\"command\":\"x\"}}}"),
        ShapeError::Missing(Field::Args)
    );
    assert_eq!(
        shape_error("{\"mcpServers\":{\"a\":{\"command\":\"x\",\"args\":\"y\"}}}"),
        ShapeError::Mismatch(Field::Args)
    );
    assert_eq!(
        shape_error("{\"mcpServers\":{\"a\":{\"command\":\"x\",\"args\":[\"y\",1]}}}"),
        ShapeError::Mismatch(Field::Args)
    );
    assert_eq!(
        shape_error("{\"mcpServers\":{\"a\":{\"command\":\"x\",\"args\":[],\"env\":[]}}}"),
        ShapeError::Mismatch(Field::Env)
    );
    assert_eq!(
        shape_error("{\"mcpServers\":{\"a\":{\"command\":\"x\",\"args\":[],\"env\":{\"K\":true}}}}"),
        ShapeError::Mismatch(Field::Env)
    );
}

#[test]
fn the_first_server_that_is_refused_decides() {
    let text = "{\"mcpServers\":{\"a\":{\"command\":\"x\",\"args\":[]},\"b\":{\"args\":[]},\"c\":7}}";
    assert_eq!(shape_error(text), ShapeError::Missing(Field::Command));
    let text = "{\"mcpServers\":{\"a\":{\"command\":\"x\",\"args\":[]},\"c\":7,\"b\":{\"args\":[]}}}";
    assert_eq!(shape_error(text), ShapeError::Mismatch(Field::Server));
}

#[test]
fn the_command_is_looked_at_before_the_arguments_and_the_environment() {
    let text = "{\"mcpServers\":{\"a\":{\"env\":7,\"args\":7,\"command\":7}}}";
    assert_eq!(shape_error(text), ShapeError::Mismatch(Field::Command));
    let text = "{\"mcpServers\":{\"a\":{\"env\":7,\"args\":7,\"command\":\"x\"}}}";
    assert_eq!(shape_error(text), ShapeError::Mismatch(Field::Args));
}

#[test]
fn errors_tell_what_failed() {
    assert_eq!(
        ConfigError::Parse(ParseError::Shape(ShapeError::Missing(Field::McpServers))).message(),
        "missing `mcpServers`"
    );
    assert_eq!(
        ConfigError::Parse(ParseError::Shape(ShapeError::Mismatch(Field::Server))).message(),
        "unexpected shape of a server entry"
    );
    assert_eq!(
        ConfigError::Parse(ParseError::Syntax("expected value".to_string())).message(),
        "expected value"
    );
    assert_eq!(ConfigError::Io("disk full".to_string()).message(), "disk full");
    assert_eq!(ConfigError::Serialization("no".to_string()).message(), "no");
    assert_eq!(ConfigError::PickerChannel("closed".to_string()).message(), "closed");
    assert_eq!(
        ConfigError::Validation(mcp_config::ValidationError::EmptyServerName).message(),
        "Server name cannot be empty"
    );
    assert_eq!(ShapeError::Mismatch(Field::SavedServer).message(), "unexpected shape of an item of `saved_servers`");
    assert_eq!(ShapeError::Mismatch(Field::Document).message(), "unexpected shape of the document");
    assert_eq!(ShapeError::Missing(Field::Command).message(), "missing `command`");
    assert_eq!(ShapeError::Missing(Field::Args).message(), "missing `args`");
    assert_eq!(ShapeError::Mismatch(Field::Env).message(), "unexpected shape of `env`");
    assert_eq!(ShapeError::Missing(Field::SavedServers).message(), "missing `saved_servers`");
    assert_eq!(
        ShapeError::Mismatch(Field::LastDirectory).message(),
        "unexpected shape of `last_directory`"
    );
}

#[test]
fn the_files_have_their_names() {
    assert_eq!(mcp_config::store::project_file_name(), ".mcp.json");
    assert_eq!(mcp_config::store::app_file_name(), "config.json");
}
