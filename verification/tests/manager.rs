use std::collections::HashMap;

use whisper::mcp::discovery::{DiscoveryError, DiscoveryFailure};
use whisper::mcp::manager::{McpManager, McpManagerBuilder, StartFailure};
use whisper::mcp::tool_adaptor::{McpToolAdaptor, RemoteTool, ToolCall, ToolCallError};
use whisper::mcp::transport::{ConnectError, TransportConfig};

fn refused(message: &str) -> Result<u32, ConnectError> {
    Err(ConnectError { message: message.to_string() })
}

fn tool(name: &str, description: Option<&str>) -> RemoteTool {
    RemoteTool {
        name: name.to_string(),
        description: description.map(|d| d.to_string()),
        input_schema: "{\"type\":\"object\"}".to_string(),
    }
}

fn three_peers() -> McpManagerBuilder {
    McpManagerBuilder::new()
        .add_sse("events", "http://localhost:1/sse")
        .add_stdio("stub", "stub-server", vec!["--quiet".to_string()], HashMap::new())
        .add_streamable("calc", "http://localhost:8000/mcp")
}

fn names_of(manager: &McpManager<u32>) -> Vec<String> {
    let mut names = Vec::new();
    let mut i = 0;
    while i < manager.clients.len() {
        names.push(manager.clients.name_at(i).clone());
        i += 1;
    }
    names
}

#[test]
fn new_builder_is_empty() {
    assert!(McpManagerBuilder::new().servers().is_empty());
}

#[test]
fn default_builder_holds_the_default_peer() {
    let builder = McpManagerBuilder::default();
    assert_eq!(
        builder.servers(),
        &vec![(
            "default-mcp".to_string(),
            TransportConfig::Sse { url: "http://localhost:8080/mcp".to_string() }
        )]
    );
}

#[test]
fn builder_keeps_descriptors_in_order() {
    let mut envs = HashMap::new();
    envs.insert("TOKEN".to_string(), "abc".to_string());
    let builder = McpManagerBuilder::new()
        .add_sse("a", "http://a/sse")
        .add_streamable("b", "http://b/mcp")
        .add_stdio("c", "run", vec!["x".to_string(), "y".to_string()], envs.clone())
        .add("d", TransportConfig::Sse { url: "http://d".to_string() });
    assert_eq!(
        builder.servers(),
        &vec![
            ("a".to_string(), TransportConfig::Sse { url: "http://a/sse".to_string() }),
            ("b".to_string(), TransportConfig::Streamable { url: "http://b/mcp".to_string() }),
            (
                "c".to_string(),
                TransportConfig::Stdio {
                    command: "run".to_string(),
                    args: vec!["x".to_string(), "y".to_string()],
                    envs,
                }
            ),
            ("d".to_string(), TransportConfig::Sse { url: "http://d".to_string() }),
        ]
    );
}

#[test]
fn load_config_appends_every_peer() {
    let builder = McpManagerBuilder::new().add_sse("a", "http://a").load_config(vec![
        ("b".to_string(), TransportConfig::Streamable { url: "http://b".to_string() }),
        ("c".to_string(), TransportConfig::Sse { url: "http://c".to_string() }),
    ]);
    let names: Vec<&str> = builder.servers().iter().map(|s| s.0.as_str()).collect();
    assert_eq!(names, vec!["a", "b", "c"]);
}

#[test]
fn protocol_words() {
    assert_eq!(TransportConfig::Sse { url: String::new() }.protocol(), "sse");
    assert_eq!(TransportConfig::Streamable { url: String::new() }.protocol(), "streamable");
    assert_eq!(
        TransportConfig::Stdio { command: String::new(), args: vec![], envs: HashMap::new() }
            .protocol(),
        "stdio"
    );
}

#[test]
fn every_peer_connects() {
    let (manager, failures) = three_peers().build(vec![Ok(10u32), Ok(20), Ok(30)]);
    assert!(failures.is_empty());
    assert_eq!(manager.clients.len(), 3);
    assert_eq!(names_of(&manager), vec!["events", "stub", "calc"]);
    assert_eq!(manager.clients.get("events"), Some(&10));
    assert_eq!(manager.clients.get("stub"), Some(&20));
    assert_eq!(manager.clients.get("calc"), Some(&30));
    assert_eq!(manager.clients.get("other"), None);
}

#[test]
fn one_failing_peer_is_left_out() {
    let (manager, failures) =
        three_peers().build(vec![Ok(10u32), refused("spawn failed"), Ok(30)]);
    assert_eq!(manager.clients.len(), 2);
    assert_eq!(names_of(&manager), vec!["events", "calc"]);
    assert!(!manager.clients.contains("stub"));
    assert_eq!(manager.clients.get("events"), Some(&10));
    assert_eq!(manager.clients.get("calc"), Some(&30));
    assert_eq!(
        failures,
        vec![StartFailure {
            name: "stub".to_string(),
            error: ConnectError { message: "spawn failed".to_string() }
        }]
    );
}

#[test]
fn every_peer_failing_gives_an_empty_registry() {
    let (manager, failures) =
        three_peers().build::<u32>(vec![refused("a"), refused("b"), refused("c")]);
    assert_eq!(manager.clients.len(), 0);
    assert_eq!(failures.len(), 3);
    assert_eq!(failures[2].name, "calc");
    assert_eq!(failures[2].error.message, "c");
}

#[test]
fn missing_command_leaves_the_registry_empty() {
    let builder = McpManagerBuilder::new().add_stdio(
        "ghost",
        "/nonexistent/executable",
        Vec::new(),
        HashMap::new(),
    );
    let (manager, failures) = builder.build::<u32>(vec![refused("No such file or directory")]);
    assert_eq!(manager.clients.len(), 0);
    assert_eq!(failures.len(), 1);
    assert_eq!(failures[0].name, "ghost");
}

#[test]
fn a_repeated_name_keeps_the_later_connection() {
    let builder = McpManagerBuilder::new()
        .add_sse("a", "http://one")
        .add_sse("b", "http://two")
        .add_sse("a", "http://three");
    let (manager, failures) = builder.build(vec![Ok(1u32), Ok(2), Ok(3)]);
    assert!(failures.is_empty());
    assert_eq!(names_of(&manager), vec!["a", "b"]);
    assert_eq!(manager.clients.get("a"), Some(&3));
}

#[test]
fn the_order_of_the_peers_does_not_change_the_registry() {
    let forward = McpManagerBuilder::new()
        .add_sse("a", "http://a")
        .add_sse("b", "http://b")
        .add_sse("c", "http://c");
    let backward = McpManagerBuilder::new()
        .add_sse("c", "http://c")
        .add_sse("b", "http://b")
        .add_sse("a", "http://a");
    let (one, _) = forward.build(vec![Ok(1u32), refused("down"), Ok(3)]);
    let (two, _) = backward.build(vec![Ok(3u32), refused("down"), Ok(1)]);
    assert_eq!(one.clients.len(), two.clients.len());
    for name in ["a", "b", "c"] {
        assert_eq!(one.clients.get(name), two.clients.get(name));
    }
}

#[test]
fn a_peer_without_outcome_is_not_connected() {
    let (manager, failures) = three_peers().build(vec![Ok(1u32)]);
    assert_eq!(names_of(&manager), vec!["events"]);
    assert!(failures.is_empty());
}

#[test]
fn outcomes_beyond_the_peers_are_ignored() {
    let builder = McpManagerBuilder::new().add_sse("a", "http://a");
    let (manager, failures) = builder.build(vec![Ok(1u32), Ok(2), refused("late")]);
    assert_eq!(names_of(&manager), vec!["a"]);
    assert_eq!(manager.clients.get("a"), Some(&1));
    assert!(failures.is_empty());
}

#[test]
fn tools_of_all_peers_are_gathered() {
    let (manager, _) = three_peers().build(vec![refused("unreachable"), Ok(2u32), Ok(3)]);
    assert_eq!(manager.clients.len(), 2);
    let (tools, failures) = manager.get_tool_set(vec![
        Ok(vec![tool("echo", Some("says it again")), tool("reverse", None)]),
        Ok(vec![tool("sum", Some("adds"))]),
    ]);
    assert!(failures.is_empty());
    assert_eq!(tools.len(), 3);
    assert_eq!(tools.names(), vec!["echo", "reverse", "sum"]);
    assert_eq!(tools.get("echo").unwrap().server(), "stub");
    assert_eq!(tools.get("reverse").unwrap().server(), "stub");
    assert_eq!(tools.get("sum").unwrap().server(), "calc");
    assert!(!tools.contains("events"));

    let echo = tools.get("echo").unwrap();
    let request = echo.call("{\"text\":\"hi\"}".to_string()).unwrap();
    assert_eq!(
        request,
        ToolCall {
            server: "stub".to_string(),
            name: "echo".to_string(),
            arguments: "{\"text\":\"hi\"}".to_string(),
        }
    );
    assert_eq!(manager.clients.get(request.server.as_str()), Some(&2));
    let answer = rmcp::model::CallToolResult::success(vec![rmcp::model::Content::text("hi")]);
    let response = McpToolAdaptor::respond(Ok(answer)).unwrap();
    let envelope: serde_json::Value = serde_json::from_str(response.as_str()).unwrap();
    assert_eq!(envelope["content"][0]["text"], serde_json::Value::String("hi".to_string()));
}

#[test]
fn discovery_twice_gives_the_same_tools() {
    let (manager, _) = three_peers().build(vec![Ok(1u32), Ok(2), Ok(3)]);
    let catalogs = || {
        vec![
            Ok(vec![tool("a", Some("first")), tool("b", None)]),
            Err(DiscoveryError { message: "timeout".to_string() }),
            Ok(vec![tool("c", None), tool("a", Some("second"))]),
        ]
    };
    let (first, first_failures) = manager.get_tool_set(catalogs());
    let (second, second_failures) = manager.get_tool_set(catalogs());
    assert_eq!(first.names(), second.names());
    assert_eq!(first_failures, second_failures);
    for name in first.names() {
        let one = first.get(name.as_str()).unwrap();
        let two = second.get(name.as_str()).unwrap();
        assert_eq!(one, two);
        assert_eq!(one.definition(String::new()), two.definition("again".to_string()));
    }
}

#[test]
fn a_tool_offered_twice_is_held_once_and_the_later_peer_wins() {
    let builder = McpManagerBuilder::new().add_sse("first", "http://1").add_sse("second", "http://2");
    let (manager, _) = builder.build(vec![Ok(1u32), Ok(2)]);
    let (tools, failures) = manager.get_tool_set(vec![
        Ok(vec![tool("search", Some("from the first")), tool("only", None)]),
        Ok(vec![tool("search", Some("from the second"))]),
    ]);
    assert!(failures.is_empty());
    assert_eq!(tools.names(), vec!["search", "only"]);
    assert_eq!(tools.len(), 2);
    let search = tools.get("search").unwrap();
    assert_eq!(search.server(), "second");
    assert_eq!(search.definition(String::new()).description, "from the second");
    assert_eq!(tools.get("only").unwrap().server(), "first");
}

#[test]
fn two_peers_sharing_one_name_give_one_tool_less() {
    let builder = McpManagerBuilder::new().add_sse("first", "http://1").add_sse("second", "http://2");
    let (manager, _) = builder.build(vec![Ok(1u32), Ok(2)]);
    let first = vec![tool("a", None), tool("shared", Some("first")), tool("b", None)];
    let second = vec![tool("c", None), tool("d", None), tool("shared", Some("second")), tool("e", None)];
    let (tools, failures) = manager.get_tool_set(vec![Ok(first), Ok(second)]);
    assert!(failures.is_empty());
    assert_eq!(tools.len(), 3 + 4 - 1);
    assert_eq!(tools.names(), vec!["a", "shared", "b", "c", "d", "e"]);
    assert_eq!(tools.names().iter().filter(|name| name.as_str() == "shared").count(), 1);
    assert_eq!(tools.get("shared").unwrap().server(), "second");
}

#[test]
fn a_peer_that_fails_discovery_adds_nothing() {
    let (manager, _) = three_peers().build(vec![Ok(1u32), Ok(2), Ok(3)]);
    let (tools, failures) = manager.get_tool_set(vec![
        Ok(vec![tool("a", None)]),
        Err(DiscoveryError { message: "closed".to_string() }),
        Ok(vec![tool("b", None)]),
    ]);
    assert_eq!(tools.names(), vec!["a", "b"]);
    assert_eq!(
        failures,
        vec![DiscoveryFailure {
            name: "stub".to_string(),
            error: DiscoveryError { message: "closed".to_string() }
        }]
    );
}

#[test]
fn catalogs_beyond_the_registry_are_ignored() {
    let builder = McpManagerBuilder::new().add_sse("a", "http://a");
    let (manager, _) = builder.build(vec![Ok(1u32)]);
    let (tools, failures) = manager.get_tool_set(vec![
        Ok(vec![tool("x", None)]),
        Ok(vec![tool("y", None)]),
        Err(DiscoveryError { message: "late".to_string() }),
    ]);
    assert_eq!(tools.names(), vec!["x"]);
    assert!(failures.is_empty());
    let (none, _) = manager.get_tool_set(Vec::new());
    assert_eq!(none.len(), 0);
}

#[test]
fn an_earlier_tool_set_is_left_alone_by_a_later_discovery() {
    let builder = McpManagerBuilder::new().add_sse("a", "http://a");
    let (manager, _) = builder.build(vec![Ok(1u32)]);
    let (first, _) = manager.get_tool_set(vec![Ok(vec![tool("x", None)])]);
    let (second, _) = manager.get_tool_set(vec![Ok(vec![tool("y", None), tool("z", None)])]);
    assert_eq!(first.names(), vec!["x"]);
    assert_eq!(second.names(), vec!["y", "z"]);
}

#[test]
fn invalid_arguments_never_reach_the_peer() {
    let adaptor = McpToolAdaptor::new(tool("echo", None), "stub".to_string());
    let mut sent: Vec<ToolCall> = Vec::new();
    for args in ["", "not json", "[1,2]", "{\"text\":", "42", "\"text\"", "{} trailing"] {
        let outcome = match adaptor.call(args.to_string()) {
            Ok(request) => {
                sent.push(request);
                McpToolAdaptor::complete(Ok("answer".to_string()))
            }
            Err(error) => Err(error),
        };
        assert!(matches!(outcome, Err(ToolCallError::InvalidArguments(_))));
    }
    assert!(sent.is_empty());
}
