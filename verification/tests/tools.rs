use whisper::mcp::names::NameMap;
use whisper::mcp::tool_adaptor::{
    convert_mcp_call_tool_result_to_string, get_tool_set, McpToolAdaptor, RemoteTool, ToolCall,
    ToolCallError, ToolDefinition,
};
use whisper::mcp::tool_set::ToolSet;

fn described(name: &str, description: &str) -> RemoteTool {
    RemoteTool {
        name: name.to_string(),
        description: Some(description.to_string()),
        input_schema: "{\"type\":\"object\",\"properties\":{\"text\":{\"type\":\"string\"}}}"
            .to_string(),
    }
}

fn bare(name: &str) -> RemoteTool {
    RemoteTool { name: name.to_string(), description: None, input_schema: "{}".to_string() }
}

#[test]
fn name_is_the_remote_name() {
    let adaptor = McpToolAdaptor::new(described("echo", "says it again"), "stub".to_string());
    assert_eq!(adaptor.name(), "echo");
    assert_eq!(adaptor.server(), "stub");
}

#[test]
fn definition_projects_the_descriptor() {
    let adaptor = McpToolAdaptor::new(described("echo", "says it again"), "stub".to_string());
    assert_eq!(
        adaptor.definition("any prompt".to_string()),
        ToolDefinition {
            name: "echo".to_string(),
            description: "says it again".to_string(),
            parameters: "{\"type\":\"object\",\"properties\":{\"text\":{\"type\":\"string\"}}}"
                .to_string(),
        }
    );
}

#[test]
fn definition_without_description_is_empty_text() {
    let adaptor = McpToolAdaptor::new(bare("sum"), "calc".to_string());
    let definition = adaptor.definition(String::new());
    assert_eq!(definition.name, "sum");
    assert_eq!(definition.description, "");
    assert_eq!(definition.parameters, "{}");
}

#[test]
fn embedding_docs_hold_the_description() {
    let with = McpToolAdaptor::new(described("echo", "says it again"), "stub".to_string());
    assert_eq!(with.embedding_docs(), vec!["says it again".to_string()]);
    let without = McpToolAdaptor::new(bare("sum"), "calc".to_string());
    assert_eq!(without.embedding_docs(), vec![String::new()]);
}

#[test]
fn call_with_an_object_gives_the_request() {
    let adaptor = McpToolAdaptor::new(bare("sum"), "calc".to_string());
    let request = adaptor.call(" {\"a\": 1, \"b\": [2, 3]} ".to_string());
    assert_eq!(
        request,
        Ok(ToolCall {
            server: "calc".to_string(),
            name: "sum".to_string(),
            arguments: " {\"a\": 1, \"b\": [2, 3]} ".to_string(),
        })
    );
}

#[test]
fn call_with_null_or_empty_object_is_accepted() {
    let adaptor = McpToolAdaptor::new(bare("now"), "clock".to_string());
    assert!(adaptor.call("null".to_string()).is_ok());
    assert!(adaptor.call("{}".to_string()).is_ok());
}

#[test]
fn call_with_malformed_text_reports_the_parser() {
    let adaptor = McpToolAdaptor::new(bare("sum"), "calc".to_string());
    let text = "{\"a\": ";
    let expected = serde_json::from_str::<Option<serde_json::Map<String, serde_json::Value>>>(text)
        .unwrap_err()
        .to_string();
    assert!(!expected.is_empty());
    assert_ne!(expected, text);
    assert_eq!(
        adaptor.call(text.to_string()),
        Err(ToolCallError::InvalidArguments(expected))
    );
}

#[test]
fn call_with_a_value_that_is_no_object_is_rejected() {
    let adaptor = McpToolAdaptor::new(bare("sum"), "calc".to_string());
    for text in ["[1, 2]", "3", "true", "\"a\"", "{\"a\":1}{\"b\":2}"] {
        assert!(matches!(
            adaptor.call(text.to_string()),
            Err(ToolCallError::InvalidArguments(_))
        ));
    }
}

#[test]
fn complete_hands_the_response_on() {
    let envelope = "{\"content\":[{\"type\":\"text\",\"text\":\"hi\"}],\"isError\":false}";
    assert_eq!(McpToolAdaptor::complete(Ok(envelope.to_string())), Ok(envelope.to_string()));
}

#[test]
fn complete_surfaces_a_remote_failure() {
    assert_eq!(
        McpToolAdaptor::complete(Err("transport closed".to_string())),
        Err(ToolCallError::RemoteFailure("transport closed".to_string()))
    );
}

#[test]
fn a_response_is_serialised_in_full() {
    let response = rmcp::model::CallToolResult::success(vec![
        rmcp::model::Content::text("hi"),
        rmcp::model::Content::text("there"),
    ]);
    let expected = "{\"content\":[{\"type\":\"text\",\"text\":\"hi\"},\
                    {\"type\":\"text\",\"text\":\"there\"}],\"isError\":false}";
    assert_eq!(convert_mcp_call_tool_result_to_string(response.clone()), expected);
    assert_eq!(McpToolAdaptor::respond(Ok(response)), Ok(expected.to_string()));
}

#[test]
fn an_error_response_is_still_a_response() {
    let response =
        rmcp::model::CallToolResult::error(vec![rmcp::model::Content::text("no such file")]);
    let text = McpToolAdaptor::respond(Ok(response)).unwrap();
    let parsed: serde_json::Value = serde_json::from_str(text.as_str()).unwrap();
    assert_eq!(parsed["isError"], serde_json::Value::Bool(true));
    assert_eq!(parsed["content"][0]["text"], serde_json::Value::String("no such file".to_string()));
}

#[test]
fn respond_surfaces_a_remote_failure() {
    assert_eq!(
        McpToolAdaptor::respond(Err("connection reset".to_string())),
        Err(ToolCallError::RemoteFailure("connection reset".to_string()))
    );
}

#[test]
fn tool_set_of_one_peer() {
    let set = get_tool_set("stub", vec![described("echo", "one"), bare("reverse")]);
    assert_eq!(set.len(), 2);
    assert_eq!(set.names(), vec!["echo", "reverse"]);
    assert_eq!(set.tool_at(0).name(), "echo");
    assert_eq!(set.tool_at(1).server(), "stub");
    assert!(set.contains("reverse"));
    assert!(!set.contains("sum"));
    assert_eq!(set.get("sum"), None);
}

#[test]
fn a_name_repeated_in_one_catalogue_keeps_the_later_tool() {
    let set = get_tool_set(
        "stub",
        vec![described("echo", "old"), bare("other"), described("echo", "new")],
    );
    assert_eq!(set.names(), vec!["echo", "other"]);
    assert_eq!(set.get("echo").unwrap().definition(String::new()).description, "new");
}

#[test]
fn empty_catalogue_gives_an_empty_set() {
    let set = get_tool_set("stub", Vec::new());
    assert_eq!(set.len(), 0);
    assert!(set.names().is_empty());
}

#[test]
fn add_tool_replaces_a_tool_of_the_same_name() {
    let mut set = ToolSet::new();
    set.add_tool(McpToolAdaptor::new(described("a", "one"), "p".to_string()));
    set.add_tool(McpToolAdaptor::new(bare("b"), "p".to_string()));
    set.add_tool(McpToolAdaptor::new(described("a", "two"), "q".to_string()));
    assert_eq!(set.len(), 2);
    assert_eq!(set.names(), vec!["a", "b"]);
    let a = set.get("a").unwrap();
    assert_eq!(a.server(), "q");
    assert_eq!(a.definition(String::new()).description, "two");
}

#[test]
fn add_tools_prefers_the_added_set() {
    let mut base = get_tool_set("p", vec![described("a", "p's"), bare("b")]);
    let extra = get_tool_set("q", vec![bare("c"), described("a", "q's")]);
    base.add_tools(extra);
    assert_eq!(base.names(), vec!["a", "b", "c"]);
    assert_eq!(base.get("a").unwrap().server(), "q");
    assert_eq!(base.get("b").unwrap().server(), "p");
    assert_eq!(base.get("c").unwrap().server(), "q");
}

#[test]
fn adding_a_set_to_its_equal_changes_nothing() {
    let catalogue = || vec![described("a", "one"), bare("b")];
    let mut base = get_tool_set("p", catalogue());
    base.add_tools(get_tool_set("p", catalogue()));
    let fresh = get_tool_set("p", catalogue());
    assert_eq!(base.names(), fresh.names());
    assert_eq!(base.get("a"), fresh.get("a"));
    assert_eq!(base.get("b"), fresh.get("b"));
}

#[test]
fn name_map_keeps_first_places_and_last_values() {
    let mut map: NameMap<u32> = NameMap::new();
    assert_eq!(map.len(), 0);
    map.insert("x".to_string(), 1);
    map.insert("y".to_string(), 2);
    map.insert("x".to_string(), 3);
    assert_eq!(map.len(), 2);
    assert_eq!(map.find("x"), Some(0));
    assert_eq!(map.find("y"), Some(1));
    assert_eq!(map.find("z"), None);
    assert_eq!(map.name_at(0), "x");
    assert_eq!(map.value_at(0), &3);
    assert_eq!(map.get("y"), Some(&2));
    assert!(map.contains("x"));
    assert!(!map.contains(""));
    assert_eq!(
        map.into_entries(),
        vec![("x".to_string(), 3), ("y".to_string(), 2)]
    );
}
