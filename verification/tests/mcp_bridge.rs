use lean_ctx::mcp_bridge::{
    build_listing, list_resources, list_tools, HttpReply, ListedEntry, Listing, McpBridgeProvider,
};
use lean_ctx::provider::{ProviderParams, ProviderResult};

fn params(limit: Option<usize>) -> ProviderParams {
    ProviderParams { project: None, state: None, limit, query: None, id: None }
}

fn err(outcome: Result<ProviderResult, String>) -> String {
    match outcome {
        Ok(_) => panic!("an error was expected"),
        Err(message) => message,
    }
}

#[test]
fn mcp_bridge_unavailable_when_empty_url() {
    let provider = McpBridgeProvider::new("test", "");
    assert!(!provider.is_available());
}

#[test]
fn mcp_bridge_available_with_url() {
    let provider = McpBridgeProvider::new("kb", "http://localhost:8080");
    assert!(provider.is_available());
    assert_eq!(provider.id(), "mcp_bridge");
}

#[test]
fn mcp_bridge_supported_actions() {
    let provider = McpBridgeProvider::new("test", "http://localhost");
    assert!(provider.supported_actions().contains(&"resources"));
    assert!(provider.supported_actions().contains(&"tools"));
}

#[test]
fn fixed_properties_of_a_bridge() {
    let provider = McpBridgeProvider::new("test", "http://localhost");
    assert_eq!(provider.display_name(), "MCP Bridge");
    assert_eq!(provider.supported_actions(), &["resources", "tools"]);
    assert_eq!(provider.cache_ttl_secs(), 60);
    assert!(!provider.requires_auth());
}

#[test]
fn a_url_of_slashes_is_no_url() {
    assert!(!McpBridgeProvider::new("test", "///").is_available());
    assert!(McpBridgeProvider::new("test", "/x/").is_available());
}

#[test]
fn requests_join_paths_by_one_slash() {
    for url in ["http://localhost:8080", "http://localhost:8080/", "http://localhost:8080///"] {
        let provider = McpBridgeProvider::new("kb", url);
        let request = provider.execute("resources", &params(None)).ok().unwrap();
        assert_eq!(request.listing, Listing::Resources);
        assert_eq!(request.url, "http://localhost:8080/resources/list");
        assert_eq!(request.accept, "application/json");
        assert_eq!(request.limit, 20);
        let request = provider.execute("tools", &params(Some(3))).ok().unwrap();
        assert_eq!(request.listing, Listing::Tools);
        assert_eq!(request.url, "http://localhost:8080/tools/list");
        assert_eq!(request.limit, 3);
    }
}

#[test]
fn every_supported_action_is_executed_and_no_other() {
    let provider = McpBridgeProvider::new("kb", "http://h");
    for action in provider.supported_actions() {
        assert!(provider.execute(action, &params(None)).is_ok());
    }
    assert_eq!(
        provider.execute("prompts", &params(None)).err().unwrap(),
        "Unsupported action: prompts"
    );
}

#[test]
fn failed_requests_are_reported() {
    let call = HttpReply::CallFailed("timeout".to_string());
    assert_eq!(err(list_resources("u", "kb", 20, &call)), "MCP bridge error (kb): timeout");
    let read = HttpReply::ReadFailed("cut off".to_string());
    assert_eq!(err(list_tools("u", "kb", 20, &read)), "MCP bridge read error: cut off");
    let text = HttpReply::Body("{".to_string());
    assert_eq!(
        err(list_tools("u", "kb", 20, &text)),
        "MCP bridge JSON error: EOF while parsing an object at line 1 column 1"
    );
}

#[test]
fn resources_become_items() {
    let provider = McpBridgeProvider::new("kb", "http://h/");
    let body = HttpReply::Body(
        "{\"resources\": [{\"uri\": \"doc://1\", \"name\": \"One\", \"description\": \"First\"}, \
         {\"uri\": 7}, \"odd\"]}"
            .to_string(),
    );
    let request = provider.execute("resources", &params(Some(2))).ok().unwrap();
    let result = provider.receive(&request, &body).ok().unwrap();
    assert_eq!(result.provider, "mcp_bridge:kb");
    assert_eq!(result.resource_type, "resources");
    assert_eq!(result.total_count, Some(3));
    assert!(result.truncated);
    assert_eq!(result.items.len(), 2);
    let first = &result.items[0];
    assert_eq!(first.id, "doc://1");
    assert_eq!(first.title, "One");
    assert_eq!(first.state.as_deref(), Some("available"));
    assert!(first.author.is_none() && first.created_at.is_none() && first.updated_at.is_none());
    assert_eq!(first.url.as_deref(), Some("http://h/resources/read"));
    assert_eq!(first.labels, vec!["kb".to_string()]);
    assert_eq!(first.body.as_deref(), Some("First"));
    let second = &result.items[1];
    assert_eq!(second.id, "");
    assert_eq!(second.title, "");
    assert!(second.body.is_none());
}

#[test]
fn tools_become_items() {
    let provider = McpBridgeProvider::new("kb", "http://h");
    let body = HttpReply::Body("{\"tools\": [{\"uri\": \"x\", \"name\": \"grep\"}]}".to_string());
    let request = provider.execute("tools", &params(None)).ok().unwrap();
    let result = provider.receive(&request, &body).ok().unwrap();
    assert_eq!(result.resource_type, "tools");
    assert_eq!(result.total_count, Some(1));
    assert!(!result.truncated);
    assert_eq!(result.items[0].id, "grep");
    assert_eq!(result.items[0].title, "grep");
    assert_eq!(result.items[0].url.as_deref(), Some("http://h/tools/call"));
}

#[test]
fn an_answer_without_a_list_is_empty() {
    for text in ["{}", "[]", "null", "{\"tools\": {}}", "{\"resources\": [1]}"] {
        let result = list_tools("u", "kb", 20, &HttpReply::Body(text.to_string())).ok().unwrap();
        assert!(result.items.is_empty());
        assert_eq!(result.total_count, Some(0));
        assert!(!result.truncated);
    }
}

#[test]
fn a_listing_stops_at_its_limit() {
    let entries: Vec<ListedEntry> = (0..3)
        .map(|i| ListedEntry { uri: Some(format!("u{i}")), name: None, description: None })
        .collect();
    for (limit, shown, truncated) in [(0, 0, true), (2, 2, true), (3, 3, false), (9, 3, false)] {
        let result = build_listing(Listing::Resources, "u", "kb", limit, &entries);
        assert_eq!(result.items.len(), shown);
        assert_eq!(result.truncated, truncated);
        assert_eq!(result.total_count, Some(3));
        for (i, item) in result.items.iter().enumerate() {
            assert_eq!(item.id, format!("u{i}"));
        }
    }
}
