use lean_ctx::ctx_provider::{
    chunks_fetched, consolidate_to_session, consolidated, format_chunks_compact, gitlab_answered,
    gitlab_configured, handle, handle_discover, handle_registry_chunks, handle_registry_compact,
    handle_registry_query, CacheEntry, ConsolidationArtifacts, ContentChunk, GitlabAction,
    GitlabCall, GraphEdge, ProviderInfo, QueryCall, QueryMode, Step, ToolArgs,
};
use lean_ctx::provider::{ProviderParams, ProviderResult};
use serde_json::Value;

fn object(text: &str) -> serde_json::Map<String, Value> {
    let value: Value = serde_json::from_str(text).unwrap();
    value.as_object().unwrap().clone()
}

fn reply(step: Step) -> String {
    match step {
        Step::Reply(text) => text,
        _ => panic!("a reply was expected"),
    }
}

fn chunk(path: &str, name: &str, references: &[&str]) -> ContentChunk {
    ContentChunk {
        file_path: path.to_string(),
        symbol_name: name.to_string(),
        kind: "Issue".to_string(),
        token_count: 42,
        references: references.iter().map(|r| r.to_string()).collect(),
    }
}

fn edge(from: &str, to: &str) -> GraphEdge {
    GraphEdge { from: from.to_string(), to: to.to_string(), kind: "mentions".to_string() }
}

fn call(mode: QueryMode) -> QueryCall {
    QueryCall {
        provider_id: "github".to_string(),
        resource: "issues".to_string(),
        params: ProviderParams { project: None, state: None, limit: None, query: None, id: None },
        mode,
    }
}

fn result() -> ProviderResult {
    ProviderResult {
        provider: "github".to_string(),
        resource_type: "issues".to_string(),
        items: vec![],
        total_count: Some(0),
        truncated: false,
    }
}

#[test]
fn unknown_actions_are_answered_with_the_known_ones() {
    let known = "discover, query, gitlab_issues, gitlab_issue, gitlab_mrs, gitlab_pipelines";
    assert_eq!(
        reply(handle(&object("{\"action\": \"fly\"}"))),
        format!("Unknown action: fly. Available: {known}")
    );
    assert_eq!(reply(handle(&serde_json::Map::new())), format!("Unknown action: . Available: {known}"));
    assert_eq!(
        reply(handle(&object("{\"action\": 3}"))),
        format!("Unknown action: . Available: {known}")
    );
    for action in known.split(", ") {
        let mut args = serde_json::Map::new();
        args.insert("action".to_string(), Value::from(action));
        assert!(!matches!(handle(&args), Step::Reply(_)));
    }
}

#[test]
fn arguments_are_read_by_type() {
    let args = ToolArgs::read(&object(
        "{\"provider\": \"p\", \"resource\": \"r\", \"project\": \"j\", \"state\": \"s\", \
         \"query\": \"q\", \"id\": \"i\", \"mode\": \"m\", \"labels\": \"l\", \"status\": \"t\", \
         \"limit\": 5, \"iid\": 9}",
    ));
    assert!(args.action.is_none());
    assert_eq!(args.provider.as_deref(), Some("p"));
    assert_eq!(args.resource.as_deref(), Some("r"));
    assert_eq!(args.project.as_deref(), Some("j"));
    assert_eq!(args.state.as_deref(), Some("s"));
    assert_eq!(args.query.as_deref(), Some("q"));
    assert_eq!(args.id.as_deref(), Some("i"));
    assert_eq!(args.mode.as_deref(), Some("m"));
    assert_eq!(args.labels.as_deref(), Some("l"));
    assert_eq!(args.status.as_deref(), Some("t"));
    assert_eq!(args.limit, Some(5));
    assert_eq!(args.iid, Some(9));
    let odd = ToolArgs::read(&object("{\"provider\": 1, \"limit\": \"5\", \"iid\": -1}"));
    assert!(odd.provider.is_none());
    assert!(odd.limit.is_none());
    assert!(odd.iid.is_none());
}

#[test]
fn discovery_lists_providers() {
    assert!(matches!(handle(&object("{\"action\": \"discover\"}")), Step::ListProviders));
    assert_eq!(
        handle_discover(&vec![]),
        "No providers registered. Set GITHUB_TOKEN or GITLAB_TOKEN."
    );
    let infos = vec![
        ProviderInfo {
            id: "github".to_string(),
            display_name: "GitHub".to_string(),
            available: true,
            actions: vec!["issues".to_string(), "pulls".to_string()],
        },
        ProviderInfo {
            id: "x".to_string(),
            display_name: "X".to_string(),
            available: false,
            actions: vec![],
        },
    ];
    assert_eq!(
        handle_discover(&infos),
        "Registered providers (2):\n  github (GitHub) [ready] actions: issues, pulls\n  x (X) [unavailable] actions: \n"
    );
}

#[test]
fn a_query_needs_a_provider_and_a_resource() {
    let args = match handle(&object("{\"action\": \"query\", \"resource\": \"r\"}")) {
        Step::InitProviders(args) => args,
        _ => panic!("providers are registered first"),
    };
    assert_eq!(
        reply(handle_registry_query(args)),
        "Error: 'provider' is required for action=query"
    );
    assert_eq!(
        reply(handle_registry_query(ToolArgs::read(&object("{\"provider\": \"p\"}")))),
        "Error: 'resource' is required for action=query"
    );
    let args = ToolArgs::read(&object(
        "{\"provider\": \"p\", \"resource\": \"r\", \"project\": \"j\", \"state\": \"s\", \
         \"query\": \"q\", \"id\": \"i\", \"limit\": 5}",
    ));
    match handle_registry_query(args) {
        Step::FetchChunks(call) => {
            assert_eq!(call.provider_id, "p");
            assert_eq!(call.resource, "r");
            assert_eq!(call.params.project.as_deref(), Some("j"));
            assert_eq!(call.params.state.as_deref(), Some("s"));
            assert_eq!(call.params.query.as_deref(), Some("q"));
            assert_eq!(call.params.id.as_deref(), Some("i"));
            assert_eq!(call.params.limit, Some(5));
            assert_eq!(call.mode, QueryMode::Compact);
        }
        _ => panic!("chunks are fetched"),
    }
    for (mode, expected) in [("chunks", QueryMode::Chunks), ("other", QueryMode::Compact)] {
        let mut args = object("{\"provider\": \"p\", \"resource\": \"r\"}");
        args.insert("mode".to_string(), Value::from(mode));
        match handle_registry_query(ToolArgs::read(&args)) {
            Step::FetchChunks(call) => assert_eq!(call.mode, expected),
            _ => panic!("chunks are fetched"),
        }
    }
}

#[test]
fn chunks_are_consolidated_before_an_answer() {
    assert_eq!(
        reply(chunks_fetched(call(QueryMode::Compact), Err("no such provider".to_string()))),
        "Error: no such provider"
    );
    assert!(matches!(
        chunks_fetched(call(QueryMode::Compact), Ok(vec![])),
        Step::Execute(_, _)
    ));
    assert_eq!(
        reply(chunks_fetched(call(QueryMode::Chunks), Ok(vec![]))),
        "0 content chunks from github/issues:\n"
    );
    for mode in [QueryMode::Compact, QueryMode::Chunks] {
        let (call, chunks) = match chunks_fetched(call(mode), Ok(vec![chunk("a/1", "One", &[])])) {
            Step::Consolidate(call, chunks) => (call, chunks),
            _ => panic!("chunks are consolidated"),
        };
        let artifacts = ConsolidationArtifacts {
            cache_entries: vec![CacheEntry { uri: "u".to_string(), content: "c".to_string() }],
            edges: vec![edge("a/1", "src/x.rs"), edge("a/1", "src/y.rs")],
        };
        match consolidate_to_session(call, chunks, artifacts) {
            Step::StoreArtifacts(call, chunks, artifacts) => {
                assert_eq!(artifacts.cache_entries.len(), 1);
                assert_eq!(artifacts.cache_entries[0].uri, "u");
                assert_eq!(artifacts.cache_entries[0].content, "c");
                assert_eq!(artifacts.edges.len(), 2);
                assert_eq!(artifacts.edges[0].from, "a/1");
                assert_eq!(artifacts.edges[0].to, "src/x.rs");
                assert_eq!(artifacts.edges[0].kind, "mentions");
                assert_eq!(artifacts.edges[1].to, "src/y.rs");
                match consolidated(call, chunks) {
                    Step::Execute(_, chunks) => {
                        assert_eq!(mode, QueryMode::Compact);
                        assert_eq!(chunks.len(), 1);
                    }
                    step => {
                        assert_eq!(mode, QueryMode::Chunks);
                        assert_eq!(
                            reply(step),
                            "1 content chunks from github/issues:\n  a/1 Issue (42tok)\n"
                        );
                    }
                }
            }
            _ => panic!("artifacts are stored"),
        }
    }
}

#[test]
fn empty_consolidation_stores_nothing() {
    let artifacts = ConsolidationArtifacts { cache_entries: vec![], edges: vec![] };
    let step = consolidate_to_session(call(QueryMode::Compact), vec![chunk("a", "A", &[])], artifacts);
    assert!(matches!(step, Step::Execute(_, _)));
}

#[test]
fn edges_alone_are_stored() {
    let artifacts = ConsolidationArtifacts { cache_entries: vec![], edges: vec![edge("a", "b")] };
    match consolidate_to_session(call(QueryMode::Chunks), vec![chunk("a", "A", &[])], artifacts) {
        Step::StoreArtifacts(_, _, artifacts) => {
            assert!(artifacts.cache_entries.is_empty());
            assert_eq!(artifacts.edges.len(), 1);
        }
        _ => panic!("artifacts are stored"),
    }
}

#[test]
fn a_compact_query_falls_back_to_its_chunks() {
    let step = handle_registry_compact(call(QueryMode::Compact), vec![], Ok(result()));
    match step {
        Step::ReplyResult(result) => assert_eq!(result.provider, "github"),
        _ => panic!("the result is the answer"),
    }
    let chunks = vec![chunk("github://issues/12", "Fix it", &[]), chunk("plain", "P", &[])];
    let step =
        handle_registry_compact(call(QueryMode::Compact), chunks, Err("unsupported".to_string()));
    assert_eq!(reply(step), "2 results from github/issues:\n  #12 Fix it\n  #plain P\n");
}

#[test]
fn chunk_lists_name_the_last_segment() {
    let chunks = vec![chunk("a/b/", "slash", &[]), chunk("", "none", &[]), chunk("/é", "e", &[])];
    assert_eq!(
        format_chunks_compact(&chunks, "p", "r"),
        "3 results from p/r:\n  # slash\n  # none\n  #é e\n"
    );
}

#[test]
fn chunk_lists_show_references() {
    let chunks = vec![chunk("a/1", "One", &["x", "y"]), chunk("a/2", "Two", &[])];
    assert_eq!(
        handle_registry_chunks(&chunks, "p", "r"),
        "2 content chunks from p/r:\n  a/1 Issue (42tok) refs:[x,y]\n  a/2 Issue (42tok)\n"
    );
}

#[test]
fn gitlab_actions_need_a_configuration() {
    for (name, action) in [
        ("gitlab_issues", GitlabAction::Issues),
        ("gitlab_issue", GitlabAction::Issue),
        ("gitlab_mrs", GitlabAction::MergeRequests),
        ("gitlab_pipelines", GitlabAction::Pipelines),
    ] {
        let mut args = serde_json::Map::new();
        args.insert("action".to_string(), Value::from(name));
        match handle(&args) {
            Step::LoadGitlabConfig(found, args) => {
                assert_eq!(found, action);
                let step = gitlab_configured(action, args, Err("no token".to_string()));
                assert_eq!(reply(step), "Error: no token");
            }
            _ => panic!("the configuration is loaded"),
        }
    }
}

#[test]
fn gitlab_actions_make_their_requests() {
    let args = || {
        ToolArgs::read(&object(
            "{\"state\": \"opened\", \"labels\": \"bug\", \"status\": \"failed\", \"limit\": 4, \"iid\": 8}",
        ))
    };
    match gitlab_configured(GitlabAction::Issues, args(), Ok(())) {
        Step::CallGitlab(GitlabCall::ListIssues { state, labels, limit }) => {
            assert_eq!(state.as_deref(), Some("opened"));
            assert_eq!(labels.as_deref(), Some("bug"));
            assert_eq!(limit, Some(4));
        }
        _ => panic!("issues are listed"),
    }
    match gitlab_configured(GitlabAction::Issue, args(), Ok(())) {
        Step::CallGitlab(GitlabCall::ShowIssue { iid }) => assert_eq!(iid, 8),
        _ => panic!("the issue is shown"),
    }
    match gitlab_configured(GitlabAction::MergeRequests, args(), Ok(())) {
        Step::CallGitlab(GitlabCall::ListMergeRequests { state, limit }) => {
            assert_eq!(state.as_deref(), Some("opened"));
            assert_eq!(limit, Some(4));
        }
        _ => panic!("merge requests are listed"),
    }
    match gitlab_configured(GitlabAction::Pipelines, args(), Ok(())) {
        Step::CallGitlab(GitlabCall::ListPipelines { status, limit }) => {
            assert_eq!(status.as_deref(), Some("failed"));
            assert_eq!(limit, Some(4));
        }
        _ => panic!("pipelines are listed"),
    }
}

#[test]
fn an_issue_needs_a_number() {
    for text in ["{}", "{\"iid\": 0}", "{\"iid\": \"7\"}"] {
        let step = gitlab_configured(GitlabAction::Issue, ToolArgs::read(&object(text)), Ok(()));
        assert_eq!(reply(step), "Error: iid is required for gitlab_issue");
    }
}

#[test]
fn gitlab_answers_are_results_or_errors() {
    assert!(matches!(gitlab_answered(Ok(result())), Step::ReplyResult(_)));
    assert_eq!(reply(gitlab_answered(Err("HTTP 500".to_string()))), "Error: HTTP 500");
}
