//! The provider tool: what a call of it asks for, what to do about it step by step, and what
//! it is answered.
//!
//! The tool touches the provider registry, the session cache and GitLab. [`handle`] turns the
//! arguments of a call into its first [`Step`]; the caller carries a step out and hands its
//! outcome to the function that the step names, until a step is a reply.

use crate::json::{json_members, number_at, number_under, text_at, text_under, JsonModel};
use crate::provider::{ProviderParams, ProviderParamsView, ProviderResult, ProviderResultView};
use crate::text::{
    decimal, file_name, join_strings, joined, last_segment, lemma_decimal_starts_with_digit,
    opt_text, or_empty, push_decimal, same_text, texts,
};
use vstd::prelude::*;
use vstd::string::*;

verus! {

/// The arguments of a call, as far as some action reads them.
pub struct ToolArgs {
    pub action: Option<String>,
    pub provider: Option<String>,
    pub resource: Option<String>,
    pub project: Option<String>,
    pub state: Option<String>,
    pub query: Option<String>,
    pub id: Option<String>,
    pub mode: Option<String>,
    pub labels: Option<String>,
    pub status: Option<String>,
    pub limit: Option<u64>,
    pub iid: Option<u64>,
}

/// Model of [`ToolArgs`].
pub struct ToolArgsView {
    pub action: Option<Seq<char>>,
    pub provider: Option<Seq<char>>,
    pub resource: Option<Seq<char>>,
    pub project: Option<Seq<char>>,
    pub state: Option<Seq<char>>,
    pub query: Option<Seq<char>>,
    pub id: Option<Seq<char>>,
    pub mode: Option<Seq<char>>,
    pub labels: Option<Seq<char>>,
    pub status: Option<Seq<char>>,
    pub limit: Option<u64>,
    pub iid: Option<u64>,
}

impl View for ToolArgs {
    type V = ToolArgsView;

    open spec fn view(&self) -> ToolArgsView {
        ToolArgsView {
            action: opt_text(self.action),
            provider: opt_text(self.provider),
            resource: opt_text(self.resource),
            project: opt_text(self.project),
            state: opt_text(self.state),
            query: opt_text(self.query),
            id: opt_text(self.id),
            mode: opt_text(self.mode),
            labels: opt_text(self.labels),
            status: opt_text(self.status),
            limit: self.limit,
            iid: self.iid,
        }
    }
}

/// The arguments that the members of a JSON object give: a member of another type counts as
/// absent.
pub open spec fn args_in(members: Map<Seq<char>, JsonModel>) -> ToolArgsView {
    ToolArgsView {
        action: text_under(members, "action"@),
        provider: text_under(members, "provider"@),
        resource: text_under(members, "resource"@),
        project: text_under(members, "project"@),
        state: text_under(members, "state"@),
        query: text_under(members, "query"@),
        id: text_under(members, "id"@),
        mode: text_under(members, "mode"@),
        labels: text_under(members, "labels"@),
        status: text_under(members, "status"@),
        limit: number_under(members, "limit"@),
        iid: number_under(members, "iid"@),
    }
}

/// How a query is answered.
#[derive(Clone, Copy, Debug, PartialEq, Eq, Structural)]
pub enum QueryMode {
    /// By the provider's result.
    Compact,
    /// By a list of content chunks.
    Chunks,
}

/// A query to one provider of the registry.
pub struct QueryCall {
    pub provider_id: String,
    pub resource: String,
    pub params: ProviderParams,
    pub mode: QueryMode,
}

/// Model of [`QueryCall`].
pub struct QueryCallView {
    pub provider_id: Seq<char>,
    pub resource: Seq<char>,
    pub params: ProviderParamsView,
    pub mode: QueryMode,
}

impl View for QueryCall {
    type V = QueryCallView;

    open spec fn view(&self) -> QueryCallView {
        QueryCallView {
            provider_id: self.provider_id@,
            resource: self.resource@,
            params: self.params@,
            mode: self.mode,
        }
    }
}

/// The actions that go straight to GitLab.
#[derive(Clone, Copy, Debug, PartialEq, Eq, Structural)]
pub enum GitlabAction {
    Issues,
    Issue,
    MergeRequests,
    Pipelines,
}

/// A request to GitLab.
pub enum GitlabCall {
    ListIssues { state: Option<String>, labels: Option<String>, limit: Option<usize> },
    ShowIssue { iid: u64 },
    ListMergeRequests { state: Option<String>, limit: Option<usize> },
    ListPipelines { status: Option<String>, limit: Option<usize> },
}

/// Model of [`GitlabCall`].
pub enum GitlabCallView {
    ListIssues { state: Option<Seq<char>>, labels: Option<Seq<char>>, limit: Option<usize> },
    ShowIssue { iid: u64 },
    ListMergeRequests { state: Option<Seq<char>>, limit: Option<usize> },
    ListPipelines { status: Option<Seq<char>>, limit: Option<usize> },
}

impl View for GitlabCall {
    type V = GitlabCallView;

    open spec fn view(&self) -> GitlabCallView {
        match self {
            GitlabCall::ListIssues { state, labels, limit } => GitlabCallView::ListIssues {
                state: opt_text(*state),
                labels: opt_text(*labels),
                limit: *limit,
            },
            GitlabCall::ShowIssue { iid } => GitlabCallView::ShowIssue { iid: *iid },
            GitlabCall::ListMergeRequests { state, limit } => GitlabCallView::ListMergeRequests {
                state: opt_text(*state),
                limit: *limit,
            },
            GitlabCall::ListPipelines { status, limit } => GitlabCallView::ListPipelines {
                status: opt_text(*status),
                limit: *limit,
            },
        }
    }
}

/// What the registry says of a provider.
pub struct ProviderInfo {
    pub id: String,
    pub display_name: String,
    pub available: bool,
    pub actions: Vec<String>,
}

/// Model of [`ProviderInfo`].
pub struct ProviderInfoView {
    pub id: Seq<char>,
    pub display_name: Seq<char>,
    pub available: bool,
    pub actions: Seq<Seq<char>>,
}

impl View for ProviderInfo {
    type V = ProviderInfoView;

    open spec fn view(&self) -> ProviderInfoView {
        ProviderInfoView {
            id: self.id@,
            display_name: self.display_name@,
            available: self.available,
            actions: texts(self.actions@),
        }
    }
}

/// A piece of content that a provider delivered.
pub struct ContentChunk {
    pub file_path: String,
    pub symbol_name: String,
    /// Name of the kind of content.
    pub kind: String,
    pub token_count: usize,
    pub references: Vec<String>,
}

/// Model of [`ContentChunk`].
pub struct ContentChunkView {
    pub file_path: Seq<char>,
    pub symbol_name: Seq<char>,
    pub kind: Seq<char>,
    pub token_count: nat,
    pub references: Seq<Seq<char>>,
}

impl View for ContentChunk {
    type V = ContentChunkView;

    open spec fn view(&self) -> ContentChunkView {
        ContentChunkView {
            file_path: self.file_path@,
            symbol_name: self.symbol_name@,
            kind: self.kind@,
            token_count: self.token_count as nat,
            references: texts(self.references@),
        }
    }
}

/// The models of a list of chunks.
pub open spec fn chunk_views(chunks: Seq<ContentChunk>) -> Seq<ContentChunkView> {
    chunks.map_values(|chunk: ContentChunk| chunk@)
}

/// The models of a list of providers.
pub open spec fn info_views(infos: Seq<ProviderInfo>) -> Seq<ProviderInfoView> {
    infos.map_values(|info: ProviderInfo| info@)
}

/// An entry for the session cache.
pub struct CacheEntry {
    pub uri: String,
    pub content: String,
}

/// Model of [`CacheEntry`].
pub struct CacheEntryView {
    pub uri: Seq<char>,
    pub content: Seq<char>,
}

impl View for CacheEntry {
    type V = CacheEntryView;

    open spec fn view(&self) -> CacheEntryView {
        CacheEntryView { uri: self.uri@, content: self.content@ }
    }
}

/// The models of a list of cache entries.
pub open spec fn entry_views(entries: Seq<CacheEntry>) -> Seq<CacheEntryView> {
    entries.map_values(|entry: CacheEntry| entry@)
}

/// An edge between two sources, for the graph.
pub struct GraphEdge {
    pub from: String,
    pub to: String,
    /// Name of the kind of relation.
    pub kind: String,
}

/// Model of [`GraphEdge`].
pub struct GraphEdgeView {
    pub from: Seq<char>,
    pub to: Seq<char>,
    pub kind: Seq<char>,
}

impl View for GraphEdge {
    type V = GraphEdgeView;

    open spec fn view(&self) -> GraphEdgeView {
        GraphEdgeView { from: self.from@, to: self.to@, kind: self.kind@ }
    }
}

/// The models of a list of edges.
pub open spec fn edge_views(edges: Seq<GraphEdge>) -> Seq<GraphEdgeView> {
    edges.map_values(|edge: GraphEdge| edge@)
}

/// What consolidating chunks has for the session.
pub struct ConsolidationArtifacts {
    /// What the session cache is to hold, in order.
    pub cache_entries: Vec<CacheEntry>,
    /// The edges that the graph is to hold, in order.
    pub edges: Vec<GraphEdge>,
}

/// Model of [`ConsolidationArtifacts`].
#[verifier::ext_equal]
pub struct ConsolidationArtifactsView {
    pub cache_entries: Seq<CacheEntryView>,
    pub edges: Seq<GraphEdgeView>,
}

impl View for ConsolidationArtifacts {
    type V = ConsolidationArtifactsView;

    open spec fn view(&self) -> ConsolidationArtifactsView {
        ConsolidationArtifactsView {
            cache_entries: entry_views(self.cache_entries@),
            edges: edge_views(self.edges@),
        }
    }
}

/// What to do next about a call.
pub enum Step {
    /// Answer with this text.
    Reply(String),
    /// Answer with the compact form of this result, after redaction.
    ReplyResult(ProviderResult),
    /// Register the built-in providers and list all of them, for [`handle_discover`].
    ListProviders,
    /// Register the built-in providers, for [`handle_registry_query`].
    InitProviders(ToolArgs),
    /// Ask the registry for content chunks, for [`chunks_fetched`].
    FetchChunks(QueryCall),
    /// Consolidate these chunks, for [`consolidate_to_session`].
    Consolidate(QueryCall, Vec<ContentChunk>),
    /// Store the cache entries in the session cache, in order, if it is there and free, and
    /// add the edges to the graph, in order; then [`consolidated`].
    StoreArtifacts(QueryCall, Vec<ContentChunk>, ConsolidationArtifacts),
    /// Ask the registry for a result, for [`handle_registry_compact`].
    Execute(QueryCall, Vec<ContentChunk>),
    /// Load the GitLab configuration, for [`gitlab_configured`].
    LoadGitlabConfig(GitlabAction, ToolArgs),
    /// Make this request to GitLab, for [`gitlab_answered`].
    CallGitlab(GitlabCall),
}

/// Model of [`Step`].
#[verifier::ext_equal]
pub enum StepView {
    Reply(Seq<char>),
    ReplyResult(ProviderResultView),
    ListProviders,
    InitProviders(ToolArgsView),
    FetchChunks(QueryCallView),
    Consolidate(QueryCallView, Seq<ContentChunkView>),
    StoreArtifacts(QueryCallView, Seq<ContentChunkView>, ConsolidationArtifactsView),
    Execute(QueryCallView, Seq<ContentChunkView>),
    LoadGitlabConfig(GitlabAction, ToolArgsView),
    CallGitlab(GitlabCallView),
}

impl View for Step {
    type V = StepView;

    open spec fn view(&self) -> StepView {
        match self {
            Step::Reply(text) => StepView::Reply(text@),
            Step::ReplyResult(result) => StepView::ReplyResult(result@),
            Step::ListProviders => StepView::ListProviders,
            Step::InitProviders(args) => StepView::InitProviders(args@),
            Step::FetchChunks(call) => StepView::FetchChunks(call@),
            Step::Consolidate(call, chunks) => StepView::Consolidate(call@, chunk_views(chunks@)),
            Step::StoreArtifacts(call, chunks, artifacts) => StepView::StoreArtifacts(
                call@,
                chunk_views(chunks@),
                artifacts@,
            ),
            Step::Execute(call, chunks) => StepView::Execute(call@, chunk_views(chunks@)),
            Step::LoadGitlabConfig(action, args) => StepView::LoadGitlabConfig(*action, args@),
            Step::CallGitlab(call) => StepView::CallGitlab(call@),
        }
    }
}

/// The actions of the tool.
pub open spec fn actions() -> Seq<Seq<char>> {
    seq![
        "discover"@,
        "query"@,
        "gitlab_issues"@,
        "gitlab_issue"@,
        "gitlab_mrs"@,
        "gitlab_pipelines"@,
    ]
}

/// The first step of a call.
pub open spec fn first_step(args: ToolArgsView) -> StepView {
    let action = or_empty(args.action);
    if action == "discover"@ {
        StepView::ListProviders
    } else if action == "query"@ {
        StepView::InitProviders(args)
    } else if action == "gitlab_issues"@ {
        StepView::LoadGitlabConfig(GitlabAction::Issues, args)
    } else if action == "gitlab_issue"@ {
        StepView::LoadGitlabConfig(GitlabAction::Issue, args)
    } else if action == "gitlab_mrs"@ {
        StepView::LoadGitlabConfig(GitlabAction::MergeRequests, args)
    } else if action == "gitlab_pipelines"@ {
        StepView::LoadGitlabConfig(GitlabAction::Pipelines, args)
    } else {
        StepView::Reply(
            "Unknown action: "@ + action + ". Available: "@
                + "discover, query, gitlab_issues, gitlab_issue, gitlab_mrs, gitlab_pipelines"@,
        )
    }
}

/// A number of arguments as a size.
pub open spec fn size_of_limit(limit: Option<u64>) -> Option<usize> {
    match limit {
        Some(n) => Some(n as usize),
        None => None,
    }
}

/// The mode that a call asks for: compact unless it asks for chunks.
pub open spec fn mode_in(mode: Option<Seq<char>>) -> QueryMode {
    if mode == Some("chunks"@) {
        QueryMode::Chunks
    } else {
        QueryMode::Compact
    }
}

/// The step of a query once the providers are registered.
pub open spec fn query_step(args: ToolArgsView) -> StepView {
    match (args.provider, args.resource) {
        (None, _) => StepView::Reply("Error: 'provider' is required for action=query"@),
        (Some(_), None) => StepView::Reply("Error: 'resource' is required for action=query"@),
        (Some(provider_id), Some(resource)) => StepView::FetchChunks(
            QueryCallView {
                provider_id,
                resource,
                params: ProviderParamsView {
                    project: args.project,
                    state: args.state,
                    limit: size_of_limit(args.limit),
                    query: args.query,
                    id: args.id,
                },
                mode: mode_in(args.mode),
            },
        ),
    }
}

/// An error as a reply.
pub open spec fn error_reply(message: Seq<char>) -> StepView {
    StepView::Reply("Error: "@ + message)
}

/// The step of a query once its chunks are consolidated.
pub open spec fn consolidated_step(
    call: QueryCallView,
    chunks: Seq<ContentChunkView>,
) -> StepView {
    match call.mode {
        QueryMode::Compact => StepView::Execute(call, chunks),
        QueryMode::Chunks => StepView::Reply(
            chunk_listing(chunks, call.provider_id, call.resource),
        ),
    }
}

/// The step of a query once its chunks are there, or why they are not.
pub open spec fn fetched_step(
    call: QueryCallView,
    fetched: Result<Seq<ContentChunkView>, Seq<char>>,
) -> StepView {
    match fetched {
        Err(message) => error_reply(message),
        Ok(chunks) => if chunks.len() == 0 {
            consolidated_step(call, chunks)
        } else {
            StepView::Consolidate(call, chunks)
        },
    }
}

/// The step of a query once consolidation has been worked out: what it has for the session is
/// handed on, unless there is nothing.
pub open spec fn artifacts_step(
    call: QueryCallView,
    chunks: Seq<ContentChunkView>,
    artifacts: ConsolidationArtifactsView,
) -> StepView {
    if artifacts.cache_entries.len() == 0 && artifacts.edges.len() == 0 {
        consolidated_step(call, chunks)
    } else {
        StepView::StoreArtifacts(call, chunks, artifacts)
    }
}

/// The last step of a compact query.
pub open spec fn executed_step(
    call: QueryCallView,
    chunks: Seq<ContentChunkView>,
    outcome: Result<ProviderResultView, Seq<char>>,
) -> StepView {
    match outcome {
        Ok(result) => StepView::ReplyResult(result),
        Err(_) => StepView::Reply(compact_listing(chunks, call.provider_id, call.resource)),
    }
}

/// The request to GitLab that an action makes.
pub open spec fn gitlab_call(action: GitlabAction, args: ToolArgsView) -> GitlabCallView {
    match action {
        GitlabAction::Issues => GitlabCallView::ListIssues {
            state: args.state,
            labels: args.labels,
            limit: size_of_limit(args.limit),
        },
        GitlabAction::Issue => GitlabCallView::ShowIssue {
            iid: match args.iid {
                Some(iid) => iid,
                None => 0,
            },
        },
        GitlabAction::MergeRequests => GitlabCallView::ListMergeRequests {
            state: args.state,
            limit: size_of_limit(args.limit),
        },
        GitlabAction::Pipelines => GitlabCallView::ListPipelines {
            status: args.status,
            limit: size_of_limit(args.limit),
        },
    }
}

/// The step of a GitLab action once the configuration is loaded, or why it is not.
pub open spec fn configured_step(
    action: GitlabAction,
    args: ToolArgsView,
    config: Result<(), Seq<char>>,
) -> StepView {
    match config {
        Err(message) => error_reply(message),
        Ok(()) => if gitlab_call(action, args) == (GitlabCallView::ShowIssue { iid: 0 }) {
            StepView::Reply("Error: iid is required for gitlab_issue"@)
        } else {
            StepView::CallGitlab(gitlab_call(action, args))
        },
    }
}

/// The last step of a GitLab action.
pub open spec fn answered_step(outcome: Result<ProviderResultView, Seq<char>>) -> StepView {
    match outcome {
        Ok(result) => StepView::ReplyResult(result),
        Err(message) => error_reply(message),
    }
}

/// One row of the overview of providers.
pub open spec fn provider_row(info: ProviderInfoView) -> Seq<char> {
    "  "@ + info.id + " ("@ + info.display_name + ") ["@ + (if info.available {
        "ready"@
    } else {
        "unavailable"@
    }) + "] actions: "@ + joined(info.actions, ", "@) + "\n"@
}

/// The rows of an overview of providers, in order.
pub open spec fn provider_rows(infos: Seq<ProviderInfoView>) -> Seq<char>
    decreases infos.len(),
{
    if infos.len() == 0 {
        Seq::empty()
    } else {
        provider_rows(infos.drop_last()) + provider_row(infos.last())
    }
}

/// The overview of the registered providers.
pub open spec fn provider_overview(infos: Seq<ProviderInfoView>) -> Seq<char> {
    if infos.len() == 0 {
        "No providers registered. Set GITHUB_TOKEN or GITLAB_TOKEN."@
    } else {
        "Registered providers ("@ + decimal(infos.len()) + "):\n"@ + provider_rows(infos)
    }
}

/// One row of a list of chunks.
pub open spec fn chunk_row(chunk: ContentChunkView) -> Seq<char> {
    "  "@ + chunk.file_path + " "@ + chunk.kind + " ("@ + decimal(chunk.token_count) + "tok)"@ + (
    if chunk.references.len() == 0 {
        Seq::empty()
    } else {
        " refs:["@ + joined(chunk.references, ","@) + "]"@
    }) + "\n"@
}

/// The rows of a list of chunks, in order.
pub open spec fn chunk_rows(chunks: Seq<ContentChunkView>) -> Seq<char>
    decreases chunks.len(),
{
    if chunks.len() == 0 {
        Seq::empty()
    } else {
        chunk_rows(chunks.drop_last()) + chunk_row(chunks.last())
    }
}

/// A list of chunks.
pub open spec fn chunk_listing(
    chunks: Seq<ContentChunkView>,
    provider_id: Seq<char>,
    resource: Seq<char>,
) -> Seq<char> {
    decimal(chunks.len()) + " content chunks from "@ + provider_id + "/"@ + resource + ":\n"@
        + chunk_rows(chunks)
}

/// One row of a list of chunks by their names.
pub open spec fn compact_row(chunk: ContentChunkView) -> Seq<char> {
    "  #"@ + last_segment(chunk.file_path) + " "@ + chunk.symbol_name + "\n"@
}

/// The rows of a list of chunks by their names, in order.
pub open spec fn compact_rows(chunks: Seq<ContentChunkView>) -> Seq<char>
    decreases chunks.len(),
{
    if chunks.len() == 0 {
        Seq::empty()
    } else {
        compact_rows(chunks.drop_last()) + compact_row(chunks.last())
    }
}

/// A list of chunks by their names.
pub open spec fn compact_listing(
    chunks: Seq<ContentChunkView>,
    provider_id: Seq<char>,
    resource: Seq<char>,
) -> Seq<char> {
    decimal(chunks.len()) + " results from "@ + provider_id + "/"@ + resource + ":\n"@
        + compact_rows(chunks)
}

impl ToolArgs {
    /// Reads the arguments of a call.
    pub fn read(args: &serde_json::Map<String, serde_json::Value>) -> (read: ToolArgs)
        ensures
            read@ == args_in(json_members(*args)),
    {
        ToolArgs {
            action: text_at(args, "action"),
            provider: text_at(args, "provider"),
            resource: text_at(args, "resource"),
            project: text_at(args, "project"),
            state: text_at(args, "state"),
            query: text_at(args, "query"),
            id: text_at(args, "id"),
            mode: text_at(args, "mode"),
            labels: text_at(args, "labels"),
            status: text_at(args, "status"),
            limit: number_at(args, "limit"),
            iid: number_at(args, "iid"),
        }
    }
}

/// The first step of a call with these arguments.
pub fn handle(args: &serde_json::Map<String, serde_json::Value>) -> (step: Step)
    ensures
        step@ == first_step(args_in(json_members(*args))),
{
    dispatch(ToolArgs::read(args))
}

/// The first step of a call with these arguments.
pub fn dispatch(args: ToolArgs) -> (step: Step)
    ensures
        step@ == first_step(args@),
{
    let action: String = match &args.action {
        Some(action) => action.clone(),
        None => String::new(),
    };
    assert(action@ =~= or_empty(args@.action));
    let name: &str = action.as_str();
    if same_text(name, "discover") {
        Step::ListProviders
    } else if same_text(name, "query") {
        Step::InitProviders(args)
    } else if same_text(name, "gitlab_issues") {
        Step::LoadGitlabConfig(GitlabAction::Issues, args)
    } else if same_text(name, "gitlab_issue") {
        Step::LoadGitlabConfig(GitlabAction::Issue, args)
    } else if same_text(name, "gitlab_mrs") {
        Step::LoadGitlabConfig(GitlabAction::MergeRequests, args)
    } else if same_text(name, "gitlab_pipelines") {
        Step::LoadGitlabConfig(GitlabAction::Pipelines, args)
    } else {
        let mut out: String = "Unknown action: ".to_owned();
        out.append(name);
        out.append(". Available: ");
        out.append("discover, query, gitlab_issues, gitlab_issue, gitlab_mrs, gitlab_pipelines");
        Step::Reply(out)
    }
}

/// Appends the row of one provider.
#[verifier::rlimit(40)]
fn push_provider_row(out: &mut String, info: &ProviderInfo)
    ensures
        final(out)@ == old(out)@ + provider_row(info@),
{
    let actions: String = join_strings(&info.actions, ", ");
    let status: &str = if info.available {
        "ready"
    } else {
        "unavailable"
    };
    out.append("  ");
    out.append(info.id.as_str());
    out.append(" (");
    out.append(info.display_name.as_str());
    out.append(") [");
    out.append(status);
    out.append("] actions: ");
    out.append(actions.as_str());
    out.append("\n");
    assert(out@ =~= old(out)@ + provider_row(info@));
}

/// The overview of the registered providers.
pub fn handle_discover(infos: &Vec<ProviderInfo>) -> (out: String)
    ensures
        out@ == provider_overview(info_views(infos@)),
{
    if infos.len() == 0 {
        return "No providers registered. Set GITHUB_TOKEN or GITLAB_TOKEN.".to_owned();
    }
    let ghost views = info_views(infos@);
    let mut out: String = "Registered providers (".to_owned();
    push_decimal(&mut out, infos.len());
    out.append("):\n");
    let ghost head = out@;
    let mut i: usize = 0;
    assert(out@ =~= head + provider_rows(views.take(0)));
    while i < infos.len()
        invariant
            i <= infos@.len(),
            views == info_views(infos@),
            out@ == head + provider_rows(views.take(i as int)),
        decreases infos@.len() - i,
    {
        let info = &infos[i];
        push_provider_row(&mut out, info);
        proof {
            let next = views.take(i + 1);
            assert(next.drop_last() =~= views.take(i as int));
            assert(next.last() == info@);
            assert(out@ =~= head + provider_rows(next));
        }
        i = i + 1;
    }
    assert(views.take(i as int) =~= views);
    out
}

/// A limit as a size.
fn limit_of(limit: Option<u64>) -> (size: Option<usize>)
    ensures
        size == size_of_limit(limit),
{
    match limit {
        Some(n) => Some(n as usize),
        None => None,
    }
}

/// The step of a query once the providers are registered: to fetch chunks, if both a provider
/// and a resource are given.
pub fn handle_registry_query(args: ToolArgs) -> (step: Step)
    ensures
        step@ == query_step(args@),
{
    let mode: QueryMode = match &args.mode {
        Some(mode) => if same_text(mode.as_str(), "chunks") {
            QueryMode::Chunks
        } else {
            QueryMode::Compact
        },
        None => QueryMode::Compact,
    };
    let params = ProviderParams {
        project: args.project,
        state: args.state,
        limit: limit_of(args.limit),
        query: args.query,
        id: args.id,
    };
    match args.provider {
        None => Step::Reply("Error: 'provider' is required for action=query".to_owned()),
        Some(provider_id) => match args.resource {
            None => Step::Reply("Error: 'resource' is required for action=query".to_owned()),
            Some(resource) => Step::FetchChunks(QueryCall { provider_id, resource, params, mode }),
        },
    }
}

/// An error as a reply.
fn reply_error(message: &str) -> (step: Step)
    ensures
        step@ == error_reply(message@),
{
    let mut out: String = "Error: ".to_owned();
    out.append(message);
    Step::Reply(out)
}

/// The step of a query once its chunks are there, or why they are not: chunks are
/// consolidated before anything is answered.
pub fn chunks_fetched(call: QueryCall, fetched: Result<Vec<ContentChunk>, String>) -> (step: Step)
    ensures
        step@ == fetched_step(
            call@,
            match fetched {
                Ok(chunks) => Ok(chunk_views(chunks@)),
                Err(message) => Err(message@),
            },
        ),
{
    match fetched {
        Ok(chunks) => if chunks.len() == 0 {
            consolidated(call, chunks)
        } else {
            Step::Consolidate(call, chunks)
        },
        Err(message) => reply_error(message.as_str()),
    }
}

/// The step of a query once consolidation has been worked out: the entries that it has for the
/// session cache and the edges that it has for the graph are handed on, unless there are none.
pub fn consolidate_to_session(
    call: QueryCall,
    chunks: Vec<ContentChunk>,
    artifacts: ConsolidationArtifacts,
) -> (step: Step)
    ensures
        step@ == artifacts_step(call@, chunk_views(chunks@), artifacts@),
{
    if artifacts.cache_entries.len() == 0 && artifacts.edges.len() == 0 {
        consolidated(call, chunks)
    } else {
        Step::StoreArtifacts(call, chunks, artifacts)
    }
}

/// The step of a query once its chunks are consolidated.
pub fn consolidated(call: QueryCall, chunks: Vec<ContentChunk>) -> (step: Step)
    ensures
        step@ == consolidated_step(call@, chunk_views(chunks@)),
{
    match call.mode {
        QueryMode::Compact => Step::Execute(call, chunks),
        QueryMode::Chunks => Step::Reply(
            handle_registry_chunks(&chunks, call.provider_id.as_str(), call.resource.as_str()),
        ),
    }
}

/// The last step of a compact query: its result, or the chunks where the provider gave them
/// but no result.
pub fn handle_registry_compact(
    call: QueryCall,
    chunks: Vec<ContentChunk>,
    outcome: Result<ProviderResult, String>,
) -> (step: Step)
    ensures
        step@ == executed_step(
            call@,
            chunk_views(chunks@),
            crate::provider::outcome_view(outcome),
        ),
{
    match outcome {
        Ok(result) => format_result(result),
        Err(_) => Step::Reply(
            format_chunks_compact(&chunks, call.provider_id.as_str(), call.resource.as_str()),
        ),
    }
}

/// Appends `<count><what><provider_id>/<resource>:` and a line feed.
fn push_title(out: &mut String, count: usize, what: &str, provider_id: &str, resource: &str)
    ensures
        final(out)@ == old(out)@ + (decimal(count as nat) + what@ + provider_id@ + "/"@ + resource@
            + ":\n"@),
{
    push_decimal(out, count);
    out.append(what);
    out.append(provider_id);
    out.append("/");
    out.append(resource);
    out.append(":\n");
    assert(out@ =~= old(out)@ + (decimal(count as nat) + what@ + provider_id@ + "/"@ + resource@
        + ":\n"@));
}

/// Appends the row of one chunk.
#[verifier::rlimit(40)]
fn push_chunk_row(out: &mut String, chunk: &ContentChunk)
    ensures
        final(out)@ == old(out)@ + chunk_row(chunk@),
{
    out.append("  ");
    out.append(chunk.file_path.as_str());
    out.append(" ");
    out.append(chunk.kind.as_str());
    out.append(" (");
    push_decimal(out, chunk.token_count);
    out.append("tok)");
    let mut references: String = String::new();
    if chunk.references.len() > 0 {
        let list: String = join_strings(&chunk.references, ",");
        references.append(" refs:[");
        references.append(list.as_str());
        references.append("]");
        assert(references@ =~= " refs:["@ + joined(chunk@.references, ","@) + "]"@);
    }
    out.append(references.as_str());
    out.append("\n");
    assert(out@ =~= old(out)@ + chunk_row(chunk@));
}

/// A list of chunks with their kinds, sizes and references.
pub fn handle_registry_chunks(chunks: &Vec<ContentChunk>, provider_id: &str, resource: &str) -> (out:
    String)
    ensures
        out@ == chunk_listing(chunk_views(chunks@), provider_id@, resource@),
{
    let ghost views = chunk_views(chunks@);
    let mut out: String = String::new();
    push_title(&mut out, chunks.len(), " content chunks from ", provider_id, resource);
    let ghost head = out@;
    let mut i: usize = 0;
    assert(out@ =~= head + chunk_rows(views.take(0)));
    while i < chunks.len()
        invariant
            i <= chunks@.len(),
            views == chunk_views(chunks@),
            out@ == head + chunk_rows(views.take(i as int)),
        decreases chunks@.len() - i,
    {
        let chunk = &chunks[i];
        push_chunk_row(&mut out, chunk);
        proof {
            let next = views.take(i + 1);
            assert(next.drop_last() =~= views.take(i as int));
            assert(next.last() == chunk@);
            assert(out@ =~= head + chunk_rows(next));
        }
        i = i + 1;
    }
    assert(views.take(i as int) =~= views);
    out
}

/// Appends the row of one chunk by its name.
fn push_compact_row(out: &mut String, chunk: &ContentChunk)
    ensures
        final(out)@ == old(out)@ + compact_row(chunk@),
{
    out.append("  #");
    out.append(file_name(chunk.file_path.as_str()));
    out.append(" ");
    out.append(chunk.symbol_name.as_str());
    out.append("\n");
    assert(out@ =~= old(out)@ + compact_row(chunk@));
}

/// A list of chunks by their names.
pub fn format_chunks_compact(chunks: &Vec<ContentChunk>, provider_id: &str, resource: &str) -> (out:
    String)
    ensures
        out@ == compact_listing(chunk_views(chunks@), provider_id@, resource@),
{
    let ghost views = chunk_views(chunks@);
    let mut out: String = String::new();
    push_title(&mut out, chunks.len(), " results from ", provider_id, resource);
    let ghost head = out@;
    let mut i: usize = 0;
    assert(out@ =~= head + compact_rows(views.take(0)));
    while i < chunks.len()
        invariant
            i <= chunks@.len(),
            views == chunk_views(chunks@),
            out@ == head + compact_rows(views.take(i as int)),
        decreases chunks@.len() - i,
    {
        let chunk = &chunks[i];
        push_compact_row(&mut out, chunk);
        proof {
            let next = views.take(i + 1);
            assert(next.drop_last() =~= views.take(i as int));
            assert(next.last() == chunk@);
            assert(out@ =~= head + compact_rows(next));
        }
        i = i + 1;
    }
    assert(views.take(i as int) =~= views);
    out
}

/// Model of the outcome of loading the GitLab configuration.
pub open spec fn config_view(config: Result<(), String>) -> Result<(), Seq<char>> {
    match config {
        Ok(()) => Ok(()),
        Err(message) => Err(message@),
    }
}

/// The step of a GitLab action once the configuration is loaded, or why it is not.
pub fn gitlab_configured(action: GitlabAction, args: ToolArgs, config: Result<(), String>) -> (step:
    Step)
    ensures
        step@ == configured_step(action, args@, config_view(config)),
{
    match action {
        GitlabAction::Issues => handle_gitlab_issues(args, config),
        GitlabAction::Issue => handle_gitlab_issue(args, config),
        GitlabAction::MergeRequests => handle_gitlab_mrs(args, config),
        GitlabAction::Pipelines => handle_gitlab_pipelines(args, config),
    }
}

/// The step of `gitlab_issues` once the configuration is loaded, or why it is not.
pub fn handle_gitlab_issues(args: ToolArgs, config: Result<(), String>) -> (step: Step)
    ensures
        step@ == configured_step(GitlabAction::Issues, args@, config_view(config)),
{
    match config {
        Err(message) => reply_error(message.as_str()),
        Ok(()) => Step::CallGitlab(
            GitlabCall::ListIssues {
                state: args.state,
                labels: args.labels,
                limit: limit_of(args.limit),
            },
        ),
    }
}

/// The step of `gitlab_issue` once the configuration is loaded, or why it is not.
pub fn handle_gitlab_issue(args: ToolArgs, config: Result<(), String>) -> (step: Step)
    ensures
        step@ == configured_step(GitlabAction::Issue, args@, config_view(config)),
{
    match config {
        Err(message) => reply_error(message.as_str()),
        Ok(()) => {
            let iid: u64 = match args.iid {
                Some(iid) => iid,
                None => 0,
            };
            if iid == 0 {
                Step::Reply("Error: iid is required for gitlab_issue".to_owned())
            } else {
                Step::CallGitlab(GitlabCall::ShowIssue { iid })
            }
        },
    }
}

/// The step of `gitlab_mrs` once the configuration is loaded, or why it is not.
pub fn handle_gitlab_mrs(args: ToolArgs, config: Result<(), String>) -> (step: Step)
    ensures
        step@ == configured_step(GitlabAction::MergeRequests, args@, config_view(config)),
{
    match config {
        Err(message) => reply_error(message.as_str()),
        Ok(()) => Step::CallGitlab(
            GitlabCall::ListMergeRequests { state: args.state, limit: limit_of(args.limit) },
        ),
    }
}

/// The step of `gitlab_pipelines` once the configuration is loaded, or why it is not.
pub fn handle_gitlab_pipelines(args: ToolArgs, config: Result<(), String>) -> (step: Step)
    ensures
        step@ == configured_step(GitlabAction::Pipelines, args@, config_view(config)),
{
    match config {
        Err(message) => reply_error(message.as_str()),
        Ok(()) => Step::CallGitlab(
            GitlabCall::ListPipelines { status: args.status, limit: limit_of(args.limit) },
        ),
    }
}

/// The last step of a GitLab action.
pub fn gitlab_answered(outcome: Result<ProviderResult, String>) -> (step: Step)
    ensures
        step@ == answered_step(crate::provider::outcome_view(outcome)),
{
    match outcome {
        Ok(result) => format_result(result),
        Err(message) => reply_error(message.as_str()),
    }
}

/// A result as the answer: it leaves in compact form, and only after redaction.
pub fn format_result(result: ProviderResult) -> (step: Step)
    ensures
        step@ == StepView::ReplyResult(result@),
{
    Step::ReplyResult(result)
}

/// The actions that the answer to an unknown one lists are those that are known: each of them
/// is carried out, and nothing else is.
#[verifier::rlimit(40)]
pub proof fn law_listed_actions_are_the_known_ones(args: ToolArgsView)
    ensures
        joined(actions(), ", "@)
            == "discover, query, gitlab_issues, gitlab_issue, gitlab_mrs, gitlab_pipelines"@,
        actions().contains(or_empty(args.action)) <==> !(first_step(args) is Reply),
{
    reveal_strlit("discover, query, gitlab_issues, gitlab_issue, gitlab_mrs, gitlab_pipelines");
    reveal_strlit("discover");
    reveal_strlit("query");
    reveal_strlit("gitlab_issues");
    reveal_strlit("gitlab_issue");
    reveal_strlit("gitlab_mrs");
    reveal_strlit("gitlab_pipelines");
    reveal_strlit(", ");
    let all = actions();
    let sep = ", "@;
    assert(all.take(1) =~= seq![all[0]]);
    assert(joined(all.take(1), sep) == all[0]);
    assert(all.take(2).drop_last() =~= all.take(1));
    assert(joined(all.take(2), sep) == joined(all.take(1), sep) + sep + all[1]);
    assert(all.take(3).drop_last() =~= all.take(2));
    assert(joined(all.take(3), sep) == joined(all.take(2), sep) + sep + all[2]);
    assert(all.take(4).drop_last() =~= all.take(3));
    assert(joined(all.take(4), sep) == joined(all.take(3), sep) + sep + all[3]);
    assert(all.take(5).drop_last() =~= all.take(4));
    assert(joined(all.take(5), sep) == joined(all.take(4), sep) + sep + all[4]);
    assert(all.drop_last() =~= all.take(5));
    assert(joined(all, sep) == joined(all.take(5), sep) + sep + all[5]);
    assert(joined(all, sep) =~= all[0] + sep + all[1] + sep + all[2] + sep + all[3] + sep + all[4]
        + sep + all[5]);
    assert(joined(all, sep)
        =~= "discover, query, gitlab_issues, gitlab_issue, gitlab_mrs, gitlab_pipelines"@);
    let action = or_empty(args.action);
    assert(!(first_step(args) is Reply) ==> action == all[0] || action == all[1] || action
        == all[2] || action == all[3] || action == all[4] || action == all[5]);
}

/// How many steps a call can take at most after this one.
pub open spec fn steps_left(step: StepView) -> nat {
    match step {
        StepView::Reply(_) => 0,
        StepView::ReplyResult(_) => 0,
        StepView::ListProviders => 1,
        StepView::CallGitlab(_) => 1,
        StepView::LoadGitlabConfig(_, _) => 2,
        StepView::Execute(_, _) => 1,
        StepView::StoreArtifacts(_, _, _) => 2,
        StepView::Consolidate(_, _) => 3,
        StepView::FetchChunks(_) => 4,
        StepView::InitProviders(_) => 5,
    }
}

/// Every call is answered: whatever the outcome of a step, what comes next is closer to a
/// reply, which is at most five steps away from the first.
pub proof fn law_every_call_is_answered(
    args: ToolArgsView,
    call: QueryCallView,
    chunks: Seq<ContentChunkView>,
    artifacts: ConsolidationArtifactsView,
    fetched: Result<Seq<ContentChunkView>, Seq<char>>,
    action: GitlabAction,
    config: Result<(), Seq<char>>,
    outcome: Result<ProviderResultView, Seq<char>>,
)
    ensures
        steps_left(first_step(args)) <= 5,
        steps_left(query_step(args)) < steps_left(StepView::InitProviders(args)),
        steps_left(fetched_step(call, fetched)) < steps_left(StepView::FetchChunks(call)),
        steps_left(artifacts_step(call, chunks, artifacts)) < steps_left(
            StepView::Consolidate(call, chunks),
        ),
        steps_left(consolidated_step(call, chunks)) < steps_left(
            StepView::StoreArtifacts(call, chunks, artifacts),
        ),
        steps_left(executed_step(call, chunks, outcome)) < steps_left(
            StepView::Execute(call, chunks),
        ),
        steps_left(configured_step(action, args, config)) < steps_left(
            StepView::LoadGitlabConfig(action, args),
        ),
        steps_left(answered_step(outcome)) < steps_left(
            StepView::CallGitlab(gitlab_call(action, args)),
        ),
{
}

/// In either mode, fetched chunks are consolidated before anything is answered, and then every
/// entry that consolidation has for the session cache and every edge that it has for the graph
/// is handed on, in order.
pub proof fn law_fetched_chunks_reach_the_session(
    call: QueryCallView,
    chunks: Seq<ContentChunkView>,
    artifacts: ConsolidationArtifactsView,
)
    requires
        chunks.len() > 0,
    ensures
        fetched_step(call, Ok(chunks)) == StepView::Consolidate(call, chunks),
        match artifacts_step(call, chunks, artifacts) {
            StepView::StoreArtifacts(for_call, with_chunks, stored) => for_call == call
                && with_chunks == chunks && stored == artifacts,
            next => next == consolidated_step(call, chunks) && artifacts.cache_entries.len() == 0
                && artifacts.edges.len() == 0,
        },
{
}

/// A query whose chunks were delivered is not answered with an error, even where the provider
/// then fails to deliver a result: its answer is the result or starts with a count.
pub proof fn law_delivered_chunks_are_answered_without_error(
    call: QueryCallView,
    chunks: Seq<ContentChunkView>,
    outcome: Result<ProviderResultView, Seq<char>>,
    message: Seq<char>,
)
    ensures
        consolidated_step(call, chunks) != error_reply(message),
        executed_step(call, chunks, outcome) != error_reply(message),
        consolidated_step(call, chunks) matches StepView::Reply(text) ==> text.len() > 0 && '0'
            <= text[0] <= '9',
        executed_step(call, chunks, outcome) matches StepView::Reply(text) ==> text.len() > 0 && '0'
            <= text[0] <= '9',
{
    reveal_strlit("Error: ");
    lemma_decimal_starts_with_digit(chunks.len());
    let listing = chunk_listing(chunks, call.provider_id, call.resource);
    let compact = compact_listing(chunks, call.provider_id, call.resource);
    assert(listing[0] == decimal(chunks.len())[0]);
    assert(compact[0] == decimal(chunks.len())[0]);
    assert(("Error: "@ + message)[0] == 'E');
}

/// GitLab is never asked for an issue without a number, and never before its configuration is
/// loaded.
pub proof fn law_gitlab_is_asked_only_when_ready(
    action: GitlabAction,
    args: ToolArgsView,
    config: Result<(), Seq<char>>,
)
    ensures
        !(first_step(args) is CallGitlab),
        configured_step(action, args, config) is CallGitlab ==> config is Ok,
        configured_step(action, args, config) != StepView::CallGitlab(
            GitlabCallView::ShowIssue { iid: 0 },
        ),
{
}

} // verus!
