//! Laws of the provider tool: what a call leads to and what it is answered, told from its
//! arguments and from the outcomes of its steps.

use crate::ctx_provider::{
    answered_step, args_in, artifacts_step, chunk_listing, chunk_rows, chunk_views,
    compact_listing, compact_rows, config_view, configured_step, consolidated_step, edge_views,
    entry_views, executed_step, fetched_step, first_step, info_views,
    provider_overview, provider_rows, query_step, size_of_limit, CacheEntry,
    ConsolidationArtifacts, ConsolidationArtifactsView, ContentChunk, ContentChunkView,
    GitlabAction, GitlabCall, GitlabCallView, GraphEdge, ProviderInfo, ProviderInfoView, QueryCall,
    QueryCallView, QueryMode, Step, StepView, ToolArgs, ToolArgsView,
};
use crate::json::{number_under, text_under, JsonModel};
use crate::provider::{ProviderResult, ProviderResultView};
use crate::text::{decimal, joined, last_segment, opt_text, texts};
use vstd::prelude::*;
use vstd::string::*;

verus! {

/// Whether `found` is the text that stands under `key`: none where nothing stands there or
/// what does is no text.
pub open spec fn is_text_at(
    found: Option<Seq<char>>,
    members: Map<Seq<char>, JsonModel>,
    key: Seq<char>,
) -> bool {
    match found {
        Some(text) => members.contains_key(key) && members[key] == JsonModel::Text(text),
        None => !(members.contains_key(key) && members[key] is Text),
    }
}

/// Whether `found` is the `u64` that stands under `key`: none where nothing stands there or
/// what does is no such number.
pub open spec fn is_number_at(
    found: Option<u64>,
    members: Map<Seq<char>, JsonModel>,
    key: Seq<char>,
) -> bool {
    match found {
        Some(number) => members.contains_key(key) && members[key] == JsonModel::Number(
            Some(number),
        ),
        None => !members.contains_key(key) || !(members[key] is Number) || members[key]
            == JsonModel::Number(None),
    }
}

/// What is read under a key is what stands there.
pub proof fn law_members_are_read_by_type(members: Map<Seq<char>, JsonModel>, key: Seq<char>)
    ensures
        is_text_at(text_under(members, key), members, key),
        is_number_at(number_under(members, key), members, key),
{
}

/// Every argument is read from the member of its own name.
pub proof fn law_arguments_are_members_of_their_names(members: Map<Seq<char>, JsonModel>)
    ensures
        is_text_at(args_in(members).action, members, "action"@),
        is_text_at(args_in(members).provider, members, "provider"@),
        is_text_at(args_in(members).resource, members, "resource"@),
        is_text_at(args_in(members).project, members, "project"@),
        is_text_at(args_in(members).state, members, "state"@),
        is_text_at(args_in(members).query, members, "query"@),
        is_text_at(args_in(members).id, members, "id"@),
        is_text_at(args_in(members).mode, members, "mode"@),
        is_text_at(args_in(members).labels, members, "labels"@),
        is_text_at(args_in(members).status, members, "status"@),
        is_number_at(args_in(members).limit, members, "limit"@),
        is_number_at(args_in(members).iid, members, "iid"@),
{
}

/// A limit keeps its value, as far as a size can hold it.
pub proof fn law_limits_keep_their_value(limit: u64)
    ensures
        size_of_limit(None) is None,
        size_of_limit(Some(limit)) is Some,
        limit <= usize::MAX ==> size_of_limit(Some(limit))->0 == limit,
{
}

/// Each action leads to its own first step, which keeps all arguments; any other is answered
/// with its name and the names of the known ones.
pub proof fn law_actions_lead_to_their_steps(args: ToolArgsView, action: Seq<char>)
    requires
        args.action == Some(action) || (args.action is None && action.len() == 0),
    ensures
        action == "discover"@ ==> first_step(args) == StepView::ListProviders,
        action == "query"@ ==> first_step(args) == StepView::InitProviders(args),
        action == "gitlab_issues"@ ==> first_step(args) == StepView::LoadGitlabConfig(
            GitlabAction::Issues,
            args,
        ),
        action == "gitlab_issue"@ ==> first_step(args) == StepView::LoadGitlabConfig(
            GitlabAction::Issue,
            args,
        ),
        action == "gitlab_mrs"@ ==> first_step(args) == StepView::LoadGitlabConfig(
            GitlabAction::MergeRequests,
            args,
        ),
        action == "gitlab_pipelines"@ ==> first_step(args) == StepView::LoadGitlabConfig(
            GitlabAction::Pipelines,
            args,
        ),
        action != "discover"@ && action != "query"@ && action != "gitlab_issues"@ && action
            != "gitlab_issue"@ && action != "gitlab_mrs"@ && action != "gitlab_pipelines"@
            ==> first_step(args) == StepView::Reply(
            "Unknown action: "@ + action + ". Available: "@
                + "discover, query, gitlab_issues, gitlab_issue, gitlab_mrs, gitlab_pipelines"@,
        ),
{
    reveal_strlit("discover");
    reveal_strlit("query");
    reveal_strlit("gitlab_issues");
    reveal_strlit("gitlab_issue");
    reveal_strlit("gitlab_mrs");
    reveal_strlit("gitlab_pipelines");
    assert("gitlab_mrs"@.len() == 10);
    assert("gitlab_pipelines"@.len() == 16);
    assert("gitlab_issues"@.len() == 13);
    assert("gitlab_issue"@.len() == 12);
    assert("discover"@.len() == 8);
    assert("query"@.len() == 5);
    if args.action is None {
        assert(action =~= Seq::<char>::empty());
    }
}

/// A query is carried out if and only if both a provider and a resource are given; where the
/// provider is missing it is answered so, and else where the resource is.
pub proof fn law_query_needs_provider_and_resource(args: ToolArgsView)
    ensures
        query_step(args) is FetchChunks <==> args.provider is Some && args.resource is Some,
        args.provider is None ==> query_step(args) == StepView::Reply(
            "Error: 'provider' is required for action=query"@,
        ),
        args.provider is Some && args.resource is None ==> query_step(args) == StepView::Reply(
            "Error: 'resource' is required for action=query"@,
        ),
{
}

/// A query asks the provider that is given for the resource that is given, and each of its
/// parameters is the member of that name of the argument object, whatever else is given. It is
/// answered with chunks if and only if the mode asks for them.
pub proof fn law_query_parameters_are_the_arguments(members: Map<Seq<char>, JsonModel>)
    requires
        members.contains_key("provider"@),
        members["provider"@] is Text,
        members.contains_key("resource"@),
        members["resource"@] is Text,
    ensures
        ({
            let step = query_step(args_in(members));
            &&& step is FetchChunks
            &&& ({
                let call = step->FetchChunks_0;
                &&& members["provider"@] == JsonModel::Text(call.provider_id)
                &&& members["resource"@] == JsonModel::Text(call.resource)
                &&& is_text_at(call.params.project, members, "project"@)
                &&& is_text_at(call.params.state, members, "state"@)
                &&& is_text_at(call.params.query, members, "query"@)
                &&& is_text_at(call.params.id, members, "id"@)
                &&& call.params.limit is None ==> is_number_at(None, members, "limit"@)
                &&& call.params.limit is Some ==> exists|n: u64| #[trigger]
                    is_number_at(Some(n), members, "limit"@) && call.params.limit == Some(
                        n as usize,
                    )
                &&& call.mode == QueryMode::Chunks <==> members.contains_key("mode"@)
                    && members["mode"@] == JsonModel::Text("chunks"@)
                &&& call.mode == QueryMode::Compact <==> !(members.contains_key("mode"@)
                    && members["mode"@] == JsonModel::Text("chunks"@))
            })
        }),
{
    law_arguments_are_members_of_their_names(members);
    let args = args_in(members);
    if args.limit is Some {
        assert(is_number_at(Some(args.limit->0), members, "limit"@));
    }
}

/// The parameters of a query do not depend on each other: two calls that agree on one argument
/// agree on that parameter, however much they differ in the others.
pub proof fn law_query_parameters_are_independent(one: ToolArgsView, other: ToolArgsView)
    requires
        query_step(one) is FetchChunks,
        query_step(other) is FetchChunks,
    ensures
        ({
            let a = query_step(one)->FetchChunks_0;
            let b = query_step(other)->FetchChunks_0;
            &&& one.provider == other.provider <==> a.provider_id == b.provider_id
            &&& one.resource == other.resource <==> a.resource == b.resource
            &&& one.project == other.project <==> a.params.project == b.params.project
            &&& one.state == other.state <==> a.params.state == b.params.state
            &&& one.query == other.query <==> a.params.query == b.params.query
            &&& one.id == other.id <==> a.params.id == b.params.id
            &&& one.limit == other.limit ==> a.params.limit == b.params.limit
            &&& one.mode == other.mode ==> a.mode == b.mode
        }),
{
}

/// Leaving an argument out takes away that one parameter and changes no other.
pub proof fn law_leaving_out_an_argument_takes_away_one_parameter(
    members: Map<Seq<char>, JsonModel>,
    key: Seq<char>,
)
    requires
        query_step(args_in(members)) is FetchChunks,
        key != "provider"@,
        key != "resource"@,
    ensures
        ({
            let step = query_step(args_in(members.remove(key)));
            &&& step is FetchChunks
            &&& ({
                let with = query_step(args_in(members))->FetchChunks_0;
                let without = step->FetchChunks_0;
                &&& without.provider_id == with.provider_id
                &&& without.resource == with.resource
                &&& without.params.project == if key == "project"@ {
                    None
                } else {
                    with.params.project
                }
                &&& without.params.state == if key == "state"@ {
                    None
                } else {
                    with.params.state
                }
                &&& without.params.query == if key == "query"@ {
                    None
                } else {
                    with.params.query
                }
                &&& without.params.id == if key == "id"@ {
                    None
                } else {
                    with.params.id
                }
                &&& without.params.limit == if key == "limit"@ {
                    None
                } else {
                    with.params.limit
                }
                &&& without.mode == if key == "mode"@ {
                    QueryMode::Compact
                } else {
                    with.mode
                }
            })
        }),
{
}

/// Chunks that cannot be fetched are answered with the reason. No chunks need no consolidation,
/// and any others are consolidated as they came.
pub proof fn law_fetch_decides_consolidation(
    call: QueryCallView,
    chunks: Seq<ContentChunkView>,
    message: Seq<char>,
)
    ensures
        fetched_step(call, Err(message)) == StepView::Reply("Error: "@ + message),
        chunks.len() == 0 ==> fetched_step(call, Ok(chunks)) == consolidated_step(call, chunks),
        chunks.len() > 0 ==> fetched_step(call, Ok(chunks)) == StepView::Consolidate(call, chunks),
{
}

/// What consolidation has for the session is handed on whole, wherever it has an entry or an
/// edge; where it has neither, the query goes on.
pub proof fn law_artifacts_are_handed_on(
    call: QueryCallView,
    chunks: Seq<ContentChunkView>,
    artifacts: ConsolidationArtifactsView,
)
    ensures
        artifacts.cache_entries.len() > 0 ==> artifacts_step(call, chunks, artifacts)
            == StepView::StoreArtifacts(call, chunks, artifacts),
        artifacts.edges.len() > 0 ==> artifacts_step(call, chunks, artifacts)
            == StepView::StoreArtifacts(call, chunks, artifacts),
        artifacts.cache_entries.len() == 0 && artifacts.edges.len() == 0 ==> artifacts_step(
            call,
            chunks,
            artifacts,
        ) == consolidated_step(call, chunks),
{
}

/// A compact query asks the same provider for the same resource once more and is answered with
/// the result, or with its chunks by name where there is none; a query for chunks is answered
/// with them at once.
pub proof fn law_mode_decides_the_answer(
    call: QueryCallView,
    chunks: Seq<ContentChunkView>,
    result: ProviderResultView,
    message: Seq<char>,
)
    ensures
        call.mode == QueryMode::Compact ==> consolidated_step(call, chunks) == StepView::Execute(
            call,
            chunks,
        ),
        call.mode == QueryMode::Chunks ==> consolidated_step(call, chunks) == StepView::Reply(
            chunk_listing(chunks, call.provider_id, call.resource),
        ),
        executed_step(call, chunks, Ok(result)) == StepView::ReplyResult(result),
        executed_step(call, chunks, Err(message)) == StepView::Reply(
            compact_listing(chunks, call.provider_id, call.resource),
        ),
{
}

/// Each GitLab action makes its own request, with the arguments that it knows; showing an issue
/// takes a number other than zero, and nothing is asked without a configuration.
pub proof fn law_gitlab_actions_make_their_requests(
    args: ToolArgsView,
    action: GitlabAction,
    message: Seq<char>,
)
    ensures
        configured_step(action, args, Err(message)) == StepView::Reply("Error: "@ + message),
        configured_step(GitlabAction::Issues, args, Ok(())) == StepView::CallGitlab(
            GitlabCallView::ListIssues {
                state: args.state,
                labels: args.labels,
                limit: size_of_limit(args.limit),
            },
        ),
        configured_step(GitlabAction::MergeRequests, args, Ok(())) == StepView::CallGitlab(
            GitlabCallView::ListMergeRequests {
                state: args.state,
                limit: size_of_limit(args.limit),
            },
        ),
        configured_step(GitlabAction::Pipelines, args, Ok(())) == StepView::CallGitlab(
            GitlabCallView::ListPipelines {
                status: args.status,
                limit: size_of_limit(args.limit),
            },
        ),
        args.iid is None || args.iid == Some(0u64) ==> configured_step(
            GitlabAction::Issue,
            args,
            Ok(()),
        ) == StepView::Reply("Error: iid is required for gitlab_issue"@),
        args.iid is Some && args.iid->0 != 0 ==> configured_step(GitlabAction::Issue, args, Ok(()))
            == StepView::CallGitlab(GitlabCallView::ShowIssue { iid: args.iid->0 }),
{
}

/// What GitLab answers is the answer, and why it does not is one too.
pub proof fn law_gitlab_answers_are_passed_on(result: ProviderResultView, message: Seq<char>)
    ensures
        answered_step(Ok(result)) == StepView::ReplyResult(result),
        answered_step(Err(message)) == StepView::Reply("Error: "@ + message),
{
}

/// The overview of providers counts them and has one line for each, in order: its id, its name,
/// whether it is ready, and its actions.
pub proof fn law_overview_has_a_line_for_each_provider(infos: Seq<ProviderInfoView>)
    ensures
        infos.len() == 0 ==> provider_overview(infos)
            == "No providers registered. Set GITHUB_TOKEN or GITLAB_TOKEN."@,
        infos.len() > 0 ==> provider_overview(infos) == "Registered providers ("@ + decimal(
            infos.len(),
        ) + "):\n"@ + infos.map_values(
            |info: ProviderInfoView|
                "  "@ + info.id + " ("@ + info.display_name + ") ["@ + (if info.available {
                    "ready"@
                } else {
                    "unavailable"@
                }) + "] actions: "@ + joined(info.actions, ", "@) + "\n"@,
        ).flatten(),
{
    lemma_provider_rows(infos);
}

proof fn lemma_provider_rows(infos: Seq<ProviderInfoView>)
    ensures
        provider_rows(infos) == infos.map_values(
            |info: ProviderInfoView|
                "  "@ + info.id + " ("@ + info.display_name + ") ["@ + (if info.available {
                    "ready"@
                } else {
                    "unavailable"@
                }) + "] actions: "@ + joined(info.actions, ", "@) + "\n"@,
        ).flatten(),
    decreases infos.len(),
{
    let row = |info: ProviderInfoView|
        "  "@ + info.id + " ("@ + info.display_name + ") ["@ + (if info.available {
            "ready"@
        } else {
            "unavailable"@
        }) + "] actions: "@ + joined(info.actions, ", "@) + "\n"@;
    let rows = infos.map_values(row);
    if infos.len() == 0 {
        assert(rows.len() == 0);
    } else {
        lemma_provider_rows(infos.drop_last());
        let front = infos.drop_last().map_values(row);
        assert(rows =~= front.push(row(infos.last())));
        front.lemma_flatten_push(row(infos.last()));
    }
}

/// The list of chunks counts them, names the provider and the resource, and has one line for
/// each, in order: its path, its kind and its size in tokens, and behind them its references in
/// order and separated by commas, unless it has none.
pub proof fn law_chunk_list_has_a_line_for_each_chunk(
    chunks: Seq<ContentChunkView>,
    provider_id: Seq<char>,
    resource: Seq<char>,
)
    ensures
        chunk_listing(chunks, provider_id, resource) == decimal(chunks.len())
            + " content chunks from "@ + provider_id + "/"@ + resource + ":\n"@ + chunks.map_values(
            |chunk: ContentChunkView|
                "  "@ + chunk.file_path + " "@ + chunk.kind + " ("@ + decimal(chunk.token_count)
                    + "tok)"@ + (if chunk.references.len() > 0 {
                    " refs:["@ + joined(chunk.references, ","@) + "]"@
                } else {
                    Seq::empty()
                }) + "\n"@,
        ).flatten(),
{
    lemma_chunk_rows(chunks);
}

proof fn lemma_chunk_rows(chunks: Seq<ContentChunkView>)
    ensures
        chunk_rows(chunks) == chunks.map_values(
            |chunk: ContentChunkView|
                "  "@ + chunk.file_path + " "@ + chunk.kind + " ("@ + decimal(chunk.token_count)
                    + "tok)"@ + (if chunk.references.len() > 0 {
                    " refs:["@ + joined(chunk.references, ","@) + "]"@
                } else {
                    Seq::empty()
                }) + "\n"@,
        ).flatten(),
    decreases chunks.len(),
{
    let row = |chunk: ContentChunkView|
        "  "@ + chunk.file_path + " "@ + chunk.kind + " ("@ + decimal(chunk.token_count) + "tok)"@
            + (if chunk.references.len() > 0 {
            " refs:["@ + joined(chunk.references, ","@) + "]"@
        } else {
            Seq::empty()
        }) + "\n"@;
    let rows = chunks.map_values(row);
    if chunks.len() == 0 {
        assert(rows.len() == 0);
    } else {
        lemma_chunk_rows(chunks.drop_last());
        let front = chunks.drop_last().map_values(row);
        assert(rows =~= front.push(row(chunks.last())));
        front.lemma_flatten_push(row(chunks.last()));
    }
}

/// The list of chunks by name counts them, names the provider and the resource, and has one
/// line for each, in order: the last segment of its path, and its name.
pub proof fn law_compact_list_has_a_line_for_each_chunk(
    chunks: Seq<ContentChunkView>,
    provider_id: Seq<char>,
    resource: Seq<char>,
)
    ensures
        compact_listing(chunks, provider_id, resource) == decimal(chunks.len())
            + " results from "@ + provider_id + "/"@ + resource + ":\n"@ + chunks.map_values(
            |chunk: ContentChunkView|
                "  #"@ + last_segment(chunk.file_path) + " "@ + chunk.symbol_name + "\n"@,
        ).flatten(),
{
    lemma_compact_rows(chunks);
}

proof fn lemma_compact_rows(chunks: Seq<ContentChunkView>)
    ensures
        compact_rows(chunks) == chunks.map_values(
            |chunk: ContentChunkView|
                "  #"@ + last_segment(chunk.file_path) + " "@ + chunk.symbol_name + "\n"@,
        ).flatten(),
    decreases chunks.len(),
{
    let row = |chunk: ContentChunkView|
        "  #"@ + last_segment(chunk.file_path) + " "@ + chunk.symbol_name + "\n"@;
    let rows = chunks.map_values(row);
    if chunks.len() == 0 {
        assert(rows.len() == 0);
    } else {
        lemma_compact_rows(chunks.drop_last());
        let front = chunks.drop_last().map_values(row);
        assert(rows =~= front.push(row(chunks.last())));
        front.lemma_flatten_push(row(chunks.last()));
    }
}

/// Whether `part` stands somewhere in `text`.
pub open spec fn occurs_in(part: Seq<char>, text: Seq<char>) -> bool {
    exists|before: Seq<char>, after: Seq<char>| text == #[trigger] (before + part + after)
}

/// What occurs in a part of a text occurs in the text.
proof fn lemma_occurs_within(part: Seq<char>, before: Seq<char>, inner: Seq<char>, after: Seq<char>)
    requires
        occurs_in(part, inner),
    ensures
        occurs_in(part, before + inner + after),
{
    let (a, b) = choose|a: Seq<char>, b: Seq<char>| inner == #[trigger] (a + part + b);
    assert(before + inner + after =~= (before + a) + part + (b + after));
}

/// Every part occurs in what is joined of them.
proof fn lemma_parts_occur_in_joined(parts: Seq<Seq<char>>, separator: Seq<char>, i: int)
    requires
        0 <= i < parts.len(),
    ensures
        occurs_in(parts[i], joined(parts, separator)),
    decreases parts.len(),
{
    let none = Seq::<char>::empty();
    let whole = joined(parts, separator);
    if parts.len() == 1 {
        assert(whole =~= none + parts[i] + none);
    } else if i == parts.len() - 1 {
        let front = joined(parts.drop_last(), separator) + separator;
        assert(whole =~= front + parts[i] + none);
    } else {
        lemma_parts_occur_in_joined(parts.drop_last(), separator, i);
        assert(parts.drop_last()[i] == parts[i]);
        let front = joined(parts.drop_last(), separator);
        lemma_occurs_within(parts[i], none, front, separator + parts.last());
        assert(whole =~= none + front + (separator + parts.last()));
    }
}

/// Every row occurs in the rows one after the other.
proof fn lemma_rows_occur_in_all(rows: Seq<Seq<char>>, i: int)
    requires
        0 <= i < rows.len(),
    ensures
        occurs_in(rows[i], rows.flatten()),
    decreases rows.len(),
{
    let none = Seq::<char>::empty();
    let front = rows.drop_last();
    front.lemma_flatten_push(rows.last());
    assert(front.push(rows.last()) =~= rows);
    if i == rows.len() - 1 {
        assert(rows.flatten() =~= front.flatten() + rows[i] + none);
    } else {
        lemma_rows_occur_in_all(front, i);
        assert(front[i] == rows[i]);
        lemma_occurs_within(rows[i], none, front.flatten(), rows.last());
        assert(rows.flatten() =~= none + front.flatten() + rows.last());
    }
}

/// The line of every chunk occurs in the list: with references, where it has any, between
/// ` refs:[` and `]`, and else without them.
pub proof fn law_every_chunk_is_listed(
    chunks: Seq<ContentChunkView>,
    provider_id: Seq<char>,
    resource: Seq<char>,
    i: int,
)
    requires
        0 <= i < chunks.len(),
    ensures
        chunks[i].references.len() > 0 ==> occurs_in(
            "  "@ + chunks[i].file_path + " "@ + chunks[i].kind + " ("@ + decimal(
                chunks[i].token_count,
            ) + "tok)"@ + (" refs:["@ + joined(chunks[i].references, ","@) + "]"@) + "\n"@,
            chunk_listing(chunks, provider_id, resource),
        ),
        chunks[i].references.len() == 0 ==> occurs_in(
            "  "@ + chunks[i].file_path + " "@ + chunks[i].kind + " ("@ + decimal(
                chunks[i].token_count,
            ) + "tok)"@ + Seq::<char>::empty() + "\n"@,
            chunk_listing(chunks, provider_id, resource),
        ),
{
    law_chunk_list_has_a_line_for_each_chunk(chunks, provider_id, resource);
    let row = |chunk: ContentChunkView|
        "  "@ + chunk.file_path + " "@ + chunk.kind + " ("@ + decimal(chunk.token_count) + "tok)"@
            + (if chunk.references.len() > 0 {
            " refs:["@ + joined(chunk.references, ","@) + "]"@
        } else {
            Seq::empty()
        }) + "\n"@;
    let rows = chunks.map_values(row);
    let none = Seq::<char>::empty();
    let title = decimal(chunks.len()) + " content chunks from "@ + provider_id + "/"@ + resource
        + ":\n"@;
    lemma_rows_occur_in_all(rows, i);
    assert(rows[i] == row(chunks[i]));
    lemma_occurs_within(rows[i], title, rows.flatten(), none);
    assert(title + rows.flatten() + none =~= chunk_listing(chunks, provider_id, resource));
}

/// Every reference of every chunk occurs in the list of chunks.
pub proof fn law_every_reference_is_listed(
    chunks: Seq<ContentChunkView>,
    provider_id: Seq<char>,
    resource: Seq<char>,
    i: int,
    j: int,
)
    requires
        0 <= i < chunks.len(),
        0 <= j < chunks[i].references.len(),
    ensures
        occurs_in(chunks[i].references[j], chunk_listing(chunks, provider_id, resource)),
{
    let chunk = chunks[i];
    let reference = chunk.references[j];
    let front = "  "@ + chunk.file_path + " "@ + chunk.kind + " ("@ + decimal(chunk.token_count)
        + "tok)"@;
    let list = joined(chunk.references, ","@);
    let line = front + (" refs:["@ + list + "]"@) + "\n"@;
    let text = chunk_listing(chunks, provider_id, resource);
    law_every_chunk_is_listed(chunks, provider_id, resource, i);
    lemma_parts_occur_in_joined(chunk.references, ","@, j);
    lemma_occurs_within(reference, " refs:["@, list, "]"@);
    lemma_occurs_within(reference, front, " refs:["@ + list + "]"@, "\n"@);
    let (before, after) = choose|before: Seq<char>, after: Seq<char>|
        text == #[trigger] (before + line + after);
    lemma_occurs_within(reference, before, line, after);
}

/// One more chunk adds one line at the end of either list, which says all of it, and changes
/// nothing above but the count.
pub proof fn law_one_more_chunk_adds_a_line(
    chunks: Seq<ContentChunkView>,
    chunk: ContentChunkView,
    provider_id: Seq<char>,
    resource: Seq<char>,
)
    ensures
        exists|rows: Seq<char>| #![trigger rows + Seq::<char>::empty()] {
            &&& chunk_listing(chunks, provider_id, resource) == decimal(chunks.len())
                + " content chunks from "@ + provider_id + "/"@ + resource + ":\n"@ + rows
            &&& chunk_listing(chunks.push(chunk), provider_id, resource) == decimal(
                chunks.len() + 1,
            ) + " content chunks from "@ + provider_id + "/"@ + resource + ":\n"@ + (rows + ("  "@
                + chunk.file_path + " "@ + chunk.kind + " ("@ + decimal(chunk.token_count)
                + "tok)"@ + (if chunk.references.len() > 0 {
                " refs:["@ + joined(chunk.references, ","@) + "]"@
            } else {
                Seq::empty()
            }) + "\n"@))
        },
        exists|rows: Seq<char>| #![trigger rows + Seq::<char>::empty()] {
            &&& compact_listing(chunks, provider_id, resource) == decimal(chunks.len())
                + " results from "@ + provider_id + "/"@ + resource + ":\n"@ + rows
            &&& compact_listing(chunks.push(chunk), provider_id, resource) == decimal(
                chunks.len() + 1,
            ) + " results from "@ + provider_id + "/"@ + resource + ":\n"@ + (rows + ("  #"@
                + last_segment(chunk.file_path) + " "@ + chunk.symbol_name + "\n"@))
        },
{
    let none = Seq::<char>::empty();
    let more = chunks.push(chunk);
    assert(more.drop_last() =~= chunks);
    let rows = chunk_rows(chunks) + none;
    assert(rows =~= chunk_rows(chunks));
    let names = compact_rows(chunks) + none;
    assert(names =~= compact_rows(chunks));
}

/// The list ends with the references of its last chunk, between ` refs:[` and `]`, if it has
/// any, and else with the size of that chunk.
pub proof fn law_last_line_tells_of_references(
    chunks: Seq<ContentChunkView>,
    provider_id: Seq<char>,
    resource: Seq<char>,
)
    requires
        chunks.len() > 0,
    ensures
        ({
            let text = chunk_listing(chunks, provider_id, resource);
            let chunk = chunks.last();
            let size = " ("@ + decimal(chunk.token_count) + "tok)"@;
            let references = " refs:["@ + joined(chunk.references, ","@) + "]"@;
            &&& text.len() >= 2
            &&& text[text.len() - 1] == '\n'
            &&& chunk.references.len() > 0 <==> text[text.len() - 2] == ']'
            &&& chunk.references.len() == 0 <==> text[text.len() - 2] == ')'
            &&& chunk.references.len() > 0 ==> (size + references + "\n"@).is_suffix_of(text)
            &&& chunk.references.len() == 0 ==> (size + "\n"@).is_suffix_of(text)
        }),
{
    reveal_strlit("\n");
    reveal_strlit("]");
    reveal_strlit("tok)");
    let text = chunk_listing(chunks, provider_id, resource);
    let chunk = chunks.last();
    let size = " ("@ + decimal(chunk.token_count) + "tok)"@;
    let references = " refs:["@ + joined(chunk.references, ","@) + "]"@;
    law_one_more_chunk_adds_a_line(chunks.drop_last(), chunk, provider_id, resource);
    assert(chunks.drop_last().push(chunk) =~= chunks);
    let front = "  "@ + chunk.file_path + " "@ + chunk.kind;
    let title = decimal(chunks.len()) + " content chunks from "@ + provider_id + "/"@ + resource
        + ":\n"@;
    let rows = chunk_rows(chunks.drop_last());
    if chunk.references.len() > 0 {
        assert(text =~= (title + rows + front) + (size + references + "\n"@));
    } else {
        assert(text =~= (title + rows + front) + (size + "\n"@));
    }
}

/// The models of steps and of all that they carry hold every field.
pub proof fn law_models_of_tool_data(
    args: ToolArgs,
    call: QueryCall,
    info: ProviderInfo,
    chunk: ContentChunk,
    entry: CacheEntry,
    edge: GraphEdge,
    artifacts: ConsolidationArtifacts,
)
    ensures
        args@.action == opt_text(args.action),
        args@.provider == opt_text(args.provider),
        args@.resource == opt_text(args.resource),
        args@.project == opt_text(args.project),
        args@.state == opt_text(args.state),
        args@.query == opt_text(args.query),
        args@.id == opt_text(args.id),
        args@.mode == opt_text(args.mode),
        args@.labels == opt_text(args.labels),
        args@.status == opt_text(args.status),
        args@.limit == args.limit,
        args@.iid == args.iid,
        call@.provider_id == call.provider_id@,
        call@.resource == call.resource@,
        call@.params == call.params@,
        call@.mode == call.mode,
        info@.id == info.id@,
        info@.display_name == info.display_name@,
        info@.available == info.available,
        info@.actions == texts(info.actions@),
        chunk@.file_path == chunk.file_path@,
        chunk@.symbol_name == chunk.symbol_name@,
        chunk@.kind == chunk.kind@,
        chunk@.token_count == chunk.token_count,
        chunk@.references == texts(chunk.references@),
        entry@.uri == entry.uri@,
        entry@.content == entry.content@,
        edge@.from == edge.from@,
        edge@.to == edge.to@,
        edge@.kind == edge.kind@,
        artifacts@.cache_entries == entry_views(artifacts.cache_entries@),
        artifacts@.edges == edge_views(artifacts.edges@),
{
}

/// The models of lists hold the model of every element, in order.
pub proof fn law_models_of_tool_lists(
    infos: Seq<ProviderInfo>,
    chunks: Seq<ContentChunk>,
    entries: Seq<CacheEntry>,
    edges: Seq<GraphEdge>,
)
    ensures
        info_views(infos).len() == infos.len(),
        forall|i: int| 0 <= i < infos.len() ==> #[trigger] info_views(infos)[i] == infos[i]@,
        chunk_views(chunks).len() == chunks.len(),
        forall|i: int| 0 <= i < chunks.len() ==> #[trigger] chunk_views(chunks)[i] == chunks[i]@,
        entry_views(entries).len() == entries.len(),
        forall|i: int| 0 <= i < entries.len() ==> #[trigger] entry_views(entries)[i] == entries[i]@,
        edge_views(edges).len() == edges.len(),
        forall|i: int| 0 <= i < edges.len() ==> #[trigger] edge_views(edges)[i] == edges[i]@,
{
}

/// The model of a step is the step with the models of what it carries.
pub proof fn law_models_of_steps(
    text: String,
    result: ProviderResult,
    args: ToolArgs,
    call: QueryCall,
    chunks: Vec<ContentChunk>,
    artifacts: ConsolidationArtifacts,
    action: GitlabAction,
    request: GitlabCall,
)
    ensures
        Step::Reply(text)@ == StepView::Reply(text@),
        Step::ReplyResult(result)@ == StepView::ReplyResult(result@),
        Step::ListProviders@ == StepView::ListProviders,
        Step::InitProviders(args)@ == StepView::InitProviders(args@),
        Step::FetchChunks(call)@ == StepView::FetchChunks(call@),
        Step::Consolidate(call, chunks)@ == StepView::Consolidate(call@, chunk_views(chunks@)),
        Step::StoreArtifacts(call, chunks, artifacts)@ == StepView::StoreArtifacts(
            call@,
            chunk_views(chunks@),
            artifacts@,
        ),
        Step::Execute(call, chunks)@ == StepView::Execute(call@, chunk_views(chunks@)),
        Step::LoadGitlabConfig(action, args)@ == StepView::LoadGitlabConfig(action, args@),
        Step::CallGitlab(request)@ == StepView::CallGitlab(request@),
{
}

/// The model of a request to GitLab holds all that it asks for, and that of a configuration
/// why it could not be loaded.
pub proof fn law_models_of_gitlab_requests(
    state: Option<String>,
    labels: Option<String>,
    status: Option<String>,
    limit: Option<usize>,
    iid: u64,
    message: String,
)
    ensures
        (GitlabCall::ListIssues { state, labels, limit })@ == (GitlabCallView::ListIssues {
            state: opt_text(state),
            labels: opt_text(labels),
            limit,
        }),
        (GitlabCall::ShowIssue { iid })@ == (GitlabCallView::ShowIssue { iid }),
        (GitlabCall::ListMergeRequests { state, limit })@ == (GitlabCallView::ListMergeRequests {
            state: opt_text(state),
            limit,
        }),
        (GitlabCall::ListPipelines { status, limit })@ == (GitlabCallView::ListPipelines {
            status: opt_text(status),
            limit,
        }),
        config_view(Ok(())) == Ok::<(), Seq<char>>(()),
        config_view(Err(message)) == Err::<(), Seq<char>>(message@),
{
}

} // verus!
