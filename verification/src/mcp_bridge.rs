//! MCP bridge: other MCP servers as data sources.
//!
//! A bridge lists the resources or the tools of a server. A listing takes one HTTP request,
//! which the caller makes: [`McpBridgeProvider::execute`] says what to request, and
//! [`McpBridgeProvider::receive`] makes the answer out of what came back.

use crate::json::{json_model, member, parse, parsed_json, text_of, JsonModel};
use crate::provider::{
    item_views, outcome_view, ProviderItem, ProviderItemView, ProviderParams, ProviderResult,
    ProviderResultView,
};
use crate::text::{
    opt_text, or_empty, same_text, texts, trim_trailing_slashes, without_trailing_slashes,
};
use vstd::prelude::*;
use vstd::string::*;

verus! {

/// Items that a listing holds where no limit is asked for.
pub const DEFAULT_LIMIT: usize = 20;

/// A bridge to one MCP server.
pub struct McpBridgeProvider {
    server_url: String,
    server_name: String,
}

/// What a bridge can list.
#[derive(Clone, Copy, Debug, PartialEq, Eq, Structural)]
pub enum Listing {
    Resources,
    Tools,
}

/// The HTTP request that a listing takes: a GET.
pub struct BridgeRequest {
    pub listing: Listing,
    pub url: String,
    /// Value of the `Accept` header.
    pub accept: String,
    /// Items that the answer may hold.
    pub limit: usize,
}

/// What became of the request.
pub enum HttpReply {
    /// The call failed, with this message.
    CallFailed(String),
    /// The body could not be read, with this message.
    ReadFailed(String),
    /// The body.
    Body(String),
}

/// What a listing reads of one entry that a server sent.
pub struct ListedEntry {
    pub uri: Option<String>,
    pub name: Option<String>,
    pub description: Option<String>,
}

/// Model of [`ListedEntry`].
pub struct ListedEntryView {
    pub uri: Option<Seq<char>>,
    pub name: Option<Seq<char>>,
    pub description: Option<Seq<char>>,
}

impl View for ListedEntry {
    type V = ListedEntryView;

    open spec fn view(&self) -> ListedEntryView {
        ListedEntryView {
            uri: opt_text(self.uri),
            name: opt_text(self.name),
            description: opt_text(self.description),
        }
    }
}

/// The models of a list of entries.
pub open spec fn entry_views(entries: Seq<ListedEntry>) -> Seq<ListedEntryView> {
    entries.map_values(|entry: ListedEntry| entry@)
}

/// The entry that a JSON value is read as.
pub open spec fn entry_in(value: JsonModel) -> ListedEntryView {
    ListedEntryView {
        uri: value.member("uri"@).text(),
        name: value.member("name"@).text(),
        description: value.member("description"@).text(),
    }
}

/// The entries under `key` in the body of an answer; none where there is no array.
pub open spec fn entries_in(body: JsonModel, key: Seq<char>) -> Seq<ListedEntryView> {
    body.member(key).items().map_values(|value: JsonModel| entry_in(value))
}

/// Key under which the answer to a listing holds its entries, and name of the listing.
pub open spec fn listing_name(listing: Listing) -> Seq<char> {
    match listing {
        Listing::Resources => "resources"@,
        Listing::Tools => "tools"@,
    }
}

/// The limit that a request asks for.
pub open spec fn effective_limit(limit: Option<usize>) -> usize {
    match limit {
        Some(limit) => limit,
        None => DEFAULT_LIMIT,
    }
}

/// The item for one entry of a listing.
pub open spec fn listed_item(
    listing: Listing,
    server_url: Seq<char>,
    server_name: Seq<char>,
    entry: ListedEntryView,
) -> ProviderItemView {
    ProviderItemView {
        id: match listing {
            Listing::Resources => or_empty(entry.uri),
            Listing::Tools => or_empty(entry.name),
        },
        title: or_empty(entry.name),
        state: Some("available"@),
        author: None,
        created_at: None,
        updated_at: None,
        url: Some(
            match listing {
                Listing::Resources => server_url + "/resources/read"@,
                Listing::Tools => server_url + "/tools/call"@,
            },
        ),
        labels: seq![server_name],
        body: entry.description,
    }
}

/// The smaller of a count and a limit.
pub open spec fn capped(count: nat, limit: usize) -> int {
    if count < limit {
        count as int
    } else {
        limit as int
    }
}

/// The answer to a listing that found `entries`: the first `limit` of them, and how many
/// there are.
pub open spec fn listing_result(
    listing: Listing,
    server_url: Seq<char>,
    server_name: Seq<char>,
    limit: usize,
    entries: Seq<ListedEntryView>,
) -> ProviderResultView {
    ProviderResultView {
        provider: "mcp_bridge:"@ + server_name,
        resource_type: listing_name(listing),
        items: entries.take(capped(entries.len(), limit)).map_values(
            |entry: ListedEntryView| listed_item(listing, server_url, server_name, entry),
        ),
        total_count: Some(entries.len()),
        truncated: entries.len() > limit,
    }
}

/// The outcome of a listing, given what became of its request.
pub open spec fn listing_outcome(
    listing: Listing,
    server_url: Seq<char>,
    server_name: Seq<char>,
    limit: usize,
    reply: HttpReply,
) -> Result<ProviderResultView, Seq<char>> {
    match reply {
        HttpReply::CallFailed(message) => Err(
            "MCP bridge error ("@ + server_name + "): "@ + message@,
        ),
        HttpReply::ReadFailed(message) => Err("MCP bridge read error: "@ + message@),
        HttpReply::Body(text) => match parsed_json(text@) {
            Err(message) => Err("MCP bridge JSON error: "@ + message),
            Ok(body) => Ok(
                listing_result(
                    listing,
                    server_url,
                    server_name,
                    limit,
                    entries_in(body, listing_name(listing)),
                ),
            ),
        },
    }
}

/// The URL that a listing requests.
pub open spec fn listing_url(listing: Listing, server_url: Seq<char>) -> Seq<char> {
    match listing {
        Listing::Resources => server_url + "/resources/list"@,
        Listing::Tools => server_url + "/tools/list"@,
    }
}

/// The listing that an action asks for.
pub open spec fn listing_of(action: Seq<char>) -> Option<Listing> {
    if action == "resources"@ {
        Some(Listing::Resources)
    } else if action == "tools"@ {
        Some(Listing::Tools)
    } else {
        None
    }
}

/// Two strings in one.
fn concat2(a: &str, b: &str) -> (out: String)
    ensures
        out@ == a@ + b@,
{
    let mut out: String = a.to_owned();
    out.append(b);
    out
}

/// A copy of a text, empty where there is none.
fn copy_or_empty(text: &Option<String>) -> (out: String)
    ensures
        out@ == or_empty(opt_text(*text)),
{
    match text {
        Some(text) => text.clone(),
        None => String::new(),
    }
}

/// A copy of an optional text.
fn copy_text(text: &Option<String>) -> (out: Option<String>)
    ensures
        opt_text(out) == opt_text(*text),
{
    match text {
        Some(text) => Some(text.clone()),
        None => None,
    }
}

/// Reads the entries under `key` in the body of an answer.
pub fn read_entries(body: &serde_json::Value, key: &str) -> (entries: Vec<ListedEntry>)
    ensures
        entry_views(entries@) == entries_in(json_model(*body), key@),
{
    let mut entries: Vec<ListedEntry> = Vec::new();
    let found = member(body, key);
    let ghost expected = entries_in(json_model(*body), key@);
    match found.as_array() {
        Some(values) => {
            let mut i: usize = 0;
            assert(expected.len() == values@.len());
            while i < values.len()
                invariant
                    i <= values@.len(),
                    expected.len() == values@.len(),
                    expected == values@.map_values(
                        |value: serde_json::Value| json_model(value),
                    ).map_values(|value: JsonModel| entry_in(value)),
                    entry_views(entries@) == expected.take(i as int),
                decreases values@.len() - i,
            {
                let value = &values[i];
                let entry = ListedEntry {
                    uri: text_of(member(value, "uri")),
                    name: text_of(member(value, "name")),
                    description: text_of(member(value, "description")),
                };
                let ghost before = entries@;
                entries.push(entry);
                assert(entry@ == expected[i as int]);
                assert(entry_views(entries@) =~= entry_views(before).push(entry@));
                assert(expected.take(i + 1) =~= expected.take(i as int).push(expected[i as int]));
                i = i + 1;
            }
            assert(expected.take(i as int) =~= expected);
        },
        None => {
            assert(entry_views(entries@) =~= expected);
        },
    }
    entries
}

/// The item for one entry.
fn build_item(
    listing: Listing,
    server_url: &str,
    server_name: &str,
    entry: &ListedEntry,
) -> (item: ProviderItem)
    ensures
        item@ == listed_item(listing, server_url@, server_name@, entry@),
{
    let id: String = match listing {
        Listing::Resources => copy_or_empty(&entry.uri),
        Listing::Tools => copy_or_empty(&entry.name),
    };
    let url: String = match listing {
        Listing::Resources => concat2(server_url, "/resources/read"),
        Listing::Tools => concat2(server_url, "/tools/call"),
    };
    let mut labels: Vec<String> = Vec::new();
    labels.push(server_name.to_owned());
    assert(texts(labels@) =~= seq![server_name@]);
    ProviderItem {
        id,
        title: copy_or_empty(&entry.name),
        state: Some("available".to_owned()),
        author: None,
        created_at: None,
        updated_at: None,
        url: Some(url),
        labels,
        body: copy_text(&entry.description),
    }
}

/// The answer to a listing that found `entries`.
pub fn build_listing(
    listing: Listing,
    server_url: &str,
    server_name: &str,
    limit: usize,
    entries: &Vec<ListedEntry>,
) -> (result: ProviderResult)
    ensures
        result@ == listing_result(
            listing,
            server_url@,
            server_name@,
            limit,
            entry_views(entries@),
        ),
{
    let count: usize = entries.len();
    let shown: usize = if count < limit {
        count
    } else {
        limit
    };
    let mut items: Vec<ProviderItem> = Vec::new();
    let ghost expected = listing_result(
        listing,
        server_url@,
        server_name@,
        limit,
        entry_views(entries@),
    );
    let mut i: usize = 0;
    while i < shown
        invariant
            i <= shown <= entries@.len(),
            shown == capped(entries@.len(), limit),
            expected == listing_result(
                listing,
                server_url@,
                server_name@,
                limit,
                entry_views(entries@),
            ),
            item_views(items@) == expected.items.take(i as int),
        decreases shown - i,
    {
        let item = build_item(listing, server_url, server_name, &entries[i]);
        let ghost before = items@;
        items.push(item);
        assert(item@ == expected.items[i as int]);
        assert(item_views(items@) =~= item_views(before).push(item@));
        assert(expected.items.take(i + 1) =~= expected.items.take(i as int).push(
            expected.items[i as int],
        ));
        i = i + 1;
    }
    assert(expected.items.take(i as int) =~= expected.items);
    ProviderResult {
        provider: concat2("mcp_bridge:", server_name),
        resource_type: match listing {
            Listing::Resources => "resources".to_owned(),
            Listing::Tools => "tools".to_owned(),
        },
        items,
        total_count: Some(count),
        truncated: count > limit,
    }
}

/// The limit that a request asks for.
fn limit_of(params: &ProviderParams) -> (limit: usize)
    ensures
        limit == effective_limit(params.limit),
{
    match params.limit {
        Some(limit) => limit,
        None => DEFAULT_LIMIT,
    }
}

/// The body of an answer as JSON, or the message for what went wrong before it was that.
fn body_of(server_name: &str, reply: &HttpReply) -> (body: Result<serde_json::Value, String>)
    ensures
        match *reply {
            HttpReply::CallFailed(message) => body matches Err(e) && e@ == "MCP bridge error ("@
                + server_name@ + "): "@ + message@,
            HttpReply::ReadFailed(message) => body matches Err(e) && e@
                == "MCP bridge read error: "@ + message@,
            HttpReply::Body(text) => match parsed_json(text@) {
                Err(message) => body matches Err(e) && e@ == "MCP bridge JSON error: "@ + message,
                Ok(model) => body matches Ok(value) && json_model(value) == model,
            },
        },
{
    match reply {
        HttpReply::CallFailed(message) => {
            let mut out: String = concat2("MCP bridge error (", server_name);
            out.append("): ");
            out.append(message.as_str());
            Err(out)
        },
        HttpReply::ReadFailed(message) => Err(concat2("MCP bridge read error: ", message.as_str())),
        HttpReply::Body(text) => match parse(text.as_str()) {
            Ok(value) => Ok(value),
            Err(message) => Err(concat2("MCP bridge JSON error: ", message.as_str())),
        },
    }
}

/// Lists the resources of a server, given what became of the request for them.
pub fn list_resources(
    server_url: &str,
    server_name: &str,
    limit: usize,
    reply: &HttpReply,
) -> (outcome: Result<ProviderResult, String>)
    ensures
        outcome_view(outcome) == listing_outcome(
            Listing::Resources,
            server_url@,
            server_name@,
            limit,
            *reply,
        ),
{
    match body_of(server_name, reply) {
        Ok(body) => {
            let resources = read_entries(&body, "resources");
            Ok(build_listing(Listing::Resources, server_url, server_name, limit, &resources))
        },
        Err(message) => Err(message),
    }
}

/// Lists the tools of a server, given what became of the request for them.
pub fn list_tools(
    server_url: &str,
    server_name: &str,
    limit: usize,
    reply: &HttpReply,
) -> (outcome: Result<ProviderResult, String>)
    ensures
        outcome_view(outcome) == listing_outcome(
            Listing::Tools,
            server_url@,
            server_name@,
            limit,
            *reply,
        ),
{
    match body_of(server_name, reply) {
        Ok(body) => {
            let tools = read_entries(&body, "tools");
            Ok(build_listing(Listing::Tools, server_url, server_name, limit, &tools))
        },
        Err(message) => Err(message),
    }
}

impl McpBridgeProvider {
    /// Base URL of the server, without slashes at its end.
    pub closed spec fn url(self) -> Seq<char> {
        self.server_url@
    }

    /// Name of the server.
    pub closed spec fn name(self) -> Seq<char> {
        self.server_name@
    }

    /// The URL that a bridge keeps does not end with a slash.
    #[verifier::type_invariant]
    closed spec fn url_is_trimmed(self) -> bool {
        self.server_url@.len() > 0 ==> self.server_url@.last() != '/'
    }

    /// The actions that a bridge knows.
    pub open spec fn actions() -> Seq<Seq<char>> {
        seq!["resources"@, "tools"@]
    }

    /// A bridge to the server `server_name` at `server_url`; slashes at the end of the URL
    /// do not matter.
    pub fn new(server_name: &str, server_url: &str) -> (provider: Self)
        ensures
            provider.url() == without_trailing_slashes(server_url@),
            provider.name() == server_name@,
    {
        proof {
            law_trailing_slashes_do_not_matter(server_url@);
        }
        McpBridgeProvider {
            server_url: trim_trailing_slashes(server_url).to_owned(),
            server_name: server_name.to_owned(),
        }
    }

    /// Identifier of this kind of provider.
    pub fn id(&self) -> (id: &'static str)
        ensures
            id@ == "mcp_bridge"@,
    {
        "mcp_bridge"
    }

    /// Name of this kind of provider for display.
    pub fn display_name(&self) -> (name: &'static str)
        ensures
            name@ == "MCP Bridge"@,
    {
        "MCP Bridge"
    }

    /// The actions that [`McpBridgeProvider::execute`] accepts.
    pub fn supported_actions(&self) -> (actions: &[&str])
        ensures
            actions@.map_values(|action: &str| action@) == Self::actions(),
    {
        let actions: &[&str] = &["resources", "tools"];
        assert(actions@.map_values(|action: &str| action@) =~= Self::actions());
        actions
    }

    /// The request that `action` takes, or the message for an action that is not supported. One
    /// slash joins the server's URL and the path of the listing.
    pub fn execute(&self, action: &str, params: &ProviderParams) -> (request: Result<
        BridgeRequest,
        String,
    >)
        ensures
            match listing_of(action@) {
                Some(listing) => request matches Ok(request) && request.listing == listing
                    && request.url@ == listing_url(listing, self.url()) && request.accept@
                    == "application/json"@ && request.limit == effective_limit(params.limit),
                None => request matches Err(message) && message@ == "Unsupported action: "@
                    + action@,
            },
            self.url().len() > 0 ==> self.url().last() != '/',
    {
        proof {
            use_type_invariant(self);
        }
        let accept: String = "application/json".to_owned();
        let limit: usize = limit_of(params);
        if same_text(action, "resources") {
            Ok(
                BridgeRequest {
                    listing: Listing::Resources,
                    url: concat2(self.server_url.as_str(), "/resources/list"),
                    accept,
                    limit,
                },
            )
        } else if same_text(action, "tools") {
            Ok(
                BridgeRequest {
                    listing: Listing::Tools,
                    url: concat2(self.server_url.as_str(), "/tools/list"),
                    accept,
                    limit,
                },
            )
        } else {
            Err(concat2("Unsupported action: ", action))
        }
    }

    /// The answer to the action that takes `request`, given what became of that request.
    pub fn receive(&self, request: &BridgeRequest, reply: &HttpReply) -> (outcome: Result<
        ProviderResult,
        String,
    >)
        ensures
            outcome_view(outcome) == listing_outcome(
                request.listing,
                self.url(),
                self.name(),
                request.limit,
                *reply,
            ),
    {
        let url: &str = self.server_url.as_str();
        let name: &str = self.server_name.as_str();
        match request.listing {
            Listing::Resources => list_resources(url, name, request.limit, reply),
            Listing::Tools => list_tools(url, name, request.limit, reply),
        }
    }

    /// Seconds for which an answer may be kept.
    pub fn cache_ttl_secs(&self) -> (seconds: u64)
        ensures
            seconds == 60,
    {
        60
    }

    /// Whether a server asks for credentials.
    pub fn requires_auth(&self) -> (required: bool)
        ensures
            !required,
    {
        false
    }

    /// Whether there is a server to ask.
    pub fn is_available(&self) -> (available: bool)
        ensures
            available == (self.url().len() > 0),
    {
        !self.server_url.as_str().is_empty()
    }
}

/// A bridge executes the actions that it says it supports, and no others.
pub proof fn law_supported_actions_are_those_executed(action: Seq<char>)
    ensures
        listing_of(action) is Some <==> McpBridgeProvider::actions().contains(action),
{
    let actions = McpBridgeProvider::actions();
    assert(actions[0] == "resources"@);
    assert(actions[1] == "tools"@);
    assert(listing_of(action) is Some ==> actions.contains(action));
}

/// Slashes at the end of a server's URL do not matter: they are gone from the URL that a
/// bridge keeps, so that every path is joined to it by one slash.
pub proof fn law_trailing_slashes_do_not_matter(url: Seq<char>)
    ensures
        without_trailing_slashes(url + "/"@) == without_trailing_slashes(url),
        without_trailing_slashes(url).len() > 0 ==> without_trailing_slashes(url).last() != '/',
        without_trailing_slashes(url).is_prefix_of(url),
        without_trailing_slashes(without_trailing_slashes(url)) == without_trailing_slashes(url),
    decreases url.len(),
{
    reveal_strlit("/");
    let longer = url + "/"@;
    assert(longer.drop_last() =~= url);
    assert(longer.last() == '/');
    if url.len() > 0 && url.last() == '/' {
        law_trailing_slashes_do_not_matter(url.drop_last());
    }
}

/// A bridge is available if and only if its URL holds anything but slashes.
pub proof fn law_available_unless_url_is_blank(url: Seq<char>)
    ensures
        without_trailing_slashes(url).len() > 0 <==> exists|i: int|
            0 <= i < url.len() && url[i] != '/',
    decreases url.len(),
{
    if url.len() > 0 {
        if url.last() == '/' {
            law_available_unless_url_is_blank(url.drop_last());
            if exists|i: int| 0 <= i < url.len() && url[i] != '/' {
                let i = choose|i: int| 0 <= i < url.len() && url[i] != '/';
                assert(url.drop_last()[i] != '/');
            }
            if exists|i: int| 0 <= i < url.drop_last().len() && url.drop_last()[i] != '/' {
                let i = choose|i: int| 0 <= i < url.drop_last().len() && url.drop_last()[i] != '/';
                assert(url[i] != '/');
            }
        } else {
            assert(url[url.len() - 1] != '/');
        }
    }
}

/// A listing holds the first entries in order, never more than the limit, counts all of them,
/// and is marked as truncated if and only if it leaves some out. Each item bears the name of
/// its server.
pub proof fn law_listing_is_a_counted_prefix(
    listing: Listing,
    server_url: Seq<char>,
    server_name: Seq<char>,
    limit: usize,
    entries: Seq<ListedEntryView>,
)
    ensures
        ({
            let result = listing_result(listing, server_url, server_name, limit, entries);
            &&& result.items.len() <= limit
            &&& result.items.len() <= entries.len()
            &&& result.total_count == Some(entries.len())
            &&& result.truncated <==> result.items.len() < entries.len()
            &&& forall|i: int|
                0 <= i < result.items.len() ==> #[trigger] result.items[i] == listed_item(
                    listing,
                    server_url,
                    server_name,
                    entries[i],
                ) && result.items[i].labels == seq![server_name]
        }),
{
}

} // verus!
