//! Laws of the MCP bridge: what a listing holds, told from the server's answer.

use crate::json::{parsed_json, JsonModel};
use crate::mcp_bridge::{
    effective_limit, entries_in, entry_views, listing_name, listing_of, listing_outcome,
    listing_result, listing_url, HttpReply, ListedEntry, ListedEntryView, Listing,
};
use crate::provider::{
    item_views, outcome_view, ProviderItem, ProviderParams, ProviderResult, ProviderResultView,
};
use crate::text::{opt_text, texts};
use vstd::prelude::*;
use vstd::string::*;

verus! {

/// The accessors of a JSON value see a text, a number, the items of an array and the members
/// of an object for what they are, and nothing in any other value.
pub proof fn law_json_accessors_go_by_type(
    value: JsonModel,
    text: Seq<char>,
    number: Option<u64>,
    items: Seq<JsonModel>,
    members: Map<Seq<char>, JsonModel>,
    key: Seq<char>,
)
    ensures
        JsonModel::Text(text).text() == Some(text),
        JsonModel::Number(number).number() == number,
        JsonModel::Array(items).items() == items,
        members.contains_key(key) ==> JsonModel::Object(members).member(key) == members[key],
        !members.contains_key(key) ==> JsonModel::Object(members).member(key) == JsonModel::Null,
        !(value is Text) ==> value.text() is None,
        !(value is Number) ==> value.number() is None,
        !(value is Array) ==> value.items().len() == 0,
        !(value is Object) ==> value.member(key) == JsonModel::Null,
{
}

/// A text that is there, or nothing.
pub open spec fn is_text_or_nothing(shown: Seq<char>, text: Option<Seq<char>>) -> bool {
    match text {
        Some(text) => shown == text,
        None => shown.len() == 0,
    }
}

/// Every item of a listing tells of the entry in its place: its title is the name, its body
/// the description, and its id the URI of a resource or the name of a tool; a missing title or
/// id is empty and a missing description is none. It is available, bears the name of the
/// server alone, points to the server, and says nothing else.
pub proof fn law_items_tell_of_their_entries(
    listing: Listing,
    server_url: Seq<char>,
    server_name: Seq<char>,
    limit: usize,
    entries: Seq<ListedEntryView>,
    i: int,
)
    requires
        0 <= i < listing_result(listing, server_url, server_name, limit, entries).items.len(),
    ensures
        i < entries.len(),
        ({
            let item = listing_result(listing, server_url, server_name, limit, entries).items[i];
            let entry = entries[i];
            &&& item.body == entry.description
            &&& is_text_or_nothing(item.title, entry.name)
            &&& listing == Listing::Resources ==> is_text_or_nothing(item.id, entry.uri)
            &&& listing == Listing::Tools ==> is_text_or_nothing(item.id, entry.name)
            &&& listing == Listing::Resources ==> item.url == Some(server_url + "/resources/read"@)
            &&& listing == Listing::Tools ==> item.url == Some(server_url + "/tools/call"@)
            &&& item.state == Some("available"@)
            &&& item.labels.len() == 1
            &&& item.labels[0] == server_name
            &&& item.author is None
            &&& item.created_at is None
            &&& item.updated_at is None
        }),
{
}

/// A listing says which bridge it comes from and what it lists, counts all entries, holds as
/// many items as the limit allows, and is truncated exactly where it has to leave some out.
pub proof fn law_listing_counts_its_entries(
    listing: Listing,
    server_url: Seq<char>,
    server_name: Seq<char>,
    limit: usize,
    entries: Seq<ListedEntryView>,
)
    ensures
        ({
            let result = listing_result(listing, server_url, server_name, limit, entries);
            &&& result.provider == "mcp_bridge:"@ + server_name
            &&& listing == Listing::Resources ==> result.resource_type == "resources"@
            &&& listing == Listing::Tools ==> result.resource_type == "tools"@
            &&& result.total_count == Some(entries.len())
            &&& entries.len() <= limit ==> result.items.len() == entries.len() && !result.truncated
            &&& entries.len() > limit ==> result.items.len() == limit && result.truncated
        }),
{
}

/// A larger limit only adds items: those within the smaller one are the same and come first.
pub proof fn law_larger_limit_extends_listing(
    listing: Listing,
    server_url: Seq<char>,
    server_name: Seq<char>,
    small: usize,
    large: usize,
    entries: Seq<ListedEntryView>,
)
    requires
        small <= large,
    ensures
        listing_result(listing, server_url, server_name, small, entries).items.is_prefix_of(
            listing_result(listing, server_url, server_name, large, entries).items,
        ),
{
    let fewer = listing_result(listing, server_url, server_name, small, entries).items;
    let more = listing_result(listing, server_url, server_name, large, entries).items;
    assert(more.take(fewer.len() as int) =~= fewer);
}

/// The entries of an answer are those of the array under the key, in order, each with the
/// texts under "uri", "name" and "description".
pub proof fn law_entries_are_read_from_the_answer(body: JsonModel, key: Seq<char>, i: int)
    ensures
        entries_in(body, key).len() == body.member(key).items().len(),
        0 <= i < body.member(key).items().len() ==> ({
            let value = body.member(key).items()[i];
            let entry = entries_in(body, key)[i];
            &&& entry.uri == value.member("uri"@).text()
            &&& entry.name == value.member("name"@).text()
            &&& entry.description == value.member("description"@).text()
        }),
{
}

/// The key under which a server's answer holds what is listed.
pub open spec fn answer_key(listing: Listing) -> Seq<char> {
    if listing == Listing::Resources {
        "resources"@
    } else {
        "tools"@
    }
}

/// An answer that is JSON always gives a listing, of the array under "resources" or "tools":
/// one item for each value of it, up to the limit. The body of an item is the text under
/// "description" of its value, and none only where there is no such text; its title is the
/// text under "name", and its id that under "uri" for a resource and under "name" for a tool.
pub proof fn law_answers_become_listings(
    listing: Listing,
    server_url: Seq<char>,
    server_name: Seq<char>,
    limit: usize,
    text: String,
    body: JsonModel,
)
    requires
        parsed_json(text@) == Ok::<JsonModel, Seq<char>>(body),
    ensures
        ({
            let outcome = listing_outcome(
                listing,
                server_url,
                server_name,
                limit,
                HttpReply::Body(text),
            );
            let values = body.member(answer_key(listing)).items();
            &&& outcome is Ok
            &&& outcome->Ok_0.total_count == Some(values.len())
            &&& outcome->Ok_0.truncated == (values.len() > limit)
            &&& outcome->Ok_0.items.len() == (if values.len() > limit {
                limit as nat
            } else {
                values.len()
            })
            &&& outcome->Ok_0.provider == "mcp_bridge:"@ + server_name
            &&& outcome->Ok_0.resource_type == answer_key(listing)
            &&& forall|i: int|
                0 <= i < outcome->Ok_0.items.len() ==> {
                    let item = #[trigger] outcome->Ok_0.items[i];
                    &&& item.body == values[i].member("description"@).text()
                    &&& is_text_or_nothing(item.title, values[i].member("name"@).text())
                    &&& listing == Listing::Resources ==> is_text_or_nothing(
                        item.id,
                        values[i].member("uri"@).text(),
                    )
                    &&& listing == Listing::Tools ==> is_text_or_nothing(
                        item.id,
                        values[i].member("name"@).text(),
                    )
                    &&& listing == Listing::Resources ==> item.url == Some(
                        server_url + "/resources/read"@,
                    )
                    &&& listing == Listing::Tools ==> item.url == Some(
                        server_url + "/tools/call"@,
                    )
                    &&& item.state == Some("available"@)
                    &&& item.labels == seq![server_name]
                    &&& item.author is None
                    &&& item.created_at is None
                    &&& item.updated_at is None
                }
        }),
{
    let key = answer_key(listing);
    let values = body.member(key).items();
    let entries = entries_in(body, key);
    law_entries_are_read_from_the_answer(body, key, 0);
    law_listing_counts_its_entries(listing, server_url, server_name, limit, entries);
    let result = listing_result(listing, server_url, server_name, limit, entries);
    assert forall|i: int| 0 <= i < result.items.len() implies {
        let item = #[trigger] result.items[i];
        &&& item.body == values[i].member("description"@).text()
        &&& is_text_or_nothing(item.title, values[i].member("name"@).text())
        &&& listing == Listing::Resources ==> is_text_or_nothing(
            item.id,
            values[i].member("uri"@).text(),
        )
        &&& listing == Listing::Tools ==> is_text_or_nothing(
            item.id,
            values[i].member("name"@).text(),
        )
        &&& item.labels == seq![server_name]
    } by {
        law_entries_are_read_from_the_answer(body, key, i);
        law_items_tell_of_their_entries(listing, server_url, server_name, limit, entries, i);
        assert(result.items[i].labels =~= seq![server_name]);
    }
}

/// A description that the server gives is never lost.
pub proof fn law_descriptions_are_kept(
    listing: Listing,
    server_url: Seq<char>,
    server_name: Seq<char>,
    limit: usize,
    text: String,
    body: JsonModel,
    i: int,
    description: Seq<char>,
)
    requires
        parsed_json(text@) == Ok::<JsonModel, Seq<char>>(body),
        0 <= i < body.member(answer_key(listing)).items().len(),
        i < limit,
        body.member(answer_key(listing)).items()[i].member("description"@) == JsonModel::Text(
            description,
        ),
    ensures
        ({
            let outcome = listing_outcome(
                listing,
                server_url,
                server_name,
                limit,
                HttpReply::Body(text),
            );
            &&& outcome is Ok
            &&& i < outcome->Ok_0.items.len()
            &&& outcome->Ok_0.items[i].body == Some(description)
        }),
{
    law_answers_become_listings(listing, server_url, server_name, limit, text, body);
}

/// Whatever goes wrong before there is an answer in JSON is reported as an error that says
/// where: in the call, with the name of the server, in reading, or in the text.
pub proof fn law_failures_are_reported(
    listing: Listing,
    server_url: Seq<char>,
    server_name: Seq<char>,
    limit: usize,
    message: String,
    text: String,
    complaint: Seq<char>,
)
    ensures
        listing_outcome(listing, server_url, server_name, limit, HttpReply::CallFailed(message))
            == Err::<ProviderResultView, Seq<char>>(
            "MCP bridge error ("@ + server_name + "): "@ + message@,
        ),
        listing_outcome(listing, server_url, server_name, limit, HttpReply::ReadFailed(message))
            == Err::<ProviderResultView, Seq<char>>("MCP bridge read error: "@ + message@),
        parsed_json(text@) == Err::<JsonModel, Seq<char>>(complaint) ==> listing_outcome(
            listing,
            server_url,
            server_name,
            limit,
            HttpReply::Body(text),
        ) == Err::<ProviderResultView, Seq<char>>("MCP bridge JSON error: "@ + complaint),
{
}

/// The action of a name asks for the listing of that name, from the path of that name, and
/// that listing reads the answer under that name.
pub proof fn law_actions_paths_and_keys_agree(server_url: Seq<char>)
    ensures
        listing_of("resources"@) == Some(Listing::Resources),
        listing_of("tools"@) == Some(Listing::Tools),
        listing_url(Listing::Resources, server_url) == server_url + "/resources/list"@,
        listing_url(Listing::Tools, server_url) == server_url + "/tools/list"@,
        listing_name(Listing::Resources) == "resources"@,
        listing_name(Listing::Tools) == "tools"@,
{
    reveal_strlit("resources");
    reveal_strlit("tools");
    assert("resources"@.len() != "tools"@.len());
}

/// An action other than the two asks for no listing.
pub proof fn law_other_actions_list_nothing(action: Seq<char>)
    requires
        action != "resources"@,
        action != "tools"@,
    ensures
        listing_of(action) is None,
{
}

/// A limit that is asked for holds; twenty does where none is.
pub proof fn law_limit_defaults_to_twenty(limit: usize)
    ensures
        effective_limit(Some(limit)) == limit,
        effective_limit(None) == 20,
{
}

/// The models of what providers are asked and answer hold every field.
pub proof fn law_models_of_provider_data(
    params: ProviderParams,
    item: ProviderItem,
    items: Seq<ProviderItem>,
    result: ProviderResult,
    message: String,
)
    ensures
        params@.project == opt_text(params.project),
        params@.state == opt_text(params.state),
        params@.limit == params.limit,
        params@.query == opt_text(params.query),
        params@.id == opt_text(params.id),
        item@.id == item.id@,
        item@.title == item.title@,
        item@.state == opt_text(item.state),
        item@.author == opt_text(item.author),
        item@.created_at == opt_text(item.created_at),
        item@.updated_at == opt_text(item.updated_at),
        item@.url == opt_text(item.url),
        item@.labels == texts(item.labels@),
        item@.body == opt_text(item.body),
        item_views(items).len() == items.len(),
        forall|i: int| 0 <= i < items.len() ==> #[trigger] item_views(items)[i] == items[i]@,
        result@.provider == result.provider@,
        result@.resource_type == result.resource_type@,
        result@.items == item_views(result.items@),
        result.total_count is None ==> result@.total_count is None,
        result.total_count is Some ==> result@.total_count == Some(result.total_count->0 as nat),
        result@.truncated == result.truncated,
        outcome_view(Ok(result)) == Ok::<ProviderResultView, Seq<char>>(result@),
        outcome_view(Err(message)) == Err::<ProviderResultView, Seq<char>>(message@),
{
}

/// The model of an entry holds every field, and that of a list every entry.
pub proof fn law_models_of_entries(entry: ListedEntry, entries: Seq<ListedEntry>)
    ensures
        entry@.uri == opt_text(entry.uri),
        entry@.name == opt_text(entry.name),
        entry@.description == opt_text(entry.description),
        entry_views(entries).len() == entries.len(),
        forall|i: int| 0 <= i < entries.len() ==> #[trigger] entry_views(entries)[i] == entries[i]@,
{
}

} // verus!
