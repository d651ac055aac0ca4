//! What data providers are asked and what they answer.

use crate::text::{opt_text, texts};
use vstd::prelude::*;

verus! {

/// Parameters of a request to a provider.
pub struct ProviderParams {
    pub project: Option<String>,
    pub state: Option<String>,
    pub limit: Option<usize>,
    pub query: Option<String>,
    pub id: Option<String>,
}

/// Model of [`ProviderParams`].
pub struct ProviderParamsView {
    pub project: Option<Seq<char>>,
    pub state: Option<Seq<char>>,
    pub limit: Option<usize>,
    pub query: Option<Seq<char>>,
    pub id: Option<Seq<char>>,
}

impl View for ProviderParams {
    type V = ProviderParamsView;

    open spec fn view(&self) -> ProviderParamsView {
        ProviderParamsView {
            project: opt_text(self.project),
            state: opt_text(self.state),
            limit: self.limit,
            query: opt_text(self.query),
            id: opt_text(self.id),
        }
    }
}

/// One item of an answer.
pub struct ProviderItem {
    pub id: String,
    pub title: String,
    pub state: Option<String>,
    pub author: Option<String>,
    pub created_at: Option<String>,
    pub updated_at: Option<String>,
    pub url: Option<String>,
    pub labels: Vec<String>,
    pub body: Option<String>,
}

/// Model of [`ProviderItem`].
#[verifier::ext_equal]
pub struct ProviderItemView {
    pub id: Seq<char>,
    pub title: Seq<char>,
    pub state: Option<Seq<char>>,
    pub author: Option<Seq<char>>,
    pub created_at: Option<Seq<char>>,
    pub updated_at: Option<Seq<char>>,
    pub url: Option<Seq<char>>,
    pub labels: Seq<Seq<char>>,
    pub body: Option<Seq<char>>,
}

impl View for ProviderItem {
    type V = ProviderItemView;

    open spec fn view(&self) -> ProviderItemView {
        ProviderItemView {
            id: self.id@,
            title: self.title@,
            state: opt_text(self.state),
            author: opt_text(self.author),
            created_at: opt_text(self.created_at),
            updated_at: opt_text(self.updated_at),
            url: opt_text(self.url),
            labels: texts(self.labels@),
            body: opt_text(self.body),
        }
    }
}

/// An answer of a provider.
pub struct ProviderResult {
    pub provider: String,
    pub resource_type: String,
    pub items: Vec<ProviderItem>,
    /// How many items there are in all.
    pub total_count: Option<usize>,
    /// Whether there are more items than were asked for.
    pub truncated: bool,
}

/// Model of [`ProviderResult`].
#[verifier::ext_equal]
pub struct ProviderResultView {
    pub provider: Seq<char>,
    pub resource_type: Seq<char>,
    pub items: Seq<ProviderItemView>,
    pub total_count: Option<nat>,
    pub truncated: bool,
}

/// The models of a list of items.
pub open spec fn item_views(items: Seq<ProviderItem>) -> Seq<ProviderItemView> {
    items.map_values(|item: ProviderItem| item@)
}

impl View for ProviderResult {
    type V = ProviderResultView;

    open spec fn view(&self) -> ProviderResultView {
        ProviderResultView {
            provider: self.provider@,
            resource_type: self.resource_type@,
            items: item_views(self.items@),
            total_count: match self.total_count {
                Some(count) => Some(count as nat),
                None => None,
            },
            truncated: self.truncated,
        }
    }
}

/// Model of the outcome of a request.
pub open spec fn outcome_view(outcome: Result<ProviderResult, String>) -> Result<
    ProviderResultView,
    Seq<char>,
> {
    match outcome {
        Ok(result) => Ok(result@),
        Err(message) => Err(message@),
    }
}

} // verus!
