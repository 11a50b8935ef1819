//! Repositories and webhooks.
use vstd::prelude::*;

use crate::json::list_from_json;

verus! {

/// A repository.
#[derive(Debug, Clone)]
pub struct Repository {
    pub id: i64,
    pub name: String,
    pub description: Option<String>,
    pub is_private: bool,
    pub default_branch: Option<String>,
    pub git_path: String,
    pub created_at: String,
    pub updated_at: String,
}

/// An address that is told of events in a repository.
#[derive(Debug, Clone)]
pub struct Webhook {
    pub id: i64,
    pub repo_id: i64,
    pub url: String,
    pub secret: Option<String>,
    pub events: Vec<String>,
    pub is_active: bool,
}

/// A webhook as it is stored, with its events as a JSON list.
#[derive(Debug, Clone)]
pub struct WebhookRow {
    pub id: i64,
    pub repo_id: i64,
    pub url: String,
    pub secret: Option<String>,
    pub events: String,
    pub is_active: bool,
}

/// A repository with the name of its owner, who is always the one configured user.
#[derive(Debug, Clone)]
pub struct RepoView {
    pub repo: Repository,
    pub owner_username: String,
}

/// Whether a webhook is what a row stores: the same in every field, and its events those of the
/// stored list, or none where that is not a list of strings.
pub open spec fn is_stored_as(w: Webhook, row: WebhookRow) -> bool {
    &&& w.id == row.id
    &&& w.repo_id == row.repo_id
    &&& w.url == row.url
    &&& w.secret == row.secret
    &&& w.is_active == row.is_active
    &&& crate::text::views(w.events@) == (match crate::json::list_in_json(row.events@) {
        Some(events) => events,
        None => Seq::empty(),
    })
}

impl vstd::std_specs::convert::FromSpecImpl<WebhookRow> for Webhook {
    open spec fn obeys_from_spec() -> bool {
        false
    }

    open spec fn from_spec(row: WebhookRow) -> Webhook {
        arbitrary()
    }
}

impl From<WebhookRow> for Webhook {
    /// The webhook that a row stores.
    fn from(row: WebhookRow) -> (r: Webhook)
        ensures
            is_stored_as(r, row),
    {
        let events: Vec<String> = match list_from_json(row.events.as_str()) {
            Some(list) => list,
            None => Vec::new(),
        };
        assert(crate::text::views(Seq::empty()) == Seq::<Seq<char>>::empty());
        Webhook {
            id: row.id,
            repo_id: row.repo_id,
            url: row.url,
            secret: row.secret,
            events,
            is_active: row.is_active,
        }
    }
}

/// A webhook that is read from a row differs from it in nothing but its events, which are those of
/// the stored list; a text that is not a list stands for none.
pub proof fn webhook_is_read_as_it_is_stored(w: Webhook, row: WebhookRow)
    requires
        is_stored_as(w, row),
    ensures
        w.id == row.id,
        w.repo_id == row.repo_id,
        w.url == row.url,
        w.secret == row.secret,
        w.is_active == row.is_active,
        crate::json::list_in_json(row.events@) matches Some(events) ==> crate::text::views(w.events@)
            == events,
        crate::json::list_in_json(row.events@) is None ==> w.events@.len() == 0,
{
    assert(crate::text::views(w.events@).len() == w.events@.len());
}

} // verus!
