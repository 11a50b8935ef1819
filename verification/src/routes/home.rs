//! The pages that list repositories.
use vstd::prelude::*;
use vstd::string::*;

use crate::config::AppConfig;
use crate::error::AppError;
use crate::middleware::auth::Authenticated;
use crate::routes::repo::check_owner;
use crate::text::{begins_with, same_text};

verus! {

/// Which repositories a page lists.
#[derive(Debug, Clone, Copy, PartialEq, Eq)]
pub enum Listing {
    /// Every one.
    All,
    /// A page of the public ones.
    Public { page: i64, per_page: i64 },
}

impl Listing {
    /// Whether a repository can stand in the list.
    pub open spec fn may_hold(self, repo: crate::db::models::Repository) -> bool {
        self is All || !repo.is_private
    }
}

/// What is listed for a visitor: every repository for the user, and so many of the public ones for
/// others.
pub open spec fn listing_for(authenticated: bool, others_see: i64) -> Listing {
    if authenticated {
        Listing::All
    } else {
        Listing::Public { page: 1, per_page: others_see }
    }
}

/// What the front page lists.
pub fn home(auth: Option<&Authenticated>) -> (r: Listing)
    ensures
        r == listing_for(auth is Some, 20),
{
    if auth.is_some() {
        Listing::All
    } else {
        Listing::Public { page: 1, per_page: 20 }
    }
}

/// What the page of public repositories lists, for everybody.
pub fn explore() -> (r: Listing)
    ensures
        r == listing_for(false, 50),
{
    Listing::Public { page: 1, per_page: 50 }
}

/// Whether a first step of an address is kept for the server itself.
pub open spec fn is_reserved(name: Seq<char>) -> bool {
    name == "user"@ || name == "assets"@ || name == "health"@ || name == "metrics"@
        || "-"@.is_prefix_of(name)
}

/// What the page of the user lists. Nobody else has a page.
pub fn user_profile(config: &AppConfig, username: &str, auth: Option<&Authenticated>) -> (r: Result<
    Listing,
    AppError,
>)
    ensures
        if is_reserved(username@) || username@ != config.username@ {
            r matches Err(e) && e@ == crate::error::Fault::NotFound
        } else {
            r matches Ok(listing) && listing == listing_for(auth is Some, 100)
        },
{
    if same_text(username, "user") || same_text(username, "assets") || same_text(
        username,
        "health",
    ) || same_text(username, "metrics") || begins_with(username, "-") {
        return Err(AppError::NotFound);
    }
    if let Err(e) = check_owner(config, username) {
        return Err(e);
    }
    if auth.is_some() {
        Ok(Listing::All)
    } else {
        Ok(Listing::Public { page: 1, per_page: 100 })
    }
}

/// A repository stands in a list only where its own page is shown to the same visitor; in
/// particular, others are told of no private one.
pub proof fn listed_repository_is_shown(
    config: AppConfig,
    repo: crate::db::models::Repository,
    authenticated: bool,
    others_see: i64,
)
    requires
        listing_for(authenticated, others_see).may_hold(repo),
    ensures
        crate::routes::repo::resolution(config, config.username@, Some(repo), authenticated)
            == Some(repo),
{
}

/// The user sees every repository. Others see the first page of the public ones, as long as the
/// page says.
pub proof fn others_see_the_first_public_ones(
    repo: crate::db::models::Repository,
    others_see: i64,
)
    ensures
        listing_for(true, others_see) == Listing::All,
        listing_for(false, others_see) == (Listing::Public { page: 1, per_page: others_see }),
        listing_for(true, others_see).may_hold(repo),
        listing_for(false, others_see).may_hold(repo) <==> !repo.is_private,
{
}

/// The first steps of the addresses of the server itself, and whatever begins with a hyphen, are
/// kept; every other name can be that of the user.
pub proof fn addresses_of_the_server_are_kept(name: Seq<char>)
    ensures
        is_reserved("user"@),
        is_reserved("assets"@),
        is_reserved("health"@),
        is_reserved("metrics"@),
        name.len() > 0 && name[0] == '-' ==> is_reserved(name),
        is_reserved(name) ==> name == "user"@ || name == "assets"@ || name == "health"@ || name
            == "metrics"@ || (name.len() > 0 && name[0] == '-'),
{
    reveal_strlit("-");
    if name.len() > 0 {
        assert(name.subrange(0, 1)[0] == name[0]);
        if name[0] == '-' {
            assert("-"@ == name.subrange(0, 1));
        }
    }
    if "-"@.is_prefix_of(name) {
        assert("-"@ == name.subrange(0, 1));
        assert("-"@[0] == '-');
    }
}

} // verus!
