//! What the server answers for itself: its assets, its health and its counters.
use vstd::prelude::*;
use vstd::string::*;

use crate::config::AppConfig;
use crate::paths::{extension, join_path};
use crate::text::{begins_with, contains_text, same_text, strip_front};

verus! {

/// Whether a path can be that of an asset: it does not start at the root, and leads nowhere up.
pub open spec fn is_asset_path(path: Seq<char>) -> bool {
    !crate::text::has_infix(path, ".."@) && !"/"@.is_prefix_of(path)
}

/// Whether a path can be that of an asset.
pub fn asset_path_allowed(path: &str) -> (r: bool)
    ensures
        r == is_asset_path(path@),
{
    !contains_text(path, "..") && !begins_with(path, "/")
}

/// The media type, without parameters, of files with an extension.
pub uninterp spec fn mime_essence(extension: Seq<char>) -> Seq<char>;

/// `mime_guess::from_ext`, `first_or_octet_stream` and `essence_str`: the media type that an
/// extension stands for, without parameters. It depends on the extension alone; where there is
/// none, it is `application/octet-stream`.
#[verifier::external_body]
fn guessed_essence(extension: &str) -> (r: String)
    ensures
        r@ == mime_essence(extension@),
        extension@.len() == 0 ==> r@ == "application/octet-stream"@,
{
    mime_guess::from_ext(extension).first_or_octet_stream().essence_str().to_string()
}

/// An asset that is sent.
#[derive(Debug)]
pub struct Asset {
    pub content_type: String,
    pub cache_control: String,
    pub body: Vec<u8>,
}

/// The asset at a path, where there is one; it may be kept for a year.
pub fn serve_asset(path: &str, found: Option<Vec<u8>>) -> (r: Option<Asset>)
    ensures
        r is Some <==> is_asset_path(path@) && found is Some,
        r matches Some(asset) ==> asset.content_type@ == mime_essence(
            crate::paths::extension_of(path@),
        ) && asset.cache_control@ == "public, max-age=31536000, immutable"@ && asset.body
            == found->0,
{
    if !asset_path_allowed(path) {
        return None;
    }
    match found {
        Some(body) => Some(
            Asset {
                content_type: guessed_essence(extension(path).as_str()),
                cache_control: "public, max-age=31536000, immutable".to_owned(),
                body,
            },
        ),
        None => None,
    }
}

/// Where the server tries whether it can write.
pub fn health_probe(config: &AppConfig) -> (r: String)
    ensures
        r@ == config.root() + "/.health_probe"@,
{
    let root = config.repo_root();
    proof {
        config.root_is_a_directory_name();
        reveal_strlit("/");
        reveal_strlit(".health_probe");
        reveal_strlit("/.health_probe");
        assert("/.health_probe"@ == "/"@ + ".health_probe"@);
        assert(config.root() + "/"@ + ".health_probe"@ == config.root() + ("/"@
            + ".health_probe"@));
    }
    join_path(root.as_str(), ".health_probe")
}

/// How the server is.
#[derive(Debug, Clone, Copy, PartialEq, Eq)]
pub struct Health {
    pub database: bool,
    pub disk: bool,
}

impl Health {
    /// Whether everything works.
    pub open spec fn is_good(self) -> bool {
        self.database && self.disk
    }

    /// The HTTP status that says so.
    pub fn http_status(&self) -> (r: u16)
        ensures
            r == (if self.is_good() {
                200u16
            } else {
                503u16
            }),
    {
        if self.database && self.disk {
            200
        } else {
            503
        }
    }

    /// The word that says so.
    pub fn status_word(&self) -> (r: String)
        ensures
            r@ == (if self.is_good() {
                "ok"@
            } else {
                "degraded"@
            }),
    {
        if self.database && self.disk {
            "ok".to_owned()
        } else {
            "degraded".to_owned()
        }
    }
}

/// The token that a header presents; nothing where it presents none.
pub open spec fn presented_token(authorization: Option<Seq<char>>) -> Seq<char> {
    match authorization {
        Some(a) => match crate::text::after_prefix(a, "Bearer "@) {
            Some(token) => token,
            None => Seq::empty(),
        },
        None => Seq::empty(),
    }
}

/// Whether the counters are shown: to everybody where no token is configured, and to those who
/// present it where one is.
pub fn metrics_allowed(config: &AppConfig, authorization: Option<&str>) -> (r: bool)
    ensures
        r == (config.metrics_token@.len() == 0 || presented_token(
            crate::text::opt_str_view(authorization),
        ) == config.metrics_token@),
{
    if config.metrics_token.as_str().is_empty() {
        return true;
    }
    let provided = match authorization {
        Some(a) => match strip_front(a, "Bearer ") {
            Some(token) => token,
            None => String::new(),
        },
        None => String::new(),
    };
    same_text(provided.as_str(), config.metrics_token.as_str())
}

/// A path can be that of an asset exactly where it does not begin with a slash and no dot in it is
/// followed by another.
pub proof fn assets_are_not_above_their_directory(path: Seq<char>)
    ensures
        is_asset_path(path) <==> !(path.len() > 0 && path[0] == '/') && forall|i: int|
            0 <= i < path.len() - 1 ==> !(#[trigger] path[i] == '.' && path[i + 1] == '.'),
{
    reveal_strlit("..");
    reveal_strlit("/");
    crate::text::part_is_found_where_it_stands(path, ".."@);
    if crate::text::has_infix(path, ".."@) {
        let (before, behind) = choose|before: Seq<char>, behind: Seq<char>|
            path == #[trigger] (before + ".."@ + behind);
        let i = before.len() as int;
        assert(path[i] == ".."@[0]);
        assert(path[i + 1] == ".."@[1]);
    }
    if exists|i: int| 0 <= i < path.len() - 1 && #[trigger] path[i] == '.' && path[i + 1] == '.' {
        let i = choose|i: int|
            0 <= i < path.len() - 1 && #[trigger] path[i] == '.' && path[i + 1] == '.';
        assert(path == path.take(i) + ".."@ + path.skip(i + 2));
    }
    if path.len() > 0 {
        assert(path.subrange(0, 1)[0] == path[0]);
        if path[0] == '/' {
            assert("/"@ == path.subrange(0, 1));
        }
    }
}

/// The server is well only where both the database and the disk are.
pub proof fn health_takes_everything(h: Health)
    ensures
        h.is_good() <==> h.database && h.disk,
{
}

/// The token that a header presents is what follows `Bearer` and a blank; without that nothing is
/// presented.
pub proof fn bearer_presents_its_token(authorization: Option<Seq<char>>, token: Seq<char>)
    ensures
        presented_token(Some("Bearer "@ + token)) == token,
        presented_token(None).len() == 0,
        authorization matches Some(a) ==> (!"Bearer "@.is_prefix_of(a) ==> presented_token(
            authorization,
        ).len() == 0),
{
    crate::text::prefix_is_taken_off("Bearer "@ + token, "Bearer "@, token);
}

} // verus!
