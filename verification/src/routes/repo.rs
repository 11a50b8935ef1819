//! The pages of a repository.
use vstd::prelude::*;
use vstd::string::*;

use crate::config::AppConfig;
use crate::db::models::{RepoView, Repository};
use crate::error::AppError;
use crate::middleware::auth::Authenticated;
use crate::paths::{extension, path_lies_under};
use crate::text::{contains_char, contains_text, finishes_with, joined, len_in_bytes, same_text};

verus! {

/// Checks that an address names the one user; any other owner has nothing here.
pub fn check_owner(config: &AppConfig, username: &str) -> (r: Result<(), AppError>)
    ensures
        r is Ok <==> username@ == config.username@,
        r matches Err(e) ==> e@ == crate::error::Fault::NotFound,
{
    if same_text(username, config.username.as_str()) {
        Ok(())
    } else {
        Err(AppError::NotFound)
    }
}

/// The repository that an address names, where it is there and is shown: to the user always, to
/// others if it is public.
pub open spec fn resolution(
    config: AppConfig,
    username: Seq<char>,
    found: Option<Repository>,
    authenticated: bool,
) -> Option<Repository> {
    if username == config.username@ && found is Some && (!found->0.is_private || authenticated) {
        found
    } else {
        None
    }
}

/// The repository that an address names, where it is there and is shown. One that is not shown is
/// answered for like one that is not there.
pub fn resolve_repo(
    config: &AppConfig,
    username: &str,
    found: Option<Repository>,
    auth: Option<&Authenticated>,
) -> (r: Result<RepoView, AppError>)
    ensures
        match resolution(*config, username@, found, auth is Some) {
            Some(repo) => r matches Ok(view) && view.repo == repo && view.owner_username@
                == config.username@,
            None => r matches Err(e) && e@ == crate::error::Fault::NotFound,
        },
{
    if !same_text(username, config.username.as_str()) {
        return Err(AppError::NotFound);
    }
    match found {
        None => Err(AppError::NotFound),
        Some(repo) => {
            if repo.is_private && auth.is_none() {
                return Err(AppError::NotFound);
            }
            Ok(RepoView { repo, owner_username: config.username.clone() })
        },
    }
}

/// The repository that an address names, for its settings, which are for the user only.
pub fn managed_repo(
    config: &AppConfig,
    username: &str,
    found: Option<Repository>,
    auth: Option<&Authenticated>,
) -> (r: Result<RepoView, AppError>)
    ensures
        match resolution(*config, username@, found, auth is Some) {
            Some(repo) => if auth is Some {
                r matches Ok(view) && view.repo == repo && view.owner_username@
                    == config.username@
            } else {
                r matches Err(e) && e@ == crate::error::Fault::Unauthorized
            },
            None => r matches Err(e) && e@ == crate::error::Fault::NotFound,
        },
{
    match resolve_repo(config, username, found, auth) {
        Ok(view) => if auth.is_some() {
            Ok(view)
        } else {
            Err(AppError::Unauthorized)
        },
        Err(e) => Err(e),
    }
}

/// Why a text cannot be one step of a path, if it cannot.
pub open spec fn segment_fault(s: Seq<char>) -> Option<Seq<char>> {
    if s.len() == 0 || crate::text::byte_len(s) > 255 {
        Some("path segment length out of range"@)
    } else if crate::text::has_infix(s, ".."@) || s.contains('/') || s.contains('\\')
        || s.contains('\0') {
        Some("path segment contains illegal characters"@)
    } else {
        None
    }
}

/// Checks that a text can be one step of a path.
pub fn validate_path_segment(s: &str) -> (r: Result<(), AppError>)
    ensures
        match segment_fault(s@) {
            None => r is Ok,
            Some(text) => r matches Err(e) && e@ == crate::error::Fault::BadRequest(text),
        },
{
    if s.is_empty() || len_in_bytes(s) > 255 {
        return Err(AppError::BadRequest("path segment length out of range".to_owned()));
    }
    if contains_text(s, "..") || contains_char(s, '/') || contains_char(s, '\\') || contains_char(
        s,
        '\0',
    ) {
        return Err(AppError::BadRequest("path segment contains illegal characters".to_owned()));
    }
    Ok(())
}

/// The name of the directory of a repository: its own name, with `.git` at the end.
pub open spec fn dir_name(reponame: Seq<char>) -> Seq<char> {
    if ".git"@.is_suffix_of(reponame) {
        reponame
    } else {
        reponame + ".git"@
    }
}

/// Why there is no directory for a repository, if there is none.
pub open spec fn disk_path_fault(username: Seq<char>, reponame: Seq<char>) -> Option<Seq<char>> {
    if segment_fault(username) is Some {
        segment_fault(username)
    } else {
        segment_fault(reponame)
    }
}

/// The directory of a repository.
pub open spec fn disk_path(config: AppConfig, username: Seq<char>, reponame: Seq<char>) -> Seq<
    char,
> {
    config.root() + "/"@ + (username + "/"@ + dir_name(reponame))
}

/// A text that can be one step of a path does not start at the root.
proof fn segment_is_relative(s: Seq<char>, rest: Seq<char>)
    requires
        segment_fault(s) is None,
    ensures
        !crate::paths::is_absolute(s + rest),
{
    assert((s + rest)[0] == s[0]);
    assert(s.contains(s[0]));
}

/// The directory of a repository, which lies under that of all repositories.
pub fn repo_disk_path(config: &AppConfig, username: &str, reponame: &str) -> (r: Result<
    String,
    AppError,
>)
    ensures
        match disk_path_fault(username@, reponame@) {
            None => r matches Ok(path) && path@ == disk_path(*config, username@, reponame@)
                && crate::paths::lies_under(path@, config.root()),
            Some(text) => r matches Err(e) && e@ == crate::error::Fault::BadRequest(text),
        },
{
    if let Err(e) = validate_path_segment(username) {
        return Err(e);
    }
    if let Err(e) = validate_path_segment(reponame) {
        return Err(e);
    }
    let mut rel = username.to_owned();
    rel.append("/");
    if finishes_with(reponame, ".git") {
        rel.append(reponame);
    } else {
        rel.append(joined(reponame, ".git").as_str());
    }
    assert(rel@ == username@ + ("/"@ + dir_name(reponame@)));
    assert(rel@ == username@ + "/"@ + dir_name(reponame@));
    proof {
        segment_is_relative(username@, "/"@ + dir_name(reponame@));
        config.relative_path_stays_under_root(rel@);
    }
    let path = config.resolve_git_path(rel.as_str());
    let root = config.repo_root();
    if !path_lies_under(path.as_str(), root.as_str()) {
        return Err(AppError::BadRequest("path traversal detected".to_owned()));
    }
    Ok(path)
}

/// The page of a list that is asked for: the first one where none is, and no page before it.
pub fn page_number(asked: Option<u32>) -> (r: u32)
    ensures
        r == (match asked {
            Some(n) => if n < 1 {
                1
            } else {
                n
            },
            None => 1,
        }),
        r >= 1,
{
    match asked {
        Some(n) => if n < 1 {
            1
        } else {
            n
        },
        None => 1,
    }
}

/// How many commits are on a page: thirty where nothing is asked for, and a hundred at most.
pub fn page_length(asked: Option<u32>) -> (r: u32)
    ensures
        r == (match asked {
            Some(n) => if n > 100 {
                100
            } else {
                n
            },
            None => 30,
        }),
        r <= 100,
{
    match asked {
        Some(n) => if n > 100 {
            100
        } else {
            n
        },
        None => 30,
    }
}

/// The branch that a repository is shown at.
pub fn shown_branch(repo: &Repository) -> (r: String)
    ensures
        r@ == (match repo.default_branch {
            Some(branch) => branch@,
            None => "main"@,
        }),
{
    match &repo.default_branch {
        Some(branch) => branch.clone(),
        None => "main".to_owned(),
    }
}

/// A number of MiB in bytes.
pub fn mib_to_bytes(mib: u64) -> (r: u64)
    requires
        mib * 1_048_576 <= u64::MAX,
    ensures
        r == mib * 1_048_576,
{
    mib * 1_048_576
}

/// The media type, with its parameters, of files with an extension.
pub uninterp spec fn mime_text(extension: Seq<char>) -> Seq<char>;

/// `mime_guess::from_ext` and `first_or_octet_stream`, as text: the media type that an extension
/// stands for. It depends on the extension alone; where there is none, it is
/// `application/octet-stream`.
#[verifier::external_body]
fn guessed_mime(extension: &str) -> (r: String)
    ensures
        r@ == mime_text(extension@),
        extension@.len() == 0 ==> r@ == "application/octet-stream"@,
{
    mime_guess::from_ext(extension).first_or_octet_stream().as_ref().to_string()
}

/// The media type under which a file is sent: that of its extension.
pub fn raw_content_type(path: &str) -> (r: String)
    ensures
        r@ == mime_text(crate::paths::extension_of(path@)),
        crate::paths::extension_of(path@).len() == 0 ==> r@ == "application/octet-stream"@,
{
    guessed_mime(extension(path).as_str())
}

/// A private repository is answered for, to one who is not the user, exactly like one that is not
/// there.
pub proof fn private_repository_is_hidden(config: AppConfig, username: Seq<char>, repo: Repository)
    requires
        repo.is_private,
    ensures
        resolution(config, username, Some(repo), false) == resolution(
            config,
            username,
            None,
            false,
        ),
{
}

/// What is shown to others is shown to the user too.
pub proof fn user_sees_what_others_see(
    config: AppConfig,
    username: Seq<char>,
    found: Option<Repository>,
)
    ensures
        resolution(config, username, found, false) is Some ==> resolution(
            config,
            username,
            found,
            true,
        ) == resolution(config, username, found, false),
{
}

/// Nothing is found under the name of somebody else.
pub proof fn others_have_nothing(
    config: AppConfig,
    username: Seq<char>,
    found: Option<Repository>,
    authenticated: bool,
)
    requires
        username != config.username@,
    ensures
        resolution(config, username, found, authenticated) is None,
{
}

/// No step of the path of a repository, behind the directory of all repositories, leads back up.
pub proof fn disk_path_never_leads_up(config: AppConfig, username: Seq<char>, reponame: Seq<char>)
    requires
        disk_path_fault(username, reponame) is None,
    ensures
        ({
            let root = crate::paths::steps(config.root());
            let path = crate::paths::steps(disk_path(config, username, reponame));
            &&& root.is_prefix_of(path)
            &&& forall|i: int| root.len() <= i < path.len() ==> #[trigger] path[i] != ".."@
        }),
{
    let rel = username + "/"@ + dir_name(reponame);
    let dir = dir_name(reponame);
    segment_is_relative(username, "/"@ + dir);
    assert(rel == username + ("/"@ + dir));
    config.relative_path_stays_under_root(rel);
    assert(config.git_path(rel) == disk_path(config, username, reponame));
    let root = crate::paths::steps(config.root());
    let path = crate::paths::steps(disk_path(config, username, reponame));
    assert(path == root + crate::paths::names(rel));
    assert(root == path.subrange(0, root.len() as int));
    reveal_strlit("/");
    reveal_strlit("..");
    reveal_strlit(".git");
    assert("/"@ == seq!['/']);
    assert(!username.contains('/'));
    assert(!dir.contains('/')) by {
        assert forall|i: int| 0 <= i < dir.len() implies dir[i] != '/' by {
            if i < reponame.len() {
                assert(dir[i] == reponame[i]);
                assert(reponame.contains(dir[i]));
            }
        }
    }
    crate::text::first_index_bounds(username, '/');
    crate::text::first_index_bounds(dir, '/');
    crate::text::split_of_joined(username, '/', dir);
    assert(crate::text::split_on(rel, '/') == seq![username] + seq![dir]);
    assert(username != ".."@) by {
        if username == ".."@ {
            assert(username.subrange(0, 2) == ".."@);
            assert(crate::text::occurs_at(username, ".."@, 0));
        }
    }
    assert(dir != ".."@) by {
        if ".git"@.is_suffix_of(reponame) {
            assert(dir.len() >= 4);
        }
    }
    let keep = |piece: Seq<char>| crate::paths::is_name(piece);
    let parts = seq![username] + seq![dir];
    assert forall|i: int| root.len() <= i < path.len() implies #[trigger] path[i] != ".."@ by {
        let name = crate::paths::names(rel)[i - root.len()];
        assert(parts.filter(keep).contains(name));
        parts.lemma_filter_contains_rev(keep, name);
        assert(parts.contains(name));
        let k = parts.index_of(name);
        assert(parts[k] == name);
    }
}

/// A repository is shown exactly where it is there, the address names the user, and it is public
/// or the visitor is the user; and it is that repository which is shown.
pub proof fn repository_is_shown_as_it_is(
    config: AppConfig,
    username: Seq<char>,
    repo: Repository,
    authenticated: bool,
)
    ensures
        resolution(config, username, Some(repo), authenticated) is Some <==> username
            == config.username@ && (authenticated || !repo.is_private),
        resolution(config, username, Some(repo), authenticated) matches Some(shown) ==> shown
            == repo,
        resolution(config, username, None, authenticated) is None,
{
}

/// A text can be one step of a path exactly where it has one to 255 bytes, no slash, backslash or
/// null character, and no two dots next to each other. What is wrong with its length is told first.
pub proof fn path_steps_are_plain(s: Seq<char>)
    ensures
        segment_fault(s) is None <==> {
            &&& 0 < s.len()
            &&& crate::text::byte_len(s) <= 255
            &&& forall|i: int|
                0 <= i < s.len() ==> #[trigger] s[i] != '/' && s[i] != '\\' && s[i] != '\0'
            &&& forall|i: int| 0 <= i < s.len() - 1 ==> !(#[trigger] s[i] == '.' && s[i + 1] == '.')
        },
        s.len() == 0 || crate::text::byte_len(s) > 255 ==> segment_fault(s) == Some(
            "path segment length out of range"@,
        ),
        s.len() > 0 && crate::text::byte_len(s) <= 255 && segment_fault(s) is Some ==> segment_fault(
            s,
        ) == Some("path segment contains illegal characters"@),
{
    reveal_strlit("..");
    crate::text::part_is_found_where_it_stands(s, ".."@);
    if crate::text::has_infix(s, ".."@) {
        let (before, behind) = choose|before: Seq<char>, behind: Seq<char>|
            s == #[trigger] (before + ".."@ + behind);
        let i = before.len() as int;
        assert(s[i] == ".."@[0]);
        assert(s[i + 1] == ".."@[1]);
    }
    if exists|i: int| 0 <= i < s.len() - 1 && #[trigger] s[i] == '.' && s[i + 1] == '.' {
        let i = choose|i: int| 0 <= i < s.len() - 1 && #[trigger] s[i] == '.' && s[i + 1] == '.';
        assert(s == s.take(i) + ".."@ + s.skip(i + 2));
    }
    if s.contains('/') || s.contains('\\') || s.contains('\0') {
        let i = choose|i: int|
            0 <= i < s.len() && (s[i] == '/' || s[i] == '\\' || #[trigger] s[i] == '\0');
        assert(s[i] == '/' || s[i] == '\\' || s[i] == '\0');
    } else {
        assert forall|i: int| 0 <= i < s.len() implies #[trigger] s[i] != '/' && s[i] != '\\'
            && s[i] != '\0' by {
            assert(s.contains(s[i]));
        }
    }
}

/// A repository has the same directory whether it is named with `.git` or without; the directory
/// stands in that of the user, and its own name ends with `.git`. Both names have to be steps of a
/// path, and the one of the user is looked at first.
pub proof fn directory_is_named_after_the_repository(
    config: AppConfig,
    username: Seq<char>,
    reponame: Seq<char>,
)
    ensures
        !".git"@.is_suffix_of(reponame) ==> disk_path(config, username, reponame) == config.root()
            + "/"@ + (username + "/"@ + (reponame + ".git"@)),
        ".git"@.is_suffix_of(reponame) ==> disk_path(config, username, reponame) == config.root()
            + "/"@ + (username + "/"@ + reponame),
        !".git"@.is_suffix_of(reponame) ==> disk_path(config, username, reponame + ".git"@)
            == disk_path(config, username, reponame),
        disk_path_fault(username, reponame) is None <==> segment_fault(username) is None
            && segment_fault(reponame) is None,
        segment_fault(username) is Some ==> disk_path_fault(username, reponame) == segment_fault(
            username,
        ),
        segment_fault(username) is None ==> disk_path_fault(username, reponame) == segment_fault(
            reponame,
        ),
{
    let named = reponame + ".git"@;
    assert(named.subrange(named.len() - ".git"@.len(), named.len() as int) == ".git"@);
}

} // verus!
