//! The configuration of the server.
use vstd::prelude::*;
use vstd::string::*;

use crate::paths::{absolute, join_path};
use crate::text::{joined, trim_trailing};

verus! {

/// Everything that can be configured.
#[derive(Debug, Clone)]
pub struct AppConfig {
    pub data_dir: String,
    pub listen: String,
    pub jwt_secret: String,
    pub jwt_expire_hours: i64,
    /// Set to true behind an HTTPS reverse proxy, so that the session cookie is marked `Secure`.
    pub secure_cookie: bool,
    /// The one user, as named in the addresses of repositories and in the pages.
    pub username: String,
    /// The Argon2 hash of the password; empty where there is no password.
    pub password_hash: String,
    /// A static token that is accepted in place of the password; empty where there is none.
    pub access_token: String,
    pub login_rate_window_secs: u64,
    pub login_rate_max_attempts: u32,
    pub webhook_workers: usize,
    pub webhook_timeout_secs: u64,
    pub webhook_max_retries: usize,
    pub webhook_retry_base_delay_ms: u64,
    /// 0 takes the TCP peer for the client; N trusts the Nth entry from the right of
    /// `X-Forwarded-For`.
    pub trusted_proxy_depth: u8,
    /// The largest file that is shown, in MiB.
    pub blob_size_limit_mb: u64,
    /// The largest git pack that is taken, in MiB.
    pub git_pack_limit_mb: u64,
    /// The bearer token for the metrics; empty where they are open to all.
    pub metrics_token: String,
}

/// What the configuration file and the environment say: a value for each setting that they name.
#[derive(Debug, Clone)]
pub struct ConfigValues {
    pub data_dir: Option<String>,
    pub listen: Option<String>,
    pub jwt_secret: Option<String>,
    pub jwt_expire_hours: Option<i64>,
    pub secure_cookie: Option<bool>,
    pub username: Option<String>,
    pub password_hash: Option<String>,
    pub access_token: Option<String>,
    pub login_rate_window_secs: Option<u64>,
    pub login_rate_max_attempts: Option<u32>,
    pub webhook_workers: Option<usize>,
    pub webhook_timeout_secs: Option<u64>,
    pub webhook_max_retries: Option<usize>,
    pub webhook_retry_base_delay_ms: Option<u64>,
    pub trusted_proxy_depth: Option<u8>,
    pub blob_size_limit_mb: Option<u64>,
    pub git_pack_limit_mb: Option<u64>,
    pub metrics_token: Option<String>,
}

/// The text of a setting, or its default where nothing was said.
pub open spec fn text_or(value: Option<String>, default: Seq<char>) -> Seq<char> {
    match value {
        Some(t) => t@,
        None => default,
    }
}

/// The value of a setting, or its default where nothing was said.
pub open spec fn value_or<T>(value: Option<T>, default: T) -> T {
    match value {
        Some(v) => v,
        None => default,
    }
}

pub fn default_data_dir() -> (r: String)
    ensures
        r@ == "/data"@,
{
    "/data".to_owned()
}

pub fn default_listen() -> (r: String)
    ensures
        r@ == "0.0.0.0:3000"@,
{
    "0.0.0.0:3000".to_owned()
}

pub fn default_jwt_secret() -> (r: String)
    ensures
        r@ == "change-me-in-production"@,
{
    "change-me-in-production".to_owned()
}

/// One week.
pub fn default_jwt_expire() -> (r: i64)
    ensures
        r == 24 * 7,
{
    24 * 7
}

pub fn default_username() -> (r: String)
    ensures
        r@ == "git"@,
{
    "git".to_owned()
}

/// A quarter of an hour.
pub fn default_rate_window() -> (r: u64)
    ensures
        r == 15 * 60,
{
    15 * 60
}

pub fn default_rate_max() -> (r: u32)
    ensures
        r == 10,
{
    10
}

pub fn default_wh_workers() -> (r: usize)
    ensures
        r == 8,
{
    8
}

pub fn default_wh_timeout() -> (r: u64)
    ensures
        r == 10,
{
    10
}

pub fn default_wh_retries() -> (r: usize)
    ensures
        r == 5,
{
    5
}

pub fn default_wh_delay() -> (r: u64)
    ensures
        r == 500,
{
    500
}

pub fn default_blob_limit() -> (r: u64)
    ensures
        r == 10,
{
    10
}

pub fn default_git_pack_limit() -> (r: u64)
    ensures
        r == 512,
{
    512
}

/// The text that was given, or the default.
fn given(value: Option<String>, default: String) -> (r: String)
    ensures
        r@ == text_or(value, default@),
{
    match value {
        Some(t) => t,
        None => default,
    }
}

/// The value that was given, or the default.
fn given_value<T>(value: Option<T>, default: T) -> (r: T)
    ensures
        r == value_or(value, default),
{
    match value {
        Some(v) => v,
        None => default,
    }
}

impl AppConfig {
    /// The directory that holds the repositories.
    pub open spec fn root(&self) -> Seq<char> {
        crate::text::without_trailing(self.data_dir@, '/') + "/repos"@
    }

    /// Where a repository path points.
    pub open spec fn git_path(&self, path: Seq<char>) -> Seq<char> {
        if crate::paths::is_absolute(path) {
            path
        } else {
            self.root() + "/"@ + path
        }
    }

    /// The configuration that the given values make, with the default for each setting that was
    /// not given.
    pub fn load(found: ConfigValues) -> (r: Self)
        ensures
            r.data_dir@ == text_or(found.data_dir, "/data"@),
            r.listen@ == text_or(found.listen, "0.0.0.0:3000"@),
            r.jwt_secret@ == text_or(found.jwt_secret, "change-me-in-production"@),
            r.jwt_expire_hours == value_or(found.jwt_expire_hours, 168),
            r.secure_cookie == value_or(found.secure_cookie, false),
            r.username@ == text_or(found.username, "git"@),
            r.password_hash@ == text_or(found.password_hash, Seq::empty()),
            r.access_token@ == text_or(found.access_token, Seq::empty()),
            r.login_rate_window_secs == value_or(found.login_rate_window_secs, 900),
            r.login_rate_max_attempts == value_or(found.login_rate_max_attempts, 10),
            r.webhook_workers == value_or(found.webhook_workers, 8),
            r.webhook_timeout_secs == value_or(found.webhook_timeout_secs, 10),
            r.webhook_max_retries == value_or(found.webhook_max_retries, 5),
            r.webhook_retry_base_delay_ms == value_or(found.webhook_retry_base_delay_ms, 500),
            r.trusted_proxy_depth == value_or(found.trusted_proxy_depth, 0),
            r.blob_size_limit_mb == value_or(found.blob_size_limit_mb, 10),
            r.git_pack_limit_mb == value_or(found.git_pack_limit_mb, 512),
            r.metrics_token@ == text_or(found.metrics_token, Seq::empty()),
    {
        AppConfig {
            data_dir: given(found.data_dir, default_data_dir()),
            listen: given(found.listen, default_listen()),
            jwt_secret: given(found.jwt_secret, default_jwt_secret()),
            jwt_expire_hours: given_value(found.jwt_expire_hours, default_jwt_expire()),
            secure_cookie: given_value(found.secure_cookie, false),
            username: given(found.username, default_username()),
            password_hash: given(found.password_hash, String::new()),
            access_token: given(found.access_token, String::new()),
            login_rate_window_secs: given_value(
                found.login_rate_window_secs,
                default_rate_window(),
            ),
            login_rate_max_attempts: given_value(found.login_rate_max_attempts, default_rate_max()),
            webhook_workers: given_value(found.webhook_workers, default_wh_workers()),
            webhook_timeout_secs: given_value(found.webhook_timeout_secs, default_wh_timeout()),
            webhook_max_retries: given_value(found.webhook_max_retries, default_wh_retries()),
            webhook_retry_base_delay_ms: given_value(
                found.webhook_retry_base_delay_ms,
                default_wh_delay(),
            ),
            trusted_proxy_depth: given_value(found.trusted_proxy_depth, 0),
            blob_size_limit_mb: given_value(found.blob_size_limit_mb, default_blob_limit()),
            git_pack_limit_mb: given_value(found.git_pack_limit_mb, default_git_pack_limit()),
            metrics_token: given(found.metrics_token, String::new()),
        }
    }

    /// The file that holds the database.
    pub fn db_path(&self) -> (r: String)
        ensures
            r@ == crate::text::without_trailing(self.data_dir@, '/') + "/gitom.db"@,
    {
        joined(trim_trailing(self.data_dir.as_str(), '/').as_str(), "/gitom.db")
    }

    /// The directory that holds the repositories.
    pub fn repo_root(&self) -> (r: String)
        ensures
            r@ == self.root(),
    {
        joined(trim_trailing(self.data_dir.as_str(), '/').as_str(), "/repos")
    }

    /// Where a repository path points: an absolute one to itself, another into the directory
    /// that holds the repositories.
    pub fn resolve_git_path(&self, git_path: &str) -> (r: String)
        ensures
            r@ == self.git_path(git_path@),
    {
        if absolute(git_path) {
            git_path.to_owned()
        } else {
            let root = self.repo_root();
            proof {
                self.root_is_a_directory_name();
            }
            join_path(root.as_str(), git_path)
        }
    }

    /// The directory of the repositories has a name, and does not end with a slash.
    pub proof fn root_is_a_directory_name(&self)
        ensures
            self.root().len() > 0,
            self.root().last() == 's',
    {
        reveal_strlit("/repos");
        assert("/repos"@.last() == 's');
        assert(self.root().last() == "/repos"@.last());
    }

    /// A relative repository path resolves to a place under the directory of the repositories.
    pub proof fn relative_path_stays_under_root(&self, path: Seq<char>)
        requires
            !crate::paths::is_absolute(path),
        ensures
            crate::paths::lies_under(self.git_path(path), self.root()),
            crate::paths::steps(self.git_path(path)) == crate::paths::steps(self.root())
                + crate::paths::names(path),
    {
        self.root_is_a_directory_name();
        crate::paths::joined_path_lies_under(self.root(), path);
        crate::paths::steps_of_joined(self.root(), path);
        assert(self.git_path(path) == crate::paths::path_join(self.root(), path));
    }
}

/// A setting has the value that was given for it, and its default only where none was.
pub proof fn given_values_win_over_defaults<T>(
    text: Option<String>,
    default_text: Seq<char>,
    value: Option<T>,
    default: T,
)
    ensures
        text matches Some(t) ==> text_or(text, default_text) == t@,
        text is None ==> text_or(text, default_text) == default_text,
        value matches Some(v) ==> value_or(value, default) == v,
        value is None ==> value_or(value, default) == default,
{
}

impl AppConfig {
    /// The directory of the repositories is `repos` below the data directory, whether that is
    /// written with slashes at its end or not.
    pub proof fn root_is_below_the_data_directory(&self, name: Seq<char>, slashes: nat)
        requires
            name.len() == 0 || name.last() != '/',
            self.data_dir@ == name + Seq::new(slashes, |i: int| '/'),
        ensures
            self.root() == name + "/repos"@,
    {
        let dir = self.data_dir@;
        let bare = crate::text::without_trailing(dir, '/');
        crate::text::only_the_trailing_run_is_taken_off(dir, '/');
        assert(bare == dir.subrange(0, bare.len() as int));
        if bare.len() > name.len() {
            assert(bare.last() == dir[bare.len() - 1]);
        }
        if bare.len() < name.len() {
            assert(dir[name.len() - 1] == name.last());
        }
        assert(bare == name);
    }

    /// A repository path with a slash at its front is where the repository is; any other one is
    /// taken from the directory of the repositories.
    pub proof fn paths_are_taken_from_the_root(&self, path: Seq<char>)
        ensures
            path.len() > 0 && path[0] == '/' ==> self.git_path(path) == path,
            path.len() == 0 || path[0] != '/' ==> self.git_path(path) == self.root() + "/"@ + path,
    {
    }
}

} // verus!
