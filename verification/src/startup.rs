//! What is settled before the server takes its first request.
use vstd::prelude::*;
use vstd::string::*;

use crate::auth::password;
use crate::config::AppConfig;
use crate::text::{len_in_bytes, same_text};

verus! {

/// Why the server does not start.
#[derive(Debug, Clone, Copy, PartialEq, Eq)]
pub enum StartupError {
    /// The secret that signs the sessions is the one that everybody knows.
    DefaultJwtSecret,
    /// A password was given, and it is empty.
    EmptyPassword,
    /// The password could not be hashed.
    PasswordHash,
    /// There is neither a password nor an access token.
    NoCredentials,
}

/// A configuration to start with, and what to warn of.
#[derive(Debug)]
pub struct Startup {
    pub config: AppConfig,
    /// The secret has fewer than 32 bytes.
    pub short_jwt_secret: bool,
    /// An access token was given, and it has fewer than 16 bytes.
    pub short_access_token: bool,
}

/// Why the server does not start with this configuration and what the environment gives, if it
/// does not. An access token of the environment can be the only credential.
pub open spec fn startup_fault(
    cfg: AppConfig,
    password: Option<Seq<char>>,
    access_token: Option<Seq<char>>,
) -> Option<StartupError> {
    if cfg.jwt_secret@ == "change-me-in-production"@ {
        Some(StartupError::DefaultJwtSecret)
    } else if password matches Some(p) && p.len() == 0 {
        Some(StartupError::EmptyPassword)
    } else if password matches Some(p) && crate::text::byte_len(p) > password::MAX_HASHED_LEN {
        Some(StartupError::PasswordHash)
    } else if password is None && cfg.password_hash@.len() == 0 && cfg.access_token@.len() == 0
        && !(access_token matches Some(t) && t.len() > 0) {
        Some(StartupError::NoCredentials)
    } else {
        None
    }
}

/// What the server starts with: the password in its hashed form in place of the configured hash,
/// the given access token in place of the configured one, and nothing else changed.
pub open spec fn starts_with(
    cfg: AppConfig,
    password: Option<Seq<char>>,
    access_token: Option<Seq<char>>,
    s: Startup,
) -> bool {
    &&& s.config == (AppConfig {
        password_hash: s.config.password_hash,
        access_token: s.config.access_token,
        ..cfg
    })
    &&& match password {
        Some(p) => s.config.password_hash@.len() > 0 && password::is_accepted(
            p,
            s.config.password_hash@,
        ),
        None => s.config.password_hash@ == cfg.password_hash@,
    }
    &&& s.config.access_token@ == (match access_token {
        Some(t) => t,
        None => cfg.access_token@,
    })
    &&& s.short_jwt_secret == (crate::text::byte_len(cfg.jwt_secret@) < 32)
    &&& s.short_access_token == (access_token matches Some(t) && crate::text::byte_len(t) < 16)
}

/// Checks the configuration and takes in the password and the access token of the environment.
pub fn startup(cfg: AppConfig, password: Option<String>, access_token: Option<String>) -> (r: Result<
    Startup,
    StartupError,
>)
    ensures
        match r {
            Ok(s) => startup_fault(
                cfg,
                crate::text::opt_view(password),
                crate::text::opt_view(access_token),
            ) is None && starts_with(
                cfg,
                crate::text::opt_view(password),
                crate::text::opt_view(access_token),
                s,
            ),
            Err(e) => startup_fault(
                cfg,
                crate::text::opt_view(password),
                crate::text::opt_view(access_token),
            ) == Some(e),
        },
{
    if same_text(cfg.jwt_secret.as_str(), "change-me-in-production") {
        return Err(StartupError::DefaultJwtSecret);
    }
    let short_jwt_secret = len_in_bytes(cfg.jwt_secret.as_str()) < 32;
    let mut config = cfg;
    if let Some(p) = &password {
        if p.as_str().is_empty() {
            return Err(StartupError::EmptyPassword);
        }
        match password::hash(p.as_str()) {
            Ok(h) => {
                config.password_hash = h;
            },
            Err(_) => {
                return Err(StartupError::PasswordHash);
            },
        }
    }
    let token_given = match &access_token {
        Some(t) => !t.as_str().is_empty(),
        None => false,
    };
    if config.password_hash.as_str().is_empty() && config.access_token.as_str().is_empty()
        && !token_given {
        return Err(StartupError::NoCredentials);
    }
    let mut short_access_token = false;
    if let Some(t) = access_token {
        short_access_token = len_in_bytes(t.as_str()) < 16;
        config.access_token = t;
    }
    Ok(Startup { config, short_jwt_secret, short_access_token })
}

/// A server that starts has something to log in with, unless the environment gives an empty
/// access token.
pub proof fn started_server_has_credentials(
    cfg: AppConfig,
    password: Option<Seq<char>>,
    access_token: Option<Seq<char>>,
    s: Startup,
)
    requires
        startup_fault(cfg, password, access_token) is None,
        starts_with(cfg, password, access_token, s),
        access_token matches Some(t) ==> t.len() > 0,
    ensures
        s.config.password_hash@.len() > 0 || s.config.access_token@.len() > 0,
{
}

/// The server starts exactly where its secret is not the one that everybody knows, a password that
/// the environment gives is neither empty nor too long to be hashed, and there is a password, a
/// hash or an access token.
pub proof fn server_starts_with_a_secret_and_a_credential(
    cfg: AppConfig,
    password: Option<Seq<char>>,
    access_token: Option<Seq<char>>,
)
    ensures
        startup_fault(cfg, password, access_token) is None <==> {
            &&& cfg.jwt_secret@ != "change-me-in-production"@
            &&& password matches Some(p) ==> 0 < p.len() && crate::text::byte_len(p) <= 0xffff_ffff
            &&& {
                ||| password is Some
                ||| cfg.password_hash@.len() > 0
                ||| cfg.access_token@.len() > 0
                ||| access_token matches Some(t) && t.len() > 0
            }
        },
        cfg.jwt_secret@ == "change-me-in-production"@ ==> startup_fault(cfg, password, access_token)
            == Some(StartupError::DefaultJwtSecret),
        cfg.jwt_secret@ != "change-me-in-production"@ && (password matches Some(p) && p.len() == 0)
            ==> startup_fault(cfg, password, access_token) == Some(StartupError::EmptyPassword),
{
}

/// What the environment gives replaces what is configured, and where it gives nothing the
/// configured hash and token stay; everything else stays in any case. Short secrets are warned of:
/// below 32 bytes for the one that signs sessions, below 16 for an access token of the environment.
pub proof fn environment_replaces_only_credentials(
    cfg: AppConfig,
    password: Option<Seq<char>>,
    access_token: Option<Seq<char>>,
    s: Startup,
)
    requires
        starts_with(cfg, password, access_token, s),
    ensures
        s.config.data_dir == cfg.data_dir,
        s.config.listen == cfg.listen,
        s.config.jwt_secret == cfg.jwt_secret,
        s.config.jwt_expire_hours == cfg.jwt_expire_hours,
        s.config.secure_cookie == cfg.secure_cookie,
        s.config.username == cfg.username,
        s.config.login_rate_window_secs == cfg.login_rate_window_secs,
        s.config.login_rate_max_attempts == cfg.login_rate_max_attempts,
        s.config.webhook_workers == cfg.webhook_workers,
        s.config.webhook_timeout_secs == cfg.webhook_timeout_secs,
        s.config.webhook_max_retries == cfg.webhook_max_retries,
        s.config.webhook_retry_base_delay_ms == cfg.webhook_retry_base_delay_ms,
        s.config.trusted_proxy_depth == cfg.trusted_proxy_depth,
        s.config.blob_size_limit_mb == cfg.blob_size_limit_mb,
        s.config.git_pack_limit_mb == cfg.git_pack_limit_mb,
        s.config.metrics_token == cfg.metrics_token,
        password is None ==> s.config.password_hash@ == cfg.password_hash@,
        password matches Some(p) ==> password::is_accepted(p, s.config.password_hash@),
        access_token is None ==> s.config.access_token@ == cfg.access_token@,
        access_token matches Some(t) ==> s.config.access_token@ == t,
        s.short_jwt_secret <==> crate::text::byte_len(cfg.jwt_secret@) < 32,
        access_token is None ==> !s.short_access_token,
        access_token matches Some(t) ==> (s.short_access_token <==> crate::text::byte_len(t) < 16),
{
}

} // verus!
