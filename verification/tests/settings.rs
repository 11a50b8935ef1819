use gitom::config::{AppConfig, ConfigValues};
use gitom::error::{html_escape, AppError};
use gitom::startup::{startup, StartupError};

fn nothing() -> ConfigValues {
    ConfigValues {
        data_dir: None,
        listen: None,
        jwt_secret: None,
        jwt_expire_hours: None,
        secure_cookie: None,
        username: None,
        password_hash: None,
        access_token: None,
        login_rate_window_secs: None,
        login_rate_max_attempts: None,
        webhook_workers: None,
        webhook_timeout_secs: None,
        webhook_max_retries: None,
        webhook_retry_base_delay_ms: None,
        trusted_proxy_depth: None,
        blob_size_limit_mb: None,
        git_pack_limit_mb: None,
        metrics_token: None,
    }
}

#[test]
fn defaults_fill_what_is_not_configured() {
    let c = AppConfig::load(nothing());
    assert_eq!(c.data_dir, "/data");
    assert_eq!(c.listen, "0.0.0.0:3000");
    assert_eq!(c.jwt_secret, "change-me-in-production");
    assert_eq!(c.jwt_expire_hours, 168);
    assert!(!c.secure_cookie);
    assert_eq!(c.username, "git");
    assert_eq!(c.password_hash, "");
    assert_eq!(c.access_token, "");
    assert_eq!(c.login_rate_window_secs, 900);
    assert_eq!(c.login_rate_max_attempts, 10);
    assert_eq!(c.webhook_workers, 8);
    assert_eq!(c.webhook_timeout_secs, 10);
    assert_eq!(c.webhook_max_retries, 5);
    assert_eq!(c.webhook_retry_base_delay_ms, 500);
    assert_eq!(c.trusted_proxy_depth, 0);
    assert_eq!(c.blob_size_limit_mb, 10);
    assert_eq!(c.git_pack_limit_mb, 512);
    assert_eq!(c.metrics_token, "");
}

#[test]
fn configured_values_win_over_defaults() {
    let mut v = nothing();
    v.username = Some("ada".to_string());
    v.jwt_expire_hours = Some(-3);
    v.secure_cookie = Some(true);
    let c = AppConfig::load(v);
    assert_eq!(c.username, "ada");
    assert_eq!(c.jwt_expire_hours, -3);
    assert!(c.secure_cookie);
    assert_eq!(c.webhook_workers, 8);
}

#[test]
fn data_lies_under_the_data_directory() {
    let mut v = nothing();
    v.data_dir = Some("/srv/gitom//".to_string());
    let c = AppConfig::load(v);
    assert_eq!(c.db_path(), "/srv/gitom/gitom.db");
    assert_eq!(c.repo_root(), "/srv/gitom/repos");
    assert_eq!(c.resolve_git_path("git/a.git"), "/srv/gitom/repos/git/a.git");
    assert_eq!(c.resolve_git_path("/elsewhere/a.git"), "/elsewhere/a.git");
}

fn ready() -> AppConfig {
    let mut v = nothing();
    v.jwt_secret = Some("0123456789abcdef0123456789abcdef".to_string());
    AppConfig::load(v)
}

#[test]
fn server_refuses_the_secret_that_everybody_knows() {
    let c = AppConfig::load(nothing());
    let r = startup(c, Some("pw".to_string()), None);
    assert!(matches!(r, Err(StartupError::DefaultJwtSecret)));
}

#[test]
fn server_refuses_an_empty_password() {
    let r = startup(ready(), Some(String::new()), Some("t".to_string()));
    assert!(matches!(r, Err(StartupError::EmptyPassword)));
}

#[test]
fn server_refuses_to_start_without_credentials() {
    assert!(matches!(startup(ready(), None, None), Err(StartupError::NoCredentials)));
    let r = startup(ready(), None, Some(String::new()));
    assert!(matches!(r, Err(StartupError::NoCredentials)));
}

#[test]
fn token_of_the_environment_is_a_credential() {
    let s = startup(ready(), None, Some("a-token-of-the-environment".to_string())).unwrap();
    assert_eq!(s.config.access_token, "a-token-of-the-environment");
    assert_eq!(s.config.password_hash, "");
}

#[test]
fn server_starts_with_the_password_in_its_hashed_form() {
    let s = startup(ready(), Some("hunter2".to_string()), None).unwrap();
    assert!(!s.short_jwt_secret);
    assert!(!s.short_access_token);
    assert_ne!(s.config.password_hash, "hunter2");
    assert!(gitom::auth::password::verify("hunter2", &s.config.password_hash).is_ok());
    assert!(gitom::auth::password::verify("hunter3", &s.config.password_hash).is_err());
}

#[test]
fn server_warns_of_short_secrets() {
    let mut c = ready();
    c.jwt_secret = "short".to_string();
    c.access_token = "configured".to_string();
    let s = startup(c, None, Some("0123456789abcde".to_string())).unwrap();
    assert!(s.short_jwt_secret);
    assert!(s.short_access_token);
    assert_eq!(s.config.access_token, "0123456789abcde");
    let mut c = ready();
    c.access_token = "configured".to_string();
    let s = startup(c, None, Some("0123456789abcdef".to_string())).unwrap();
    assert!(!s.short_access_token);
}

#[test]
fn started_server_has_something_to_log_in_with() {
    let s = startup(ready(), Some("pw".to_string()), Some("tok".to_string())).unwrap();
    assert!(!s.config.password_hash.is_empty() && !s.config.access_token.is_empty());
}

#[test]
fn markup_is_escaped() {
    assert_eq!(html_escape("<a href=\"x\">&'b'</a>"), "&lt;a href=&quot;x&quot;&gt;&amp;&#x27;b&#x27;&lt;/a&gt;");
}

#[test]
fn errors_have_their_status_and_page() {
    let cases: Vec<(AppError, u16, &str)> = vec![
        (AppError::NotFound, 404, "<h2>404</h2><p>not found</p>"),
        (AppError::Unauthorized, 401, "<h2>401</h2><p>login required</p>"),
        (AppError::Forbidden, 403, "<h2>403</h2><p>forbidden</p>"),
        (AppError::BadRequest("x".to_string()), 422, "<h2>422</h2><p>invalid input</p>"),
        (AppError::Internal("x".to_string()), 500, "<h2>500</h2><p>internal server error</p>"),
        (AppError::Db("x".to_string()), 500, "<h2>500</h2><p>database error</p>"),
        (AppError::Git("x".to_string()), 500, "<h2>500</h2><p>git operation failed</p>"),
        (AppError::Template("x".to_string()), 500, "<h2>500</h2><p>template render failed</p>"),
    ];
    for (e, status, body) in cases {
        let r = e.into_response();
        assert_eq!(r.status, status);
        assert_eq!(r.body, body);
        assert!(r.is_html);
        assert_eq!(r.www_authenticate, None);
    }
    let r = AppError::GitUnauthorized.into_response();
    assert_eq!(r.status, 401);
    assert_eq!(r.body, "Unauthorized");
    assert!(!r.is_html);
    assert_eq!(r.www_authenticate.as_deref(), Some("Basic realm=\"Gitom\", charset=\"UTF-8\""));
}

#[test]
fn log_tells_the_cause_and_the_page_does_not() {
    let e = AppError::Internal("disk on fire".to_string());
    assert_eq!(e.message(), "internal error: disk on fire");
    assert!(!e.into_response().body.contains("fire"));
    assert_eq!(AppError::BadRequest("b".to_string()).message(), "bad request: b");
    assert_eq!(AppError::Db("b".to_string()).message(), "database error: b");
    assert_eq!(AppError::Git("b".to_string()).message(), "git error: b");
    assert_eq!(AppError::Template("b".to_string()).message(), "template error: b");
    assert_eq!(AppError::NotFound.message(), "not found");
    assert_eq!(AppError::Unauthorized.message(), "unauthorized");
    assert_eq!(AppError::GitUnauthorized.message(), "authentication required");
    assert_eq!(AppError::Forbidden.message(), "forbidden");
}
