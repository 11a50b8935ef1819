use gitom::auth::jwt::{sign, sign_at, verify, ExpiryOutOfRange, TokenFault, LAST_SECOND};
use gitom::auth::{constant_time_eq, password};
use gitom::config::{AppConfig, ConfigValues};
use gitom::db::queries::{save_login_state, LoginFailureRow};
use gitom::error::AppError;
use gitom::middleware::auth::{admitted, authenticate, extract_bearer_token, Authenticated};
use gitom::rate_limiter::{LoginLimiter, LoginRecord};
use gitom::routes::user::{
    build_cookie, cookie_of_session, login_error, login_post, logout_cookie, open_session,
    require_auth, validate_repo_name, verify_credentials, LoginStep,
};

use gitom::routes::webhooks::hmac_hex;

const SECRET: &str = "0123456789abcdef0123456789abcdef";

fn config() -> AppConfig {
    AppConfig::load(ConfigValues {
        data_dir: None,
        listen: None,
        jwt_secret: Some(SECRET.to_string()),
        jwt_expire_hours: None,
        secure_cookie: None,
        username: None,
        password_hash: None,
        access_token: None,
        login_rate_window_secs: None,
        login_rate_max_attempts: None,
        webhook_workers: None,
        webhook_timeout_secs: None,
        webhook_max_retries: None,
        webhook_retry_base_delay_ms: None,
        trusted_proxy_depth: None,
        blob_size_limit_mb: None,
        git_pack_limit_mb: None,
        metrics_token: None,
    })
}

#[test]
fn equal_bytes_are_equal_in_constant_time() {
    assert!(constant_time_eq(b"", b""));
    assert!(constant_time_eq(b"secret", b"secret"));
    assert!(!constant_time_eq(b"secret", b"secreT"));
    assert!(!constant_time_eq(b"secret", b"secret1"));
    assert!(!constant_time_eq(b"", b"x"));
}

#[test]
fn signed_tokens_are_accepted_until_they_expire() {
    let (token, exp) = sign(SECRET, 1).unwrap();
    let claims = verify(&token, SECRET).unwrap();
    assert_eq!(claims.exp, exp);
    let (old, _) = sign_at(SECRET, 1_000_000_000, 1).unwrap();
    assert_eq!(verify(&old, SECRET).unwrap_err(), TokenFault::Expired);
}

#[test]
fn token_expires_after_its_hours() {
    let (_, exp) = sign_at(SECRET, 1_700_000_000, 168).unwrap();
    assert_eq!(exp, 1_700_000_000 + 604_800);
}

#[test]
fn tokens_are_a_function_of_secret_and_expiry() {
    let a = sign_at(SECRET, 1_700_000_000, 1).unwrap();
    let b = sign_at(SECRET, 1_700_000_000 - 3600, 2).unwrap();
    assert_eq!(a, b);
    let c = sign_at("another secret", 1_700_000_000, 1).unwrap();
    assert_ne!(a.0, c.0);
}

#[test]
fn forged_tokens_are_refused() {
    let (token, _) = sign(SECRET, 1).unwrap();
    assert_eq!(verify(&token, "another secret").unwrap_err(), TokenFault::Invalid);
    assert_eq!(verify("", SECRET).unwrap_err(), TokenFault::Invalid);
    assert_eq!(verify("a.b.c", SECRET).unwrap_err(), TokenFault::Invalid);
    let mut cut = token.clone();
    cut.pop();
    assert_eq!(verify(&cut, SECRET).unwrap_err(), TokenFault::Invalid);
}

#[test]
fn claims_other_than_the_expiry_are_passed_over() {
    let nested = "[".repeat(300) + &"]".repeat(300);
    for extra in [nested.as_str(), "1e999", "{\"a\":\"\u{e9}\"}"] {
        let payload = format!("{{\"extra\":{extra},\"exp\":253402300799}}");
        let token = token_over(&payload);
        assert_eq!(verify(&token, SECRET).unwrap().exp, 253_402_300_799, "{extra}");
    }
    for payload in ["{}", "{\"exp\":\"soon\"}", "{\"exp\":253402300799.5}", "{\"exp\":1,\"exp\":2}"] {
        assert_eq!(verify(&token_over(payload), SECRET).unwrap_err(), TokenFault::Invalid, "{payload}");
    }
}

/// A token over any payload, signed with the secret.
fn token_over(payload: &str) -> String {
    let encode = |bytes: &[u8]| base64::Engine::encode(&base64::engine::general_purpose::URL_SAFE_NO_PAD, bytes);
    let message = format!(
        "{}.{}",
        encode(b"{\"typ\":\"JWT\",\"alg\":\"HS256\"}"),
        encode(payload.as_bytes())
    );
    let code = hmac_hex(SECRET.as_bytes(), message.as_bytes());
    let bytes: Vec<u8> =
        (0..32).map(|i| u8::from_str_radix(&code[2 * i..2 * i + 2], 16).unwrap()).collect();
    format!("{message}.{}", encode(&bytes))
}

#[test]
fn no_token_expires_beyond_the_calendar() {
    assert!(sign_at(SECRET, LAST_SECOND - 3600, 1).is_ok());
    assert_eq!(sign_at(SECRET, LAST_SECOND - 3599, 1).unwrap_err(), ExpiryOutOfRange);
    assert_eq!(sign_at(SECRET, 0, i64::MAX).unwrap_err(), ExpiryOutOfRange);
    assert_eq!(sign_at(SECRET, 0, i64::MIN).unwrap_err(), ExpiryOutOfRange);
}

#[test]
fn passwords_are_accepted_against_their_own_hash() {
    let a = password::hash("correct horse").unwrap();
    let b = password::hash("correct horse").unwrap();
    assert_ne!(a, b);
    assert!(password::verify("correct horse", &a).is_ok());
    assert!(password::verify("correct horse", &b).is_ok());
    assert!(password::verify("battery staple", &a).is_err());
    assert!(password::verify("correct horse", "not a hash").is_err());
    assert!(password::verify("correct horse", "").is_err());
    for lanes in ["16777216", "536870912", "4294967295", "99999999999"] {
        let many = a.replace("p=1$", &format!("p={lanes}$"));
        assert_ne!(many, a);
        assert!(password::verify("correct horse", &many).is_err(), "{lanes}");
    }
}

#[test]
fn token_is_found_in_cookies_before_the_header() {
    assert_eq!(
        extract_bearer_token(Some("a=b; gitom_token=abc ;c=d"), Some("Bearer xyz")),
        Some("abc".to_string())
    );
    assert_eq!(extract_bearer_token(Some("gitom_token="), Some("Bearer xyz")), Some("xyz".to_string()));
    assert_eq!(extract_bearer_token(Some("other=1"), Some("Basic xyz")), None);
    assert_eq!(extract_bearer_token(None, Some("Bearer ")), Some(String::new()));
    assert_eq!(extract_bearer_token(None, None), None);
    assert_eq!(
        extract_bearer_token(Some("gitom_token=; gitom_token=second"), None),
        Some("second".to_string())
    );
}

#[test]
fn request_with_a_session_is_the_users() {
    let c = config();
    let (token, _) = sign(SECRET, 1).unwrap();
    let cookie = format!("gitom_token={token}");
    assert_eq!(authenticate(Some(&cookie), None, &c).unwrap().username, "git");
    let header = format!("Bearer {token}");
    assert_eq!(authenticate(None, Some(&header), &c).unwrap().username, "git");
    assert!(authenticate(None, None, &c).is_none());
    assert!(authenticate(Some("gitom_token=nonsense"), None, &c).is_none());
    assert!(admitted(Err(TokenFault::Expired), &c).is_none());
}

#[test]
fn opened_session_is_recognised() {
    let mut c = config();
    c.secure_cookie = true;
    let set_cookie = open_session(&c).unwrap();
    assert!(set_cookie.ends_with("; Path=/; HttpOnly; SameSite=Strict; Max-Age=604800; Secure"));
    let kept = set_cookie.split(';').next().unwrap().to_string();
    assert_eq!(authenticate(Some(&kept), None, &c).unwrap().username, "git");
}

#[test]
fn ended_session_is_forgotten() {
    let mut c = config();
    assert_eq!(logout_cookie(&c), "gitom_token=; Path=/; HttpOnly; SameSite=Strict; Max-Age=0");
    c.secure_cookie = true;
    let set_cookie = logout_cookie(&c);
    assert_eq!(set_cookie, "gitom_token=; Path=/; HttpOnly; SameSite=Strict; Max-Age=0; Secure");
    let kept = set_cookie.split(';').next().unwrap().to_string();
    assert!(authenticate(Some(&kept), None, &c).is_none());
}

#[test]
fn cookies_live_as_long_as_their_token() {
    assert_eq!(
        build_cookie("t", false, 168),
        "gitom_token=t; Path=/; HttpOnly; SameSite=Strict; Max-Age=604800"
    );
    assert_eq!(
        build_cookie("t", true, -1),
        "gitom_token=t; Path=/; HttpOnly; SameSite=Strict; Max-Age=-3600; Secure"
    );
}

#[test]
fn session_beyond_the_calendar_is_an_internal_error() {
    let c = config();
    let r = cookie_of_session(Err(ExpiryOutOfRange), &c);
    assert!(matches!(r, Err(AppError::Internal(_))));
    let mut c = config();
    c.jwt_expire_hours = i64::MAX;
    assert!(matches!(open_session(&c), Err(AppError::Internal(_))));
}

#[test]
fn credentials_are_those_of_the_configuration() {
    let mut c = config();
    c.access_token = "token-of-the-user".to_string();
    c.password_hash = password::hash("the password").unwrap();
    assert!(verify_credentials("git", "token-of-the-user", &c));
    assert!(verify_credentials("git", "the password", &c));
    assert!(!verify_credentials("git", "the passwort", &c));
    assert!(!verify_credentials("root", "the password", &c));
    assert!(!verify_credentials("git", "", &c));
    let long = "x".repeat(129);
    c.access_token = long.clone();
    assert!(verify_credentials("git", &long, &c));
    assert!(!verify_credentials("git", &"x".repeat(130), &c));
    c.password_hash = password::hash(&"y".repeat(129)).unwrap();
    assert!(!verify_credentials("git", &"y".repeat(129), &c));
    c.password_hash = password::hash(&"y".repeat(128)).unwrap();
    assert!(verify_credentials("git", &"y".repeat(128), &c));
    c.access_token = String::new();
    c.password_hash = String::new();
    assert!(!verify_credentials("git", "anything", &c));
}

#[test]
fn logins_are_refused_counted_or_admitted() {
    let mut c = config();
    c.access_token = "tok".to_string();
    assert_eq!(login_post(true, "git", "tok", &c), LoginStep::Refuse);
    assert_eq!(login_post(false, "git", "tok", &c), LoginStep::Admit);
    assert_eq!(login_post(false, "git", "nope", &c), LoginStep::CountFailure);
    assert_eq!(login_error(true), "invalid username or password");
    assert_eq!(login_error(false), "too many login attempts, please try again later");
}

#[test]
fn auth_is_required() {
    let user = Authenticated { username: "git".to_string() };
    assert_eq!(require_auth(Some(user)).unwrap().username, "git");
    assert!(matches!(require_auth(None), Err(AppError::Unauthorized)));
}

#[test]
fn repository_names_are_checked() {
    let long = "a".repeat(101);
    let cases: Vec<(&str, &str)> = vec![
        ("", "repository name cannot be empty"),
        (&long, "repository name cannot exceed 100 characters"),
        (".git", "repository name is reserved"),
        (".", "repository name is reserved"),
        ("..", "repository name is reserved"),
        ("a..b", "repository name contains illegal characters"),
        ("a/b", "repository name contains illegal characters"),
        ("a\\b", "repository name contains illegal characters"),
        ("a\0b", "repository name contains illegal characters"),
        ("a.git", "repository name cannot end with .git"),
        ("a.", "repository name cannot end with a dot"),
        (".a", "repository name cannot start with a dot"),
        ("a b", "repository name is invalid (letters, digits, underscores, dots, hyphens only)"),
        ("caf\u{e9}", "repository name is invalid (letters, digits, underscores, dots, hyphens only)"),
        ("a\n", "repository name is invalid (letters, digits, underscores, dots, hyphens only)"),
    ];
    for (name, text) in cases {
        assert_eq!(validate_repo_name(name), Err(text.to_string()), "{name:?}");
    }
    let fits = "a".repeat(100);
    for name in ["a", "A-b_c.9", "git", &fits] {
        assert_eq!(validate_repo_name(name), Ok(()));
    }
}

#[test]
fn limit_is_reached_after_so_many_failures() {
    let mut l = LoginLimiter::new_at(900, 3, 1000);
    assert!(!l.is_blocked_at(1000));
    assert!(l.record_failure_at(1001).allowed);
    assert!(l.record_failure_at(1002).allowed);
    let f = l.record_failure_at(1003);
    assert!(!f.allowed);
    assert_eq!(f.record, LoginRecord { count: 3, window_start_unix: 1000 });
    assert_eq!(l.failures(), 3);
    assert!(l.is_blocked_at(1004));
    assert!(l.is_blocked_at(1899));
    assert!(!l.is_blocked_at(1900));
}

#[test]
fn failure_behind_the_window_begins_a_new_one() {
    let mut l = LoginLimiter::new_at(900, 2, 1000);
    l.record_failure_at(1001);
    let f = l.record_failure_at(1900);
    assert!(f.allowed);
    assert_eq!(f.record, LoginRecord { count: 1, window_start_unix: 1900 });
}

#[test]
fn clock_that_goes_back_does_not_end_the_window() {
    let mut l = LoginLimiter::new_at(900, 1, 1000);
    l.record_failure_at(1000);
    assert!(l.is_blocked_at(0));
}

#[test]
fn success_clears_the_counter() {
    let mut l = LoginLimiter::new_at(900, 1, 1000);
    l.record_failure_at(1001);
    assert!(l.is_blocked_at(1002));
    assert_eq!(l.reset_at(1003), LoginRecord { count: 0, window_start_unix: 1003 });
    assert!(!l.is_blocked_at(1004));
}

#[test]
fn limit_of_zero_always_refuses_within_the_window() {
    let l = LoginLimiter::new_at(900, 0, 1000);
    assert!(l.is_blocked_at(1000));
    let l = LoginLimiter::new_at(0, 0, 1000);
    assert!(!l.is_blocked_at(1000));
}

#[test]
fn limiter_runs_by_the_clock() {
    let mut l = LoginLimiter::new(900, 1);
    assert!(!l.is_blocked());
    let f = l.record_failure();
    assert!(!f.allowed);
    assert!(f.record.window_start_unix > 1_600_000_000);
    assert!(l.is_blocked());
    assert_eq!(l.reset().count, 0);
    assert!(!l.is_blocked());
}

#[test]
fn counter_survives_a_restart() {
    let mut l = LoginLimiter::new_at(900, 2, 1_700_000_000);
    l.record_failure_at(1_700_000_001);
    let f = l.record_failure_at(1_700_000_002);
    let row = save_login_state(f.record);
    assert_eq!(row.count, 2);
    assert_eq!(row.window_start, "2023-11-14T22:13:20Z");
    let mut next = LoginLimiter::new_at(900, 2, 1_700_000_100);
    next.load_at(&row, 1_700_000_100);
    assert_eq!(next.failures(), 2);
    assert!(next.is_blocked_at(1_700_000_899));
    assert!(!next.is_blocked_at(1_700_000_900));
}

#[test]
fn unreadable_time_begins_a_window() {
    let row = LoginFailureRow { count: 5, window_start: "yesterday".to_string() };
    let mut l = LoginLimiter::new_at(900, 5, 0);
    l.load_at(&row, 2000);
    assert!(l.is_blocked_at(2899));
    assert!(!l.is_blocked_at(2900));
    let mut l = LoginLimiter::new(900, 5);
    l.load_from_db(&row);
    assert!(l.is_blocked());
}

#[test]
fn time_without_a_stored_form_is_stored_as_nothing() {
    let row = save_login_state(LoginRecord { count: 1, window_start_unix: i64::MAX });
    assert_eq!(row.window_start, "");
    let row = save_login_state(LoginRecord { count: 1, window_start_unix: 253_402_300_799 });
    assert_eq!(row.window_start, "9999-12-31T23:59:59Z");
    let row = save_login_state(LoginRecord { count: 1, window_start_unix: 253_402_300_800 });
    assert_eq!(row.window_start, "");
    let row = save_login_state(LoginRecord { count: 1, window_start_unix: -62_167_219_200 });
    assert_eq!(row.window_start, "0000-01-01T00:00:00Z");
    let row = save_login_state(LoginRecord { count: 1, window_start_unix: -62_167_219_201 });
    assert_eq!(row.window_start, "");
}
