use gitom::auth::{jwt, password};
use gitom::config::{AppConfig, ConfigValues};
use gitom::db::models::Repository;
use gitom::error::AppError;
use gitom::middleware::auth::Authenticated;
use gitom::rate_limiter::LoginLimiter;
use gitom::routes::git_auth::{
    authenticate_git, judge_credentials, read_credentials, split_credentials, Credentials,
    GitVerdict,
};
use gitom::routes::git_http::{
    asked_service, begin, git_arguments, git_reply, on_auth, on_repo, run_git_command, FoundRepo,
    GitExit, GitRequest, GitStep,
};
use gitom::routes::home::{explore, home, user_profile, Listing};
use gitom::routes::new_repo::{check_form, on_directory, on_stored, plan, NewRepoForm, NewRepoStep};
use gitom::routes::repo::{
    check_owner, managed_repo, mib_to_bytes, page_length, page_number, raw_content_type,
    repo_disk_path, resolve_repo, shown_branch, validate_path_segment,
};
use gitom::server::{asset_path_allowed, health_probe, metrics_allowed, serve_asset, Health};

fn config() -> AppConfig {
    AppConfig::load(ConfigValues {
        data_dir: Some("/srv".to_string()),
        listen: None,
        jwt_secret: Some("0123456789abcdef0123456789abcdef".to_string()),
        jwt_expire_hours: None,
        secure_cookie: None,
        username: Some("ada".to_string()),
        password_hash: None,
        access_token: Some("token-of-ada".to_string()),
        login_rate_window_secs: None,
        login_rate_max_attempts: None,
        webhook_workers: None,
        webhook_timeout_secs: None,
        webhook_max_retries: None,
        webhook_retry_base_delay_ms: None,
        trusted_proxy_depth: None,
        blob_size_limit_mb: None,
        git_pack_limit_mb: Some(1),
        metrics_token: None,
    })
}

fn ada() -> Authenticated {
    Authenticated { username: "ada".to_string() }
}

fn repository(is_private: bool) -> Repository {
    Repository {
        id: 7,
        name: "notes".to_string(),
        description: None,
        is_private,
        default_branch: None,
        git_path: "ada/notes.git".to_string(),
        created_at: String::new(),
        updated_at: String::new(),
    }
}

#[test]
fn private_repository_is_hidden() {
    let c = config();
    assert_eq!(resolve_repo(&c, "ada", Some(repository(false)), None).unwrap().repo.id, 7);
    let view = resolve_repo(&c, "ada", Some(repository(true)), Some(&ada())).unwrap();
    assert_eq!(view.owner_username, "ada");
    assert!(matches!(resolve_repo(&c, "ada", Some(repository(true)), None), Err(AppError::NotFound)));
    assert!(matches!(resolve_repo(&c, "ada", None, None), Err(AppError::NotFound)));
    assert!(matches!(
        resolve_repo(&c, "bob", Some(repository(false)), Some(&ada())),
        Err(AppError::NotFound)
    ));
    assert!(check_owner(&c, "ada").is_ok());
    assert!(matches!(check_owner(&c, "Ada"), Err(AppError::NotFound)));
}

#[test]
fn settings_are_for_the_user() {
    let c = config();
    assert!(managed_repo(&c, "ada", Some(repository(true)), Some(&ada())).is_ok());
    assert!(matches!(
        managed_repo(&c, "ada", Some(repository(false)), None),
        Err(AppError::Unauthorized)
    ));
    assert!(matches!(managed_repo(&c, "ada", Some(repository(true)), None), Err(AppError::NotFound)));
}

fn bad_request(r: Result<(), AppError>) -> String {
    match r {
        Err(AppError::BadRequest(text)) => text,
        other => panic!("{other:?}"),
    }
}

#[test]
fn path_segments_are_checked() {
    let long = "a".repeat(256);
    assert_eq!(bad_request(validate_path_segment("")), "path segment length out of range");
    assert_eq!(bad_request(validate_path_segment(&long)), "path segment length out of range");
    for s in ["..", "a..b", "a/b", "a\\b", "a\0"] {
        assert_eq!(
            bad_request(validate_path_segment(s)),
            "path segment contains illegal characters"
        );
    }
    let fits = "a".repeat(255);
    for s in ["a", ".", ".git", fits.as_str()] {
        assert!(validate_path_segment(s).is_ok());
    }
}

#[test]
fn repositories_lie_under_their_root() {
    let c = config();
    assert_eq!(repo_disk_path(&c, "ada", "notes").unwrap(), "/srv/repos/ada/notes.git");
    assert_eq!(repo_disk_path(&c, "ada", "notes.git").unwrap(), "/srv/repos/ada/notes.git");
    assert!(matches!(repo_disk_path(&c, "..", "notes"), Err(AppError::BadRequest(_))));
    assert!(matches!(repo_disk_path(&c, "ada", "/etc"), Err(AppError::BadRequest(_))));
}

#[test]
fn pages_have_bounds() {
    assert_eq!(page_number(None), 1);
    assert_eq!(page_number(Some(0)), 1);
    assert_eq!(page_number(Some(9)), 9);
    assert_eq!(page_length(None), 30);
    assert_eq!(page_length(Some(0)), 0);
    assert_eq!(page_length(Some(100)), 100);
    assert_eq!(page_length(Some(101)), 100);
}

#[test]
fn shown_branch_is_main_where_none_is_stored() {
    let mut r = repository(false);
    assert_eq!(shown_branch(&r), "main");
    r.default_branch = Some("trunk".to_string());
    assert_eq!(shown_branch(&r), "trunk");
    assert_eq!(mib_to_bytes(10), 10_485_760);
}

#[test]
fn files_are_sent_under_their_media_type() {
    assert_eq!(raw_content_type("img/logo.png"), "image/png");
    assert_eq!(raw_content_type("no-extension"), "application/octet-stream");
    assert_eq!(raw_content_type("dir.png/README"), "application/octet-stream");
    assert_eq!(raw_content_type("LOGO.PNG"), "image/png");
    assert!(raw_content_type("page.html").starts_with("text/html"));
}

fn basic(name: &str, password: &str) -> String {
    // A small base64 encoder, for the header.
    let alphabet: Vec<char> =
        "ABCDEFGHIJKLMNOPQRSTUVWXYZabcdefghijklmnopqrstuvwxyz0123456789+/".chars().collect();
    let bytes = format!("{name}:{password}").into_bytes();
    let mut out = String::from("Basic ");
    for chunk in bytes.chunks(3) {
        let mut n: u32 = 0;
        for i in 0..3 {
            n = n << 8 | *chunk.get(i).unwrap_or(&0) as u32;
        }
        for i in 0..4 {
            if i <= chunk.len() {
                out.push(alphabet[(n >> (18 - 6 * i) & 63) as usize]);
            } else {
                out.push('=');
            }
        }
    }
    out
}

#[test]
fn credentials_are_read_from_the_header() {
    assert!(matches!(read_credentials(None), Credentials::Nothing));
    assert!(matches!(read_credentials(Some("Bearer abc")), Credentials::Bearer(t) if t == "abc"));
    match read_credentials(Some("Basic YWRhOnB3OngK")) {
        Credentials::Basic(name, password) => {
            assert_eq!(name, "ada");
            assert_eq!(password, "pw:x\n");
        }
        other => panic!("{other:?}"),
    }
    assert!(matches!(read_credentials(Some("Basic !!!")), Credentials::Unreadable));
    assert!(matches!(read_credentials(Some("Basic YWRh")), Credentials::Unreadable));
    assert!(matches!(read_credentials(Some("Basic /w==")), Credentials::Unreadable));
    assert!(matches!(read_credentials(Some("Digest x")), Credentials::Nothing));
    assert!(matches!(split_credentials(None), Credentials::Unreadable));
}

#[test]
fn git_clients_are_let_in_by_token_password_or_session() {
    let mut c = config();
    c.password_hash = password::hash("pw of ada").unwrap();
    let (token, _) = jwt::sign(&c.jwt_secret, 1).unwrap();
    let ask = |header: &str, blocked: bool| authenticate_git(Some(header), &c, blocked);
    assert_eq!(ask(&basic("ada", "token-of-ada"), false), GitVerdict::Admit);
    assert_eq!(ask(&basic("ada", "pw of ada"), false), GitVerdict::Admit);
    assert_eq!(ask(&basic("ada", &token), false), GitVerdict::Admit);
    assert_eq!(ask(&format!("Bearer {token}"), false), GitVerdict::Session);
    assert_eq!(ask(&basic("ada", "wrong"), false), GitVerdict::CountFailure);
    assert_eq!(ask(&basic("ada", ""), false), GitVerdict::CountFailure);
    assert_eq!(ask(&basic("bob", "token-of-ada"), false), GitVerdict::CountFailure);
    assert_eq!(ask("Bearer nonsense", false), GitVerdict::Refuse);
    assert_eq!(ask("Basic nonsense!", false), GitVerdict::CountFailure);
    assert_eq!(ask("Basic nonsense!", true), GitVerdict::Refuse);
    assert_eq!(ask("Digest x", false), GitVerdict::Refuse);
    assert_eq!(authenticate_git(None, &c, false), GitVerdict::Refuse);
}

#[test]
fn limit_of_failures_holds_for_git_clients() {
    let c = config();
    let (token, _) = jwt::sign(&c.jwt_secret, 1).unwrap();
    assert_eq!(authenticate_git(Some(&basic("ada", "token-of-ada")), &c, true), GitVerdict::Refuse);
    assert_eq!(authenticate_git(Some(&format!("Bearer {token}")), &c, true), GitVerdict::Session);
}

#[test]
fn unreadable_credentials_count_towards_the_limit() {
    let c = config();
    let mut limiter = LoginLimiter::new(900, 1);
    let verdict = authenticate_git(Some("Basic !!!"), &c, limiter.is_blocked());
    assert_eq!(verdict, GitVerdict::CountFailure);
    assert!(!verdict.is_admitted());
    limiter.record_failure();
    assert!(limiter.is_blocked());
    assert_eq!(authenticate_git(Some("Basic !!!"), &c, limiter.is_blocked()), GitVerdict::Refuse);
}

#[test]
fn verdicts_let_in_or_do_not() {
    let c = config();
    let creds = Credentials::Basic("ada".to_string(), "token-of-ada".to_string());
    assert_eq!(judge_credentials(&creds, &c, false, false), GitVerdict::Admit);
    assert!(GitVerdict::Session.is_admitted());
    assert!(GitVerdict::Admit.is_admitted());
    assert!(!GitVerdict::CountFailure.is_admitted());
    assert!(!GitVerdict::Refuse.is_admitted());
}

fn drive(c: &AppConfig, user: &str, request: &GitRequest, found: Option<FoundRepo>, admits: bool) -> GitStep {
    let mut step = begin(c, user, request);
    loop {
        step = match step {
            GitStep::LookUp { admitted } => on_repo(c, user, "notes", request, admitted, found),
            GitStep::Authenticate { repo_id } => on_auth(c, user, "notes", request, repo_id, admits),
            last => return last,
        };
    }
}

const PUBLIC: Option<FoundRepo> = Some(FoundRepo { id: 7, is_private: false });
const PRIVATE: Option<FoundRepo> = Some(FoundRepo { id: 7, is_private: true });

#[test]
fn anybody_fetches_from_a_public_repository() {
    let c = config();
    for request in [GitRequest::Refs("git-upload-pack".to_string()), GitRequest::Fetch(1_048_576)] {
        match drive(&c, "ada", &request, PUBLIC, false) {
            GitStep::Run { repo_id, path } => {
                assert_eq!(repo_id, 7);
                assert_eq!(path, "/srv/repos/ada/notes.git");
            }
            other => panic!("{other:?}"),
        }
    }
}

#[test]
fn pushes_and_private_fetches_need_credentials() {
    let c = config();
    let push = GitRequest::Push(10);
    let refs = GitRequest::Refs("git-receive-pack".to_string());
    let fetch = GitRequest::Fetch(10);
    for (request, found) in [(&push, PUBLIC), (&refs, PUBLIC), (&fetch, PRIVATE), (&push, PRIVATE)] {
        assert!(matches!(
            drive(&c, "ada", request, found, false),
            GitStep::Fail(AppError::GitUnauthorized)
        ));
        assert!(matches!(drive(&c, "ada", request, found, true), GitStep::Run { repo_id: 7, .. }));
    }
}

#[test]
fn order_of_questions_shows_in_the_answer() {
    let c = config();
    // One who pushes is asked first who they are; one who fetches learns first what there is.
    assert!(matches!(
        drive(&c, "ada", &GitRequest::Push(1), None, false),
        GitStep::Fail(AppError::GitUnauthorized)
    ));
    assert!(matches!(
        drive(&c, "ada", &GitRequest::Refs("git-receive-pack".to_string()), None, false),
        GitStep::Fail(AppError::NotFound)
    ));
    assert!(matches!(
        drive(&c, "ada", &GitRequest::Push(1), None, true),
        GitStep::Fail(AppError::NotFound)
    ));
    assert!(matches!(
        drive(&c, "bob", &GitRequest::Push(1), PUBLIC, true),
        GitStep::Fail(AppError::NotFound)
    ));
}

#[test]
fn refused_push_is_answered_whatever_the_limit() {
    let mut c = config();
    c.git_pack_limit_mb = u64::MAX;
    for found in [None, PUBLIC, PRIVATE] {
        assert!(matches!(
            drive(&c, "ada", &GitRequest::Push(5), found, false),
            GitStep::Fail(AppError::GitUnauthorized)
        ));
    }
    assert!(matches!(
        drive(&c, "ada", &GitRequest::Fetch(5), None, true),
        GitStep::Fail(AppError::NotFound)
    ));
}

#[test]
fn packs_over_the_limit_are_refused() {
    let c = config();
    match drive(&c, "ada", &GitRequest::Push(1_048_577), PUBLIC, true) {
        GitStep::Fail(AppError::BadRequest(text)) => assert_eq!(text, "pack exceeds 1 MiB limit"),
        other => panic!("{other:?}"),
    }
    assert!(matches!(drive(&c, "ada", &GitRequest::Fetch(1_048_577), PUBLIC, true), GitStep::Fail(_)));
}

#[test]
fn git_is_run_with_its_arguments() {
    assert_eq!(asked_service(None), "git-upload-pack");
    assert_eq!(asked_service(Some("git-receive-pack")), "git-receive-pack");
    let refs = GitRequest::Refs("git-upload-pack".to_string());
    assert_eq!(git_arguments(&refs, "/p"), vec!["upload-pack", "--stateless-rpc", "--advertise-refs", "/p"]);
    let odd = GitRequest::Refs("other".to_string());
    assert_eq!(git_arguments(&odd, "/p")[0], "other");
    assert_eq!(git_arguments(&GitRequest::Fetch(0), "/p"), vec!["upload-pack", "--stateless-rpc", "/p"]);
    assert_eq!(git_arguments(&GitRequest::Push(0), "/p"), vec!["receive-pack", "--stateless-rpc", "/p"]);
}

#[test]
fn references_are_announced_with_their_service() {
    let refs = GitRequest::Refs("git-upload-pack".to_string());
    let r = git_reply(&refs, 7, GitExit::Done(b"REFS".to_vec())).unwrap();
    assert_eq!(r.content_type, "application/x-git-upload-pack-advertisement");
    assert_eq!(r.status, 200);
    assert_eq!(r.cache_control, "no-cache");
    assert_eq!(r.body, b"001e# service=git-upload-pack\n0000REFS".to_vec());
    assert_eq!(r.pushed, None);
}

#[test]
fn announced_line_states_its_length() {
    for service in ["git-receive-pack", "x", "caf\u{e9}"] {
        let r = git_reply(&GitRequest::Refs(service.to_string()), 7, GitExit::Done(Vec::new())).unwrap();
        let digits = String::from_utf8(r.body[..4].to_vec()).unwrap();
        let len = usize::from_str_radix(&digits, 16).unwrap();
        assert_eq!(&r.body[len..], b"0000");
    }
}

#[test]
fn packs_are_answered_with_what_git_printed() {
    let r = git_reply(&GitRequest::Fetch(1), 7, GitExit::Done(vec![1, 2])).unwrap();
    assert_eq!(r.content_type, "application/x-git-upload-pack-result");
    assert_eq!(r.body, vec![1, 2]);
    assert_eq!(r.pushed, None);
    let r = git_reply(&GitRequest::Push(1), 7, GitExit::Done(vec![3])).unwrap();
    assert_eq!(r.content_type, "application/x-git-receive-pack-result");
    assert_eq!(r.pushed, Some(7));
    assert!(git_reply(&GitRequest::Push(1), 7, GitExit::TimedOut).is_err());
}

fn internal(exit: GitExit) -> String {
    match run_git_command(exit) {
        Err(AppError::Internal(text)) => text,
        other => panic!("{other:?}"),
    }
}

#[test]
fn failures_of_git_are_logged_in_full() {
    assert_eq!(internal(GitExit::NotStarted("no such file".to_string())), "git spawn failed: no such file");
    assert_eq!(internal(GitExit::NotFed("broken pipe".to_string())), "git stdin write failed: broken pipe");
    assert_eq!(internal(GitExit::NotAwaited("gone".to_string())), "git wait failed: gone");
    assert_eq!(internal(GitExit::TimedOut), "git timed out after 120s");
    assert_eq!(
        internal(GitExit::Failed("exit status: 128".to_string(), b"fatal: \xff".to_vec())),
        "git exited with exit status: 128: fatal: \u{fffd}"
    );
    assert_eq!(run_git_command(GitExit::Done(vec![9])).unwrap(), vec![9]);
}

fn form(name: &str) -> NewRepoForm {
    NewRepoForm {
        name: name.to_string(),
        description: Some(String::new()),
        is_private: Some("on".to_string()),
    }
}

#[test]
fn repository_is_made_where_it_is_looked_for() {
    let c = config();
    assert!(check_form(Some(ada()), &form("notes")).is_ok());
    let p = plan(&c, form("notes"), false).unwrap();
    assert_eq!(p.name, "notes");
    assert_eq!(p.description, None);
    assert!(p.is_private);
    assert_eq!(p.git_path, "ada/notes.git");
    assert_eq!(p.directory, repo_disk_path(&c, "ada", "notes").unwrap());
    assert!(matches!(on_directory(Ok(())), NewRepoStep::Store));
    match on_stored(&c, &p, Ok(())) {
        NewRepoStep::Show(location) => assert_eq!(location, "/ada/notes"),
        other => panic!("{other:?}"),
    }
}

#[test]
fn description_and_privacy_are_taken_from_the_form() {
    let c = config();
    let f = NewRepoForm {
        name: "n".to_string(),
        description: Some("text".to_string()),
        is_private: Some("true".to_string()),
    };
    let p = plan(&c, f, false).unwrap();
    assert_eq!(p.description.as_deref(), Some("text"));
    assert!(!p.is_private);
}

#[test]
fn failed_repository_is_undone() {
    let c = config();
    match on_directory(Err("disk full".to_string())) {
        NewRepoStep::Undo(AppError::Internal(text)) => assert_eq!(text, "disk full"),
        other => panic!("{other:?}"),
    }
    let p = plan(&c, form("notes"), false).unwrap();
    assert!(matches!(
        on_stored(&c, &p, Err("locked".to_string())),
        NewRepoStep::Undo(AppError::Internal(text)) if text == "locked"
    ));
}

#[test]
fn taken_and_invalid_names_are_refused() {
    let c = config();
    assert!(matches!(
        plan(&c, form("notes"), true),
        Err(AppError::BadRequest(text)) if text == "repository name already exists"
    ));
    assert!(matches!(check_form(None, &form("..")), Err(AppError::Unauthorized)));
    assert!(matches!(
        check_form(Some(ada()), &form("..")),
        Err(AppError::BadRequest(text)) if text == "repository name is reserved"
    ));
}

#[test]
fn others_see_lists_of_public_repositories() {
    let c = config();
    assert_eq!(home(Some(&ada())), Listing::All);
    assert_eq!(home(None), Listing::Public { page: 1, per_page: 20 });
    assert_eq!(explore(), Listing::Public { page: 1, per_page: 50 });
    assert_eq!(user_profile(&c, "ada", Some(&ada())).unwrap(), Listing::All);
    assert_eq!(user_profile(&c, "ada", None).unwrap(), Listing::Public { page: 1, per_page: 100 });
}

#[test]
fn reserved_names_and_strangers_have_no_page() {
    let mut c = config();
    assert!(matches!(user_profile(&c, "bob", Some(&ada())), Err(AppError::NotFound)));
    for name in ["user", "assets", "health", "metrics", "-x"] {
        c.username = name.to_string();
        assert!(matches!(user_profile(&c, name, Some(&ada())), Err(AppError::NotFound)));
    }
}

#[test]
fn assets_are_sent_for_a_year() {
    let a = serve_asset("css/style.css", Some(b"body{}".to_vec())).unwrap();
    assert_eq!(a.content_type, "text/css");
    assert_eq!(a.cache_control, "public, max-age=31536000, immutable");
    assert_eq!(a.body, b"body{}".to_vec());
    assert!(serve_asset("css/style.css", None).is_none());
    assert!(serve_asset("../secret", Some(Vec::new())).is_none());
    assert!(serve_asset("/etc/passwd", Some(Vec::new())).is_none());
    assert!(asset_path_allowed("a.b"));
    assert!(!asset_path_allowed("a..b"));
}

#[test]
fn health_is_good_where_everything_works() {
    assert_eq!(health_probe(&config()), "/srv/repos/.health_probe");
    let good = Health { database: true, disk: true };
    assert_eq!((good.http_status(), good.status_word()), (200, "ok".to_string()));
    for bad in [
        Health { database: false, disk: true },
        Health { database: true, disk: false },
        Health { database: false, disk: false },
    ] {
        assert_eq!((bad.http_status(), bad.status_word()), (503, "degraded".to_string()));
    }
}

#[test]
fn counters_are_shown_to_those_with_the_token() {
    let mut c = config();
    assert!(metrics_allowed(&c, None));
    c.metrics_token = "m".to_string();
    assert!(metrics_allowed(&c, Some("Bearer m")));
    assert!(!metrics_allowed(&c, Some("Bearer n")));
    assert!(!metrics_allowed(&c, Some("Basic m")));
    assert!(!metrics_allowed(&c, None));
}
