//! Logging in and out, and making repositories.
use vstd::prelude::*;
use vstd::string::*;

use crate::auth::{constant_time_eq, jwt, password};
use crate::config::AppConfig;
use crate::error::AppError;
use crate::middleware::auth::Authenticated;
use crate::numerals::decimal_i64;
use crate::text::{
    begins_with, contains_char, contains_text, finishes_with, len_in_bytes, same_text,
};

verus! {

/// The longest password that is held against the hash, in bytes.
pub const PASSWORD_MAX_LEN: usize = 128;

/// The pattern for the names of repositories.
pub const REPONAME_PATTERN: &'static str = "^[a-zA-Z0-9_.\\-]{1,100}$";

/// Whether a character may stand in the name of a repository.
pub open spec fn is_name_char(c: char) -> bool {
    'a' <= c <= 'z' || 'A' <= c <= 'Z' || '0' <= c <= '9' || c == '_' || c == '.' || c == '-'
}

/// Whether a text is made of one to a hundred characters that may stand in a name.
pub open spec fn is_name_text(s: Seq<char>) -> bool {
    1 <= s.len() <= 100 && forall|i: int| 0 <= i < s.len() ==> is_name_char(#[trigger] s[i])
}

/// Whether a regular expression matches a text; `None` where it is not a regular expression.
pub uninterp spec fn regex_match(pattern: Seq<char>, text: Seq<char>) -> Option<bool>;

/// `regex::Regex::new` and `is_match`. The answer depends on the pattern and the text alone. The
/// pattern for names is a regular expression, and anchored at both ends, so it matches exactly
/// the texts made of one to a hundred characters of its class.
#[verifier::external_body]
fn regex_is_match(pattern: &str, text: &str) -> (r: Option<bool>)
    ensures
        r == regex_match(pattern@, text@),
        pattern@ == "^[a-zA-Z0-9_.\\-]{1,100}$"@ ==> r == Some(is_name_text(text@)),
{
    regex::Regex::new(pattern).ok().map(|re| re.is_match(text))
}

/// Why a text is not accepted as the name of a repository, if it is not.
pub open spec fn repo_name_fault(name: Seq<char>) -> Option<Seq<char>> {
    if name.len() == 0 {
        Some("repository name cannot be empty"@)
    } else if crate::text::byte_len(name) > 100 {
        Some("repository name cannot exceed 100 characters"@)
    } else if name == ".git"@ || name == "."@ || name == ".."@ {
        Some("repository name is reserved"@)
    } else if crate::text::has_infix(name, ".."@) || name.contains('/') || name.contains('\\')
        || name.contains('\0') {
        Some("repository name contains illegal characters"@)
    } else if ".git"@.is_suffix_of(name) {
        Some("repository name cannot end with .git"@)
    } else if name.last() == '.' {
        Some("repository name cannot end with a dot"@)
    } else if name[0] == '.' {
        Some("repository name cannot start with a dot"@)
    } else if !is_name_text(name) {
        Some(
            "repository name is invalid (letters, digits, underscores, dots, hyphens only)"@,
        )
    } else {
        None
    }
}

/// A dot at the end or at the front, as a text of one character.
proof fn dot_at_the_ends(name: Seq<char>)
    requires
        name.len() > 0,
    ensures
        "."@.is_suffix_of(name) <==> name.last() == '.',
        "."@.is_prefix_of(name) <==> name[0] == '.',
{
    reveal_strlit(".");
    assert("."@ == seq!['.']);
    let back = name.subrange(name.len() - 1, name.len() as int);
    let front = name.subrange(0, 1);
    assert(back[0] == name.last());
    assert(front[0] == name[0]);
    if name.last() == '.' {
        assert(back == "."@);
    }
    if name[0] == '.' {
        assert(front == "."@);
    }
}

/// Checks that a text can be the name of a repository.
pub fn validate_repo_name(name: &str) -> (r: Result<(), String>)
    ensures
        match repo_name_fault(name@) {
            None => r is Ok,
            Some(text) => r matches Err(e) && e@ == text,
        },
{
    if name.is_empty() {
        return Err("repository name cannot be empty".to_owned());
    }
    if len_in_bytes(name) > 100 {
        return Err("repository name cannot exceed 100 characters".to_owned());
    }
    if same_text(name, ".git") || same_text(name, ".") || same_text(name, "..") {
        return Err("repository name is reserved".to_owned());
    }
    if contains_text(name, "..") || contains_char(name, '/') || contains_char(name, '\\')
        || contains_char(name, '\0') {
        return Err("repository name contains illegal characters".to_owned());
    }
    if finishes_with(name, ".git") {
        return Err("repository name cannot end with .git".to_owned());
    }
    proof {
        dot_at_the_ends(name@);
    }
    if finishes_with(name, ".") {
        return Err("repository name cannot end with a dot".to_owned());
    }
    if begins_with(name, ".") {
        return Err("repository name cannot start with a dot".to_owned());
    }
    match regex_is_match(REPONAME_PATTERN, name) {
        Some(true) => Ok(()),
        _ => Err(
            "repository name is invalid (letters, digits, underscores, dots, hyphens only)".to_owned(),
        ),
    }
}

/// The user behind a request, where there has to be one.
pub fn require_auth(auth: Option<Authenticated>) -> (r: Result<Authenticated, AppError>)
    ensures
        match auth {
            Some(user) => r == Ok::<Authenticated, AppError>(user),
            None => r == Err::<Authenticated, AppError>(AppError::Unauthorized),
        },
{
    match auth {
        Some(user) => Ok(user),
        None => Err(AppError::Unauthorized),
    }
}

/// The mark that keeps a cookie off plain connections, where it is wanted.
pub open spec fn secure_mark(secure: bool) -> Seq<char> {
    if secure {
        "; Secure"@
    } else {
        Seq::empty()
    }
}

/// The cookie that opens a session.
pub open spec fn login_cookie(token: Seq<char>, secure: bool, expire_hours: int) -> Seq<char> {
    "gitom_token="@ + token + "; Path=/; HttpOnly; SameSite=Strict; Max-Age="@
        + crate::numerals::signed_decimal(expire_hours * 3600) + secure_mark(secure)
}

/// The cookie that opens a session; it lives as long as the token in it.
pub fn build_cookie(token: &str, secure: bool, expire_hours: i64) -> (r: String)
    requires
        i64::MIN <= expire_hours * 3600 <= i64::MAX,
    ensures
        r@ == login_cookie(token@, secure, expire_hours as int),
{
    let max_age: i64 = expire_hours * 3600;
    let mut s = "gitom_token=".to_owned();
    s.append(token);
    s.append("; Path=/; HttpOnly; SameSite=Strict; Max-Age=");
    s.append(decimal_i64(max_age).as_str());
    if secure {
        s.append("; Secure");
    }
    s
}

/// The cookie that ends a session.
pub fn logout_cookie(config: &AppConfig) -> (r: String)
    ensures
        r@ == "gitom_token=; Path=/; HttpOnly; SameSite=Strict; Max-Age=0"@ + secure_mark(
            config.secure_cookie,
        ),
{
    let mut cookie = "gitom_token=; Path=/; HttpOnly; SameSite=Strict; Max-Age=0".to_owned();
    if config.secure_cookie {
        cookie.append("; Secure");
    }
    cookie
}

/// Whether a name and a password are those of the user: the password is the access token, however
/// long that is, or the one behind the hash, where these are set. No text over the longest
/// password is held against the hash.
pub open spec fn are_credentials(
    username: Seq<char>,
    password: Seq<char>,
    config: AppConfig,
) -> bool {
    &&& password.len() > 0
    &&& username == config.username@
    &&& is_access_token(password, config) || (crate::text::byte_len(password) <= PASSWORD_MAX_LEN
        && is_password(password, config))
}

/// Whether a text is the access token.
pub open spec fn is_access_token(text: Seq<char>, config: AppConfig) -> bool {
    config.access_token@.len() > 0 && text == config.access_token@
}

/// Whether a text is the password.
pub open spec fn is_password(text: Seq<char>, config: AppConfig) -> bool {
    config.password_hash@.len() > 0 && password::is_accepted(text, config.password_hash@)
}

/// Whether a text is the access token.
pub(crate) fn access_token_matches(text: &str, config: &AppConfig) -> (r: bool)
    ensures
        r == is_access_token(text@, *config),
{
    if config.access_token.as_str().is_empty() {
        return false;
    }
    proof {
        vstd::utf8::encode_utf8_decode_utf8(text@);
        vstd::utf8::encode_utf8_decode_utf8(config.access_token@);
    }
    constant_time_eq(text.as_bytes(), config.access_token.as_str().as_bytes())
}

/// Whether a text is the password.
pub(crate) fn password_matches(text: &str, config: &AppConfig) -> (r: bool)
    ensures
        r == is_password(text@, *config),
{
    !config.password_hash.as_str().is_empty() && password::verify(
        text,
        config.password_hash.as_str(),
    ).is_ok()
}

/// Checks a name and a password against the configuration.
pub fn verify_credentials(username: &str, password: &str, config: &AppConfig) -> (r: bool)
    ensures
        r == are_credentials(username@, password@, *config),
{
    if password.is_empty() {
        return false;
    }
    if !same_text(username, config.username.as_str()) {
        return false;
    }
    if access_token_matches(password, config) {
        return true;
    }
    len_in_bytes(password) <= PASSWORD_MAX_LEN && password_matches(password, config)
}

/// What follows an attempt to log in.
#[derive(Debug, Clone, Copy, PartialEq, Eq)]
pub enum LoginStep {
    /// There were too many failures; this one is not even looked at.
    Refuse,
    /// It failed, and is to be counted.
    CountFailure,
    /// It succeeded: the counter is to be cleared and a session opened.
    Admit,
}

/// What follows an attempt to log in, where the limit may have been reached.
pub fn login_post(blocked: bool, username: &str, password: &str, config: &AppConfig) -> (r:
    LoginStep)
    ensures
        blocked ==> r == LoginStep::Refuse,
        !blocked && are_credentials(username@, password@, *config) ==> r == LoginStep::Admit,
        !blocked && !are_credentials(username@, password@, *config) ==> r
            == LoginStep::CountFailure,
{
    if blocked {
        return LoginStep::Refuse;
    }
    if verify_credentials(username, password, config) {
        LoginStep::Admit
    } else {
        LoginStep::CountFailure
    }
}

/// What the login page says to one who is not let in: whether the limit has been reached, and
/// nothing of what was wrong.
pub fn login_error(allowed: bool) -> (r: String)
    ensures
        r@ == (if allowed {
            "invalid username or password"@
        } else {
            "too many login attempts, please try again later"@
        }),
{
    if allowed {
        "invalid username or password".to_owned()
    } else {
        "too many login attempts, please try again later".to_owned()
    }
}

/// The cookie of a session that was opened with this token.
pub fn cookie_of_session(
    signed: Result<(String, i64), jwt::ExpiryOutOfRange>,
    config: &AppConfig,
) -> (r: Result<String, AppError>)
    requires
        signed is Ok ==> i64::MIN <= config.jwt_expire_hours * 3600 <= i64::MAX,
    ensures
        match signed {
            Ok((token, _)) => r matches Ok(cookie) && cookie@ == login_cookie(
                token@,
                config.secure_cookie,
                config.jwt_expire_hours as int,
            ),
            Err(_) => r matches Err(e) && e@ == crate::error::Fault::Internal(
                "session expiry out of range"@,
            ),
        },
{
    match signed {
        Ok((token, _)) => Ok(
            build_cookie(token.as_str(), config.secure_cookie, config.jwt_expire_hours),
        ),
        Err(_) => Err(AppError::Internal("session expiry out of range".to_owned())),
    }
}

/// What comes of a session that is opened at `now`: a cookie with a token that the secret signs
/// and that expires after the configured hours, where that time has a date.
pub open spec fn session_at(config: AppConfig, now: int, r: Result<String, AppError>) -> bool {
    let exp = jwt::expiry(now, config.jwt_expire_hours as int);
    let token = jwt::jwt_token(config.jwt_secret@, exp as i64);
    if jwt::has_date(exp) {
        &&& r matches Ok(cookie)
        &&& cookie@ == login_cookie(token, config.secure_cookie, config.jwt_expire_hours as int)
        &&& jwt::is_token_text(token)
        &&& exp >= 0 ==> jwt::jwt_standing(token, config.jwt_secret@) == jwt::Standing::Good(
            exp as i64,
        )
    } else {
        r matches Err(e) && e@ == crate::error::Fault::Internal("session expiry out of range"@)
    }
}

/// Opens a session: the cookie with a fresh token.
pub fn open_session(config: &AppConfig) -> (r: Result<String, AppError>)
    ensures
        exists|now: int|
            jwt::has_date(now) && crate::clock::was_read(now) && #[trigger] session_at(
                *config,
                now,
                r,
            ),
{
    let signed = jwt::sign(config.jwt_secret.as_str(), config.jwt_expire_hours);
    let ghost now = choose|now: int|
        jwt::has_date(now) && crate::clock::was_read(now) && #[trigger] jwt::signed_at(
            config.jwt_secret@,
            now,
            config.jwt_expire_hours as int,
            signed,
        );
    let r = cookie_of_session(signed, config);
    assert(session_at(*config, now, r));
    r
}

/// What a browser keeps of a cookie that it is given, and sends back with each request.
pub open spec fn kept_of(cookie: Seq<char>) -> Seq<char> {
    crate::text::split_on(cookie, ';')[0]
}

proof fn kept_up_to_the_first_semicolon(front: Seq<char>, back: Seq<char>)
    requires
        !front.contains(';'),
    ensures
        kept_of(front + seq![';'] + back) == front,
{
    crate::text::split_of_joined(front, ';', back);
    crate::text::first_index_bounds(front, ';');
    assert(crate::text::split_on(front, ';') == seq![front]);
    assert((seq![front] + crate::text::split_on(back, ';'))[0] == front);
}

/// A session that was opened is recognised: a request with its cookie carries the token that was
/// signed, and that token is accepted, with the expiry that was signed, until it expires.
pub proof fn open_session_is_recognised(
    config: AppConfig,
    now: int,
    opened: Result<String, AppError>,
    authorization: Option<Seq<char>>,
)
    requires
        session_at(config, now, opened),
        opened is Ok,
        jwt::expiry(now, config.jwt_expire_hours as int) >= 0,
    ensures
        ({
            let carried = crate::middleware::auth::request_token(
                Some(kept_of(opened->Ok_0@)),
                authorization,
            );
            &&& carried is Some
            &&& jwt::jwt_standing(carried->0, config.jwt_secret@) == jwt::Standing::Good(
                jwt::expiry(now, config.jwt_expire_hours as int) as i64,
            )
        }),
{
    let exp = jwt::expiry(now, config.jwt_expire_hours as int);
    let token = jwt::jwt_token(config.jwt_secret@, exp as i64);
    let hours = config.jwt_expire_hours as int;
    let cookie = login_cookie(token, config.secure_cookie, hours);
    let front = crate::middleware::auth::session_cookie(token);
    reveal_strlit("gitom_token=");
    reveal_strlit("; Path=/; HttpOnly; SameSite=Strict; Max-Age=");
    reveal_strlit("");
    let attributes = "; Path=/; HttpOnly; SameSite=Strict; Max-Age="@;
    let back = attributes.skip(1) + crate::numerals::signed_decimal(hours * 3600) + secure_mark(
        config.secure_cookie,
    );
    assert(attributes[0] == ';');
    assert(cookie == front + seq![';'] + back);
    assert(!token.contains(';')) by {
        if token.contains(';') {
            let i = token.index_of(';');
            assert(token[i] == ';');
        }
    }
    assert(!front.contains(';')) by {
        assert forall|i: int| 0 <= i < front.len() implies front[i] != ';' by {
            if i >= "gitom_token="@.len() {
                assert(front[i] == token[i - "gitom_token="@.len()]);
                assert(token.contains(front[i]));
            }
        }
    }
    kept_up_to_the_first_semicolon(front, back);
    assert(!crate::text::is_white_space(token.last()));
    assert(crate::middleware::auth::cookie_token(Seq::empty()) is None) by {
        no_token_in_nothing();
    }
    crate::middleware::auth::session_cookie_is_read_back(Seq::empty(), token, authorization);
}

proof fn no_token_in_nothing()
    ensures
        crate::middleware::auth::cookie_token(Seq::empty()) is None,
{
    reveal_strlit("gitom_token=");
    reveal_with_fuel(crate::middleware::auth::first_token, 2);
    let none = Seq::<char>::empty();
    assert(crate::text::split_on(none, ';') == seq![none]);
    assert(seq![none].drop_first() == Seq::<Seq<char>>::empty());
    assert(crate::text::trimmed(none) == none);
}

/// A session that was ended is not recognised: a request with the cookie that ends it carries no
/// token but one in its `Authorization` header.
pub proof fn ended_session_is_forgotten(secure: bool)
    ensures
        crate::middleware::auth::request_token(
            Some(
                kept_of(
                    "gitom_token=; Path=/; HttpOnly; SameSite=Strict; Max-Age=0"@ + secure_mark(
                        secure,
                    ),
                ),
            ),
            None,
        ) is None,
{
    reveal_strlit("gitom_token=");
    reveal_strlit("gitom_token=; Path=/; HttpOnly; SameSite=Strict; Max-Age=0");
    reveal_with_fuel(crate::middleware::auth::first_token, 2);
    let whole = "gitom_token=; Path=/; HttpOnly; SameSite=Strict; Max-Age=0"@;
    let front = "gitom_token="@;
    let back = whole.skip(13) + secure_mark(secure);
    assert(whole + secure_mark(secure) == front + seq![';'] + back);
    assert(!front.contains(';'));
    kept_up_to_the_first_semicolon(front, back);
    crate::text::first_index_bounds(front, ';');
    assert(crate::text::split_on(front, ';') == seq![front]);
    assert(seq![front][0] == front);
    assert(seq![front].drop_first() == Seq::<Seq<char>>::empty());
    assert(crate::text::trimmed(front) == front);
    assert(front.skip(front.len() as int) == Seq::<char>::empty());
}

/// A name is accepted for a repository exactly where it has one to a hundred characters, all of
/// them letters, digits, underscores, dots and hyphens, no two dots next to each other, no dot at
/// either end, and does not end with `.git`.
pub proof fn repository_names_are_plain(name: Seq<char>)
    ensures
        repo_name_fault(name) is None <==> {
            &&& 1 <= name.len() <= 100
            &&& forall|i: int|
                0 <= i < name.len() ==> {
                    let c = #[trigger] name[i] as int;
                    97 <= c <= 122 || 65 <= c <= 90 || 48 <= c <= 57 || c == 95 || c == 46 || c
                        == 45
                }
            &&& forall|i: int|
                0 <= i < name.len() - 1 ==> !(#[trigger] name[i] == '.' && name[i + 1] == '.')
            &&& name[0] != '.'
            &&& name.last() != '.'
            &&& !".git"@.is_suffix_of(name)
        },
{
    reveal_strlit("..");
    reveal_strlit(".");
    reveal_strlit(".git");
    crate::text::part_is_found_where_it_stands(name, ".."@);
    if crate::text::has_infix(name, ".."@) {
        let (before, behind) = choose|before: Seq<char>, behind: Seq<char>|
            name == #[trigger] (before + ".."@ + behind);
        let i = before.len() as int;
        assert(name[i] == ".."@[0]);
        assert(name[i + 1] == ".."@[1]);
    }
    if exists|i: int| 0 <= i < name.len() - 1 && #[trigger] name[i] == '.' && name[i + 1] == '.' {
        let i = choose|i: int|
            0 <= i < name.len() - 1 && #[trigger] name[i] == '.' && name[i + 1] == '.';
        assert(name == name.take(i) + ".."@ + name.skip(i + 2));
    }
    if is_name_text(name) {
        assert forall|i: int| 0 <= i < name.len() implies '\0' <= #[trigger] name[i]
            <= '\u{7f}' by {
            assert(is_name_char(name[i]));
        }
        vstd::utf8::is_ascii_chars_encode_utf8(name);
        assert(!name.contains('/') && !name.contains('\\') && !name.contains('\0')) by {
            if name.contains('/') || name.contains('\\') || name.contains('\0') {
                let i = choose|i: int|
                    0 <= i < name.len() && (name[i] == '/' || name[i] == '\\' || #[trigger] name[i]
                        == '\0');
                assert(is_name_char(name[i]));
            }
        }
        assert(name != ".git"@ && name != "."@ && name != ".."@ || name[0] == '.');
    }
    if 1 <= name.len() <= 100 && (forall|i: int|
        0 <= i < name.len() ==> {
            let c = #[trigger] name[i] as int;
            97 <= c <= 122 || 65 <= c <= 90 || 48 <= c <= 57 || c == 95 || c == 46 || c == 45
        }) {
        assert forall|i: int| 0 <= i < name.len() implies is_name_char(#[trigger] name[i]) by {}
        assert(is_name_text(name));
    }
}

/// What is wrong with a name is told by the first thing that is: that it is empty, too long,
/// reserved, or has an illegal part, then how it ends and begins, and last what it is made of.
pub proof fn first_fault_of_a_name_is_told(name: Seq<char>)
    ensures
        name.len() == 0 ==> repo_name_fault(name) == Some("repository name cannot be empty"@),
        name.len() > 0 && crate::text::byte_len(name) > 100 ==> repo_name_fault(name) == Some(
            "repository name cannot exceed 100 characters"@,
        ),
        0 < name.len() && crate::text::byte_len(name) <= 100 ==> {
            &&& name == ".git"@ || name == "."@ || name == ".."@ ==> repo_name_fault(name) == Some(
                "repository name is reserved"@,
            )
            &&& name != ".git"@ && name != "."@ && name != ".."@ ==> {
                &&& name.contains('/') || name.contains('\\') || name.contains('\0')
                    || crate::text::has_infix(name, ".."@) ==> repo_name_fault(name) == Some(
                    "repository name contains illegal characters"@,
                )
                &&& !name.contains('/') && !name.contains('\\') && !name.contains('\0')
                    && !crate::text::has_infix(name, ".."@) ==> {
                    &&& ".git"@.is_suffix_of(name) ==> repo_name_fault(name) == Some(
                        "repository name cannot end with .git"@,
                    )
                    &&& !".git"@.is_suffix_of(name) && name.last() == '.' ==> repo_name_fault(name)
                        == Some("repository name cannot end with a dot"@)
                    &&& !".git"@.is_suffix_of(name) && name.last() != '.' && name[0] == '.'
                        ==> repo_name_fault(name) == Some(
                        "repository name cannot start with a dot"@,
                    )
                }
            }
        },
{
}

/// The session cookie holds the token, is sent for every path, kept from scripts and from requests
/// of other sites, lives for 3600 seconds for each hour, and is kept off plain connections exactly
/// where that is wanted.
pub proof fn cookie_lives_as_long_as_its_token(token: Seq<char>, hours: nat) -> (seconds: Seq<char>)
    ensures
        crate::numerals::value_of(seconds, 10) == 3600 * hours,
        login_cookie(token, false, hours as int) == "gitom_token="@ + token
            + "; Path=/; HttpOnly; SameSite=Strict; Max-Age="@ + seconds,
        login_cookie(token, true, hours as int) == "gitom_token="@ + token
            + "; Path=/; HttpOnly; SameSite=Strict; Max-Age="@ + seconds + "; Secure"@,
{
    let seconds = crate::numerals::decimal(hours * 3600);
    crate::numerals::numeral_reads_as_its_number(hours * 3600, 10);
    crate::numerals::sign_stands_in_front(hours * 3600);
    let bare = "gitom_token="@ + token + "; Path=/; HttpOnly; SameSite=Strict; Max-Age="@ + seconds;
    assert(bare + Seq::<char>::empty() == bare);
    seconds
}

/// Cookies are marked as secure exactly where that is configured.
pub proof fn cookies_are_secure_where_wanted(cookie: Seq<char>)
    ensures
        cookie + secure_mark(true) == cookie + "; Secure"@,
        cookie + secure_mark(false) == cookie,
{
}

/// One is the user by the right name and, as the password, the access token that is set, or a text
/// of at most 128 bytes that is accepted against the hash that is set. Neither an empty text nor
/// an unset token or hash lets anybody in.
pub proof fn credentials_are_a_name_and_a_secret(
    username: Seq<char>,
    password: Seq<char>,
    config: AppConfig,
)
    ensures
        are_credentials(username, password, config) <==> username == config.username@
            && password.len() > 0 && {
            ||| password == config.access_token@
            ||| crate::text::byte_len(password) <= 128 && config.password_hash@.len() > 0
                && password::is_accepted(password, config.password_hash@)
        },
        is_access_token(password, config) <==> password.len() > 0 && password
            == config.access_token@,
        is_password(password, config) <==> config.password_hash@.len() > 0
            && password::is_accepted(password, config.password_hash@),
{
}

/// A session opened at a time comes with the cookie for a token that the secret of the server signs
/// and that expires 3600 seconds later for each configured hour; there is none exactly where that
/// time is outside the years from -9999 to 9999.
pub proof fn session_lasts_the_configured_hours(
    config: AppConfig,
    now: int,
    opened: Result<String, AppError>,
)
    requires
        session_at(config, now, opened),
    ensures
        ({
            let exp = now + config.jwt_expire_hours * 3600;
            let token = jwt::jwt_token(config.jwt_secret@, exp as i64);
            &&& opened is Ok <==> -377705116800 <= exp <= 253402300799
            &&& opened matches Ok(cookie) ==> cookie@ == login_cookie(
                token,
                config.secure_cookie,
                config.jwt_expire_hours as int,
            )
            &&& opened matches Err(e) ==> e@ == crate::error::Fault::Internal(
                "session expiry out of range"@,
            )
        }),
{
}

} // verus!
