//! Who a git client is: the credentials that it presents, and what is decided on them.
use vstd::prelude::*;
use vstd::string::*;

use crate::auth::jwt;
use crate::bytes::text_of_utf8;
use crate::config::AppConfig;
use crate::routes::user::{access_token_matches, password_matches};
use crate::text::{opt_str_view, same_text, split_first, strip_front};

verus! {

/// The bytes that a text in base64 stands for; `None` where it is not such a text.
pub uninterp spec fn base64_bytes(text: Seq<char>) -> Option<Seq<u8>>;

/// The view of optional bytes.
pub open spec fn opt_bytes_view(bytes: Option<Vec<u8>>) -> Option<Seq<u8>> {
    match bytes {
        Some(b) => Some(b@),
        None => None,
    }
}

/// `decode` of `base64::engine::general_purpose::STANDARD`. The bytes depend on the text alone.
#[verifier::external_body]
fn base64_decode(text: &str) -> (r: Option<Vec<u8>>)
    ensures
        opt_bytes_view(r) == base64_bytes(text@),
{
    base64::Engine::decode(&base64::engine::general_purpose::STANDARD, text).ok()
}

/// What a client presents in its `Authorization` header.
#[derive(Debug, Clone)]
pub enum Credentials {
    /// A session token.
    Bearer(String),
    /// A name and a password.
    Basic(String, String),
    /// A name and a password are announced, but cannot be read.
    Unreadable,
    /// Nothing, or something of another kind.
    Nothing,
}

/// A [`Credentials`] over sequences.
#[verifier::ext_equal]
pub enum CredentialsView {
    Bearer(Seq<char>),
    Basic(Seq<char>, Seq<char>),
    Unreadable,
    Nothing,
}

impl View for Credentials {
    type V = CredentialsView;

    open spec fn view(&self) -> CredentialsView {
        match self {
            Credentials::Bearer(t) => CredentialsView::Bearer(t@),
            Credentials::Basic(u, p) => CredentialsView::Basic(u@, p@),
            Credentials::Unreadable => CredentialsView::Unreadable,
            Credentials::Nothing => CredentialsView::Nothing,
        }
    }
}

/// The name and the password in decoded credentials: UTF-8, with a colon between them.
pub open spec fn name_and_password(decoded: Option<Seq<u8>>) -> CredentialsView {
    match decoded {
        None => CredentialsView::Unreadable,
        Some(bytes) => match crate::bytes::utf8_text(bytes) {
            None => CredentialsView::Unreadable,
            Some(text) => match crate::text::cut_at_first(text, ':') {
                None => CredentialsView::Unreadable,
                Some((name, password)) => CredentialsView::Basic(name, password),
            },
        },
    }
}

/// What is presented in an `Authorization` header.
pub open spec fn presented(authorization: Option<Seq<char>>) -> CredentialsView {
    match authorization {
        None => CredentialsView::Nothing,
        Some(a) => match crate::text::after_prefix(a, "Bearer "@) {
            Some(token) => CredentialsView::Bearer(token),
            None => match crate::text::after_prefix(a, "Basic "@) {
                Some(encoded) => name_and_password(base64_bytes(encoded)),
                None => CredentialsView::Nothing,
            },
        },
    }
}

/// The name and the password in decoded credentials.
pub fn split_credentials(decoded: Option<Vec<u8>>) -> (r: Credentials)
    ensures
        r@ == name_and_password(opt_bytes_view(decoded)),
{
    match decoded {
        None => Credentials::Unreadable,
        Some(bytes) => match text_of_utf8(bytes.as_slice()) {
            None => Credentials::Unreadable,
            Some(text) => match split_first(text.as_str(), ':') {
                None => Credentials::Unreadable,
                Some((name, password)) => Credentials::Basic(name, password),
            },
        },
    }
}

/// What is presented in an `Authorization` header.
pub fn read_credentials(authorization: Option<&str>) -> (r: Credentials)
    ensures
        r@ == presented(opt_str_view(authorization)),
{
    match authorization {
        None => Credentials::Nothing,
        Some(a) => match strip_front(a, "Bearer ") {
            Some(token) => Credentials::Bearer(token),
            None => match strip_front(a, "Basic ") {
                Some(encoded) => split_credentials(base64_decode(encoded.as_str())),
                None => Credentials::Nothing,
            },
        },
    }
}

/// What is decided on a git client.
#[derive(Debug, Clone, Copy, PartialEq, Eq)]
pub enum GitVerdict {
    /// It is let in, by its session.
    Session,
    /// It is let in, by its password; the counter of failures is to be cleared.
    Admit,
    /// It is not let in, and the failure is to be counted.
    CountFailure,
    /// It is not let in.
    Refuse,
}

impl GitVerdict {
    /// Whether the client is let in.
    pub open spec fn lets_in(self) -> bool {
        self is Session || self is Admit
    }

    /// Whether the client is let in.
    pub fn is_admitted(&self) -> (r: bool)
        ensures
            r == self.lets_in(),
    {
        match self {
            GitVerdict::Session | GitVerdict::Admit => true,
            GitVerdict::CountFailure | GitVerdict::Refuse => false,
        }
    }
}

/// The text that may be a session token: a bearer, or the password of the user.
pub open spec fn presented_token(c: CredentialsView, config: AppConfig) -> Option<Seq<char>> {
    match c {
        CredentialsView::Bearer(token) => Some(token),
        CredentialsView::Basic(name, password) => if name == config.username@ && password.len()
            > 0 {
            Some(password)
        } else {
            None
        },
        CredentialsView::Unreadable => None,
        CredentialsView::Nothing => None,
    }
}

/// What is decided on a client: a bearer has to be a session token. A name and a password are
/// looked at only where the limit of failures has not been reached; then the name has to be that
/// of the user, and the password a session token, the access token or the password. Anything else
/// in their place is a failure, also what cannot be read.
pub open spec fn verdict_for(
    c: CredentialsView,
    config: AppConfig,
    blocked: bool,
    token_accepted: bool,
) -> GitVerdict {
    match c {
        CredentialsView::Nothing => GitVerdict::Refuse,
        CredentialsView::Unreadable => if blocked {
            GitVerdict::Refuse
        } else {
            GitVerdict::CountFailure
        },
        CredentialsView::Bearer(_) => if token_accepted {
            GitVerdict::Session
        } else {
            GitVerdict::Refuse
        },
        CredentialsView::Basic(name, password) => if blocked {
            GitVerdict::Refuse
        } else if name != config.username@ || password.len() == 0 {
            GitVerdict::CountFailure
        } else if token_accepted || crate::routes::user::is_access_token(password, config)
            || crate::routes::user::is_password(password, config) {
            GitVerdict::Admit
        } else {
            GitVerdict::CountFailure
        },
    }
}

/// What is decided on a client, where the session token among its credentials was judged so.
pub fn judge_credentials(
    credentials: &Credentials,
    config: &AppConfig,
    blocked: bool,
    token_accepted: bool,
) -> (r: GitVerdict)
    ensures
        r == verdict_for(credentials@, *config, blocked, token_accepted),
{
    match credentials {
        Credentials::Nothing => GitVerdict::Refuse,
        Credentials::Unreadable => {
            if blocked {
                GitVerdict::Refuse
            } else {
                GitVerdict::CountFailure
            }
        },
        Credentials::Bearer(_) => {
            if token_accepted {
                GitVerdict::Session
            } else {
                GitVerdict::Refuse
            }
        },
        Credentials::Basic(name, password) => {
            if blocked {
                return GitVerdict::Refuse;
            }
            if !same_text(name.as_str(), config.username.as_str())
                || password.as_str().is_empty() {
                return GitVerdict::CountFailure;
            }
            if token_accepted {
                return GitVerdict::Admit;
            }
            if access_token_matches(password.as_str(), config) {
                return GitVerdict::Admit;
            }
            if password_matches(password.as_str(), config) {
                return GitVerdict::Admit;
            }
            GitVerdict::CountFailure
        },
    }
}

/// Whether a verdict may be given on a client: it is the one for some verdict on the session token
/// among its credentials.
pub open spec fn may_be_decided(
    c: CredentialsView,
    config: AppConfig,
    blocked: bool,
    r: GitVerdict,
) -> bool {
    exists|accepted: bool|
        #![trigger verdict_for(c, config, blocked, accepted)]
        r == verdict_for(c, config, blocked, accepted) && match presented_token(c, config) {
            Some(token) => crate::middleware::auth::may_be_judged(
                token,
                config.jwt_secret@,
                accepted,
            ),
            None => !accepted,
        }
}

/// Decides on a git client by its `Authorization` header. Failures of the `Basic` scheme count
/// towards the limit; session tokens presented as bearers do not.
pub fn authenticate_git(authorization: Option<&str>, config: &AppConfig, blocked: bool) -> (r:
    GitVerdict)
    ensures
        may_be_decided(presented(opt_str_view(authorization)), *config, blocked, r),
{
    let credentials = read_credentials(authorization);
    let token: Option<&String> = match &credentials {
        Credentials::Bearer(t) => Some(t),
        Credentials::Basic(name, password) => {
            if same_text(name.as_str(), config.username.as_str())
                && !password.as_str().is_empty() {
                Some(password)
            } else {
                None
            }
        },
        Credentials::Unreadable => None,
        Credentials::Nothing => None,
    };
    let accepted = match token {
        Some(t) => {
            let verdict = jwt::verify(t.as_str(), config.jwt_secret.as_str());
            assert(jwt::verdict_on(t@, config.jwt_secret@, verdict));
            assert(crate::middleware::auth::may_be_judged(
                t@,
                config.jwt_secret@,
                verdict is Ok,
            ));
            verdict.is_ok()
        },
        None => false,
    };
    judge_credentials(&credentials, config, blocked, accepted)
}

/// Nobody is let in by a name and a password once the limit of failures has been reached.
pub proof fn limit_holds_for_git(c: CredentialsView, config: AppConfig, r: GitVerdict)
    requires
        c is Basic || c is Unreadable,
        may_be_decided(c, config, true, r),
    ensures
        r == GitVerdict::Refuse,
{
}

/// Below the limit, every attempt by the `Basic` scheme either lets the client in or counts as a
/// failure; bearers, and those who present nothing, never count.
pub proof fn basic_failures_are_counted(c: CredentialsView, config: AppConfig, r: GitVerdict)
    requires
        may_be_decided(c, config, false, r),
    ensures
        (c is Basic || c is Unreadable) ==> (r == GitVerdict::CountFailure <==> !r.lets_in()),
        (c is Bearer || c is Nothing) ==> r != GitVerdict::CountFailure,
{
}

/// One who presents nothing, what cannot be read, or the name of somebody else, is not let in.
pub proof fn strangers_are_not_let_in(
    c: CredentialsView,
    config: AppConfig,
    blocked: bool,
    r: GitVerdict,
)
    requires
        may_be_decided(c, config, blocked, r),
        match c {
            CredentialsView::Nothing => true,
            CredentialsView::Unreadable => true,
            CredentialsView::Basic(name, _) => name != config.username@,
            CredentialsView::Bearer(token) => jwt::jwt_standing(token, config.jwt_secret@)
                is Forged,
        },
    ensures
        !r.lets_in(),
{
}

/// The user is let in by the password and by the access token, as long as the limit of failures
/// has not been reached.
pub proof fn user_is_let_in(password: Seq<char>, config: AppConfig, r: GitVerdict)
    requires
        password.len() > 0,
        crate::routes::user::is_password(password, config)
            || crate::routes::user::is_access_token(password, config),
        may_be_decided(CredentialsView::Basic(config.username@, password), config, false, r),
    ensures
        r == GitVerdict::Admit,
{
}

/// A client that presents a session token as a bearer is read so.
pub proof fn bearer_is_read(token: Seq<char>)
    ensures
        presented(Some("Bearer "@ + token)) == CredentialsView::Bearer(token),
{
    crate::text::prefix_is_taken_off("Bearer "@ + token, "Bearer "@, token);
}

/// A name without a colon and a password, joined by a colon and encoded in UTF-8 and base64, are
/// read back as they are, colons in the password included.
pub proof fn name_and_password_are_read_back(
    encoded: Seq<char>,
    name: Seq<char>,
    password: Seq<char>,
)
    requires
        !name.contains(':'),
        base64_bytes(encoded) == Some(vstd::utf8::encode_utf8(name + seq![':'] + password)),
    ensures
        presented(Some("Basic "@ + encoded)) == CredentialsView::Basic(name, password),
{
    crate::bytes::encoded_text_is_read_back(name + seq![':'] + password, Seq::empty());
    crate::text::joined_parts_are_cut_apart(name, ':', password);
    basic_is_read(encoded);
}

/// What stands behind `Basic` and a blank is a name and a password, or cannot be read: where it is
/// not base64, not of UTF-8, or without a colon.
pub proof fn what_is_not_a_name_and_a_password_is_unreadable(encoded: Seq<char>, text: Seq<char>)
    ensures
        base64_bytes(encoded) is None ==> presented(Some("Basic "@ + encoded))
            == CredentialsView::Unreadable,
        (base64_bytes(encoded) matches Some(bytes) && !vstd::utf8::valid_utf8(bytes)) ==> presented(
            Some("Basic "@ + encoded),
        ) == CredentialsView::Unreadable,
        base64_bytes(encoded) == Some(vstd::utf8::encode_utf8(text)) && !text.contains(':')
            ==> presented(Some("Basic "@ + encoded)) == CredentialsView::Unreadable,
{
    crate::bytes::encoded_text_is_read_back(text, Seq::empty());
    crate::text::cut_is_at_the_first(text, ':');
    if !text.contains(':') {
        assert(crate::text::cut_at_first(text, ':') is None) by {
            if crate::text::cut_at_first(text, ':') is Some {
                let (front, back) = crate::text::cut_at_first(text, ':')->0;
                assert(text[front.len() as int] == ':');
            }
        }
    }
    basic_is_read(encoded);
}

proof fn basic_is_read(encoded: Seq<char>)
    ensures
        presented(Some("Basic "@ + encoded)) == name_and_password(base64_bytes(encoded)),
{
    reveal_strlit("Bearer ");
    reveal_strlit("Basic ");
    let a = "Basic "@ + encoded;
    crate::text::prefix_is_taken_off(a, "Basic "@, encoded);
    assert(a[1] == 'a');
    if "Bearer "@.is_prefix_of(a) {
        assert("Bearer "@ == a.subrange(0, 7));
        assert("Bearer "@[1] == a[1]);
    }
}

/// A client without the header, or with one of another scheme, presents nothing.
pub proof fn other_schemes_present_nothing(authorization: Seq<char>)
    ensures
        presented(None) == CredentialsView::Nothing,
        !"Bearer "@.is_prefix_of(authorization) && !"Basic "@.is_prefix_of(authorization)
            ==> presented(Some(authorization)) == CredentialsView::Nothing,
{
}

/// A client is let in by its session exactly where it presents a bearer whose token is accepted,
/// and by a password exactly where, below the limit of failures, it presents the name of the user
/// with an accepted token, the access token or the password.
pub proof fn clients_are_let_in_by_a_secret(
    c: CredentialsView,
    config: AppConfig,
    blocked: bool,
    token_accepted: bool,
)
    ensures
        ({
            let verdict = verdict_for(c, config, blocked, token_accepted);
            &&& verdict == GitVerdict::Session <==> c is Bearer && token_accepted
            &&& verdict == GitVerdict::Admit <==> !blocked && (c matches CredentialsView::Basic(
                name,
                password,
            ) && name == config.username@ && password.len() > 0 && (token_accepted || password
                == config.access_token@ || (config.password_hash@.len() > 0
                && crate::auth::password::is_accepted(password, config.password_hash@))))
            &&& verdict == GitVerdict::CountFailure <==> !blocked && (c is Basic || c is Unreadable)
                && verdict != GitVerdict::Admit
        }),
        GitVerdict::Session.lets_in(),
        GitVerdict::Admit.lets_in(),
        !GitVerdict::CountFailure.lets_in(),
        !GitVerdict::Refuse.lets_in(),
{
}

/// Whoever is let in holds a session token that the secret of the server signs and that is
/// acceptable, or the access token, or the password.
pub proof fn whoever_is_let_in_holds_a_secret(
    c: CredentialsView,
    config: AppConfig,
    blocked: bool,
    r: GitVerdict,
)
    requires
        may_be_decided(c, config, blocked, r),
        r.lets_in(),
    ensures
        match c {
            CredentialsView::Bearer(token) => jwt::jwt_standing(token, config.jwt_secret@) is Good,
            CredentialsView::Basic(name, password) => {
                &&& !blocked
                &&& name == config.username@
                &&& password.len() > 0
                &&& {
                    ||| jwt::jwt_standing(password, config.jwt_secret@) is Good
                    ||| password == config.access_token@
                    ||| crate::auth::password::is_accepted(password, config.password_hash@)
                }
            },
            _ => false,
        },
{
}

/// A session token that is not accepted was not good, or has expired: a client that presents one
/// is judged by it, as a bearer and in place of the password.
pub proof fn session_token_is_what_is_judged(
    token: Seq<char>,
    name: Seq<char>,
    config: AppConfig,
)
    ensures
        presented_token(CredentialsView::Bearer(token), config) == Some(token),
        token.len() > 0 ==> presented_token(
            CredentialsView::Basic(config.username@, token),
            config,
        ) == Some(token),
        name != config.username@ ==> presented_token(
            CredentialsView::Basic(name, token),
            config,
        ) is None,
        presented_token(CredentialsView::Nothing, config) is None,
        presented_token(CredentialsView::Unreadable, config) is None,
{
}

/// A client is let in by its bearer exactly where the token, held against the secret of the server
/// and the clock, was accepted.
pub proof fn bearer_decides_on_its_client(
    token: Seq<char>,
    config: AppConfig,
    blocked: bool,
    r: GitVerdict,
)
    requires
        may_be_decided(CredentialsView::Bearer(token), config, blocked, r),
    ensures
        r == GitVerdict::Session || r == GitVerdict::Refuse,
        r == GitVerdict::Session ==> exists|exp: i64| #[trigger]
            crate::clock::was_judged(token, config.jwt_secret@, Ok(exp)),
        r == GitVerdict::Refuse ==> exists|fault: jwt::TokenFault| #[trigger]
            crate::clock::was_judged(token, config.jwt_secret@, Err(fault)),
{
    let c = CredentialsView::Bearer(token);
    let accepted = choose|accepted: bool|
        #![trigger verdict_for(c, config, blocked, accepted)]
        r == verdict_for(c, config, blocked, accepted) && crate::middleware::auth::may_be_judged(
            token,
            config.jwt_secret@,
            accepted,
        );
    let verdict = choose|verdict: Result<jwt::Claims, jwt::TokenFault>|
        #![trigger jwt::verdict_on(token, config.jwt_secret@, verdict)]
        jwt::verdict_on(token, config.jwt_secret@, verdict) && accepted == verdict is Ok;
    jwt::only_signed_tokens_are_accepted(token, config.jwt_secret@, verdict);
    match verdict {
        Ok(claims) => {
            assert(crate::clock::was_judged(token, config.jwt_secret@, Ok(claims.exp)));
        },
        Err(fault) => {
            assert(crate::clock::was_judged(token, config.jwt_secret@, Err(fault)));
        },
    }
}

/// Credentials are seen as they are.
pub proof fn credentials_are_seen_as_they_are(c: Credentials, bytes: Vec<u8>)
    ensures
        c matches Credentials::Bearer(token) ==> c@ == CredentialsView::Bearer(token@),
        c matches Credentials::Basic(name, password) ==> c@ == CredentialsView::Basic(
            name@,
            password@,
        ),
        c is Unreadable <==> c@ is Unreadable,
        c is Nothing <==> c@ is Nothing,
        opt_bytes_view(Some(bytes)) == Some(bytes@),
        opt_bytes_view(None) is None,
{
}

} // verus!
