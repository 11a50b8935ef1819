//! Who a request comes from.
use vstd::prelude::*;
use vstd::string::*;

use crate::auth::jwt::{verify, Claims, TokenFault};
use crate::config::AppConfig;
use crate::text::{opt_str_view, opt_view, split_text, strip_front, trim_text};

verus! {

/// Proves that a request comes from the one user, and says what they are called.
#[derive(Debug, Clone)]
pub struct Authenticated {
    pub username: String,
}

/// The session token in one part of a cookie header.
pub open spec fn token_in(part: Seq<char>) -> Option<Seq<char>> {
    match crate::text::after_prefix(crate::text::trimmed(part), "gitom_token="@) {
        Some(token) => if token.len() > 0 {
            Some(token)
        } else {
            None
        },
        None => None,
    }
}

/// The session token in the first part that has one.
pub open spec fn first_token(parts: Seq<Seq<char>>) -> Option<Seq<char>>
    decreases parts.len(),
{
    if parts.len() == 0 {
        None
    } else if token_in(parts[0]) is Some {
        token_in(parts[0])
    } else {
        first_token(parts.drop_first())
    }
}

/// The session token in a cookie header.
pub open spec fn cookie_token(cookie: Seq<char>) -> Option<Seq<char>> {
    first_token(crate::text::split_on(cookie, ';'))
}

/// The token that a request carries: in its cookies, or else as its bearer.
pub open spec fn request_token(
    cookie: Option<Seq<char>>,
    authorization: Option<Seq<char>>,
) -> Option<Seq<char>> {
    if cookie matches Some(c) && cookie_token(c) is Some {
        cookie_token(cookie->0)
    } else {
        match authorization {
            Some(a) => crate::text::after_prefix(a, "Bearer "@),
            None => None,
        }
    }
}

/// The session token in one part of a cookie header.
fn session_token(part: &str) -> (r: Option<String>)
    ensures
        opt_view(r) == token_in(part@),
{
    let part = trim_text(part);
    match strip_front(part.as_str(), "gitom_token=") {
        Some(token) => if token.as_str().is_empty() {
            None
        } else {
            Some(token)
        },
        None => None,
    }
}

/// The token that a request carries, by its `Cookie` and `Authorization` headers. A header that
/// is not plain text counts as missing.
pub fn extract_bearer_token(cookie: Option<&str>, authorization: Option<&str>) -> (r: Option<
    String,
>)
    ensures
        opt_view(r) == request_token(opt_str_view(cookie), opt_str_view(authorization)),
{
    if let Some(c) = cookie {
        let parts = split_text(c, ';');
        let ghost all = crate::text::split_on(c@, ';');
        assert(all.skip(0) == all);
        for i in 0..parts.len()
            invariant
                cookie == Some(c),
                crate::text::views(parts@) == all,
                all == crate::text::split_on(c@, ';'),
                first_token(all.skip(i as int)) == first_token(all),
        {
            assert(all[i as int] == parts@[i as int]@);
            assert(all.skip(i as int)[0] == all[i as int]);
            assert(all.skip(i as int).drop_first() == all.skip(i + 1));
            let token = session_token(parts[i].as_str());
            if token.is_some() {
                return token;
            }
        }
        assert(all.skip(all.len() as int) == Seq::<Seq<char>>::empty());
        assert(cookie_token(c@) is None);
    }
    match authorization {
        Some(a) => strip_front(a, "Bearer "),
        None => None,
    }
}

/// Who a request comes from, where its token was judged so.
pub fn admitted(verdict: Result<Claims, TokenFault>, config: &AppConfig) -> (r: Option<
    Authenticated,
>)
    ensures
        r is Some <==> verdict is Ok,
        r matches Some(user) ==> user.username@ == config.username@,
{
    match verdict {
        Ok(_) => Some(Authenticated { username: config.username.clone() }),
        Err(_) => None,
    }
}

/// Whether there is a verdict on the token, under the secret, that accepts or refuses it.
pub open spec fn may_be_judged(token: Seq<char>, secret: Seq<char>, accepted: bool) -> bool {
    exists|verdict: Result<Claims, TokenFault>|
        #![trigger crate::auth::jwt::verdict_on(token, secret, verdict)]
        crate::auth::jwt::verdict_on(token, secret, verdict) && accepted == verdict is Ok
}

/// Whether a request with this token may be taken for one from `r`: nobody without a token, and
/// otherwise as a verdict on the token says.
pub open spec fn may_be_from(
    token: Option<Seq<char>>,
    config: AppConfig,
    r: Option<Authenticated>,
) -> bool {
    &&& match r {
        Some(user) => user.username@ == config.username@,
        None => true,
    }
    &&& match token {
        None => r is None,
        Some(t) => may_be_judged(t, config.jwt_secret@, r is Some),
    }
}

/// Who a request comes from, by its headers, the secret and the clock.
pub fn authenticate(cookie: Option<&str>, authorization: Option<&str>, config: &AppConfig) -> (r:
    Option<Authenticated>)
    ensures
        may_be_from(
            request_token(opt_str_view(cookie), opt_str_view(authorization)),
            *config,
            r,
        ),
{
    let token = extract_bearer_token(cookie, authorization);
    let ghost carried = request_token(opt_str_view(cookie), opt_str_view(authorization));
    match token {
        Some(t) => {
            let verdict = verify(t.as_str(), config.jwt_secret.as_str());
            let user = admitted(verdict, config);
            assert(carried == Some(t@));
            assert(may_be_judged(t@, config.jwt_secret@, user is Some));
            user
        },
        None => None,
    }
}

proof fn first_token_skips(front: Seq<Seq<char>>, back: Seq<Seq<char>>)
    requires
        first_token(front) is None,
    ensures
        first_token(front + back) == first_token(back),
    decreases front.len(),
{
    if front.len() == 0 {
        assert(front + back == back);
    } else {
        assert((front + back)[0] == front[0]);
        assert((front + back).drop_first() == front.drop_first() + back);
        first_token_skips(front.drop_first(), back);
    }
}

/// A text that neither begins nor ends with white space stays as it is when it is trimmed, also
/// with a blank in front.
proof fn trimmed_text(s: Seq<char>)
    requires
        s.len() > 0,
        !crate::text::is_white_space(s[0]),
        !crate::text::is_white_space(s.last()),
    ensures
        crate::text::trimmed(s) == s,
        crate::text::trimmed(seq![' '] + s) == s,
{
    let t = seq![' '] + s;
    assert(t[0] == ' ');
    assert(t.drop_first() == s);
    assert(crate::text::trim_front(t) == crate::text::trim_front(s));
}

/// The session cookie as a browser sends it back.
pub open spec fn session_cookie(token: Seq<char>) -> Seq<char> {
    "gitom_token="@ + token
}

proof fn session_cookie_holds_token(token: Seq<char>)
    requires
        token.len() > 0,
        !crate::text::is_white_space(token.last()),
    ensures
        token_in(session_cookie(token)) == Some(token),
        token_in(seq![' '] + session_cookie(token)) == Some(token),
{
    reveal_strlit("gitom_token=");
    let c = session_cookie(token);
    assert(c[0] == 'g');
    assert(c.last() == token.last());
    trimmed_text(c);
    assert("gitom_token="@.is_prefix_of(c));
    assert(c.skip("gitom_token="@.len() as int) == token);
}

proof fn one_part(s: Seq<char>)
    requires
        !s.contains(';'),
    ensures
        crate::text::split_on(s, ';') == seq![s],
{
    crate::text::first_index_bounds(s, ';');
}

/// The token that a session cookie was set to is the one that a request with that cookie carries,
/// whether it is the only cookie or stands behind others.
pub proof fn session_cookie_is_read_back(
    others: Seq<char>,
    token: Seq<char>,
    authorization: Option<Seq<char>>,
)
    requires
        token.len() > 0,
        !token.contains(';'),
        !crate::text::is_white_space(token.last()),
        cookie_token(others) is None,
    ensures
        request_token(Some(session_cookie(token)), authorization) == Some(token),
        request_token(
            Some(others + seq![';'] + (seq![' '] + session_cookie(token))),
            authorization,
        ) == Some(token),
{
    reveal_strlit("gitom_token=");
    let c = session_cookie(token);
    let spaced = seq![' '] + c;
    session_cookie_holds_token(token);
    assert(!c.contains(';')) by {
        assert forall|i: int| 0 <= i < c.len() implies c[i] != ';' by {
            if i >= "gitom_token="@.len() {
                assert(c[i] == token[i - "gitom_token="@.len()]);
                assert(token.contains(c[i]));
            }
        }
    }
    assert(!spaced.contains(';')) by {
        assert forall|i: int| 0 <= i < spaced.len() implies spaced[i] != ';' by {
            if i > 0 {
                assert(spaced[i] == c[i - 1]);
                assert(c.contains(c[i - 1]));
            }
        }
    }
    one_part(c);
    one_part(spaced);
    assert(seq![c][0] == c);
    assert(seq![spaced][0] == spaced);
    crate::text::split_of_joined(others, ';', spaced);
    first_token_skips(crate::text::split_on(others, ';'), seq![spaced]);
}

/// A request without a token, or with one that the secret did not sign, is from nobody.
pub proof fn nobody_without_a_signed_token(
    token: Option<Seq<char>>,
    config: AppConfig,
    r: Option<Authenticated>,
)
    requires
        may_be_from(token, config, r),
        token is None || crate::auth::jwt::jwt_standing(token->0, config.jwt_secret@) is Forged,
    ensures
        r is None,
{
}

/// A token in a cookie goes before one in the authorization header. Without one there, the token is
/// what follows `Bearer` and a blank in that header, and any other header gives none.
pub proof fn cookies_go_before_the_bearer(
    cookie: Seq<char>,
    authorization: Option<Seq<char>>,
    token: Seq<char>,
)
    ensures
        cookie_token(cookie) is Some ==> request_token(Some(cookie), authorization) == cookie_token(
            cookie,
        ),
        request_token(None, Some("Bearer "@ + token)) == Some(token),
        cookie_token(cookie) is None ==> request_token(Some(cookie), Some("Bearer "@ + token))
            == Some(token),
        request_token(None, None) is None,
        authorization matches Some(a) ==> (!"Bearer "@.is_prefix_of(a) ==> request_token(
            None,
            authorization,
        ) is None),
        cookie_token(cookie) is None ==> request_token(Some(cookie), authorization)
            == request_token(None, authorization),
{
    crate::text::prefix_is_taken_off("Bearer "@ + token, "Bearer "@, token);
}

/// A part of a cookie header holds a session token exactly where it is, but for white space around
/// it, the name of the session cookie, an equals sign and a text that is not empty: that text.
pub proof fn session_token_follows_its_name(part: Seq<char>, token: Seq<char>)
    ensures
        token_in(part) == Some(token) <==> token.len() > 0 && crate::text::trimmed(part)
            == "gitom_token="@ + token,
{
    let bare = crate::text::trimmed(part);
    crate::text::prefix_is_taken_off(bare, "gitom_token="@, token);
}

/// Of several session tokens the first one counts.
pub proof fn first_session_token_counts(
    before: Seq<Seq<char>>,
    part: Seq<char>,
    behind: Seq<Seq<char>>,
)
    requires
        forall|i: int| 0 <= i < before.len() ==> token_in(#[trigger] before[i]) is None,
    ensures
        first_token(before) is None,
        token_in(part) is Some ==> first_token(before + seq![part] + behind) == token_in(part),
    decreases before.len(),
{
    let all = before + seq![part] + behind;
    if before.len() > 0 {
        let rest = before.drop_first();
        assert forall|i: int| 0 <= i < rest.len() implies token_in(#[trigger] rest[i]) is None by {
            assert(rest[i] == before[i + 1]);
        }
        first_session_token_counts(rest, part, behind);
        assert(all[0] == before[0]);
        assert(all.drop_first() == rest + seq![part] + behind);
    } else {
        assert(all[0] == part);
    }
}

/// The parts of a cookie header stand between its semicolons.
pub proof fn cookie_parts_stand_between_semicolons(front: Seq<char>, part: Seq<char>)
    requires
        !front.contains(';'),
    ensures
        token_in(front) is Some ==> cookie_token(front) == token_in(front) && cookie_token(
            front + seq![';'] + part,
        ) == token_in(front),
        token_in(front) is None ==> cookie_token(front) is None && cookie_token(
            front + seq![';'] + part,
        ) == cookie_token(part),
{
    one_part(front);
    assert(seq![front][0] == front);
    assert(seq![front].drop_first() == Seq::<Seq<char>>::empty());
    crate::text::split_of_joined(front, ';', part);
    let rest = crate::text::split_on(part, ';');
    let all = seq![front] + rest;
    assert(all[0] == front);
    assert(all.drop_first() == rest);
    assert(first_token(Seq::<Seq<char>>::empty()) is None);
    assert(first_token(all) == (if token_in(front) is Some {
        token_in(front)
    } else {
        first_token(rest)
    }));
}

/// A request is taken for one from the user only where its token is signed with the secret of the
/// server and acceptable, and the user has the configured name.
pub proof fn user_has_an_acceptable_token(
    token: Option<Seq<char>>,
    config: AppConfig,
    r: Option<Authenticated>,
)
    requires
        may_be_from(token, config, r),
    ensures
        r matches Some(user) ==> user.username@ == config.username@ && token is Some
            && crate::auth::jwt::jwt_standing(token->0, config.jwt_secret@) is Good,
{
}

/// A request is taken for one from the user exactly where its token, held against the secret of the
/// server and the clock, was accepted.
pub proof fn token_decides_who_a_request_is_from(
    token: Seq<char>,
    config: AppConfig,
    r: Option<Authenticated>,
)
    requires
        may_be_from(Some(token), config, r),
    ensures
        r is Some ==> exists|exp: i64| #[trigger]
            crate::clock::was_judged(token, config.jwt_secret@, Ok(exp)),
        r is None ==> exists|fault: TokenFault| #[trigger]
            crate::clock::was_judged(token, config.jwt_secret@, Err(fault)),
{
    let verdict = choose|verdict: Result<Claims, TokenFault>|
        #![trigger crate::auth::jwt::verdict_on(token, config.jwt_secret@, verdict)]
        crate::auth::jwt::verdict_on(token, config.jwt_secret@, verdict) && r is Some
            == verdict is Ok;
    crate::auth::jwt::only_signed_tokens_are_accepted(token, config.jwt_secret@, verdict);
    match verdict {
        Ok(claims) => {
            assert(crate::clock::was_judged(token, config.jwt_secret@, Ok(claims.exp)));
        },
        Err(fault) => {
            assert(crate::clock::was_judged(token, config.jwt_secret@, Err(fault)));
        },
    }
}

} // verus!
