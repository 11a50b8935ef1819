//! Session tokens: signed statements that their holder has logged in, good until a given time.
use vstd::prelude::*;

verus! {

/// What a token states: only when it expires. Holding one proves that its holder logged in.
#[derive(Debug, Clone, Copy)]
pub struct Claims {
    pub exp: i64,
}

/// Why a token is not accepted.
#[derive(Debug, Clone, Copy, PartialEq, Eq)]
pub enum TokenFault {
    /// The time that it states has passed.
    Expired,
    /// It is malformed, not signed with the secret, or its claims are not acceptable.
    Invalid,
}

/// Why no token was made: the time at which it would expire cannot be written as a date.
#[derive(Debug, Clone, Copy, PartialEq, Eq)]
pub struct ExpiryOutOfRange;

/// The first second that has a calendar date: the start of the year -9999.
pub const FIRST_SECOND: i64 = -377705116800;

/// The last second that has a calendar date: the end of the year 9999.
pub const LAST_SECOND: i64 = 253402300799;

/// Whether a number of seconds since the epoch has a calendar date.
pub open spec fn has_date(seconds: int) -> bool {
    FIRST_SECOND <= seconds <= LAST_SECOND
}

/// The token over `exp` that the secret signs.
pub uninterp spec fn jwt_token(secret: Seq<char>, exp: i64) -> Seq<char>;

/// How a token stands under a secret, whatever the time is.
pub enum Standing {
    /// It is no token, or the secret did not sign it.
    Forged,
    /// The secret signed it, and it is accepted at no time.
    Refused,
    /// The secret signed it, and it is accepted, with this `exp` claim, until it expires.
    Good(i64),
}

/// How a token stands under a secret.
pub uninterp spec fn jwt_standing(token: Seq<char>, secret: Seq<char>) -> Standing;

/// Whether a text is made of the characters that tokens are made of: those of URL-safe base64, and
/// dots.
pub open spec fn is_token_text(s: Seq<char>) -> bool {
    s.len() > 0 && forall|i: int|
        0 <= i < s.len() ==> ('a' <= #[trigger] s[i] <= 'z' || 'A' <= s[i] <= 'Z' || '0' <= s[i]
            <= '9' || s[i] == '-' || s[i] == '_' || s[i] == '.')
}

/// `jsonwebtoken::encode` with the default header, over the single claim `exp`. The header's
/// algorithm is HMAC with SHA-256, so the token is a function of the claim and the secret and
/// signing cannot fail; it is made of three texts in URL-safe base64 with dots between them; that
/// of a claim that is not negative is accepted under the secret that signed it, with that claim.
#[verifier::external_body]
fn jwt_encode(secret: &str, exp: i64) -> (r: Result<String, TokenFault>)
    ensures
        r is Ok,
        r->Ok_0@ == jwt_token(secret@, exp),
        is_token_text(r->Ok_0@),
        exp >= 0 ==> jwt_standing(r->Ok_0@, secret@) == Standing::Good(exp),
{
    jsonwebtoken::encode(
        &jsonwebtoken::Header::default(),
        &std::collections::BTreeMap::from([("exp", exp)]),
        &jsonwebtoken::EncodingKey::from_secret(secret.as_bytes()),
    ).map_err(|_| TokenFault::Invalid)
}

/// `jsonwebtoken::decode` with the default validation: the signature, the algorithm and the
/// claims are checked, and last the expiry against the clock, with a minute of leeway. A token
/// that passes gives back its claim `exp`, read as an `i64` by `serde_json::from_str`; other claims
/// are passed over as `RawValue`s, whatever they hold, as long as they are UTF-8. A token that
/// fails for any reason but its expiry never passes; only one that the secret signed can have
/// expired. When it does is up to the clock, so nothing is said of that but that the token was held
/// against it.
#[verifier::external_body]
fn jwt_decode(token: &str, secret: &str) -> (r: Result<i64, TokenFault>)
    ensures
        r is Ok ==> jwt_standing(token@, secret@) == Standing::Good(r->Ok_0),
        r matches Err(TokenFault::Invalid) ==> !(jwt_standing(token@, secret@) is Good),
        r matches Err(TokenFault::Expired) ==> !(jwt_standing(token@, secret@) is Forged),
        crate::clock::was_judged(token@, secret@, r),
{
    let key = jsonwebtoken::DecodingKey::from_secret(secret.as_bytes());
    let validation = jsonwebtoken::Validation::default();
    match jsonwebtoken::decode::<
        std::collections::BTreeMap<String, Box<serde_json::value::RawValue>>,
    >(token, &key, &validation) {
        Ok(data) => data.claims.get("exp").and_then(|v| serde_json::from_str(v.get()).ok()).ok_or(
            TokenFault::Invalid,
        ),
        Err(e) => match e.kind() {
            jsonwebtoken::errors::ErrorKind::ExpiredSignature => Err(TokenFault::Expired),
            _ => Err(TokenFault::Invalid),
        },
    }
}

/// `time::OffsetDateTime::now_utc`, in seconds since the epoch. The clock says what time it is;
/// every time of that type has a calendar date.
#[verifier::external_body]
fn utc_now() -> (r: i64)
    ensures
        has_date(r as int),
        crate::clock::was_read(r as int),
{
    time::OffsetDateTime::now_utc().unix_timestamp()
}

/// When a token made at `now` expires.
pub open spec fn expiry(now: int, expire_hours: int) -> int {
    now + 3600 * expire_hours
}

/// What is made at `now`: a token and its expiry, where the expiry has a date.
pub open spec fn signed_at(
    secret: Seq<char>,
    now: int,
    expire_hours: int,
    r: Result<(String, i64), ExpiryOutOfRange>,
) -> bool {
    match r {
        Ok((token, exp)) => {
            &&& has_date(expiry(now, expire_hours))
            &&& exp == expiry(now, expire_hours)
            &&& token@ == jwt_token(secret, exp)
            &&& is_token_text(token@)
            &&& exp >= 0 ==> jwt_standing(token@, secret) == Standing::Good(exp)
        },
        Err(_) => !has_date(expiry(now, expire_hours)),
    }
}

/// Makes at the time `now` a token that is good for `expire_hours` hours.
pub fn sign_at(secret: &str, now: i64, expire_hours: i64) -> (r: Result<
    (String, i64),
    ExpiryOutOfRange,
>)
    ensures
        signed_at(secret@, now as int, expire_hours as int, r),
{
    let expires_at: i128 = now as i128 + 3600 * (expire_hours as i128);
    if expires_at < FIRST_SECOND as i128 || expires_at > LAST_SECOND as i128 {
        return Err(ExpiryOutOfRange);
    }
    let exp: i64 = expires_at as i64;
    match jwt_encode(secret, exp) {
        Ok(token) => Ok((token, exp)),
        Err(_) => Err(ExpiryOutOfRange),
    }
}

/// Makes a token that is good for `expire_hours` hours from now.
pub fn sign(secret: &str, expire_hours: i64) -> (r: Result<(String, i64), ExpiryOutOfRange>)
    ensures
        exists|now: int|
            has_date(now) && crate::clock::was_read(now) && #[trigger] signed_at(
                secret@,
                now,
                expire_hours as int,
                r,
            ),
{
    let now: i64 = utc_now();
    sign_at(secret, now, expire_hours)
}

/// What came of a token that was checked: its expiry, or why it was not accepted.
pub open spec fn outcome_of(r: Result<Claims, TokenFault>) -> Result<i64, TokenFault> {
    match r {
        Ok(claims) => Ok(claims.exp),
        Err(fault) => Err(fault),
    }
}

/// What `verify` can answer of a token: what came of holding it against the secret and the clock.
pub open spec fn verdict_on(
    token: Seq<char>,
    secret: Seq<char>,
    r: Result<Claims, TokenFault>,
) -> bool {
    &&& crate::clock::was_judged(token, secret, outcome_of(r))
    &&& match r {
        Ok(claims) => jwt_standing(token, secret) == Standing::Good(claims.exp),
        Err(TokenFault::Invalid) => !(jwt_standing(token, secret) is Good),
        Err(TokenFault::Expired) => !(jwt_standing(token, secret) is Forged),
    }
}

/// Checks a token against the secret and the clock, and gives back what it states.
pub fn verify(token: &str, secret: &str) -> (r: Result<Claims, TokenFault>)
    ensures
        verdict_on(token@, secret@, r),
{
    match jwt_decode(token, secret) {
        Ok(exp) => Ok(Claims { exp }),
        Err(fault) => Err(fault),
    }
}

/// A token checked under the secret that signed it is either accepted, with the expiry that was
/// signed, or has expired.
pub proof fn signed_token_is_accepted(
    secret: Seq<char>,
    now: int,
    expire_hours: int,
    made: Result<(String, i64), ExpiryOutOfRange>,
    checked: Result<Claims, TokenFault>,
)
    requires
        signed_at(secret, now, expire_hours, made),
        made is Ok,
        made->Ok_0.1 >= 0,
        verdict_on(made->Ok_0.0@, secret, checked),
    ensures
        checked matches Ok(claims) ==> claims.exp == expiry(now, expire_hours),
        checked matches Err(fault) ==> fault == TokenFault::Expired,
{
}

/// A token that the secret did not sign is never accepted under it.
pub proof fn forged_token_is_refused(
    token: Seq<char>,
    secret: Seq<char>,
    checked: Result<Claims, TokenFault>,
)
    requires
        jwt_standing(token, secret) is Forged,
        verdict_on(token, secret, checked),
    ensures
        checked == Err::<Claims, TokenFault>(TokenFault::Invalid),
{
}

/// A token is good for as many hours as it is made for: between the time when it is made and its
/// expiry there are 3600 seconds for each. It is made exactly where its expiry is in the years from
/// -9999 to 9999, and the secret that it is made with is the one that signs it.
pub proof fn token_is_good_for_its_hours(
    secret: Seq<char>,
    now: int,
    expire_hours: int,
    made: Result<(String, i64), ExpiryOutOfRange>,
)
    requires
        signed_at(secret, now, expire_hours, made),
    ensures
        made is Ok <==> -377705116800 <= now + expire_hours * 3600 <= 253402300799,
        made matches Ok((token, exp)) ==> exp - now == expire_hours * 3600 && token@ == jwt_token(
            secret,
            exp,
        ),
        made matches Ok((token, exp)) ==> exp >= 0 ==> jwt_standing(token@, secret)
            == Standing::Good(exp),
{
}

/// The answer on a token is what came of holding it against the secret and the clock. A token that
/// is accepted is signed, and states what the answer says; one that would be accepted is turned
/// away for nothing but its expiry.
pub proof fn only_signed_tokens_are_accepted(
    token: Seq<char>,
    secret: Seq<char>,
    checked: Result<Claims, TokenFault>,
)
    requires
        verdict_on(token, secret, checked),
    ensures
        checked matches Ok(claims) ==> crate::clock::was_judged(token, secret, Ok(claims.exp)),
        checked matches Err(fault) ==> crate::clock::was_judged(token, secret, Err(fault)),
        checked matches Ok(claims) ==> jwt_standing(token, secret) == Standing::Good(claims.exp),
        jwt_standing(token, secret) is Good && checked is Err ==> checked == Err::<
            Claims,
            TokenFault,
        >(TokenFault::Expired),
        jwt_standing(token, secret) is Refused ==> checked is Err,
{
}

} // verus!
