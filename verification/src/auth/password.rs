//! Password hashes in the PHC string format, made and checked by Argon2.
use vstd::prelude::*;

use crate::text::chars_of;

verus! {

/// Why a password was not hashed or not accepted.
#[derive(Debug, Clone, Copy, PartialEq, Eq)]
pub struct PasswordFault;

/// The longest password that Argon2 takes, in bytes.
pub const MAX_HASHED_LEN: u64 = 0xffff_ffff;

/// Whether Argon2 accepts the password against the hash.
pub uninterp spec fn argon2_accepts(password: Seq<char>, hash: Seq<char>) -> bool;

/// Whether a hash asks, at position `i`, for a number of lanes that has nine digits or more.
pub open spec fn asks_for_long_lanes(hash: Seq<char>, i: int) -> bool {
    &&& 0 <= i <= hash.len() - 11
    &&& hash[i] == 'p'
    &&& hash[i + 1] == '='
    &&& forall|k: int| i + 2 <= k < i + 11 ==> '0' <= #[trigger] hash[k] <= '9'
}

/// Whether a hash asks nowhere for a number of lanes of nine digits or more. Argon2 has at most
/// 16777215 lanes, so no other hash is ever accepted.
pub open spec fn lanes_fit(hash: Seq<char>) -> bool {
    forall|i: int| !asks_for_long_lanes(hash, i)
}

/// Whether the password is the one behind the hash.
pub open spec fn is_accepted(password: Seq<char>, hash: Seq<char>) -> bool {
    lanes_fit(hash) && argon2_accepts(password, hash)
}

/// `argon2`'s `hash_password` under its default parameters, which ask for one lane, with a fresh
/// random salt. The salt makes every hash another one; each of them is a text that is not empty
/// and against which the password is accepted. Only the length of the password can make it fail.
#[verifier::external_body]
fn argon2_hash(password: &str) -> (r: Result<String, PasswordFault>)
    ensures
        r is Ok <==> crate::text::byte_len(password@) <= MAX_HASHED_LEN,
        r is Ok ==> r->Ok_0@.len() > 0,
        r is Ok ==> lanes_fit(r->Ok_0@),
        r is Ok ==> argon2_accepts(password@, r->Ok_0@),
{
    let mut rng = argon2::password_hash::rand_core::OsRng;
    let salt = argon2::password_hash::SaltString::generate(&mut rng);
    argon2::PasswordHasher::hash_password(
        &argon2::Argon2::default(),
        password.as_bytes(),
        &salt,
    ).map(|h| h.to_string()).map_err(|_| PasswordFault)
}

/// `argon2::PasswordHash::new`, then `verify_password` under the parameters that the hash names;
/// the memory that they ask for has to be there. A number of lanes of nine digits or more can
/// overflow while the parameters are read, so such a hash is left out. The answer depends on the
/// password and the hash alone.
#[verifier::external_body]
fn argon2_verify(password: &str, hash: &str) -> (r: bool)
    requires
        lanes_fit(hash@),
    ensures
        r == argon2_accepts(password@, hash@),
{
    argon2::PasswordHash::new(hash).and_then(
        |h|
            argon2::PasswordVerifier::verify_password(
                &argon2::Argon2::default(),
                password.as_bytes(),
                &h,
            ),
    ).is_ok()
}

/// Whether nine digits stand in the text from `at` on.
fn nine_digits(text: &[char], at: usize) -> (r: bool)
    requires
        at + 9 <= text@.len(),
    ensures
        r == (forall|k: int| at <= k < at + 9 ==> '0' <= #[trigger] text@[k] <= '9'),
{
    let room: usize = text.len();
    assert(at + 9 <= room);
    for k in at..at + 9
        invariant
            at + 9 <= text@.len(),
            forall|j: int| at <= j < k ==> '0' <= #[trigger] text@[j] <= '9',
    {
        let c: char = text[k];
        if !('0' <= c && c <= '9') {
            assert(!('0' <= text@[k as int] <= '9'));
            return false;
        }
    }
    true
}

/// Whether a hash asks nowhere for a number of lanes of nine digits or more.
fn has_fitting_lanes(hash: &str) -> (r: bool)
    ensures
        r == lanes_fit(hash@),
{
    let text = chars_of(hash);
    let mut i: usize = 0;
    while i < text.len() && text.len() - i >= 11
        invariant
            0 <= i <= text@.len(),
            text@ == hash@,
            forall|j: int| 0 <= j < i ==> !asks_for_long_lanes(hash@, j),
        decreases text@.len() - i,
    {
        if text[i] == 'p' && text[i + 1] == '=' && nine_digits(text.as_slice(), i + 2) {
            assert(asks_for_long_lanes(hash@, i as int));
            return false;
        }
        assert(!asks_for_long_lanes(hash@, i as int));
        i = i + 1;
    }
    true
}

/// Hashes a password under a fresh salt.
pub fn hash(password: &str) -> (r: Result<String, PasswordFault>)
    ensures
        r is Ok <==> crate::text::byte_len(password@) <= MAX_HASHED_LEN,
        r matches Ok(hash) ==> hash@.len() > 0 && is_accepted(password@, hash@),
{
    argon2_hash(password)
}

/// Checks a password against a hash.
pub fn verify(password: &str, hash: &str) -> (r: Result<(), PasswordFault>)
    ensures
        r is Ok <==> is_accepted(password@, hash@),
{
    if has_fitting_lanes(hash) && argon2_verify(password, hash) {
        Ok(())
    } else {
        Err(PasswordFault)
    }
}

/// Whether a text is nine decimal digits.
pub open spec fn is_nine_digits(s: Seq<char>) -> bool {
    s.len() == 9 && forall|k: int| 0 <= k < 9 ==> '0' <= #[trigger] s[k] <= '9'
}

/// A password is accepted only where Argon2 accepts it, and never against a hash that asks for a
/// number of lanes of nine digits or more; against any other hash it is accepted as Argon2 says.
pub proof fn argon2_has_the_say(
    password: Seq<char>,
    hash: Seq<char>,
    front: Seq<char>,
    digits: Seq<char>,
    back: Seq<char>,
)
    ensures
        is_accepted(password, hash) ==> argon2_accepts(password, hash),
        is_nine_digits(digits) ==> !is_accepted(password, front + "p="@ + digits + back),
        argon2_accepts(password, hash) && !is_accepted(password, hash) ==> exists|i: int|
            0 <= i <= hash.len() - 11 && hash.subrange(i, i + 2) == "p="@ && is_nine_digits(
                #[trigger] hash.subrange(i + 2, i + 11),
            ),
{
    reveal_strlit("p=");
    if is_nine_digits(digits) {
        let whole = front + "p="@ + digits + back;
        let i = front.len() as int;
        assert forall|k: int| i + 2 <= k < i + 11 implies '0' <= #[trigger] whole[k] <= '9' by {
            assert(whole[k] == digits[k - i - 2]);
        }
        assert(whole[i] == "p="@[0]);
        assert(whole[i + 1] == "p="@[1]);
        assert(asks_for_long_lanes(whole, i));
    }
    if !lanes_fit(hash) {
        let i = choose|i: int| asks_for_long_lanes(hash, i);
        assert(hash.subrange(i, i + 2) == "p="@);
        let d = hash.subrange(i + 2, i + 11);
        assert forall|k: int| 0 <= k < 9 implies '0' <= #[trigger] d[k] <= '9' by {
            assert(d[k] == hash[i + 2 + k]);
        }
        assert(is_nine_digits(d));
    }
}

} // verus!
