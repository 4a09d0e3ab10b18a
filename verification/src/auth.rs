//! Identity handling around the opaque bearer tokens: extracting the token
//! from an authorization header, the claims a token carries, normalizing
//! login identifiers, the login gate, and decoding emailed verification
//! codes. The signing and checking of token signatures, like password
//! hashing, is a cryptographic primitive outside this library; every
//! decision around those primitives is made here, on plain values.

use vstd::prelude::*;

use base64::engine::general_purpose::STANDARD;
use base64::Engine;

use crate::text::find_char;
use crate::text::spec_find_char;
use vstd::utf8::encode_utf8;
use vstd::utf8::valid_utf8;

verus! {

/// What a bearer token asserts: a subject and an absolute expiry timestamp.
pub struct Claims {
    pub sub: String,
    pub exp: usize,
}

impl Claims {
    pub fn new(sub: String, exp: usize) -> (c: Self)
        ensures
            c.sub == sub,
            c.exp == exp,
    {
        Claims { sub, exp }
    }

    /// A token is good strictly before its expiry timestamp.
    pub fn valid_at(&self, now: usize) -> (r: bool)
        ensures
            r == (now < self.exp),
    {
        now < self.exp
    }
}

/// A signup request.
pub struct AuthPayload {
    pub email: String,
    pub username: String,
    pub password: String,
}

/// A login request; a missing field reads as the empty string.
pub struct LoginParams {
    pub username: String,
    pub email: String,
    pub password: String,
}

/// An email-verification request; a missing code reads as the empty string.
pub struct VerifyParams {
    pub code: String,
}

/// The value given to a request field that was left out.
pub fn default_str() -> (r: String)
    ensures
        r@.len() == 0,
{
    String::new()
}

/// The token part of an authorization header value of the shape
/// `Bearer <token>`: the piece between the first space and the next space or
/// the end. A value without any space carries no token.
pub fn parse_bearer_token(header: &str) -> (r: Option<String>)
    ensures
        ({
            let i = spec_find_char(header@, ' ', 0);
            match r {
                None => i == header@.len(),
                Some(t) => {
                    &&& i < header@.len()
                    &&& t@ == header@.subrange(i + 1, spec_find_char(header@, ' ', i + 1))
                },
            }
        }),
{
    let n = header.unicode_len();
    let i = find_char(header, ' ', 0);
    if i == n {
        return None;
    }
    let j = find_char(header, ' ', i + 1);
    let token = header.substring_char(i + 1, j);
    Some(token.to_owned())
}

/// What `str::to_lowercase` returns for the given characters; the result
/// depends on the characters alone.
pub uninterp spec fn lower_of(s: Seq<char>) -> Seq<char>;

/// Relies on str::to_lowercase: a pure, locale-independent function of the
/// input characters; the empty string stays empty.
#[verifier::external_body]
fn lowercase(s: &str) -> (r: String)
    ensures
        r@ == lower_of(s@),
        s@.len() == 0 ==> r@.len() == 0,
{
    s.to_lowercase()
}

/// The identifier a login request is resolved under: the email when one was
/// given, the username otherwise, folded to lower case either way.
pub fn normalize_identity(username: &String, email: &String) -> (id: String)
    ensures
        email@.len() == 0 ==> id@ == lower_of(username@),
        email@.len() > 0 ==> id@ == lower_of(email@),
{
    if email.as_str().is_empty() {
        lowercase(username.as_str())
    } else {
        lowercase(email.as_str())
    }
}

/// Whether a login request is even worth a lookup: both the identifier and
/// the password must be non-empty.
pub fn login_precheck(id: &String, password: &String) -> (r: bool)
    ensures
        r == (id@.len() > 0 && password@.len() > 0),
{
    !id.as_str().is_empty() && !password.as_str().is_empty()
}

/// What the user store holds about an account.
pub struct UserLookup {
    pub hash: String,
    pub verified: i32,
    pub username: String,
    pub email: String,
}

/// The login gate over the store's answer: only an existing, verified
/// account may proceed, and the caller learns nothing about which condition
/// failed. The password check against the returned hash comes after this
/// gate.
pub fn login_user_gate(lookup: Option<UserLookup>) -> (r: Option<(String, String)>)
    ensures
        match r {
            Some((hash, username)) => {
                &&& lookup is Some
                &&& lookup->Some_0.verified != 0
                &&& hash == lookup->Some_0.hash
                &&& username == lookup->Some_0.username
            },
            None => lookup is None || lookup->Some_0.verified == 0,
        },
{
    match lookup {
        Some(u) => {
            if u.verified == 0 {
                None
            } else {
                Some((u.hash, u.username))
            }
        },
        None => None,
    }
}

/// The identity a decoded token yields: the subject when the token held
/// good claims, and no identity — never an exception — when it did not.
/// Every caller treats the unauthenticated outcome identically.
pub fn token_identity(claims: Option<Claims>) -> (r: (bool, String))
    ensures
        match claims {
            Some(c) => r.0 && r.1 == c.sub,
            None => !r.0 && r.1@.len() == 0,
        },
{
    match claims {
        Some(c) => (true, c.sub),
        None => (false, String::new()),
    }
}

/// Whether a stored admin column value grants the admin right: exactly the
/// value one does; any other value, and a missing row, do not.
pub fn admin_row_grants(row: Option<i64>) -> (r: bool)
    ensures
        r == (row == Some(1i64)),
{
    match row {
        Some(v) => v == 1,
        None => false,
    }
}

/// What base64's standard-alphabet decoding returns for the given
/// characters, a function of them alone; refused input reads as `None`.
pub uninterp spec fn base64_decoded(s: Seq<char>) -> Option<Seq<u8>>;

/// Relies on base64's `STANDARD` engine: decoding is deterministic in the
/// input, and the empty input decodes to the empty byte string.
#[verifier::external_body]
fn base64_decode(s: &str) -> (r: Option<Vec<u8>>)
    ensures
        match r {
            Some(v) => base64_decoded(s@) == Some(v@),
            None => base64_decoded(s@) is None,
        },
        s@.len() == 0 ==> r is Some && r->Some_0@ == Seq::<u8>::empty(),
{
    match STANDARD.decode(s) {
        Ok(v) => Some(v),
        Err(_) => None,
    }
}

/// Relies on String::from_utf8: it accepts exactly the valid UTF-8 byte
/// strings and decodes them, so the returned string re-encodes to the input.
#[verifier::external_body]
fn bytes_to_utf8(v: Vec<u8>) -> (r: Option<String>)
    ensures
        match r {
            Some(s) => valid_utf8(v@) && encode_utf8(s@) == v@,
            None => !valid_utf8(v@),
        },
{
    match String::from_utf8(v) {
        Ok(s) => Some(s),
        Err(_) => None,
    }
}

/// Unwraps an emailed verification code: the code arrives base64-encoded,
/// and must decode to well-formed text. An empty, undecodable or non-textual
/// code is refused, and nothing else is.
pub fn decode_verification_code(encoded: &String) -> (r: Option<String>)
    ensures
        encoded@.len() == 0 ==> r is None,
        match r {
            Some(s) => {
                &&& encoded@.len() > 0
                &&& base64_decoded(encoded@) is Some
                &&& valid_utf8(base64_decoded(encoded@)->Some_0)
                &&& encode_utf8(s@) == base64_decoded(encoded@)->Some_0
            },
            None => encoded@.len() == 0 || base64_decoded(encoded@) is None || (base64_decoded(
                encoded@,
            ) is Some && !valid_utf8(base64_decoded(encoded@)->Some_0)),
        },
{
    if encoded.as_str().is_empty() {
        return None;
    }
    match base64_decode(encoded.as_str()) {
        Some(bytes) => bytes_to_utf8(bytes),
        None => None,
    }
}

} // verus!
