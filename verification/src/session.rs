//! Session tokens and the signed cookie that carries them.
//!
//! A token is the text `<user id>/<session id>`, the session id being 128
//! random bits written as 32 upper-case hexadecimal digits. The cookie holds
//! the token behind a signature, so that a client cannot change it unseen.

use crate::text::{decimal_text, digit_char, push_decimal};
use vstd::prelude::*;
use vstd::string::StringExecFns;

verus! {

/// The name of the cookie that carries the session token.
pub const LOGIN_COOKIE: &'static str = "phdsa";

/// For how long a browser keeps the cookie: thirty days.
pub const SESSION_MAX_AGE_SECONDS: u64 = 2592000;

/// The least number of key bytes that signing takes.
pub const KEY_LENGTH: usize = 64;

/// The upper-case hexadecimal digit that stands for `d`, for `d` below sixteen.
pub open spec fn hex_digit_upper(d: nat) -> char {
    if d < 10 {
        digit_char(d)
    } else if d == 10 {
        'A'
    } else if d == 11 {
        'B'
    } else if d == 12 {
        'C'
    } else if d == 13 {
        'D'
    } else if d == 14 {
        'E'
    } else {
        'F'
    }
}

/// The lowest `width` hexadecimal digits of `value`, most significant first.
pub open spec fn hex_text(value: nat, width: nat) -> Seq<char>
    decreases width,
{
    if width == 0 {
        Seq::empty()
    } else {
        hex_text(value / 16, (width - 1) as nat).push(hex_digit_upper(value % 16))
    }
}

/// A session id as it stands in a token: 32 upper-case hexadecimal digits.
pub open spec fn session_id_text(session_id: u128) -> Seq<char> {
    hex_text(session_id as nat, 32)
}

/// The token of a user and a session id.
pub open spec fn token_text(user_id: u32, session_id: u128) -> Seq<char> {
    decimal_text(user_id as nat) + seq!['/'] + session_id_text(session_id)
}

/// `hex_text` has the width that was asked for.
pub proof fn lemma_hex_text_len(value: nat, width: nat)
    ensures
        hex_text(value, width).len() == width,
    decreases width,
{
    if width > 0 {
        lemma_hex_text_len(value / 16, (width - 1) as nat);
    }
}

/// Every session id is written with 32 characters.
pub proof fn lemma_session_id_text_len(session_id: u128)
    ensures
        session_id_text(session_id).len() == 32,
{
    lemma_hex_text_len(session_id as nat, 32);
}

/// Draws a session id with `uuid::Uuid::new_v4` and hands it out as the
/// number that `as_u128` gives. The id is random: nothing is claimed of it.
#[verifier::external_body]
fn fresh_session_id() -> (session_id: u128) {
    uuid::Uuid::new_v4().as_u128()
}

/// Writes a session id as `uuid` does for `{:X}` on the simple form of
/// `Uuid::from_u128(session_id)`: the sixteen bytes of the number, most
/// significant first, each as two upper-case hexadecimal digits.
#[verifier::external_body]
fn session_id_hex(session_id: u128) -> (text: String)
    ensures
        text@ == session_id_text(session_id),
{
    format!("{:X}", uuid::Uuid::from_u128(session_id).as_simple())
}

/// An opaque session token.
pub struct SessionToken {
    value: String,
}

impl View for SessionToken {
    type V = Seq<char>;

    closed spec fn view(&self) -> Seq<char> {
        self.value@
    }
}

impl SessionToken {
    /// The text of the token.
    pub fn as_str(&self) -> (text: &str)
        ensures
            text@ == self@,
    {
        self.value.as_str()
    }
}

/// The token of `user_id` for a session id that is already drawn.
pub fn issue_with(user_id: u32, session_id: u128) -> (token: SessionToken)
    ensures
        token@ == token_text(user_id, session_id),
{
    let mut value = String::new();
    push_decimal(&mut value, user_id);
    proof {
        reveal_strlit("/");
    }
    value.append("/");
    let hex = session_id_hex(session_id);
    value.append(hex.as_str());
    assert(value@ =~= token_text(user_id, session_id));
    SessionToken { value }
}

/// A token of `user_id` with a fresh random session id.
pub fn issue(user_id: u32) -> (token: SessionToken)
    ensures
        exists|session_id: u128| token@ == token_text(user_id, session_id),
{
    let session_id = fresh_session_id();
    issue_with(user_id, session_id)
}

/// The key that cookies are signed with.
pub struct SigningKey {
    bytes: Vec<u8>,
}

impl View for SigningKey {
    type V = Seq<u8>;

    closed spec fn view(&self) -> Seq<u8> {
        self.bytes@
    }
}

impl SigningKey {
    #[verifier::type_invariant]
    spec fn long_enough(self) -> bool {
        self.bytes@.len() >= KEY_LENGTH
    }

    /// A key of the given bytes; none where they are fewer than
    /// [`KEY_LENGTH`].
    pub fn from_bytes(bytes: Vec<u8>) -> (key: Option<SigningKey>)
        ensures
            key is Some <==> bytes@.len() >= KEY_LENGTH,
            key matches Some(k) ==> k@ == bytes@,
    {
        if bytes.len() >= KEY_LENGTH {
            Some(SigningKey { bytes })
        } else {
            None
        }
    }
}

/// What a signed cookie jar of the `cookie` crate stores as the value of a
/// cookie `name` with value `value` that is added under `key`.
pub uninterp spec fn signed_value(key: Seq<u8>, name: Seq<char>, value: Seq<char>) -> Seq<char>;

/// What a signed cookie jar of the `cookie` crate under `key` makes of a
/// cookie `name` that arrives with the value `signed`: the value behind the
/// signature where the signature is that of `key`, else nothing.
pub uninterp spec fn verified_value(key: Seq<u8>, name: Seq<char>, signed: Seq<char>) -> Option<
    Seq<char>,
>;

/// Adds the cookie to an empty `cookie::CookieJar` through `signed_mut`, under
/// `cookie::Key::from(key)`, and reads back what the jar stores for it: the
/// signature over the value, followed by the value. `Key::from` takes the
/// first 64 bytes and panics on fewer. The crate documents that verification
/// always succeeds on a cookie that a signed jar with the same key produced,
/// which is the second clause.
#[verifier::external_body]
fn sign_value(key: &[u8], name: &str, value: &str) -> (signed: String)
    requires
        key@.len() >= KEY_LENGTH,
    ensures
        signed@ == signed_value(key@, name@, value@),
        verified_value(key@, name@, signed@) == Some(value@),
{
    let mut jar = cookie::CookieJar::new();
    let plain = cookie::Cookie::new(name.to_owned(), value.to_owned());
    jar.signed_mut(&cookie::Key::from(key)).add(plain);
    jar.get(name).map(|stored| stored.value().to_owned()).unwrap_or_default()
}

/// Hands the cookie to `verify` of a signed `cookie::CookieJar` under
/// `cookie::Key::from(key)`, which returns the cookie with the value behind
/// the signature, or nothing where the signature is not that of the key.
#[verifier::external_body]
fn verify_value(key: &[u8], name: &str, signed: &str) -> (value: Option<String>)
    requires
        key@.len() >= KEY_LENGTH,
    ensures
        match value {
            Some(text) => verified_value(key@, name@, signed@) == Some(text@),
            None => verified_value(key@, name@, signed@) is None,
        },
{
    let jar = cookie::CookieJar::new();
    let received = cookie::Cookie::new(name.to_owned(), signed.to_owned());
    jar.signed(&cookie::Key::from(key)).verify(received).map(|plain| plain.value().to_owned())
}

/// To which requests a browser attaches a cookie.
#[derive(Clone, Copy, Debug, PartialEq, Eq, Structural)]
pub enum SameSite {
    Strict,
    Lax,
    CrossSite,
}

/// A cookie to set, as plain values.
pub struct SessionCookie {
    pub name: String,
    pub value: String,
    pub path: String,
    pub http_only: bool,
    pub same_site: SameSite,
    pub max_age_seconds: u64,
}

/// The token behind a cookie value as it arrived, if there is one and its
/// signature is that of `key`.
pub open spec fn extracted(raw: Option<Seq<char>>, key: Seq<u8>) -> Option<Seq<char>> {
    match raw {
        None => None,
        Some(signed) => verified_value(key, LOGIN_COOKIE@, signed),
    }
}

/// The text of a cookie value that may be absent.
pub open spec fn raw_text(raw: Option<&str>) -> Option<Seq<char>> {
    match raw {
        None => None,
        Some(signed) => Some(signed@),
    }
}

/// The cookie that carries `token`: signed with `key`, for every path, hidden
/// from scripts, sent on same-site requests only, kept for thirty days.
pub fn embed(token: &SessionToken, key: &SigningKey) -> (cookie: SessionCookie)
    ensures
        cookie.name@ == LOGIN_COOKIE@,
        cookie.value@ == signed_value(key@, LOGIN_COOKIE@, token@),
        extracted(Some(cookie.value@), key@) == Some(token@),
        cookie.path@ == "/"@,
        cookie.http_only,
        cookie.same_site == SameSite::Strict,
        cookie.max_age_seconds == SESSION_MAX_AGE_SECONDS,
{
    proof {
        use_type_invariant(key);
    }
    let value = sign_value(key.bytes.as_slice(), LOGIN_COOKIE, token.as_str());
    SessionCookie {
        name: String::from_str(LOGIN_COOKIE),
        value,
        path: String::from_str("/"),
        http_only: true,
        same_site: SameSite::Strict,
        max_age_seconds: SESSION_MAX_AGE_SECONDS,
    }
}

/// The token of a request: `raw` is the value of the login cookie as it
/// arrived, `None` where the request has no such cookie. A cookie whose
/// signature is not that of `key` gives `None`, as a missing cookie does.
pub fn extract(raw: Option<&str>, key: &SigningKey) -> (token: Option<SessionToken>)
    ensures
        match token {
            Some(t) => extracted(raw_text(raw), key@) == Some(t@),
            None => extracted(raw_text(raw), key@) is None,
        },
{
    proof {
        use_type_invariant(key);
    }
    match raw {
        None => None,
        Some(signed) => match verify_value(key.bytes.as_slice(), LOGIN_COOKIE, signed) {
            None => None,
            Some(value) => Some(SessionToken { value }),
        },
    }
}

/// A cookie that does not verify is worth what a missing cookie is worth.
pub proof fn lemma_rejected_cookie_is_absent(signed: Seq<char>, key: Seq<u8>)
    requires
        verified_value(key, LOGIN_COOKIE@, signed) is None,
    ensures
        extracted(Some(signed), key) == extracted(None, key),
{
}

/// Extracting from the cookie that `embed` made of a token, with the same
/// key, gives that token back: `cookie_value` is any value that verifies to
/// `token` under `key`, as `embed` ensures of the value it returns.
pub proof fn lemma_embed_extract_round_trip(token: Seq<char>, cookie_value: Seq<char>, key: Seq<u8>)
    requires
        verified_value(key, LOGIN_COOKIE@, cookie_value) == Some(token),
    ensures
        extracted(Some(cookie_value), key) == Some(token),
{
}

} // verus!
