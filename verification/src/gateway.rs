//! The decisions of the gateway between its exchanges with the session
//! backend: what to ask of the backend, and what to answer the client once the
//! backend has answered or failed to.
//!
//! Nothing here sends or receives. The caller performs each
//! [`BackendRequest`], reports how it went as an [`Exchange`] and, where it is
//! asked to read on, as a [`Body`].

use crate::password::VerifyPassword;
use crate::session::{
    embed, extract, extracted, issue, raw_text, signed_value, token_text, SameSite, SessionCookie,
    SessionToken, SigningKey, LOGIN_COOKIE, SESSION_MAX_AGE_SECONDS,
};
use vstd::prelude::*;
use vstd::string::StringExecFns;

verus! {

pub const OK: u16 = 200;

pub const UNAUTHORIZED: u16 = 401;

pub const INTERNAL_SERVER_ERROR: u16 = 500;

pub const SERVICE_UNAVAILABLE: u16 = 503;

/// The identity of the user behind an authenticated request.
#[derive(Clone, Copy, Debug, PartialEq, Eq, Structural)]
pub struct UserInfo {
    pub id: u32,
}

#[derive(Clone, Copy, Debug, PartialEq, Eq, Structural)]
pub enum Method {
    Get,
    Post,
}

/// A request to the session backend.
pub struct BackendRequest {
    pub method: Method,
    pub url: String,
    pub body: Vec<u8>,
}

/// How sending a request went: no response at all, or a response with this
/// status.
#[derive(Clone, Copy, Debug, PartialEq, Eq, Structural)]
pub enum Exchange {
    Unreachable,
    Status(u16),
}

/// How reading the body of a response went.
pub enum Body {
    Unreadable,
    Bytes(Vec<u8>),
}

/// An answer to the client.
pub struct Reply {
    pub status: u16,
    pub body: &'static str,
    pub cookie: Option<SessionCookie>,
}

impl Reply {
    /// The answer has this status and body, and sets no cookie.
    pub open spec fn is_plain(&self, status: u16, body: Seq<char>) -> bool {
        self.status == status && self.body@ == body && self.cookie is None
    }
}

fn plain(status: u16, body: &'static str) -> (reply: Reply)
    ensures
        reply.is_plain(status, body@),
{
    Reply { status, body, cookie: None }
}

/// Where a session is registered.
pub open spec fn session_post_url(data_server: Seq<char>, token: Seq<char>) -> Seq<char> {
    data_server + "/api/post/one/"@ + token
}

/// Where a session is looked up.
pub open spec fn session_get_url(data_server: Seq<char>, token: Seq<char>) -> Seq<char> {
    data_server + "/api/get/one/"@ + token
}

/// Where the backend reports its health.
pub open spec fn health_url(data_server: Seq<char>) -> Seq<char> {
    data_server + "/api/health"@
}

/// The four bytes of `n`, least significant first.
pub open spec fn le_bytes_spec(n: u32) -> Seq<u8> {
    seq![
        (n % 256) as u8,
        (n / 256 % 256) as u8,
        (n / 65536 % 256) as u8,
        (n / 16777216) as u8,
    ]
}

/// The number that the first four bytes hold, least significant first;
/// nothing where there are fewer than four.
pub open spec fn le_u32_spec(bytes: Seq<u8>) -> Option<u32> {
    if bytes.len() >= 4 {
        Some((bytes[0] + bytes[1] * 256 + bytes[2] * 65536 + bytes[3] * 16777216) as u32)
    } else {
        None
    }
}

/// The body `OK`.
pub open spec fn healthy_body() -> Seq<u8> {
    seq![79u8, 75u8]
}

/// The identity that login registers is the identity that validation reads.
pub proof fn lemma_le_round_trip(n: u32)
    ensures
        le_u32_spec(le_bytes_spec(n)) == Some(n),
{
}

/// The four bytes of `n`, least significant first.
pub fn le_bytes(n: u32) -> (bytes: Vec<u8>)
    ensures
        bytes@ == le_bytes_spec(n),
{
    let mut bytes: Vec<u8> = Vec::new();
    bytes.push((n % 256) as u8);
    bytes.push((n / 256 % 256) as u8);
    bytes.push((n / 65536 % 256) as u8);
    bytes.push((n / 16777216) as u8);
    assert(bytes@ =~= le_bytes_spec(n));
    bytes
}

/// Calls `nom::number::complete::le_u32` on the bytes and keeps the number.
/// The parser fails on fewer than four bytes; else it adds up the first four,
/// the byte at position `i` shifted left by `8 * i` bits, and leaves the rest.
#[verifier::external_body]
fn le_u32(input: &[u8]) -> (value: Option<u32>)
    ensures
        value == le_u32_spec(input@),
{
    nom::number::complete::le_u32::<&[u8], ()>(input).ok().map(|(_, value)| value)
}

/// The request that registers the session of `token` for `user_id`.
pub fn registration_request(user_id: u32, token: &SessionToken, data_server: &str) -> (request:
    BackendRequest)
    ensures
        request.method == Method::Post,
        request.url@ == session_post_url(data_server@, token@),
        request.body@ == le_bytes_spec(user_id),
{
    let mut url = String::from_str(data_server);
    url.append("/api/post/one/");
    url.append(token.as_str());
    BackendRequest { method: Method::Post, url, body: le_bytes(user_id) }
}

/// How a login begins.
pub enum LoginStart {
    /// The credentials were not accepted: answer this.
    Rejected(Reply),
    /// The credentials were accepted: register the session with this request,
    /// keep the token for [`finish_login`].
    Register { token: SessionToken, request: BackendRequest },
}

/// Begins a login for a user whose credentials have been checked: `verified`
/// is what the credential store gave.
pub fn start_session(verified: Option<u32>, data_server: &str) -> (step: LoginStart)
    ensures
        match verified {
            None => step matches LoginStart::Rejected(reply) && reply.is_plain(UNAUTHORIZED, ""@),
            Some(user_id) => step matches LoginStart::Register { token, request } && (exists|
                session_id: u128,
            |
                token@ == token_text(user_id, session_id)) && request.method == Method::Post
                && request.url@ == session_post_url(data_server@, token@) && request.body@
                == le_bytes_spec(user_id),
        },
{
    match verified {
        None => LoginStart::Rejected(plain(UNAUTHORIZED, "")),
        Some(user_id) => {
            let token = issue(user_id);
            let request = registration_request(user_id, &token, data_server);
            LoginStart::Register { token, request }
        },
    }
}

/// Begins a login: checks the password, and for a user whose password matches
/// issues a token and says how to register it.
pub fn begin_login<V: VerifyPassword>(
    credentials: &V,
    username: &str,
    password: &str,
    data_server: &str,
) -> (step: LoginStart)
    ensures
        match credentials.accepts(username@, password@) {
            None => step matches LoginStart::Rejected(reply) && reply.is_plain(UNAUTHORIZED, ""@),
            Some(user_id) => step matches LoginStart::Register { token, request } && (exists|
                session_id: u128,
            |
                token@ == token_text(user_id, session_id)) && request.method == Method::Post
                && request.url@ == session_post_url(data_server@, token@) && request.body@
                == le_bytes_spec(user_id),
        },
{
    start_session(credentials.check_password(username, password), data_server)
}

/// Ends a login once the backend was asked to register the session: on
/// status 200 the client gets the signed cookie and the page to go to, on any
/// other status a 500, and a 503 where the backend could not be reached.
pub fn finish_login(token: &SessionToken, outcome: Exchange, key: &SigningKey) -> (reply: Reply)
    ensures
        match outcome {
            Exchange::Unreachable => reply.is_plain(SERVICE_UNAVAILABLE, ""@),
            Exchange::Status(status) => if status == OK {
                &&& reply.status == OK
                &&& reply.body@ == "/main"@
                &&& reply.cookie matches Some(cookie)
                &&& cookie.name@ == LOGIN_COOKIE@
                &&& cookie.value@ == signed_value(key@, LOGIN_COOKIE@, token@)
                &&& extracted(Some(cookie.value@), key@) == Some(token@)
                &&& cookie.path@ == "/"@
                &&& cookie.http_only
                &&& cookie.same_site == SameSite::Strict
                &&& cookie.max_age_seconds == SESSION_MAX_AGE_SECONDS
            } else {
                reply.is_plain(INTERNAL_SERVER_ERROR, ""@)
            },
        },
{
    match outcome {
        Exchange::Unreachable => plain(SERVICE_UNAVAILABLE, ""),
        Exchange::Status(status) => {
            if status == OK {
                Reply { status: OK, body: "/main", cookie: Some(embed(token, key)) }
            } else {
                plain(INTERNAL_SERVER_ERROR, "")
            }
        },
    }
}

/// How the authentication of a request begins.
pub enum AuthStart {
    /// No token: answer this.
    Rejected(Reply),
    /// A token: ask the backend with this request whose session it is.
    Validate(BackendRequest),
}

/// What to do once the backend has answered, or has not.
pub enum Progress {
    /// Answer this.
    Done(Reply),
    /// Read the body of the response and decide on that.
    ReadBody,
}

/// Begins the authentication of a request: `raw_cookie` is the value of the
/// login cookie as it arrived, `None` where there is none. Without a cookie
/// whose signature is that of `key` the request is rejected with 401.
pub fn begin_authentication(raw_cookie: Option<&str>, key: &SigningKey, data_server: &str) -> (step:
    AuthStart)
    ensures
        match extracted(raw_text(raw_cookie), key@) {
            None => step matches AuthStart::Rejected(reply) && reply.is_plain(UNAUTHORIZED, ""@),
            Some(token) => step matches AuthStart::Validate(request) && request.method
                == Method::Get && request.url@ == session_get_url(data_server@, token)
                && request.body@ == Seq::<u8>::empty(),
        },
{
    match extract(raw_cookie, key) {
        None => AuthStart::Rejected(plain(UNAUTHORIZED, "")),
        Some(token) => {
            let mut url = String::from_str(data_server);
            url.append("/api/get/one/");
            url.append(token.as_str());
            AuthStart::Validate(BackendRequest { method: Method::Get, url, body: Vec::new() })
        },
    }
}

/// Goes on with an authentication once the backend was asked: a backend that
/// cannot be reached or answers with another status than 200 vouches for
/// nobody, and the request is rejected with 401.
pub fn on_validation_status(outcome: Exchange) -> (next: Progress)
    ensures
        match outcome {
            Exchange::Status(status) if status == OK => next is ReadBody,
            _ => next matches Progress::Done(reply) && reply.is_plain(UNAUTHORIZED, ""@),
        },
{
    match outcome {
        Exchange::Unreachable => Progress::Done(plain(UNAUTHORIZED, "")),
        Exchange::Status(status) => if status == OK {
            Progress::ReadBody
        } else {
            Progress::Done(plain(UNAUTHORIZED, ""))
        },
    }
}

/// Whom a body of the backend vouches for: the user whose id its first four
/// bytes hold. A body that cannot be read, or is too short, is a fault of the
/// backend.
pub open spec fn validated(body: Body) -> Option<u32> {
    match body {
        Body::Unreadable => None,
        Body::Bytes(bytes) => le_u32_spec(bytes@),
    }
}

/// Ends an authentication on the body of a response with status 200: the
/// user that the backend names, or a rejection with 500.
pub fn on_validation_body(body: &Body) -> (user: Result<UserInfo, Reply>)
    ensures
        match validated(*body) {
            Some(id) => user == Ok::<UserInfo, Reply>(UserInfo { id }),
            None => user matches Err(reply) && reply.is_plain(INTERNAL_SERVER_ERROR, ""@),
        },
{
    match body {
        Body::Unreadable => Err(plain(INTERNAL_SERVER_ERROR, "")),
        Body::Bytes(bytes) => match le_u32(bytes.as_slice()) {
            None => Err(plain(INTERNAL_SERVER_ERROR, "")),
            Some(id) => Ok(UserInfo { id }),
        },
    }
}

/// The request that asks the backend for its health.
pub fn health_request(data_server: &str) -> (request: BackendRequest)
    ensures
        request.method == Method::Get,
        request.url@ == health_url(data_server@),
        request.body@ == Seq::<u8>::empty(),
{
    let mut url = String::from_str(data_server);
    url.append("/api/health");
    BackendRequest { method: Method::Get, url, body: Vec::new() }
}

/// Goes on with a health check once the backend was asked.
pub fn on_health_status(outcome: Exchange) -> (next: Progress)
    ensures
        match outcome {
            Exchange::Unreachable => next matches Progress::Done(reply) && reply.is_plain(
                SERVICE_UNAVAILABLE,
                "SESSION BACKEND: MISSING"@,
            ),
            Exchange::Status(status) => if status == OK {
                next is ReadBody
            } else {
                next matches Progress::Done(reply) && reply.is_plain(
                    SERVICE_UNAVAILABLE,
                    "SESSION BACKEND: UNAVAILABLE"@,
                )
            },
        },
{
    match outcome {
        Exchange::Unreachable => Progress::Done(
            plain(SERVICE_UNAVAILABLE, "SESSION BACKEND: MISSING"),
        ),
        Exchange::Status(status) => if status == OK {
            Progress::ReadBody
        } else {
            Progress::Done(plain(SERVICE_UNAVAILABLE, "SESSION BACKEND: UNAVAILABLE"))
        },
    }
}

/// Ends a health check on the body of a response with status 200: the
/// backend is well exactly if the body is `OK`.
pub fn on_health_body(body: &Body) -> (reply: Reply)
    ensures
        match *body {
            Body::Unreadable => reply.is_plain(SERVICE_UNAVAILABLE, "SESSION BACKEND: COMM ERROR"@),
            Body::Bytes(bytes) => if bytes@ == healthy_body() {
                reply.is_plain(OK, "OK"@)
            } else {
                reply.is_plain(SERVICE_UNAVAILABLE, "SESSION BACKEND: UNAVAILABLE"@)
            },
        },
{
    match body {
        Body::Unreadable => plain(SERVICE_UNAVAILABLE, "SESSION BACKEND: COMM ERROR"),
        Body::Bytes(bytes) => {
            if bytes.len() == 2 && bytes[0] == 79 && bytes[1] == 75 {
                assert(bytes@ =~= healthy_body());
                plain(OK, "OK")
            } else {
                plain(SERVICE_UNAVAILABLE, "SESSION BACKEND: UNAVAILABLE")
            }
        },
    }
}

} // verus!
