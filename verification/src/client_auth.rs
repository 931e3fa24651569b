//! Client-side auth for the netplay REST endpoints: the requests a client
//! sends and how it reads the answers.
//!
//! Players log in or register for a bearer token and then open the WebSocket
//! with it; an admin tool logs in on the admin host and may trade its bearer
//! for a longer-lived one. The HTTP exchange itself happens outside this
//! module: it builds each request and reads back the outcome.

use vstd::prelude::*;
use vstd::string::StringExecFns;

use crate::server_auth::{refused, Grant, Refusal};
use crate::text::{trim, trimmed, trim_back, trim_front};

verus! {

/// A minted bearer token and how long it lives.
#[derive(Clone, Debug, PartialEq, Eq)]
pub struct Token {
    pub token: String,
    pub expires_in_hours: i64,
}

/// Why an auth request failed.
#[derive(Clone, Debug, PartialEq, Eq)]
pub enum AuthError {
    /// The server refused the request (bad password, name taken, ...). Carries
    /// the server's message, suitable to show the user.
    Rejected(String),
    /// The request never got a well-formed answer (network, TLS, decode).
    Transport(String),
}

impl AuthError {
    /// The text to show for this error.
    pub fn message(&self) -> (r: String)
        ensures
            match self {
                AuthError::Rejected(m) => r == m,
                AuthError::Transport(m) => r == m,
            },
    {
        match self {
            AuthError::Rejected(m) => m.clone(),
            AuthError::Transport(m) => m.clone(),
        }
    }
}

/// A `POST` of a `{name, password}` body to `url`.
#[derive(Clone, Debug, PartialEq, Eq)]
pub struct CredentialRequest {
    pub url: String,
    pub name: String,
    pub password: String,
}

/// A `POST {base}/admin/tokens` with an `Authorization` header and an
/// optional requested lifetime in days.
#[derive(Clone, Debug, PartialEq, Eq)]
pub struct DurableTokenRequest {
    pub url: String,
    pub authorization: String,
    pub days: Option<i64>,
}

/// How an auth request came back.
#[derive(Debug, PartialEq, Eq)]
pub enum AuthReply {
    /// A success status, with the body read as a token or the decode error's
    /// text.
    Success(Result<Token, String>),
    /// An error status, with the body text (`None` when it could not be read).
    Status(Option<String>),
    /// No well-formed answer: the transport error's text.
    Failure(String),
}

/// What the user is shown for a refused request with body `body`: the trimmed
/// body, or a generic line when that is empty.
pub open spec fn rejection_message(body: Seq<char>) -> Seq<char> {
    if trimmed(body).len() == 0 {
        "authentication failed"@
    } else {
        trimmed(body)
    }
}

/// What a client makes of an auth reply, with strings read as characters.
pub enum ReadOutcome {
    Token(Token),
    Rejected(Seq<char>),
    Transport(Seq<char>),
}

/// How [`read_token`] reads a reply.
pub open spec fn read_outcome(reply: AuthReply) -> ReadOutcome {
    match reply {
        AuthReply::Success(Ok(t)) => ReadOutcome::Token(t),
        AuthReply::Success(Err(e)) => ReadOutcome::Transport(e@),
        AuthReply::Status(body) => ReadOutcome::Rejected(
            rejection_message(
                match body {
                    Some(b) => b@,
                    None => Seq::empty(),
                },
            ),
        ),
        AuthReply::Failure(e) => ReadOutcome::Transport(e@),
    }
}

/// A result of [`read_token`], with strings read as characters.
pub open spec fn outcome_of(r: Result<Token, AuthError>) -> ReadOutcome {
    match r {
        Ok(t) => ReadOutcome::Token(t),
        Err(AuthError::Rejected(m)) => ReadOutcome::Rejected(m@),
        Err(AuthError::Transport(m)) => ReadOutcome::Transport(m@),
    }
}

/// Registering a name that is taken is refused by the server (`409`, "that
/// name is taken"), and the client reads that refusal, sent as an error
/// status with its text, as a rejection carrying the server's text, never as
/// a transport error.
pub proof fn lemma_taken_name_is_rejected(r: Result<Grant, Refusal>)
    requires
        refused(r, 409, "that name is taken"@),
    ensures
        r matches Err(f) && read_outcome(AuthReply::Status(Some(f.message))) == ReadOutcome::Rejected(
            "that name is taken"@,
        ),
{
    reveal_strlit("that name is taken");
    let m = "that name is taken"@;
    assert(!crate::text::is_white_space(m[0]));
    assert(trim_front(m) == m);
    assert(!crate::text::is_white_space(m.last()));
    assert(trim_back(m) == m);
}

/// `base` followed by `path`.
fn join_url(base: &str, path: &str) -> (r: String)
    ensures
        r@ == base@ + path@,
{
    let mut url = String::from_str(base);
    url.append(path);
    url
}

/// The request that sends `name` and `password` to `base_url` + `path`.
fn credentials_request(base_url: &str, path: &str, name: &str, password: &str) -> (r: CredentialRequest)
    ensures
        r.url@ == base_url@ + path@,
        r.name@ == name@,
        r.password@ == password@,
{
    CredentialRequest { url: join_url(base_url, path), name: name.to_owned(), password: password.to_owned() }
}

/// Log in an existing account: `POST {base_url}/login`.
pub fn player_login_request(base_url: &str, name: &str, password: &str) -> (r: CredentialRequest)
    ensures
        r.url@ == base_url@ + "/login"@,
        r.name@ == name@,
        r.password@ == password@,
{
    credentials_request(base_url, "/login", name, password)
}

/// Register a new account and get a token in one step: `POST {base_url}/register`.
pub fn player_register_request(base_url: &str, name: &str, password: &str) -> (r: CredentialRequest)
    ensures
        r.url@ == base_url@ + "/register"@,
        r.name@ == name@,
        r.password@ == password@,
{
    credentials_request(base_url, "/register", name, password)
}

/// Admin login: `POST {base_url}/admin/login` (admin host).
pub fn admin_login_request(base_url: &str, name: &str, password: &str) -> (r: CredentialRequest)
    ensures
        r.url@ == base_url@ + "/admin/login"@,
        r.name@ == name@,
        r.password@ == password@,
{
    credentials_request(base_url, "/admin/login", name, password)
}

/// Trade an admin bearer for a longer-lived one: `POST {base_url}/admin/tokens`.
/// `days` is the requested lifetime (the server clamps it); `None` takes the
/// default.
pub fn admin_durable_token_request(base_url: &str, bearer: &str, days: Option<i64>) -> (r:
    DurableTokenRequest)
    ensures
        r.url@ == base_url@ + "/admin/tokens"@,
        r.authorization@ == "Bearer "@ + bearer@,
        r.days == days,
{
    DurableTokenRequest {
        url: join_url(base_url, "/admin/tokens"),
        authorization: join_url("Bearer ", bearer),
        days,
    }
}

/// Interpret an auth reply: success -> the token; an error status -> the
/// server's text; anything else -> a transport error.
pub fn read_token(reply: AuthReply) -> (r: Result<Token, AuthError>)
    ensures
        match reply {
            AuthReply::Success(Ok(t)) => r == Ok::<Token, AuthError>(t),
            AuthReply::Success(Err(e)) => r == Err::<Token, AuthError>(AuthError::Transport(e)),
            AuthReply::Status(body) => r matches Err(AuthError::Rejected(m)) && m@ == rejection_message(
                match body {
                    Some(b) => b@,
                    None => Seq::empty(),
                },
            ),
            AuthReply::Failure(e) => r == Err::<Token, AuthError>(AuthError::Transport(e)),
        },
        outcome_of(r) == read_outcome(reply),
{
    match reply {
        AuthReply::Success(Ok(t)) => Ok(t),
        AuthReply::Success(Err(e)) => Err(AuthError::Transport(e)),
        AuthReply::Status(body) => {
            let message = match body {
                Some(b) => b,
                None => String::new(),
            };
            let t = trim(message.as_str());
            let shown = if t.unicode_len() == 0 {
                "authentication failed".to_owned()
            } else {
                t.to_owned()
            };
            Err(AuthError::Rejected(shown))
        },
        AuthReply::Failure(e) => Err(AuthError::Transport(e)),
    }
}

} // verus!
