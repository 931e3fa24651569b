//! The netplay server's account rules: who may register, how long tokens
//! live, how a bearer token and the requested host are read from headers.

use vstd::prelude::*;

use crate::text::{ascii_lower, ascii_lowercase, find_char, trim, trimmed};

verus! {

/// Minimum length, in bytes, for a self-registered password.
pub const MIN_PASSWORD_LEN: usize = 8;

/// Maximum length, in bytes, for an account name: it is broadcast in lobby
/// presence to every client, so an unbounded name is a cheap abuse vector.
pub const MAX_NAME_LEN: usize = 32;

/// How long a login session token stays valid, in hours.
pub const SESSION_TTL_HOURS: i64 = 24;

/// Default lifetime, in days, of a durable admin token.
pub const DURABLE_TTL_DAYS: i64 = 30;

/// Upper bound, in days, a caller may request for a durable admin token.
pub const MAX_DURABLE_TTL_DAYS: i64 = 90;

/// Sent to the client when its token is missing, unknown, or expired.
pub const UNAUTHORIZED_MESSAGE: &'static str = "invalid or expired session token \u{2014} log in again";

/// An account's role.
#[derive(Clone, Copy, Debug, PartialEq, Eq, Structural)]
pub enum Role {
    Player,
    Admin,
}

/// The account behind a validated token.
#[derive(Clone, Debug, PartialEq, Eq)]
pub struct Identity {
    /// Travels with the identity so a role-gated feature can use it.
    pub role: Role,
    /// The account's display name, from the account store, never from the
    /// client.
    pub name: String,
}

/// Why a registration was refused.
#[derive(Clone, Copy, Debug, PartialEq, Eq, Structural)]
pub enum RegisterError {
    /// The name is empty or only whitespace.
    EmptyName,
    /// The name is longer than [`MAX_NAME_LEN`] bytes.
    NameTooLong,
    /// The password is shorter than [`MIN_PASSWORD_LEN`] bytes.
    PasswordTooShort,
}

impl RegisterError {
    /// The message the server answers with.
    pub fn message(&self) -> (r: String)
        ensures
            r@ == match self {
                RegisterError::EmptyName => "name must not be empty"@,
                RegisterError::NameTooLong => "name too long (max 32 characters)"@,
                RegisterError::PasswordTooShort => "password too short (min 8 characters)"@,
            },
    {
        match self {
            RegisterError::EmptyName => "name must not be empty".to_owned(),
            RegisterError::NameTooLong => "name too long (max 32 characters)".to_owned(),
            RegisterError::PasswordTooShort => "password too short (min 8 characters)".to_owned(),
        }
    }
}

/// The outcome of checking a registration: the first rule broken, in the
/// order name present, name short enough, password long enough.
pub open spec fn registration_check(name: &str, password: &str) -> Result<(), RegisterError> {
    if trimmed(name@).len() == 0 {
        Err(RegisterError::EmptyName)
    } else if name.len() > MAX_NAME_LEN {
        Err(RegisterError::NameTooLong)
    } else if password.len() < MIN_PASSWORD_LEN {
        Err(RegisterError::PasswordTooShort)
    } else {
        Ok(())
    }
}

/// Check a self-registration's name and password.
pub fn validate_registration(name: &str, password: &str) -> (r: Result<(), RegisterError>)
    ensures
        r == registration_check(name, password),
{
    if trim(name).unicode_len() == 0 {
        Err(RegisterError::EmptyName)
    } else if name.len() > MAX_NAME_LEN {
        Err(RegisterError::NameTooLong)
    } else if password.len() < MIN_PASSWORD_LEN {
        Err(RegisterError::PasswordTooShort)
    } else {
        Ok(())
    }
}

/// `x` held within `[lo, hi]`.
pub open spec fn clamp(x: int, lo: int, hi: int) -> int {
    if x < lo {
        lo
    } else if x > hi {
        hi
    } else {
        x
    }
}

/// The lifetime, in hours, of a durable admin token for a request of `days`
/// days: the default when absent, clamped to `[1, MAX_DURABLE_TTL_DAYS]`.
pub fn durable_token_hours(days: Option<i64>) -> (r: i64)
    ensures
        r == clamp(
            match days {
                Some(d) => d as int,
                None => DURABLE_TTL_DAYS as int,
            },
            1,
            MAX_DURABLE_TTL_DAYS as int,
        ) * 24,
{
    let d = match days {
        Some(d) => d,
        None => DURABLE_TTL_DAYS,
    };
    let c = if d < 1 {
        1
    } else if d > MAX_DURABLE_TTL_DAYS {
        MAX_DURABLE_TTL_DAYS
    } else {
        d
    };
    c * 24
}

/// The token an `Authorization` header value carries: what follows
/// `"Bearer "`, trimmed.
pub open spec fn bearer_of(value: Seq<char>) -> Option<Seq<char>> {
    if "Bearer "@.is_prefix_of(value) {
        Some(trimmed(value.subrange(7, value.len() as int)))
    } else {
        None
    }
}

/// The bearer token in an `Authorization` header value, if it has one.
pub fn bearer_token(value: &str) -> (r: Option<String>)
    ensures
        match bearer_of(value@) {
            Some(t) => r matches Some(s) && s@ == t,
            None => r is None,
        },
{
    let prefix = "Bearer ";
    proof {
        reveal_strlit("Bearer ");
    }
    let n = value.unicode_len();
    let pn = prefix.unicode_len();
    if n < pn {
        return None;
    }
    let mut i: usize = 0;
    while i < pn
        invariant
            n == value@.len(),
            pn == prefix@.len(),
            prefix@ == "Bearer "@,
            pn <= n,
            i <= pn,
            forall|j: int| 0 <= j < i ==> value@[j] == prefix@[j],
        decreases pn - i,
    {
        if value.get_char(i) != prefix.get_char(i) {
            return None;
        }
        i = i + 1;
    }
    assert(prefix@.is_prefix_of(value@));
    Some(trim(value.substring_char(pn, n)).to_owned())
}

/// The host named by a `Host` header value: the part before any `:port`,
/// ASCII-lowercased.
pub open spec fn host_of(raw: Seq<char>) -> Seq<char> {
    let name = match raw.index_of_first(':') {
        Some(i) => raw.subrange(0, i),
        None => raw,
    };
    name.map_values(|c: char| ascii_lower(c))
}

/// The requested hostname (lowercased, no port) from a `Host` header value.
pub fn request_host(raw: &str) -> (r: String)
    ensures
        r@ == host_of(raw@),
{
    match find_char(raw, ':') {
        Some(i) => ascii_lowercase(raw.substring_char(0, i)),
        None => ascii_lowercase(raw),
    }
}

/// A REST answer that refuses a request: the status code and its text.
#[derive(Clone, Debug, PartialEq, Eq)]
pub struct Refusal {
    pub status: u16,
    pub message: String,
}

/// The account a live session token belongs to.
#[derive(Clone, Debug, PartialEq, Eq)]
pub struct SessionAccount {
    pub user_id: i64,
    pub role: Role,
    pub name: String,
}

/// What looking an account up by name and password found.
#[derive(Clone, Copy, Debug, PartialEq, Eq, Structural)]
pub enum AccountLookup {
    /// The password matches this account.
    Found { user_id: i64, role: Role },
    /// No such account, or the wrong password.
    NotFound,
    /// The store failed.
    Failed,
}

/// What creating an account did.
#[derive(Clone, Copy, Debug, PartialEq, Eq, Structural)]
pub enum CreateOutcome {
    Created { user_id: i64, role: Role },
    NameTaken,
    Failed,
}

/// A session to mint: for which account, with which role, for how many hours.
#[derive(Clone, Copy, Debug, PartialEq, Eq, Structural)]
pub struct Grant {
    pub user_id: i64,
    pub role: Role,
    pub ttl_hours: i64,
}

/// The refusal with `status` and text `message`.
pub open spec fn refused(r: Result<Grant, Refusal>, status: u16, message: Seq<char>) -> bool {
    r matches Err(f) && f.status == status && f.message@ == message
}

/// The identity a session token authorizes on the game socket, if it names a
/// live session.
pub fn identity_of(account: Option<SessionAccount>) -> (r: Option<Identity>)
    ensures
        match account {
            Some(a) => r == Some(Identity { role: a.role, name: a.name }),
            None => r is None,
        },
{
    match account {
        Some(a) => Some(Identity { role: a.role, name: a.name }),
        None => None,
    }
}

/// The admin gate: only a live session of an admin account passes; anything
/// else is `401`.
pub fn require_admin(account: Option<SessionAccount>) -> (r: Result<SessionAccount, Refusal>)
    ensures
        match account {
            Some(a) => if a.role == Role::Admin {
                r == Ok::<SessionAccount, Refusal>(a)
            } else {
                r matches Err(f) && f.status == 401 && f.message@ == "missing or invalid bearer token"@
            },
            None => r matches Err(f) && f.status == 401 && f.message@ == "missing or invalid bearer token"@,
        },
{
    match account {
        Some(a) => match a.role {
            Role::Admin => Ok(a),
            Role::Player => Err(Refusal { status: 401, message: "missing or invalid bearer token".to_owned() }),
        },
        None => Err(Refusal { status: 401, message: "missing or invalid bearer token".to_owned() }),
    }
}

/// A player login: any account whose password matches gets a session.
pub fn login_grant(lookup: AccountLookup) -> (r: Result<Grant, Refusal>)
    ensures
        match lookup {
            AccountLookup::Found { user_id, role } => r == Ok::<Grant, Refusal>(
                Grant { user_id, role, ttl_hours: SESSION_TTL_HOURS },
            ),
            AccountLookup::NotFound => refused(r, 401, "wrong name or password"@),
            AccountLookup::Failed => refused(r, 500, "auth error"@),
        },
{
    match lookup {
        AccountLookup::Found { user_id, role } => Ok(Grant { user_id, role, ttl_hours: SESSION_TTL_HOURS }),
        AccountLookup::NotFound => Err(Refusal { status: 401, message: "wrong name or password".to_owned() }),
        AccountLookup::Failed => Err(Refusal { status: 500, message: "auth error".to_owned() }),
    }
}

/// An admin login: only an admin account gets a session; a player account is
/// forbidden.
pub fn admin_login_grant(lookup: AccountLookup) -> (r: Result<Grant, Refusal>)
    ensures
        match lookup {
            AccountLookup::Found { user_id, role } => if role == Role::Admin {
                r == Ok::<Grant, Refusal>(Grant { user_id, role: Role::Admin, ttl_hours: SESSION_TTL_HOURS })
            } else {
                refused(r, 403, "not an admin"@)
            },
            AccountLookup::NotFound => refused(r, 401, "wrong name or password"@),
            AccountLookup::Failed => refused(r, 500, "auth error"@),
        },
{
    match lookup {
        AccountLookup::Found { user_id, role } => match role {
            Role::Admin => Ok(Grant { user_id, role: Role::Admin, ttl_hours: SESSION_TTL_HOURS }),
            Role::Player => Err(Refusal { status: 403, message: "not an admin".to_owned() }),
        },
        AccountLookup::NotFound => Err(Refusal { status: 401, message: "wrong name or password".to_owned() }),
        AccountLookup::Failed => Err(Refusal { status: 500, message: "auth error".to_owned() }),
    }
}

/// A registration that passed [`validate_registration`]: a created account
/// gets a session; a taken name is a conflict.
pub fn registration_grant(outcome: CreateOutcome) -> (r: Result<Grant, Refusal>)
    ensures
        match outcome {
            CreateOutcome::Created { user_id, role } => r == Ok::<Grant, Refusal>(
                Grant { user_id, role, ttl_hours: SESSION_TTL_HOURS },
            ),
            CreateOutcome::NameTaken => refused(r, 409, "that name is taken"@),
            CreateOutcome::Failed => refused(r, 500, "registration error"@),
        },
{
    match outcome {
        CreateOutcome::Created { user_id, role } => Ok(Grant { user_id, role, ttl_hours: SESSION_TTL_HOURS }),
        CreateOutcome::NameTaken => Err(Refusal { status: 409, message: "that name is taken".to_owned() }),
        CreateOutcome::Failed => Err(Refusal { status: 500, message: "registration error".to_owned() }),
    }
}

/// Trading an admin bearer for a durable token: the caller's session must be
/// an admin's (else `401` and no session); the new session is for the same
/// account and role, living [`durable_token_hours`].
pub fn durable_token_grant(account: Option<SessionAccount>, days: Option<i64>) -> (r: Result<Grant, Refusal>)
    ensures
        match account {
            Some(a) => if a.role == Role::Admin {
                r matches Ok(g) && g.user_id == a.user_id && g.role == Role::Admin && g.ttl_hours == clamp(
                    match days {
                        Some(d) => d as int,
                        None => DURABLE_TTL_DAYS as int,
                    },
                    1,
                    MAX_DURABLE_TTL_DAYS as int,
                ) * 24
            } else {
                refused(r, 401, "missing or invalid bearer token"@)
            },
            None => refused(r, 401, "missing or invalid bearer token"@),
        },
{
    match require_admin(account) {
        Ok(a) => Ok(Grant { user_id: a.user_id, role: a.role, ttl_hours: durable_token_hours(days) }),
        Err(f) => Err(f),
    }
}

impl RegisterError {
    /// The refusal the server answers with: `400` and [`RegisterError::message`].
    pub fn refusal(&self) -> (r: Refusal)
        ensures
            r.status == 400,
            r.message@ == match self {
                RegisterError::EmptyName => "name must not be empty"@,
                RegisterError::NameTooLong => "name too long (max 32 characters)"@,
                RegisterError::PasswordTooShort => "password too short (min 8 characters)"@,
            },
    {
        Refusal { status: 400, message: self.message() }
    }
}

} // verus!
