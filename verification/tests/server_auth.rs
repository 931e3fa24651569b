use reversi::server_auth::{
    bearer_token, durable_token_hours, request_host, validate_registration, RegisterError, MAX_NAME_LEN,
};
use reversi::server_auth::{
    admin_login_grant, durable_token_grant, identity_of, login_grant, registration_grant, require_admin,
    AccountLookup, CreateOutcome, Grant, Identity, Refusal, Role, SessionAccount,
};
#[test]
fn registration_rules_apply_in_order() {
    assert_eq!(validate_registration("Dave", "password"), Ok(()));
    assert_eq!(validate_registration("   ", "password"), Err(RegisterError::EmptyName));
    assert_eq!(validate_registration("", "x"), Err(RegisterError::EmptyName));
    let long = "n".repeat(MAX_NAME_LEN + 1);
    assert_eq!(validate_registration(&long, "password"), Err(RegisterError::NameTooLong));
    assert_eq!(validate_registration(&"n".repeat(MAX_NAME_LEN), "password"), Ok(()));
    assert_eq!(validate_registration("Eve", "short"), Err(RegisterError::PasswordTooShort));
    // Lengths are counted in bytes.
    assert_eq!(validate_registration(&"é".repeat(17), "password"), Err(RegisterError::NameTooLong));
    assert_eq!(validate_registration("Eve", "ééé"), Err(RegisterError::PasswordTooShort));
    assert_eq!(validate_registration("Eve", "éééé"), Ok(()));
}

#[test]
fn registration_messages() {
    assert_eq!(RegisterError::EmptyName.message(), "name must not be empty");
    assert_eq!(RegisterError::NameTooLong.message(), "name too long (max 32 characters)");
    assert_eq!(RegisterError::PasswordTooShort.message(), "password too short (min 8 characters)");
}

#[test]
fn durable_tokens_are_clamped() {
    assert_eq!(durable_token_hours(None), 30 * 24);
    assert_eq!(durable_token_hours(Some(0)), 24);
    assert_eq!(durable_token_hours(Some(-5)), 24);
    assert_eq!(durable_token_hours(Some(7)), 7 * 24);
    assert_eq!(durable_token_hours(Some(1000)), 90 * 24);
    assert_eq!(durable_token_hours(Some(i64::MAX)), 90 * 24);
}

#[test]
fn bearer_tokens_are_read_after_the_scheme() {
    assert_eq!(bearer_token("Bearer abc"), Some("abc".to_string()));
    assert_eq!(bearer_token("Bearer   abc  "), Some("abc".to_string()));
    assert_eq!(bearer_token("Bearer "), Some(String::new()));
    assert_eq!(bearer_token("bearer abc"), None);
    assert_eq!(bearer_token("Basic abc"), None);
    assert_eq!(bearer_token("Bear"), None);
}

#[test]
fn request_host_drops_the_port_and_lowercases() {
    assert_eq!(request_host("Admin.Example.COM:8443"), "admin.example.com");
    assert_eq!(request_host("localhost"), "localhost");
    assert_eq!(request_host(":80"), "");
}


fn account(role: Role) -> SessionAccount {
    SessionAccount { user_id: 7, role, name: "root".to_string() }
}

fn refusal(status: u16, message: &str) -> Refusal {
    Refusal { status, message: message.to_string() }
}

#[test]
fn the_admin_gate_needs_an_admin_session() {
    assert_eq!(require_admin(Some(account(Role::Admin))), Ok(account(Role::Admin)));
    assert_eq!(require_admin(Some(account(Role::Player))), Err(refusal(401, "missing or invalid bearer token")));
    assert_eq!(require_admin(None), Err(refusal(401, "missing or invalid bearer token")));
}

#[test]
fn durable_tokens_need_an_admin_bearer() {
    assert_eq!(
        durable_token_grant(Some(account(Role::Admin)), Some(7)),
        Ok(Grant { user_id: 7, role: Role::Admin, ttl_hours: 7 * 24 })
    );
    assert_eq!(
        durable_token_grant(Some(account(Role::Admin)), None),
        Ok(Grant { user_id: 7, role: Role::Admin, ttl_hours: 30 * 24 })
    );
    assert_eq!(
        durable_token_grant(Some(account(Role::Player)), Some(7)),
        Err(refusal(401, "missing or invalid bearer token"))
    );
    assert_eq!(durable_token_grant(None, None), Err(refusal(401, "missing or invalid bearer token")));
}

#[test]
fn logins_and_registrations_mint_day_long_sessions() {
    let found = |role| AccountLookup::Found { user_id: 3, role };
    assert_eq!(login_grant(found(Role::Player)), Ok(Grant { user_id: 3, role: Role::Player, ttl_hours: 24 }));
    assert_eq!(login_grant(AccountLookup::NotFound), Err(refusal(401, "wrong name or password")));
    assert_eq!(login_grant(AccountLookup::Failed), Err(refusal(500, "auth error")));
    assert_eq!(admin_login_grant(found(Role::Admin)), Ok(Grant { user_id: 3, role: Role::Admin, ttl_hours: 24 }));
    assert_eq!(admin_login_grant(found(Role::Player)), Err(refusal(403, "not an admin")));
    assert_eq!(admin_login_grant(AccountLookup::NotFound), Err(refusal(401, "wrong name or password")));
    assert_eq!(
        registration_grant(CreateOutcome::Created { user_id: 4, role: Role::Player }),
        Ok(Grant { user_id: 4, role: Role::Player, ttl_hours: 24 })
    );
    assert_eq!(registration_grant(CreateOutcome::NameTaken), Err(refusal(409, "that name is taken")));
    assert_eq!(registration_grant(CreateOutcome::Failed), Err(refusal(500, "registration error")));
    assert_eq!(RegisterError::EmptyName.refusal(), refusal(400, "name must not be empty"));
}

#[test]
fn a_session_authorizes_its_account() {
    assert_eq!(
        identity_of(Some(account(Role::Admin))),
        Some(Identity { role: Role::Admin, name: "root".to_string() })
    );
    assert_eq!(identity_of(None), None);
}
