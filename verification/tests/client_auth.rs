use reversi::client_auth::{
    admin_durable_token_request, admin_login_request, player_login_request, player_register_request,
    read_token, AuthError, AuthReply, Token,
};

#[test]
fn credential_requests_target_the_endpoint() {
    let r = player_login_request("http://127.0.0.1:9", "alice", "password");
    assert_eq!(r.url, "http://127.0.0.1:9/login");
    assert_eq!(r.name, "alice");
    assert_eq!(r.password, "password");
    assert_eq!(player_register_request("https://h", "a", "b").url, "https://h/register");
    assert_eq!(admin_login_request("https://admin", "root", "s3cret").url, "https://admin/admin/login");
}

#[test]
fn durable_token_request_carries_the_bearer() {
    let r = admin_durable_token_request("https://admin", "tok", Some(7));
    assert_eq!(r.url, "https://admin/admin/tokens");
    assert_eq!(r.authorization, "Bearer tok");
    assert_eq!(r.days, Some(7));
    assert_eq!(admin_durable_token_request("x", "t", None).days, None);
}

#[test]
fn replies_are_read_as_tokens_or_errors() {
    let token = Token { token: "abc".to_string(), expires_in_hours: 24 };
    assert_eq!(read_token(AuthReply::Success(Ok(token.clone()))), Ok(token));
    assert_eq!(
        read_token(AuthReply::Success(Err("bad json".to_string()))),
        Err(AuthError::Transport("bad json".to_string()))
    );
    assert_eq!(
        read_token(AuthReply::Status(Some("  wrong name or password\n".to_string()))),
        Err(AuthError::Rejected("wrong name or password".to_string()))
    );
    assert_eq!(
        read_token(AuthReply::Status(Some("   ".to_string()))),
        Err(AuthError::Rejected("authentication failed".to_string()))
    );
    assert_eq!(
        read_token(AuthReply::Status(None)),
        Err(AuthError::Rejected("authentication failed".to_string()))
    );
    assert_eq!(
        read_token(AuthReply::Failure("connection refused".to_string())),
        Err(AuthError::Transport("connection refused".to_string()))
    );
}

#[test]
fn errors_show_their_message() {
    assert_eq!(AuthError::Rejected("no".to_string()).message(), "no");
    assert_eq!(AuthError::Transport("down".to_string()).message(), "down");
}
