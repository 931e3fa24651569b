use reversi::netplay_lobby::LobbyCommand;
use reversi::netplay_protocol::{ClientMsg, ServerMsg, PROTOCOL_VERSION};
use reversi::netplay_relay::{check_hello, command_for, HelloCheck};
use reversi::netplay_relay::{authorize, step, RelayEvent, RelayOutput, RelayState};
use reversi::server_auth::{Identity, Role, UNAUTHORIZED_MESSAGE};
#[test]
fn hello_must_match_the_protocol_version() {
    let hello = |protocol| ClientMsg::Hello { name: "Jake".to_string(), protocol, credential: vec![1, 2] };
    assert_eq!(
        check_hello(Some(hello(PROTOCOL_VERSION))),
        HelloCheck::Proceed { name: "Jake".to_string(), credential: vec![1, 2] }
    );
    assert_eq!(
        check_hello(Some(hello(PROTOCOL_VERSION + 1))),
        HelloCheck::Refuse(ServerMsg::Error { message: "protocol version mismatch".to_string() })
    );
    assert_eq!(check_hello(Some(ClientMsg::Accept { inviter: 1 })), HelloCheck::Close);
    assert_eq!(check_hello(None), HelloCheck::Close);
}

#[test]
fn client_messages_become_lobby_commands() {
    assert_eq!(command_for(4, ClientMsg::Invite { to: 9 }), Some(LobbyCommand::Invite { from: 4, to: 9 }));
    assert_eq!(
        command_for(4, ClientMsg::Accept { inviter: 9 }),
        Some(LobbyCommand::Accept { accepter: 4, inviter: 9 })
    );
    assert_eq!(
        command_for(4, ClientMsg::Decline { inviter: 9 }),
        Some(LobbyCommand::Decline { decliner: 4, inviter: 9 })
    );
    assert_eq!(
        command_for(4, ClientMsg::Game { payload: vec![7] }),
        Some(LobbyCommand::Relay { from: 4, payload: vec![7] })
    );
    assert_eq!(
        command_for(4, ClientMsg::Hello { name: "x".to_string(), protocol: 1, credential: vec![] }),
        None
    );
}


fn identity(name: &str) -> Identity {
    Identity { role: Role::Player, name: name.to_string() }
}

#[test]
fn the_account_names_the_player() {
    assert_eq!(authorize(Some(identity("Alice"))), Ok("Alice".to_string()));
    assert_eq!(
        authorize(None),
        Err(ServerMsg::Error { message: UNAUTHORIZED_MESSAGE.to_string() })
    );
}

#[test]
fn a_connection_runs_from_hello_to_leave() {
    let hello = ClientMsg::Hello { name: "chosen-by-client".to_string(), protocol: PROTOCOL_VERSION, credential: vec![9] };
    let (s, out) = step(RelayState::AwaitingHello, RelayEvent::First(Some(hello)));
    assert_eq!(s, RelayState::AwaitingAuth);
    assert_eq!(out, vec![RelayOutput::Verify(vec![9])]);
    let (s, out) = step(s, RelayEvent::Verified(Some(identity("Alice"))));
    assert_eq!(s, RelayState::AwaitingJoin);
    assert_eq!(out, vec![RelayOutput::Join("Alice".to_string())], "the account's name, not the client's");
    let (s, out) = step(s, RelayEvent::JoinReply(Some(5)));
    assert_eq!(s, RelayState::Joined(5));
    assert!(out.is_empty());
    let (s, out) = step(s, RelayEvent::Message(ClientMsg::Invite { to: 2 }));
    assert_eq!(out, vec![RelayOutput::Command(LobbyCommand::Invite { from: 5, to: 2 })]);
    let (s, out) = step(s, RelayEvent::Message(ClientMsg::Hello { name: "x".to_string(), protocol: 1, credential: vec![] }));
    assert!(out.is_empty());
    let (s, out) = step(s, RelayEvent::Ended);
    assert_eq!(s, RelayState::Closed);
    assert_eq!(out, vec![RelayOutput::Command(LobbyCommand::Leave { id: 5 })]);
    let (s, out) = step(s, RelayEvent::Ended);
    assert_eq!(s, RelayState::Closed);
    assert!(out.is_empty(), "a closed connection leaves only once");
}

#[test]
fn a_bad_credential_gets_the_unauthorized_error_and_no_join() {
    let (s, out) = step(RelayState::AwaitingAuth, RelayEvent::Verified(None));
    assert_eq!(s, RelayState::Closed);
    assert_eq!(out, vec![RelayOutput::Send(ServerMsg::Error { message: UNAUTHORIZED_MESSAGE.to_string() })]);
}

#[test]
fn version_mismatch_and_silence_close_the_connection() {
    let hello = ClientMsg::Hello { name: "x".to_string(), protocol: PROTOCOL_VERSION + 1, credential: vec![] };
    let (s, out) = step(RelayState::AwaitingHello, RelayEvent::First(Some(hello)));
    assert_eq!(s, RelayState::Closed);
    assert_eq!(
        out,
        vec![RelayOutput::Send(ServerMsg::Error { message: "protocol version mismatch".to_string() })]
    );
    let (s, out) = step(RelayState::AwaitingHello, RelayEvent::First(None));
    assert_eq!(s, RelayState::Closed);
    assert!(out.is_empty());
    let (s, out) = step(RelayState::AwaitingJoin, RelayEvent::JoinReply(None));
    assert_eq!(s, RelayState::Closed);
    assert!(out.is_empty(), "never joined, so nothing to leave");
}

#[test]
fn exceeding_the_rate_errors_then_leaves() {
    let (s, out) = step(RelayState::Joined(3), RelayEvent::RateLimited);
    assert_eq!(s, RelayState::Closed);
    assert_eq!(
        out,
        vec![
            RelayOutput::Send(ServerMsg::Error { message: "rate exceeded".to_string() }),
            RelayOutput::Command(LobbyCommand::Leave { id: 3 }),
        ]
    );
}
