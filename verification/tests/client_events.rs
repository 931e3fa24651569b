use reversi::netplay_client::{server_msg_to_event, NetEvent};
use reversi::netplay_protocol::{PlayerInfo, Seat, ServerMsg};
use reversi::player::Player;
use reversi::protocol::{self, Color, GameMsg};
use reversi::relay_client;
use reversi::ui_state::{LobbyAction, LobbyState, LoginForm};

#[test]
fn netplay_messages_become_events() {
    let players = vec![PlayerInfo { id: 1, name: "Bob".to_string() }];
    assert_eq!(
        server_msg_to_event(ServerMsg::Presence { players: players.clone() }),
        NetEvent::Presence(players)
    );
    assert_eq!(
        server_msg_to_event(ServerMsg::Matched { seat: Seat(1), opponent: "Carol".to_string() }),
        NetEvent::Matched { seat: Seat(1), opponent: "Carol".to_string() }
    );
    assert_eq!(server_msg_to_event(ServerMsg::Game { payload: vec![3] }), NetEvent::Game(vec![3]));
    assert_eq!(server_msg_to_event(ServerMsg::OpponentLeft), NetEvent::OpponentLeft);
    assert_eq!(
        server_msg_to_event(ServerMsg::Error { message: "bad version".to_string() }),
        NetEvent::Error("bad version".to_string())
    );
}

#[test]
fn relay_messages_become_events() {
    assert_eq!(
        relay_client::server_msg_to_event(protocol::ServerMsg::Matched {
            your_color: Color::White,
            opponent: "Bob".to_string()
        }),
        relay_client::NetEvent::Matched { color: Color::White, opponent: "Bob".to_string() }
    );
    assert_eq!(
        relay_client::server_msg_to_event(protocol::ServerMsg::Game(GameMsg::Move { square: 42 })),
        relay_client::NetEvent::Remote(GameMsg::Move { square: 42 })
    );
    assert!(relay_client::NetEvent::Disconnected.is_terminal());
    assert!(relay_client::NetEvent::OpponentLeft.is_terminal());
    assert!(relay_client::NetEvent::Error(String::new()).is_terminal());
    assert!(!relay_client::NetEvent::InviteDeclined { by: 2 }.is_terminal());
    assert_eq!(relay_client::player_of(Color::Black), Player::Black);
    assert_eq!(relay_client::player_of(Color::White), Player::White);
}

#[test]
fn lobby_state_follows_presence_and_actions() {
    let mut lobby = LobbyState::default();
    lobby.show_players(vec![]);
    assert_eq!(lobby.status, "Waiting for others to join\u{2026}");
    lobby.show_players(vec![reversi::protocol::PlayerInfo { id: 1, name: "A".to_string() }]
        .into_iter()
        .map(|p| PlayerInfo { id: p.id, name: p.name })
        .collect());
    assert_eq!(lobby.status, "");
    let msg = lobby.act(LobbyAction::Invite(1));
    assert_eq!(msg, reversi::netplay_protocol::ClientMsg::Invite { to: 1 });
    assert_eq!(lobby.status, "Invite sent\u{2026}");
    lobby.incoming = Some((1, "A".to_string()));
    let msg = lobby.act(LobbyAction::Decline(1));
    assert_eq!(msg, reversi::netplay_protocol::ClientMsg::Decline { inviter: 1 });
    assert_eq!(lobby.incoming, None);
}

#[test]
fn login_form_tracks_attempts() {
    let mut form = LoginForm::default();
    form.start_connecting();
    assert!(form.connecting);
    form.fail("could not connect".to_string());
    assert!(!form.connecting);
    assert_eq!(form.error.as_deref(), Some("could not connect"));
}
