use reversi::relay_lobby::{conn_step, ConnEvent, ConnOutput, ConnState};
use reversi::protocol::{ClientMsg, Color, GameMsg, ServerMsg, PROTOCOL_VERSION};
use reversi::relay_lobby::{check_hello, relayed_move, Delivery, HelloCheck, RelayLobby};

#[test]
fn auto_match_relays_and_reports_disconnect() {
    let mut lobby = RelayLobby::new();
    let (alice, out) = lobby.join("Alice".to_string());
    assert!(out.is_empty(), "the first arrival waits");
    let (bob, out) = lobby.join("Bob".to_string());
    assert_ne!(alice, bob);
    assert_eq!(
        out,
        vec![
            Delivery {
                to: alice,
                msg: ServerMsg::Matched { your_color: Color::Black, opponent: "Bob".to_string() }
            },
            Delivery {
                to: bob,
                msg: ServerMsg::Matched { your_color: Color::White, opponent: "Alice".to_string() }
            },
        ]
    );

    let relayed = lobby.relay(alice, GameMsg::Move { square: 19 });
    assert_eq!(relayed, vec![Delivery { to: bob, msg: ServerMsg::Game(GameMsg::Move { square: 19 }) }]);

    let left = lobby.leave(alice);
    assert_eq!(left, vec![Delivery { to: bob, msg: ServerMsg::OpponentLeft }]);
    assert!(lobby.relay(bob, GameMsg::Restart).is_empty(), "no opponent any more");
}

#[test]
fn a_waiting_player_who_leaves_is_not_matched() {
    let mut lobby = RelayLobby::new();
    let (first, _) = lobby.join("First".to_string());
    assert!(lobby.leave(first).is_empty());
    let (second, out) = lobby.join("Second".to_string());
    assert_eq!(second, first + 1);
    assert!(out.is_empty(), "the newcomer waits instead");
}

#[test]
fn relay_hello_check() {
    assert_eq!(
        check_hello(Some(ClientMsg::Hello { name: "Jake".to_string(), protocol: PROTOCOL_VERSION })),
        HelloCheck::Join("Jake".to_string())
    );
    assert_eq!(
        check_hello(Some(ClientMsg::Hello { name: "Jake".to_string(), protocol: PROTOCOL_VERSION + 1 })),
        HelloCheck::Refuse(ServerMsg::Error("protocol version mismatch".to_string()))
    );
    assert_eq!(check_hello(Some(ClientMsg::Invite { to: 3 })), HelloCheck::Close);
    assert_eq!(check_hello(None), HelloCheck::Close);
}

#[test]
fn only_game_messages_are_relayed() {

    assert_eq!(relayed_move(ClientMsg::Game(GameMsg::Resign)), Some(GameMsg::Resign));
    assert_eq!(relayed_move(ClientMsg::Invite { to: 1 }), None);
    assert_eq!(relayed_move(ClientMsg::Hello { name: "x".to_string(), protocol: 1 }), None);
}


#[test]
fn a_relay_connection_joins_forwards_and_leaves_once() {
    let hello = ClientMsg::Hello { name: "Jake".to_string(), protocol: PROTOCOL_VERSION };
    let (s, out) = conn_step(ConnState::AwaitingHello, ConnEvent::First(Some(hello)));
    assert_eq!((s, out), (ConnState::AwaitingJoin, vec![ConnOutput::Join("Jake".to_string())]));
    let (s, out) = conn_step(s, ConnEvent::JoinReply(Some(4)));
    assert_eq!((s, out.len()), (ConnState::Joined(4), 0));
    let (s, out) = conn_step(s, ConnEvent::Message(ClientMsg::Game(GameMsg::Move { square: 9 })));
    assert_eq!(out, vec![ConnOutput::Relay { from: 4, msg: GameMsg::Move { square: 9 } }]);
    let (s, out) = conn_step(s, ConnEvent::Message(ClientMsg::Invite { to: 1 }));
    assert!(out.is_empty());
    let (s, out) = conn_step(s, ConnEvent::Ended);
    assert_eq!((s, out), (ConnState::Closed, vec![ConnOutput::Leave(4)]));
    let (s, out) = conn_step(s, ConnEvent::Ended);
    assert_eq!((s, out.len()), (ConnState::Closed, 0));
}

#[test]
fn a_relay_connection_without_hello_never_joins() {
    let (s, out) = conn_step(ConnState::AwaitingHello, ConnEvent::First(Some(ClientMsg::Accept { inviter: 1 })));
    assert_eq!((s, out.len()), (ConnState::Closed, 0));
    let bad = ClientMsg::Hello { name: "x".to_string(), protocol: PROTOCOL_VERSION + 1 };
    let (s, out) = conn_step(ConnState::AwaitingHello, ConnEvent::First(Some(bad)));
    assert_eq!(s, ConnState::Closed);
    assert_eq!(out, vec![ConnOutput::Send(ServerMsg::Error("protocol version mismatch".to_string()))]);
}
