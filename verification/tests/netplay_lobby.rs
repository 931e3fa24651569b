use reversi::netplay_lobby::{Delivery, Lobby, LobbyCommand, MAX_LOBBY_PLAYERS};
use reversi::netplay_protocol::{PlayerInfo, Seat, ServerMsg};

fn info(id: u64, name: &str) -> PlayerInfo {
    PlayerInfo { id, name: name.to_string() }
}

fn presence(to: u64, players: Vec<PlayerInfo>) -> Delivery {
    Delivery { to, msg: ServerMsg::Presence { players } }
}

#[test]
fn invite_accept_relays_and_reports_disconnect() {
    let mut lobby = Lobby::new();
    let (alice, out) = lobby.join("Alice".to_string());
    let alice = alice.unwrap();
    assert_eq!(out, vec![presence(alice, vec![])]);
    let (bob, out) = lobby.join("Bob".to_string());
    let bob = bob.unwrap();
    assert_eq!(
        out,
        vec![presence(alice, vec![info(bob, "Bob")]), presence(bob, vec![info(alice, "Alice")])]
    );

    assert_eq!(
        lobby.invite(alice, bob),
        vec![Delivery { to: bob, msg: ServerMsg::Invited { from: alice, name: "Alice".to_string() } }]
    );
    let out = lobby.accept(bob, alice);
    assert_eq!(
        out,
        vec![
            Delivery { to: alice, msg: ServerMsg::Matched { seat: Seat(0), opponent: "Bob".to_string() } },
            Delivery { to: bob, msg: ServerMsg::Matched { seat: Seat(1), opponent: "Alice".to_string() } },
        ],
        "the inviter moves first; nobody is left to hear presence"
    );

    assert_eq!(
        lobby.relay(alice, vec![19]),
        vec![Delivery { to: bob, msg: ServerMsg::Game { payload: vec![19] } }]
    );

    let out = lobby.leave(alice);
    assert_eq!(
        out,
        vec![Delivery { to: bob, msg: ServerMsg::OpponentLeft }, presence(bob, vec![])]
    );
    assert!(lobby.relay(bob, vec![1]).is_empty());
}

#[test]
fn invites_need_both_players_available() {
    let mut lobby = Lobby::new();
    let a = lobby.join("A".to_string()).0.unwrap();
    let b = lobby.join("B".to_string()).0.unwrap();
    let c = lobby.join("C".to_string()).0.unwrap();
    assert!(lobby.invite(a, 99).is_empty(), "no such player");
    lobby.accept(b, a);
    assert!(lobby.invite(c, a).is_empty(), "a is in a game");
    assert!(lobby.accept(c, b).is_empty(), "b is in a game");
    assert!(lobby.decline(c, a).is_empty(), "a is no longer waiting on an answer");
    assert_eq!(lobby.online_players(), vec![info(a, "A"), info(b, "B"), info(c, "C")]);
}

#[test]
fn declines_reach_an_available_inviter() {
    let mut lobby = Lobby::new();
    let a = lobby.join("A".to_string()).0.unwrap();
    let b = lobby.join("B".to_string()).0.unwrap();
    assert_eq!(
        lobby.decline(b, a),
        vec![Delivery { to: a, msg: ServerMsg::InviteDeclined { by: b } }]
    );
}

#[test]
fn presence_lists_the_other_available_players() {
    let mut lobby = Lobby::new();
    let a = lobby.join("A".to_string()).0.unwrap();
    let b = lobby.join("B".to_string()).0.unwrap();
    let c = lobby.join("C".to_string()).0.unwrap();
    let out = lobby.accept(a, b);
    assert_eq!(out.len(), 3);
    assert_eq!(out[2], presence(c, vec![]));
    let out = lobby.leave(c);
    assert!(out.is_empty(), "nobody else is available");
    let d = lobby.join("D".to_string()).0.unwrap();
    let out = lobby.handle(LobbyCommand::Leave { id: b });
    assert_eq!(
        out,
        vec![
            Delivery { to: a, msg: ServerMsg::OpponentLeft },
            presence(a, vec![info(d, "D")]),
            presence(d, vec![info(a, "A")]),
        ]
    );
}

#[test]
fn the_lobby_turns_players_away_when_full() {
    let mut lobby = Lobby::new();
    for i in 0..MAX_LOBBY_PLAYERS {
        let (id, _) = lobby.join(format!("p{i}"));
        assert_eq!(id, Some(i as u64));
    }
    let (id, out) = lobby.join("late".to_string());
    assert_eq!(id, None);
    assert!(out.is_empty());
    lobby.leave(0);
    assert_eq!(lobby.join("late".to_string()).0, Some(MAX_LOBBY_PLAYERS as u64));
}

#[test]
fn commands_dispatch_to_the_operations() {
    let mut lobby = Lobby::new();
    let a = lobby.join("A".to_string()).0.unwrap();
    let b = lobby.join("B".to_string()).0.unwrap();
    assert_eq!(
        lobby.handle(LobbyCommand::Invite { from: b, to: a }),
        vec![Delivery { to: a, msg: ServerMsg::Invited { from: b, name: "B".to_string() } }]
    );
    assert_eq!(lobby.handle(LobbyCommand::Accept { accepter: a, inviter: b }).len(), 2);
    assert_eq!(
        lobby.handle(LobbyCommand::Relay { from: a, payload: vec![1, 2] }),
        vec![Delivery { to: b, msg: ServerMsg::Game { payload: vec![1, 2] } }]
    );
    assert!(lobby.handle(LobbyCommand::Decline { decliner: a, inviter: b }).is_empty());
    assert!(lobby.handle(LobbyCommand::Leave { id: 42 }).is_empty());
}

#[test]
fn accepting_ones_own_invite_does_nothing() {
    let mut lobby = Lobby::new();
    let a = lobby.join("A".to_string()).0.unwrap();
    assert!(lobby.accept(a, a).is_empty());
    assert!(lobby.relay(a, vec![1]).is_empty(), "still not in a game");
    let b = lobby.join("B".to_string()).0.unwrap();
    assert_eq!(lobby.accept(b, a).len(), 2, "a is still available");
}
