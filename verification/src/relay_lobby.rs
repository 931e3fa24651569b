//! The relay server's lobby: the matchmaking state behind the first-come,
//! first-paired relay.
//!
//! It holds at most one waiting player; the next arrival is paired with them.
//! Each operation returns the messages to deliver, so the connection layer
//! only has to route them to the right outboxes.

use std::collections::{HashMap, HashSet};

use vstd::prelude::*;

use crate::protocol::{ClientMsg, Color, GameMsg, PlayerId, ServerMsg, PROTOCOL_VERSION};

verus! {

broadcast use vstd::std_specs::hash::group_hash_axioms;

/// A message for one connected player.
#[derive(Clone, Debug, PartialEq, Eq)]
pub struct Delivery {
    pub to: PlayerId,
    pub msg: ServerMsg,
}

/// The abstract state of the lobby.
pub struct RelayLobbyView {
    /// The id the next arrival gets.
    pub next_id: int,
    /// The player waiting for an opponent, with their name.
    pub waiting: Option<(PlayerId, String)>,
    /// Players whose connection is open.
    pub connected: Set<PlayerId>,
    /// Each paired player's opponent.
    pub partners: Map<PlayerId, PlayerId>,
}

impl RelayLobbyView {
    /// Every id was handed out, pairings are mutual and between different
    /// players, and the waiting player is not in a game.
    pub open spec fn wf(self) -> bool {
        &&& forall|id: PlayerId| #[trigger] self.connected.contains(id) ==> id < self.next_id
        &&& forall|id: PlayerId| #[trigger] self.partners.contains_key(id) ==> id < self.next_id
        &&& forall|id: PlayerId|
            #[trigger] self.partners.contains_key(id) ==> self.partners.contains_key(self.partners[id])
                && self.partners[self.partners[id]] == id && self.partners[id] != id
        &&& self.waiting matches Some((w, _)) ==> w < self.next_id && !self.partners.contains_key(w)
    }
}

/// The lobby's matchmaking state.
pub struct RelayLobby {
    next_id: PlayerId,
    waiting: Option<(PlayerId, String)>,
    connected: HashSet<PlayerId>,
    partners: HashMap<PlayerId, PlayerId>,
}

impl View for RelayLobby {
    type V = RelayLobbyView;

    closed spec fn view(&self) -> RelayLobbyView {
        RelayLobbyView {
            next_id: self.next_id as int,
            waiting: self.waiting,
            connected: self.connected@,
            partners: self.partners@,
        }
    }
}

impl RelayLobby {
    /// An empty lobby.
    pub fn new() -> (r: RelayLobby)
        ensures
            r@.next_id == 0,
            r@.waiting is None,
            r@.connected == Set::<PlayerId>::empty(),
            r@.partners == Map::<PlayerId, PlayerId>::empty(),
            r@.wf(),
    {
        RelayLobby { next_id: 0, waiting: None, connected: HashSet::new(), partners: HashMap::new() }
    }

    /// The id the next arrival gets.
    pub fn next_id(&self) -> (r: PlayerId)
        ensures
            r == self@.next_id,
    {
        self.next_id
    }

    /// A client finished its handshake: give it the next id, and pair it with
    /// the waiting player if there is one (the waiting player is Black, having
    /// joined first; the newcomer is White). Otherwise it becomes the waiting
    /// player.
    pub fn join(&mut self, name: String) -> (r: (PlayerId, Vec<Delivery>))
        requires
            old(self)@.next_id < u64::MAX,
        ensures
            r.0 == old(self)@.next_id,
            final(self)@.next_id == old(self)@.next_id + 1,
            final(self)@.connected == old(self)@.connected.insert(r.0),
            match old(self)@.waiting {
                Some((w, wname)) => {
                    &&& final(self)@.waiting is None
                    &&& final(self)@.partners == old(self)@.partners.insert(w, r.0).insert(r.0, w)
                    &&& r.1@ == seq![
                        Delivery { to: w, msg: ServerMsg::Matched { your_color: Color::Black, opponent: name } },
                        Delivery { to: r.0, msg: ServerMsg::Matched { your_color: Color::White, opponent: wname } },
                    ]
                },
                None => {
                    &&& final(self)@.waiting == Some((r.0, name))
                    &&& final(self)@.partners == old(self)@.partners
                    &&& r.1@.len() == 0
                },
            },
            old(self)@.wf() ==> final(self)@.wf(),
    {
        let ghost pre = self@;
        let id = self.next_id;
        self.next_id = self.next_id + 1;
        self.connected.insert(id);
        let mut out: Vec<Delivery> = Vec::new();
        match self.waiting.take() {
            Some((w, wname)) => {
                self.partners.insert(w, id);
                self.partners.insert(id, w);
                proof {
                    if pre.wf() {
                        let m = self@.partners;
                        assert(w != id);
                        assert forall|k: PlayerId| #[trigger] m.contains_key(k) implies m.contains_key(m[k])
                            && m[m[k]] == k && m[k] != k by {
                            if k != w && k != id {
                                assert(pre.partners.contains_key(k));
                                assert(pre.partners[k] != w);
                                assert(pre.partners[k] != id);
                            }
                        }
                    }
                }
                out.push(Delivery { to: w, msg: ServerMsg::Matched { your_color: Color::Black, opponent: name } });
                out.push(Delivery { to: id, msg: ServerMsg::Matched { your_color: Color::White, opponent: wname } });
            },
            None => {
                self.waiting = Some((id, name));
                proof {
                    if pre.wf() {
                        if pre.partners.contains_key(id) {
                            assert(id < pre.next_id);
                        }
                    }
                }
            },
        }
        proof {
            if pre.wf() {
                let v = self@;
                assert forall|k: PlayerId| #[trigger] v.connected.contains(k) implies k < v.next_id by {
                    if k != id {
                        assert(pre.connected.contains(k));
                    }
                }
                assert forall|k: PlayerId| #[trigger] v.partners.contains_key(k) implies k < v.next_id by {
                    if k != id {
                        assert(pre.partners.contains_key(k) || Some(k) == (match pre.waiting { Some((w, _)) => Some(w), None => None }));
                    }
                }
            }
        }
        (id, out)
    }

    /// Forward an in-game message from `from` to its opponent, if it has one
    /// that is still connected.
    pub fn relay(&self, from: PlayerId, msg: GameMsg) -> (r: Vec<Delivery>)
        ensures
            (self@.partners.contains_key(from) && self@.connected.contains(self@.partners[from])) ==> r@ == seq![
                Delivery { to: self@.partners[from], msg: ServerMsg::Game(msg) },
            ],
            !(self@.partners.contains_key(from) && self@.connected.contains(self@.partners[from])) ==> r@.len()
                == 0,
    {
        let mut out: Vec<Delivery> = Vec::new();
        if let Some(partner) = self.partners.get(&from) {
            if self.connected.contains(partner) {
                out.push(Delivery { to: *partner, msg: ServerMsg::Game(msg) });
            }
        }
        out
    }

    /// A connection ended: forget the player, stop waiting for them, and tell
    /// any opponent (if still connected) that they left.
    pub fn leave(&mut self, id: PlayerId) -> (r: Vec<Delivery>)
        ensures
            final(self)@.next_id == old(self)@.next_id,
            final(self)@.connected == old(self)@.connected.remove(id),
            final(self)@.waiting == (match old(self)@.waiting {
                Some((w, n)) => if w == id {
                    None
                } else {
                    Some((w, n))
                },
                None => None,
            }),
            old(self)@.partners.contains_key(id) ==> {
                let p = old(self)@.partners[id];
                &&& final(self)@.partners == old(self)@.partners.remove(id).remove(p)
                &&& final(self)@.connected.contains(p) ==> r@ == seq![Delivery { to: p, msg: ServerMsg::OpponentLeft }]
                &&& !final(self)@.connected.contains(p) ==> r@.len() == 0
            },
            !old(self)@.partners.contains_key(id) ==> final(self)@.partners == old(self)@.partners && r@.len()
                == 0,
            old(self)@.wf() ==> final(self)@.wf(),
    {
        self.connected.remove(&id);
        let is_waiting = match &self.waiting {
            Some((w, _)) => *w == id,
            None => false,
        };
        if is_waiting {
            self.waiting = None;
        }
        let ghost pre = old(self)@;
        let mut out: Vec<Delivery> = Vec::new();
        if let Some(partner) = self.partners.remove(&id) {
            self.partners.remove(&partner);
            proof {
                if pre.wf() {
                    let m = self@.partners;
                    assert forall|k: PlayerId| #[trigger] m.contains_key(k) implies m.contains_key(m[k]) && m[m[k]]
                        == k && m[k] != k by {
                        assert(pre.partners.contains_key(k));
                        let q = pre.partners[k];
                        assert(pre.partners[q] == k);
                    }
                    if let Some((w, _)) = self@.waiting {
                        assert(!pre.partners.contains_key(w));
                    }
                }
            }
            if self.connected.contains(&partner) {
                out.push(Delivery { to: partner, msg: ServerMsg::OpponentLeft });
            }
        }
        proof {
            if pre.wf() {
                let v = self@;
                assert forall|k: PlayerId| #[trigger] v.connected.contains(k) implies k < v.next_id by {
                    assert(pre.connected.contains(k));
                }
                assert forall|k: PlayerId| #[trigger] v.partners.contains_key(k) implies k < v.next_id by {
                    assert(pre.partners.contains_key(k));
                }
                if let Some((w, _)) = v.waiting {
                    assert(!pre.partners.contains_key(w));
                }
            }
        }
        out
    }
}

/// Pairings are mutual: if `a` plays `b`, then `b` plays `a`.
pub proof fn lemma_relay_pairing_mutual(l: RelayLobbyView, a: PlayerId)
    requires
        l.wf(),
        l.partners.contains_key(a),
    ensures
        l.partners.contains_key(l.partners[a]),
        l.partners[l.partners[a]] == a,
        l.partners[a] != a,
{
}

/// What to do with a connection's first message.
#[derive(Clone, Debug, PartialEq, Eq)]
pub enum HelloCheck {
    /// A version-matching `Hello`: join the lobby under this name.
    Join(String),
    /// A `Hello` for another protocol version: send this error and close.
    Refuse(ServerMsg),
    /// No `Hello`, or the peer closed: close without a word.
    Close,
}

/// The first frame must be a version-matching `Hello`.
pub fn check_hello(first: Option<ClientMsg>) -> (r: HelloCheck)
    ensures
        match first {
            Some(ClientMsg::Hello { name, protocol }) => if protocol == PROTOCOL_VERSION {
                r == HelloCheck::Join(name)
            } else {
                r matches HelloCheck::Refuse(ServerMsg::Error(message)) && message@
                    == "protocol version mismatch"@
            },
            _ => r == HelloCheck::Close,
        },
{
    match first {
        Some(ClientMsg::Hello { name, protocol }) => {
            if protocol == PROTOCOL_VERSION {
                HelloCheck::Join(name)
            } else {
                HelloCheck::Refuse(ServerMsg::Error("protocol version mismatch".to_owned()))
            }
        },
        _ => HelloCheck::Close,
    }
}

/// The game message a later client message carries for the opponent. This
/// lobby pairs arrivals automatically, so lobby requests and a stray second
/// `Hello` carry nothing.
pub fn relayed_move(msg: ClientMsg) -> (r: Option<GameMsg>)
    ensures
        match msg {
            ClientMsg::Game(g) => r == Some(g),
            _ => r is None,
        },
{
    match msg {
        ClientMsg::Game(g) => Some(g),
        _ => None,
    }
}

/// Where a relay connection stands.
#[derive(Clone, Copy, Debug, PartialEq, Eq, Structural)]
pub enum ConnState {
    /// Waiting for the first frame.
    AwaitingHello,
    /// The lobby is being asked to take the player.
    AwaitingJoin,
    /// In the lobby as player `id`.
    Joined(PlayerId),
    /// Done: nothing more is sent.
    Closed,
}

/// What happened on a relay connection.
#[derive(Debug, PartialEq, Eq)]
pub enum ConnEvent {
    /// The first frame arrived (`None`: the peer closed first).
    First(Option<ClientMsg>),
    /// The lobby's answer to the join (`None`: it is gone).
    JoinReply(Option<PlayerId>),
    /// A later frame arrived.
    Message(ClientMsg),
    /// The connection or the lobby went away.
    Ended,
}

/// What a relay connection does in response.
#[derive(Debug, PartialEq, Eq)]
pub enum ConnOutput {
    /// Send this message to the client.
    Send(ServerMsg),
    /// Ask the lobby to take the player under this name.
    Join(String),
    /// Forward a game message from player `from` to its opponent.
    Relay { from: PlayerId, msg: GameMsg },
    /// Tell the lobby that player `id` left.
    Leave(PlayerId),
}

/// The state after `e`.
pub open spec fn conn_next(s: ConnState, e: ConnEvent) -> ConnState {
    match s {
        ConnState::Closed => ConnState::Closed,
        _ => match e {
            ConnEvent::Ended => ConnState::Closed,
            ConnEvent::First(m) => if s == ConnState::AwaitingHello {
                if m matches Some(ClientMsg::Hello { protocol, .. }) && protocol == PROTOCOL_VERSION {
                    ConnState::AwaitingJoin
                } else {
                    ConnState::Closed
                }
            } else {
                s
            },
            ConnEvent::JoinReply(reply) => if s == ConnState::AwaitingJoin {
                match reply {
                    Some(id) => ConnState::Joined(id),
                    None => ConnState::Closed,
                }
            } else {
                s
            },
            ConnEvent::Message(_) => s,
        },
    }
}

/// `e` takes a joined connection out: the moment it leaves the lobby.
pub open spec fn conn_leaves(s: ConnState, e: ConnEvent) -> bool {
    s is Joined && conn_next(s, e) == ConnState::Closed
}

/// Advance a relay connection by one event: the first frame must be a
/// version-matching `Hello` (which joins under its name), later game messages
/// are forwarded, and the lobby hears `Leave` once, last.
pub fn conn_step(state: ConnState, event: ConnEvent) -> (r: (ConnState, Vec<ConnOutput>))
    ensures
        r.0 == conn_next(state, event),
        forall|i: int| 0 <= i < r.1@.len() && (#[trigger] r.1@[i]) is Leave ==> conn_leaves(state, event) && i
            == r.1@.len() - 1,
        conn_leaves(state, event) ==> r.1@ == seq![ConnOutput::Leave(state->0)],
        state == ConnState::Closed ==> r.1@.len() == 0,
        state == ConnState::AwaitingHello ==> match event {
            ConnEvent::First(Some(ClientMsg::Hello { name, protocol })) => if protocol == PROTOCOL_VERSION {
                r.1@ == seq![ConnOutput::Join(name)]
            } else {
                r.1@.len() == 1 && (r.1@[0] matches ConnOutput::Send(ServerMsg::Error(message)) && message@
                    == "protocol version mismatch"@)
            },
            _ => r.1@.len() == 0,
        },
        state == ConnState::AwaitingJoin ==> r.1@.len() == 0,
        state is Joined ==> match event {
            ConnEvent::Message(m) => match m {
                ClientMsg::Game(g) => r.1@ == seq![ConnOutput::Relay { from: state->0, msg: g }],
                _ => r.1@.len() == 0,
            },
            ConnEvent::Ended => r.1@ == seq![ConnOutput::Leave(state->0)],
            _ => r.1@.len() == 0,
        },
{
    let mut out: Vec<ConnOutput> = Vec::new();
    match state {
        ConnState::Closed => (ConnState::Closed, out),
        ConnState::AwaitingHello => match event {
            ConnEvent::First(m) => match check_hello(m) {
                HelloCheck::Join(name) => {
                    out.push(ConnOutput::Join(name));
                    (ConnState::AwaitingJoin, out)
                },
                HelloCheck::Refuse(msg) => {
                    out.push(ConnOutput::Send(msg));
                    (ConnState::Closed, out)
                },
                HelloCheck::Close => (ConnState::Closed, out),
            },
            ConnEvent::Ended => (ConnState::Closed, out),
            _ => (state, out),
        },
        ConnState::AwaitingJoin => match event {
            ConnEvent::JoinReply(Some(id)) => (ConnState::Joined(id), out),
            ConnEvent::JoinReply(None) | ConnEvent::Ended => (ConnState::Closed, out),
            _ => (state, out),
        },
        ConnState::Joined(id) => match event {
            ConnEvent::Message(m) => {
                match relayed_move(m) {
                    Some(g) => out.push(ConnOutput::Relay { from: id, msg: g }),
                    None => {},
                }
                (state, out)
            },
            ConnEvent::Ended => {
                out.push(ConnOutput::Leave(id));
                (ConnState::Closed, out)
            },
            _ => (state, out),
        },
    }
}

/// The state after a run of events.
pub open spec fn conn_after(s: ConnState, es: Seq<ConnEvent>) -> ConnState
    decreases es.len(),
{
    if es.len() == 0 {
        s
    } else {
        conn_after(conn_next(s, es[0]), es.drop_first())
    }
}

/// How many `Leave` outputs a run of events gives.
pub open spec fn conn_leave_count(s: ConnState, es: Seq<ConnEvent>) -> nat
    decreases es.len(),
{
    if es.len() == 0 {
        0
    } else {
        (if conn_leaves(s, es[0]) {
            1nat
        } else {
            0nat
        }) + conn_leave_count(conn_next(s, es[0]), es.drop_first())
    }
}

/// The run joined the lobby at some point.
pub open spec fn conn_ever_joined(s: ConnState, es: Seq<ConnEvent>) -> bool
    decreases es.len(),
{
    s is Joined || (es.len() > 0 && conn_ever_joined(conn_next(s, es[0]), es.drop_first()))
}

/// A relay connection leaves the lobby exactly once if it ever joined and has
/// ended, and never otherwise; a closed connection stays closed.
pub proof fn lemma_conn_leaves_once(s: ConnState, es: Seq<ConnEvent>)
    ensures
        conn_leave_count(s, es) == (if conn_ever_joined(s, es) && conn_after(s, es) == ConnState::Closed {
            1nat
        } else {
            0nat
        }),
        conn_leave_count(s, es) <= 1,
        s is Joined ==> conn_after(s, es) is Joined || conn_after(s, es) == ConnState::Closed,
        s == ConnState::Closed ==> conn_after(s, es) == ConnState::Closed && !conn_ever_joined(s, es),
    decreases es.len(),
{
    if es.len() > 0 {
        lemma_conn_leaves_once(conn_next(s, es[0]), es.drop_first());
    }
}

} // verus!
