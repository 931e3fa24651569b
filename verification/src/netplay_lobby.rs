//! The netplay lobby: all matchmaking state, processed one command at a time.
//!
//! It tracks all connected players, broadcasts presence to those not in a
//! game, forwards invites, and pairs players who accept. Each operation
//! returns the messages to deliver; the connection layer routes them.

use vstd::prelude::*;

use crate::netplay_protocol::{PlayerId, PlayerInfo, Seat, ServerMsg, ServerMsgView};

verus! {

/// Max simultaneous players in the lobby (bounds presence-broadcast fan-out).
pub const MAX_LOBBY_PLAYERS: usize = 200;

/// A message for one connected player.
#[derive(Clone, Debug, PartialEq, Eq)]
pub struct Delivery {
    pub to: PlayerId,
    pub msg: ServerMsg,
}

impl View for Delivery {
    type V = (PlayerId, ServerMsgView);

    open spec fn view(&self) -> (PlayerId, ServerMsgView) {
        (self.to, self.msg@)
    }
}

/// Deliveries read as (recipient, message) pairs.
pub open spec fn deliveries(s: Seq<Delivery>) -> Seq<(PlayerId, ServerMsgView)> {
    s.map_values(|d: Delivery| d@)
}

/// One connected player.
#[derive(Clone, Debug, PartialEq, Eq)]
pub struct LobbyPlayer {
    pub id: PlayerId,
    pub name: String,
    /// The opponent's id while in a game, else `None` (available).
    pub partner: Option<PlayerId>,
}

/// The abstract state of the lobby: the next id to hand out, and the players
/// in order of arrival.
#[verifier::ext_equal]
pub struct LobbyView {
    pub next_id: int,
    pub players: Seq<LobbyPlayer>,
}

/// `id` is a connected player.
pub open spec fn connected(ps: Seq<LobbyPlayer>, id: PlayerId) -> bool {
    exists|i: int| 0 <= i < ps.len() && (#[trigger] ps[i]).id == id
}

/// The position of player `id` (meaningful when [`connected`] holds).
pub open spec fn pos(ps: Seq<LobbyPlayer>, id: PlayerId) -> int {
    choose|i: int| 0 <= i < ps.len() && (#[trigger] ps[i]).id == id
}

/// `id` is connected and not in a game.
pub open spec fn available(ps: Seq<LobbyPlayer>, id: PlayerId) -> bool {
    connected(ps, id) && ps[pos(ps, id)].partner is None
}

/// The display name of player `id`.
pub open spec fn name_of(ps: Seq<LobbyPlayer>, id: PlayerId) -> String {
    ps[pos(ps, id)].name
}

/// Players are listed in strictly increasing id order.
pub open spec fn sorted_ids(ps: Seq<LobbyPlayer>) -> bool {
    forall|i: int, j: int| 0 <= i < j < ps.len() ==> (#[trigger] ps[i]).id < (#[trigger] ps[j]).id
}

/// The partner of the player at `i` is connected and paired back with them.
pub open spec fn paired_back(ps: Seq<LobbyPlayer>, i: int) -> bool {
    let q = ps[i].partner.unwrap();
    q != ps[i].id && connected(ps, q) && ps[pos(ps, q)].partner == Some(ps[i].id)
}

impl LobbyView {
    /// Players are listed in increasing id order, every id was handed out, and
    /// pairings are mutual and between two different players.
    pub open spec fn wf(self) -> bool {
        &&& sorted_ids(self.players)
        &&& forall|i: int| 0 <= i < self.players.len() ==> (#[trigger] self.players[i]).id < self.next_id
        &&& forall|i: int|
            0 <= i < self.players.len() && (#[trigger] self.players[i]).partner is Some ==> paired_back(
                self.players,
                i,
            )
    }
}

/// The state after `name` joins: a new available player with the next id.
pub open spec fn joined(v: LobbyView, name: String) -> LobbyView {
    LobbyView {
        next_id: v.next_id + 1,
        players: v.players.push(LobbyPlayer { id: v.next_id as PlayerId, name, partner: None }),
    }
}

/// Player `id` with a new partner value.
pub open spec fn repartnered(ps: Seq<LobbyPlayer>, id: PlayerId, partner: Option<PlayerId>) -> Seq<
    LobbyPlayer,
> {
    ps.update(pos(ps, id), LobbyPlayer { id, name: ps[pos(ps, id)].name, partner })
}

/// The players after `inviter` and `accepter` are paired with each other.
pub open spec fn paired(ps: Seq<LobbyPlayer>, inviter: PlayerId, accepter: PlayerId) -> Seq<LobbyPlayer> {
    repartnered(repartnered(ps, inviter, Some(accepter)), accepter, Some(inviter))
}

/// The players after `id` leaves: it is removed, and a partner it had is
/// available again.
pub open spec fn left(ps: Seq<LobbyPlayer>, id: PlayerId) -> Seq<LobbyPlayer> {
    let rest = ps.remove(pos(ps, id));
    match ps[pos(ps, id)].partner {
        Some(q) => repartnered(rest, q, None),
        None => rest,
    }
}

/// What the partner of a leaving player `id` is told: that their opponent
/// left.
pub open spec fn leave_notice(ps: Seq<LobbyPlayer>, id: PlayerId) -> Seq<(PlayerId, ServerMsgView)> {
    match ps[pos(ps, id)].partner {
        Some(q) => seq![(q, ServerMsgView::OpponentLeft)],
        None => Seq::empty(),
    }
}

/// `accepter` can accept `inviter`'s invite: two different players, both
/// available.
pub open spec fn can_pair(ps: Seq<LobbyPlayer>, accepter: PlayerId, inviter: PlayerId) -> bool {
    accepter != inviter && available(ps, accepter) && available(ps, inviter)
}

/// What an invite from `from` to `to` sends: the invite, when both are
/// available.
pub open spec fn invite_notice(ps: Seq<LobbyPlayer>, from: PlayerId, to: PlayerId) -> Seq<
    (PlayerId, ServerMsgView),
> {
    if available(ps, from) && available(ps, to) {
        seq![(to, ServerMsgView::Invited { from, name: name_of(ps, from) })]
    } else {
        Seq::empty()
    }
}

/// What a decline sends: the inviter hears of it while still available.
pub open spec fn decline_notice(ps: Seq<LobbyPlayer>, decliner: PlayerId, inviter: PlayerId) -> Seq<
    (PlayerId, ServerMsgView),
> {
    if available(ps, inviter) {
        seq![(inviter, ServerMsgView::InviteDeclined { by: decliner })]
    } else {
        Seq::empty()
    }
}

/// What a payload from `from` sends: the payload, to `from`'s opponent.
pub open spec fn relay_notice(ps: Seq<LobbyPlayer>, from: PlayerId, payload: Seq<u8>) -> Seq<
    (PlayerId, ServerMsgView),
> {
    if connected(ps, from) && ps[pos(ps, from)].partner is Some {
        seq![(ps[pos(ps, from)].partner.unwrap(), ServerMsgView::Game { payload })]
    } else {
        Seq::empty()
    }
}

/// What pairing `inviter` with `accepter` sends: each is told their seat
/// and opponent (the inviter takes seat 0), then presence goes out again.
pub open spec fn match_notice(ps: Seq<LobbyPlayer>, inviter: PlayerId, accepter: PlayerId) -> Seq<
    (PlayerId, ServerMsgView),
> {
    seq![
        (inviter, ServerMsgView::Matched { seat: Seat(0), opponent: name_of(ps, accepter) }),
        (accepter, ServerMsgView::Matched { seat: Seat(1), opponent: name_of(ps, inviter) }),
    ] + presence(paired(ps, inviter, accepter))
}

/// A command for the lobby from a player's connection.
#[derive(Debug, PartialEq, Eq)]
pub enum LobbyCommand {
    Invite { from: PlayerId, to: PlayerId },
    Accept { accepter: PlayerId, inviter: PlayerId },
    Decline { decliner: PlayerId, inviter: PlayerId },
    Relay { from: PlayerId, payload: Vec<u8> },
    Leave { id: PlayerId },
}

/// The lobby after `cmd`.
pub open spec fn command_state(v: LobbyView, cmd: LobbyCommand) -> LobbyView {
    match cmd {
        LobbyCommand::Accept { accepter, inviter } => if can_pair(v.players, accepter, inviter) {
            LobbyView { next_id: v.next_id, players: paired(v.players, inviter, accepter) }
        } else {
            v
        },
        LobbyCommand::Leave { id } => if connected(v.players, id) {
            LobbyView { next_id: v.next_id, players: left(v.players, id) }
        } else {
            v
        },
        _ => v,
    }
}

/// The messages `cmd` sends.
pub open spec fn command_deliveries(v: LobbyView, cmd: LobbyCommand) -> Seq<(PlayerId, ServerMsgView)> {
    let ps = v.players;
    match cmd {
        LobbyCommand::Invite { from, to } => invite_notice(ps, from, to),
        LobbyCommand::Accept { accepter, inviter } => if can_pair(ps, accepter, inviter) {
            match_notice(ps, inviter, accepter)
        } else {
            Seq::empty()
        },
        LobbyCommand::Decline { decliner, inviter } => decline_notice(ps, decliner, inviter),
        LobbyCommand::Relay { from, payload } => relay_notice(ps, from, payload@),
        LobbyCommand::Leave { id } => if connected(ps, id) {
            leave_notice(ps, id) + presence(left(ps, id))
        } else {
            Seq::empty()
        },
    }
}

/// The available players among the first `n`, as presence entries.
pub open spec fn available_infos(ps: Seq<LobbyPlayer>, n: nat) -> Seq<PlayerInfo>
    decreases n,
{
    if n == 0 {
        Seq::empty()
    } else if ps[n - 1].partner is None {
        available_infos(ps, (n - 1) as nat).push(PlayerInfo { id: ps[n - 1].id, name: ps[n - 1].name })
    } else {
        available_infos(ps, (n - 1) as nat)
    }
}

/// The first `n` entries of `infos` other than player `rid`.
pub open spec fn others(infos: Seq<PlayerInfo>, rid: PlayerId, n: nat) -> Seq<PlayerInfo>
    decreases n,
{
    if n == 0 {
        Seq::empty()
    } else if infos[n - 1].id != rid {
        others(infos, rid, (n - 1) as nat).push(infos[n - 1])
    } else {
        others(infos, rid, (n - 1) as nat)
    }
}

/// Presence messages for the first `n` entries of `infos`: each gets the list
/// of the others.
pub open spec fn presence_upto(infos: Seq<PlayerInfo>, n: nat) -> Seq<(PlayerId, ServerMsgView)>
    decreases n,
{
    if n == 0 {
        Seq::empty()
    } else {
        presence_upto(infos, (n - 1) as nat).push(
            (
                infos[n - 1].id,
                ServerMsgView::Presence { players: others(infos, infos[n - 1].id, infos.len()) },
            ),
        )
    }
}

/// The presence broadcast: every available player gets the list of the
/// *other* available players, in arrival order.
pub open spec fn presence(ps: Seq<LobbyPlayer>) -> Seq<(PlayerId, ServerMsgView)> {
    presence_upto(available_infos(ps, ps.len()), available_infos(ps, ps.len()).len())
}

/// With ids in increasing order, the player at `i` is the one [`pos`] finds.
pub proof fn lemma_pos(ps: Seq<LobbyPlayer>, i: int)
    requires
        sorted_ids(ps),
        0 <= i < ps.len(),
    ensures
        connected(ps, ps[i].id),
        pos(ps, ps[i].id) == i,
{
    let id = ps[i].id;
    assert(connected(ps, id));
    let k = pos(ps, id);
    if k < i {
        assert(ps[k].id < ps[i].id);
    } else if k > i {
        assert(ps[i].id < ps[k].id);
    }
}

/// No entry of [`others`] is the excluded player.
proof fn lemma_others_excludes(infos: Seq<PlayerInfo>, rid: PlayerId, n: nat)
    requires
        n <= infos.len(),
    ensures
        forall|j: int| 0 <= j < others(infos, rid, n).len() ==> (#[trigger] others(infos, rid, n)[j]).id != rid,
    decreases n,
{
    if n > 0 {
        lemma_others_excludes(infos, rid, (n - 1) as nat);
        let prev = others(infos, rid, (n - 1) as nat);
        let cur = others(infos, rid, n);
        assert forall|j: int| 0 <= j < cur.len() implies (#[trigger] cur[j]).id != rid by {
            if infos[n - 1].id != rid {
                assert(cur == prev.push(infos[n - 1]));
                if j < prev.len() {
                    assert(cur[j] == prev[j]);
                }
            } else {
                assert(cur == prev);
            }
        }
    }
}

/// The `k`-th presence message goes to the `k`-th entry.
proof fn lemma_presence_upto(infos: Seq<PlayerInfo>, n: nat)
    requires
        n <= infos.len(),
    ensures
        presence_upto(infos, n).len() == n,
        forall|k: int|
            0 <= k < n ==> #[trigger] presence_upto(infos, n)[k] == (
                infos[k].id,
                ServerMsgView::Presence { players: others(infos, infos[k].id, infos.len()) },
            ),
    decreases n,
{
    if n > 0 {
        lemma_presence_upto(infos, (n - 1) as nat);
    }
}

/// Every entry of [`available_infos`] is an available player.
proof fn lemma_available_infos(ps: Seq<LobbyPlayer>, n: nat)
    requires
        sorted_ids(ps),
        n <= ps.len(),
    ensures
        forall|j: int|
            0 <= j < available_infos(ps, n).len() ==> available(ps, (#[trigger] available_infos(ps, n)[j]).id),
    decreases n,
{
    if n > 0 {
        lemma_available_infos(ps, (n - 1) as nat);
        let prev = available_infos(ps, (n - 1) as nat);
        let cur = available_infos(ps, n);
        lemma_pos(ps, n - 1);
        assert forall|j: int| 0 <= j < cur.len() implies available(ps, (#[trigger] cur[j]).id) by {
            if ps[n - 1].partner is None {
                assert(cur == prev.push(PlayerInfo { id: ps[n - 1].id, name: ps[n - 1].name }));
                if j < prev.len() {
                    assert(cur[j] == prev[j]);
                }
            } else {
                assert(cur == prev);
            }
        }
    }
}

/// The players a presence message lists (none for other messages).
pub open spec fn listed(m: ServerMsgView) -> Seq<PlayerInfo> {
    match m {
        ServerMsgView::Presence { players } => players,
        _ => Seq::empty(),
    }
}

/// Presence goes only to available players, is a presence list, and never
/// lists its recipient.
pub proof fn lemma_presence_recipients(v: LobbyView)
    requires
        v.wf(),
    ensures
        forall|k: int|
            0 <= k < presence(v.players).len() ==> available(v.players, (#[trigger] presence(v.players)[k]).0)
                && presence(v.players)[k].1 is Presence,
        forall|k: int, j: int|
            0 <= k < presence(v.players).len() && 0 <= j < listed(presence(v.players)[k].1).len() ==> (
            #[trigger] listed(#[trigger] presence(v.players)[k].1)[j]).id != presence(v.players)[k].0,
{
    let ps = v.players;
    let infos = available_infos(ps, ps.len());
    lemma_presence_upto(infos, infos.len());
    lemma_available_infos(ps, ps.len());
    assert forall|k: int| 0 <= k < presence(ps).len() implies available(ps, (#[trigger] presence(ps)[k]).0)
        && presence(ps)[k].1 is Presence by {
        assert(available(ps, infos[k].id));
    }
    assert forall|k: int, j: int|
        0 <= k < presence(ps).len() && 0 <= j < listed(presence(ps)[k].1).len() implies (#[trigger] listed(
        #[trigger] presence(ps)[k].1,
    )[j]).id != presence(ps)[k].0 by {
        lemma_others_excludes(infos, infos[k].id, infos.len());
    }
}

/// [`others`] keeps every entry among the first `n` that is not `rid`.
proof fn lemma_others_complete(infos: Seq<PlayerInfo>, rid: PlayerId, n: nat)
    requires
        n <= infos.len(),
    ensures
        forall|j: int| 0 <= j < n && infos[j].id != rid ==> others(infos, rid, n).contains(#[trigger] infos[j]),
    decreases n,
{
    if n > 0 {
        lemma_others_complete(infos, rid, (n - 1) as nat);
        let prev = others(infos, rid, (n - 1) as nat);
        let cur = others(infos, rid, n);
        assert forall|j: int| 0 <= j < n && infos[j].id != rid implies cur.contains(#[trigger] infos[j]) by {
            if infos[n - 1].id != rid {
                assert(cur == prev.push(infos[n - 1]));
                if j < n - 1 {
                    let t = choose|t: int| 0 <= t < prev.len() && prev[t] == infos[j];
                    assert(cur[t] == infos[j]);
                } else {
                    assert(cur[prev.len() as int] == infos[j]);
                }
            } else {
                assert(cur == prev);
            }
        }
    }
}

/// [`available_infos`] lists every available player among the first `n`.
proof fn lemma_available_infos_complete(ps: Seq<LobbyPlayer>, n: nat)
    requires
        n <= ps.len(),
    ensures
        forall|i: int|
            0 <= i < n && (#[trigger] ps[i]).partner is None ==> available_infos(ps, n).contains(
                PlayerInfo { id: ps[i].id, name: ps[i].name },
            ),
    decreases n,
{
    if n > 0 {
        lemma_available_infos_complete(ps, (n - 1) as nat);
        let prev = available_infos(ps, (n - 1) as nat);
        let cur = available_infos(ps, n);
        assert forall|i: int| 0 <= i < n && (#[trigger] ps[i]).partner is None implies cur.contains(
            PlayerInfo { id: ps[i].id, name: ps[i].name },
        ) by {
            let info = PlayerInfo { id: ps[i].id, name: ps[i].name };
            if ps[n - 1].partner is None {
                assert(cur == prev.push(PlayerInfo { id: ps[n - 1].id, name: ps[n - 1].name }));
                if i < n - 1 {
                    let t = choose|t: int| 0 <= t < prev.len() && prev[t] == info;
                    assert(cur[t] == info);
                } else {
                    assert(cur[prev.len() as int] == info);
                }
            } else {
                assert(cur == prev);
            }
        }
    }
}

/// Presence is complete: every available player gets a presence message, and
/// each message lists every available player other than its recipient, under
/// their own name.
pub proof fn lemma_presence_complete(v: LobbyView)
    requires
        v.wf(),
    ensures
        forall|i: int|
            0 <= i < v.players.len() && (#[trigger] v.players[i]).partner is None ==> exists|k: int|
                0 <= k < presence(v.players).len() && (#[trigger] presence(v.players)[k]).0 == v.players[i].id,
        forall|k: int, i: int|
            0 <= k < presence(v.players).len() && 0 <= i < v.players.len() && (#[trigger] v.players[i]).partner is None
                && v.players[i].id != (#[trigger] presence(v.players)[k]).0 ==> listed(presence(v.players)[k].1).contains(
                PlayerInfo { id: v.players[i].id, name: v.players[i].name },
            ),
{
    let ps = v.players;
    let infos = available_infos(ps, ps.len());
    lemma_presence_upto(infos, infos.len());
    lemma_available_infos_complete(ps, ps.len());
    assert forall|i: int| 0 <= i < ps.len() && (#[trigger] ps[i]).partner is None implies exists|k: int|
        0 <= k < presence(ps).len() && (#[trigger] presence(ps)[k]).0 == ps[i].id by {
        let info = PlayerInfo { id: ps[i].id, name: ps[i].name };
        assert(infos.contains(info));
        let t = choose|t: int| 0 <= t < infos.len() && infos[t] == info;
        assert(presence(ps)[t].0 == ps[i].id);
    }
    assert forall|k: int, i: int|
        0 <= k < presence(ps).len() && 0 <= i < ps.len() && (#[trigger] ps[i]).partner is None && ps[i].id != (
        #[trigger] presence(ps)[k]).0 implies listed(presence(ps)[k].1).contains(
        PlayerInfo { id: ps[i].id, name: ps[i].name },
    ) by {
        let info = PlayerInfo { id: ps[i].id, name: ps[i].name };
        assert(infos.contains(info));
        let t = choose|t: int| 0 <= t < infos.len() && infos[t] == info;
        lemma_others_complete(infos, infos[k].id, infos.len());
        assert(infos[t].id != infos[k].id);
    }
}

/// Pairings are mutual and between different players: if `a` plays `b`, then
/// `b` is not `a`, is connected, and plays `a`.
pub proof fn lemma_partner_mutual(v: LobbyView, a: PlayerId)
    requires
        v.wf(),
        connected(v.players, a),
        v.players[pos(v.players, a)].partner is Some,
    ensures
        v.players[pos(v.players, a)].partner.unwrap() != a,
        connected(v.players, v.players[pos(v.players, a)].partner.unwrap()),
        v.players[pos(v.players, v.players[pos(v.players, a)].partner.unwrap())].partner == Some(a),
{
    let i = pos(v.players, a);
    assert(v.players[i].partner is Some);
    assert(paired_back(v.players, i));
}

/// Replacing the entry at `k` by one with the same id keeps every position.
proof fn lemma_update_keeps_positions(ps: Seq<LobbyPlayer>, k: int, p: LobbyPlayer)
    requires
        sorted_ids(ps),
        0 <= k < ps.len(),
        p.id == ps[k].id,
    ensures
        sorted_ids(ps.update(k, p)),
        forall|id: PlayerId| connected(ps.update(k, p), id) == connected(ps, id),
        forall|id: PlayerId| connected(ps, id) ==> pos(ps.update(k, p), id) == pos(ps, id),
{
    let qs = ps.update(k, p);
    assert(sorted_ids(qs)) by {
        assert forall|i: int, j: int| 0 <= i < j < qs.len() implies (#[trigger] qs[i]).id < (#[trigger] qs[j]).id by {
            assert(ps[i].id < ps[j].id);
        }
    }
    assert forall|id: PlayerId| connected(qs, id) == connected(ps, id) by {
        if connected(ps, id) {
            let i = choose|i: int| 0 <= i < ps.len() && (#[trigger] ps[i]).id == id;
            assert(qs[i].id == id);
        }
        if connected(qs, id) {
            let i = choose|i: int| 0 <= i < qs.len() && (#[trigger] qs[i]).id == id;
            assert(ps[i].id == id);
        }
    }
    assert forall|id: PlayerId| connected(ps, id) implies pos(qs, id) == pos(ps, id) by {
        let i = pos(ps, id);
        assert(qs[i].id == id);
        lemma_pos(qs, i);
    }
}


/// Appending a player whose id exceeds every other keeps every position.
proof fn lemma_push_keeps_positions(ps: Seq<LobbyPlayer>, p: LobbyPlayer)
    requires
        sorted_ids(ps),
        forall|i: int| 0 <= i < ps.len() ==> (#[trigger] ps[i]).id < p.id,
    ensures
        sorted_ids(ps.push(p)),
        forall|id: PlayerId| connected(ps, id) ==> connected(ps.push(p), id) && pos(ps.push(p), id) == pos(ps, id),
        connected(ps.push(p), p.id) && pos(ps.push(p), p.id) == ps.len(),
{
    let qs = ps.push(p);
    assert(sorted_ids(qs)) by {
        assert forall|i: int, j: int| 0 <= i < j < qs.len() implies (#[trigger] qs[i]).id < (#[trigger] qs[j]).id by {
            if j < ps.len() {
                assert(ps[i].id < ps[j].id);
            } else {
                assert(ps[i].id < p.id);
            }
        }
    }
    assert forall|id: PlayerId| connected(ps, id) implies connected(qs, id) && pos(qs, id) == pos(ps, id) by {
        let i = pos(ps, id);
        assert(qs[i].id == id);
        lemma_pos(qs, i);
    }
    assert(qs[ps.len() as int] == p);
    lemma_pos(qs, ps.len() as int);
}

/// Removing the entry at `k` keeps every other player, at the same entry.
proof fn lemma_remove_keeps_entries(ps: Seq<LobbyPlayer>, k: int)
    requires
        sorted_ids(ps),
        0 <= k < ps.len(),
    ensures
        sorted_ids(ps.remove(k)),
        forall|id: PlayerId| connected(ps.remove(k), id) == (connected(ps, id) && id != ps[k].id),
        forall|id: PlayerId|
            connected(ps.remove(k), id) ==> ps.remove(k)[pos(ps.remove(k), id)] == ps[pos(ps, id)],
{
    let qs = ps.remove(k);
    assert(sorted_ids(qs)) by {
        assert forall|i: int, j: int| 0 <= i < j < qs.len() implies (#[trigger] qs[i]).id < (#[trigger] qs[j]).id by {
            let i2 = if i < k { i } else { i + 1 };
            let j2 = if j < k { j } else { j + 1 };
            assert(qs[i] == ps[i2]);
            assert(qs[j] == ps[j2]);
            assert(ps[i2].id < ps[j2].id);
        }
    }
    assert forall|id: PlayerId| connected(qs, id) == (connected(ps, id) && id != ps[k].id) by {
        if connected(qs, id) {
            let i = choose|i: int| 0 <= i < qs.len() && (#[trigger] qs[i]).id == id;
            let i2 = if i < k { i } else { i + 1 };
            assert(qs[i] == ps[i2]);
            assert(ps[i2].id == id);
            if i2 < k {
                assert(ps[i2].id < ps[k].id);
            } else {
                assert(ps[k].id < ps[i2].id);
            }
        }
        if connected(ps, id) && id != ps[k].id {
            let i = pos(ps, id);
            let i2 = if i < k { i } else { i - 1 };
            assert(qs[i2] == ps[i]);
            assert(qs[i2].id == id);
        }
    }
    assert forall|id: PlayerId| connected(qs, id) implies qs[pos(qs, id)] == ps[pos(ps, id)] by {
        let i = pos(qs, id);
        let i2 = if i < k { i } else { i + 1 };
        assert(qs[i] == ps[i2]);
        lemma_pos(ps, i2);
    }
}

/// Pairing two available players keeps the lobby well formed.
proof fn lemma_paired_wf(v: LobbyView, inviter: PlayerId, accepter: PlayerId)
    requires
        v.wf(),
        can_pair(v.players, accepter, inviter),
    ensures
        (LobbyView { next_id: v.next_id, players: paired(v.players, inviter, accepter) }).wf(),
{
    let ps = v.players;
    let i = pos(ps, inviter);
    let a = pos(ps, accepter);
    let pi = LobbyPlayer { id: inviter, name: ps[i].name, partner: Some(accepter) };
    let s1 = ps.update(i, pi);
    lemma_update_keeps_positions(ps, i, pi);
    let pa = LobbyPlayer { id: accepter, name: s1[a].name, partner: Some(inviter) };
    let s2 = s1.update(a, pa);
    lemma_update_keeps_positions(s1, a, pa);
    assert(s2 == paired(ps, inviter, accepter));
    let w = LobbyView { next_id: v.next_id, players: s2 };
    assert forall|j: int| 0 <= j < s2.len() implies (#[trigger] s2[j]).id < w.next_id by {
        assert(ps[j].id < v.next_id);
    }
    assert forall|j: int| 0 <= j < s2.len() && (#[trigger] s2[j]).partner is Some implies paired_back(s2, j) by {
        if j == a {
        } else if j == i {
        } else {
            assert(s2[j] == ps[j]);
            assert(paired_back(ps, j));
            let q = ps[j].partner.unwrap();
            let m = pos(ps, q);
            if m == i || m == a {
                assert(ps[m].partner is None);
            }
            assert(s2[m] == ps[m]);
        }
    }
}

/// A player leaving keeps the lobby well formed.
proof fn lemma_left_wf(v: LobbyView, id: PlayerId)
    requires
        v.wf(),
        connected(v.players, id),
    ensures
        (LobbyView { next_id: v.next_id, players: left(v.players, id) }).wf(),
{
    let ps = v.players;
    let k = pos(ps, id);
    let rest = ps.remove(k);
    lemma_remove_keeps_entries(ps, k);
    let fin = left(ps, id);
    let w = LobbyView { next_id: v.next_id, players: fin };
    // The id of the partner that is reset, if any.
    let reset: Option<PlayerId> = match ps[k].partner {
        Some(q) => if connected(rest, q) { Some(q) } else { None },
        None => None,
    };
    if let Some(q) = reset {
        let m = pos(rest, q);
        lemma_update_keeps_positions(rest, m, LobbyPlayer { id: q, name: rest[m].name, partner: None });
    }
    assert forall|j: int| 0 <= j < fin.len() implies (#[trigger] fin[j]).id < w.next_id by {
        let j2 = if j < k { j } else { j + 1 };
        assert(rest[j] == ps[j2]);
        assert(ps[j2].id < v.next_id);
    }
    assert forall|j: int| 0 <= j < fin.len() && (#[trigger] fin[j]).partner is Some implies paired_back(fin, j) by {
        let j2 = if j < k { j } else { j + 1 };
        assert(rest[j] == ps[j2]);
        if let Some(q) = reset {
            let m = pos(rest, q);
            if j == m {
                assert(fin[j].partner is None);
            }
        }
        assert(fin[j] == rest[j]);
        assert(paired_back(ps, j2));
        let x = fin[j].partner.unwrap();
        if x == id {
            // The leaver was paired with this player, who is then the one reset.
            assert(ps[k].partner == Some(ps[j2].id));
            assert(connected(rest, ps[j2].id));
            lemma_pos(rest, j);
            assert(false);
        }
        assert(connected(rest, x));
        let n = pos(rest, x);
        if let Some(q) = reset {
            let m = pos(rest, q);
            if n == m {
                assert(paired_back(ps, k));
                if j2 < k {
                    assert(ps[j2].id < ps[k].id);
                } else {
                    assert(ps[k].id < ps[j2].id);
                }
                assert(false);
            }
        }
        assert(fin[n] == rest[n]);
    }
}

/// Joining keeps the lobby well formed.
proof fn lemma_joined_wf(v: LobbyView, name: String)
    requires
        v.wf(),
        0 <= v.next_id < u64::MAX,
    ensures
        joined(v, name).wf(),
{
    let ps = v.players;
    let p = LobbyPlayer { id: v.next_id as PlayerId, name, partner: None };
    lemma_push_keeps_positions(ps, p);
    let qs = ps.push(p);
    assert(qs == joined(v, name).players);
    assert forall|j: int| 0 <= j < qs.len() && (#[trigger] qs[j]).partner is Some implies paired_back(qs, j) by {
        assert(j < ps.len());
        assert(qs[j] == ps[j]);
        assert(paired_back(ps, j));
        let m = pos(ps, ps[j].partner.unwrap());
        assert(qs[m] == ps[m]);
    }
}

/// A player with a new partner value.
fn with_partner(p: &LobbyPlayer, partner: Option<PlayerId>) -> (r: LobbyPlayer)
    ensures
        r == (LobbyPlayer { id: p.id, name: p.name, partner }),
{
    LobbyPlayer { id: p.id, name: p.name.clone(), partner }
}

/// The lobby's state.
pub struct Lobby {
    next_id: PlayerId,
    players: Vec<LobbyPlayer>,
}

impl View for Lobby {
    type V = LobbyView;

    closed spec fn view(&self) -> LobbyView {
        LobbyView { next_id: self.next_id as int, players: self.players@ }
    }
}

impl Lobby {
    /// An empty lobby.
    pub fn new() -> (r: Lobby)
        ensures
            r@.next_id == 0,
            r@.players.len() == 0,
            r@.wf(),
    {
        Lobby { next_id: 0, players: Vec::new() }
    }

    /// The id the next arrival gets.
    pub fn next_id(&self) -> (r: PlayerId)
        ensures
            r == self@.next_id,
    {
        self.next_id
    }

    /// The position of player `id`, if connected.
    fn find(&self, id: PlayerId) -> (r: Option<usize>)
        requires
            sorted_ids(self@.players),
        ensures
            r is Some <==> connected(self@.players, id),
            r matches Some(i) ==> i == pos(self@.players, id) && i < self@.players.len(),
    {
        let mut i: usize = 0;
        while i < self.players.len()
            invariant
                i <= self.players@.len(),
                sorted_ids(self@.players),
                forall|j: int| 0 <= j < i ==> (#[trigger] self.players@[j]).id != id,
            decreases self.players@.len() - i,
        {
            if self.players[i].id == id {
                proof {
                    lemma_pos(self@.players, i as int);
                }
                return Some(i);
            }
            i = i + 1;
        }
        proof {
            if connected(self@.players, id) {
                let k = choose|k: int| 0 <= k < self@.players.len() && (#[trigger] self@.players[k]).id == id;
                assert(self.players@[k].id != id);
            }
        }
        None
    }

    /// Whether `id` is connected and not in a game.
    fn is_available(&self, id: PlayerId) -> (r: bool)
        requires
            sorted_ids(self@.players),
        ensures
            r == available(self@.players, id),
    {
        match self.find(id) {
            Some(i) => self.players[i].partner.is_none(),
            None => false,
        }
    }

    /// The display name of the connected player at position `i`.
    fn name_at(&self, i: usize) -> (r: String)
        requires
            i < self@.players.len(),
        ensures
            r == self@.players[i as int].name,
    {
        self.players[i].name.clone()
    }


    /// A player joins, unless the lobby is full. On success they get the next
    /// id and every available player gets a fresh presence list.
    pub fn join(&mut self, name: String) -> (r: (Option<PlayerId>, Vec<Delivery>))
        requires
            old(self)@.wf(),
            old(self)@.next_id < u64::MAX,
        ensures
            final(self)@.wf(),
            old(self)@.players.len() >= MAX_LOBBY_PLAYERS ==> r.0 is None && r.1@.len() == 0
                && final(self)@ == old(self)@,
            old(self)@.players.len() < MAX_LOBBY_PLAYERS ==> r.0 == Some(old(self)@.next_id as PlayerId)
                && final(self)@ == joined(old(self)@, name) && deliveries(r.1@) == presence(
                final(self)@.players,
            ),
    {
        if self.players.len() >= MAX_LOBBY_PLAYERS {
            return (None, Vec::new());
        }
        let ghost v = self@;
        proof {
            lemma_joined_wf(v, name);
        }
        let id = self.next_id;
        self.next_id = self.next_id + 1;
        self.players.push(LobbyPlayer { id, name, partner: None });
        assert(self@ =~= joined(v, name));
        let out = self.broadcast_presence();
        (Some(id), out)
    }

    /// `from` invites `to`: forwarded only when both are available.
    pub fn invite(&self, from: PlayerId, to: PlayerId) -> (r: Vec<Delivery>)
        requires
            self@.wf(),
        ensures
            deliveries(r@) == invite_notice(self@.players, from, to),
    {
        let mut out: Vec<Delivery> = Vec::new();
        if self.is_available(from) && self.is_available(to) {
            let i = self.find(from).unwrap();
            let name = self.name_at(i);
            let d = Delivery { to, msg: ServerMsg::Invited { from, name } };
            out.push(d);
            assert(deliveries(out@) =~= seq![d@]);
        } else {
            assert(deliveries(out@) =~= Seq::empty());
        }
        out
    }

    /// `accepter` accepts `inviter`'s invite: when they are two different
    /// players and both are available, they are paired, the inviter playing
    /// seat 0 (moves first), and presence is broadcast again. Accepting one's
    /// own invite does nothing.
    pub fn accept(&mut self, accepter: PlayerId, inviter: PlayerId) -> (r: Vec<Delivery>)
        requires
            old(self)@.wf(),
        ensures
            final(self)@.wf(),
            final(self)@.next_id == old(self)@.next_id,
            can_pair(old(self)@.players, accepter, inviter) ==> {
                let ps = old(self)@.players;
                &&& final(self)@.players == paired(ps, inviter, accepter)
                &&& deliveries(r@) == match_notice(ps, inviter, accepter)
            },
            !can_pair(old(self)@.players, accepter, inviter) ==> final(self)@ == old(self)@ && r@.len()
                == 0,
    {
        if accepter == inviter || !(self.is_available(accepter) && self.is_available(inviter)) {
            return Vec::new();
        }
        let ghost v = self@;
        let ghost ps = v.players;
        proof {
            lemma_paired_wf(v, inviter, accepter);
        }
        let i = self.find(inviter).unwrap();
        let a = self.find(accepter).unwrap();
        let inviter_name = self.name_at(i);
        let accepter_name = self.name_at(a);
        let pi = with_partner(&self.players[i], Some(accepter));
        self.players.set(i, pi);
        proof {
            lemma_update_keeps_positions(ps, i as int, pi);
        }
        let pa = with_partner(&self.players[a], Some(inviter));
        self.players.set(a, pa);
        assert(self@.players =~= paired(ps, inviter, accepter));
        let mut out: Vec<Delivery> = Vec::new();
        let d0 = Delivery { to: inviter, msg: ServerMsg::Matched { seat: Seat(0), opponent: accepter_name } };
        let d1 = Delivery { to: accepter, msg: ServerMsg::Matched { seat: Seat(1), opponent: inviter_name } };
        out.push(d0);
        out.push(d1);
        let mut rest = self.broadcast_presence();
        let ghost head = out@;
        let ghost tail = rest@;
        out.append(&mut rest);
        assert(out@ =~= head + tail);
        assert(deliveries(head) =~= seq![d0@, d1@]);
        assert(deliveries(out@) =~= deliveries(head) + deliveries(tail));
        out
    }

    /// `decliner` declines `inviter`'s invite: the inviter hears of it while
    /// still available.
    pub fn decline(&self, decliner: PlayerId, inviter: PlayerId) -> (r: Vec<Delivery>)
        requires
            self@.wf(),
        ensures
            deliveries(r@) == decline_notice(self@.players, decliner, inviter),
    {
        let mut out: Vec<Delivery> = Vec::new();
        if self.is_available(inviter) {
            let d = Delivery { to: inviter, msg: ServerMsg::InviteDeclined { by: decliner } };
            out.push(d);
            assert(deliveries(out@) =~= seq![d@]);
        } else {
            assert(deliveries(out@) =~= Seq::empty());
        }
        out
    }

    /// An in-game payload from `from`, forwarded verbatim to their opponent.
    pub fn relay(&self, from: PlayerId, payload: Vec<u8>) -> (r: Vec<Delivery>)
        requires
            self@.wf(),
        ensures
            deliveries(r@) == relay_notice(self@.players, from, payload@),
    {
        let ghost pl = payload@;
        let mut out: Vec<Delivery> = Vec::new();
        match self.find(from) {
            Some(i) => match self.players[i].partner {
                Some(q) => {
                    let d = Delivery { to: q, msg: ServerMsg::Game { payload } };
                    out.push(d);
                    assert(deliveries(out@) =~= seq![d@]);
                },
                None => {
                    assert(deliveries(out@) =~= Seq::empty());
                },
            },
            None => {
                assert(deliveries(out@) =~= Seq::empty());
            },
        }
        out
    }

    /// Player `id` leaves. Their opponent, if any, is available again and told
    /// that the opponent left; presence is broadcast again.
    pub fn leave(&mut self, id: PlayerId) -> (r: Vec<Delivery>)
        requires
            old(self)@.wf(),
        ensures
            final(self)@.wf(),
            final(self)@.next_id == old(self)@.next_id,
            connected(old(self)@.players, id) ==> {
                let ps = old(self)@.players;
                &&& final(self)@.players == left(ps, id)
                &&& deliveries(r@) == leave_notice(ps, id) + presence(left(ps, id))
            },
            !connected(old(self)@.players, id) ==> final(self)@ == old(self)@ && r@.len() == 0,
    {
        let k = match self.find(id) {
            Some(k) => k,
            None => {
                return Vec::new();
            },
        };
        let ghost v = self@;
        let ghost ps = v.players;
        proof {
            lemma_left_wf(v, id);
            lemma_remove_keeps_entries(ps, k as int);
        }
        let gone = self.players.remove(k);
        let mut out: Vec<Delivery> = Vec::new();
        match gone.partner {
            Some(q) => {
                match self.find(q) {
                    Some(m) => {
                        let p = with_partner(&self.players[m], None);
                        self.players.set(m, p);
                        let d = Delivery { to: q, msg: ServerMsg::OpponentLeft };
                        out.push(d);
                        assert(deliveries(out@) =~= seq![d@]);
                    },
                    None => {
                        assert(deliveries(out@) =~= Seq::empty());
                    },
                }
            },
            None => {
                assert(deliveries(out@) =~= Seq::empty());
            },
        }
        assert(self@.players =~= left(ps, id));
        let ghost head = out@;
        let mut rest = self.broadcast_presence();
        let ghost tail = rest@;
        out.append(&mut rest);
        assert(out@ =~= head + tail);
        assert(deliveries(out@) =~= deliveries(head) + deliveries(tail));
        out
    }

    /// Process one command from a connection.
    pub fn handle(&mut self, cmd: LobbyCommand) -> (r: Vec<Delivery>)
        requires
            old(self)@.wf(),
        ensures
            final(self)@.wf(),
            final(self)@ == command_state(old(self)@, cmd),
            deliveries(r@) == command_deliveries(old(self)@, cmd),
    {
        match cmd {
            LobbyCommand::Invite { from, to } => self.invite(from, to),
            LobbyCommand::Accept { accepter, inviter } => self.accept(accepter, inviter),
            LobbyCommand::Decline { decliner, inviter } => self.decline(decliner, inviter),
            LobbyCommand::Relay { from, payload } => self.relay(from, payload),
            LobbyCommand::Leave { id } => self.leave(id),
        }
    }

    /// The connected players, in order of arrival.
    pub fn online_players(&self) -> (r: Vec<PlayerInfo>)
        ensures
            r@ == self@.players.map_values(|p: LobbyPlayer| PlayerInfo { id: p.id, name: p.name }),
    {
        let mut out: Vec<PlayerInfo> = Vec::new();
        let mut i: usize = 0;
        while i < self.players.len()
            invariant
                i <= self@.players.len(),
                out@ == self@.players.subrange(0, i as int).map_values(
                    |p: LobbyPlayer| PlayerInfo { id: p.id, name: p.name },
                ),
            decreases self@.players.len() - i,
        {
            out.push(PlayerInfo { id: self.players[i].id, name: self.name_at(i) });
            i = i + 1;
            assert(self@.players.subrange(0, i as int).map_values(
                |p: LobbyPlayer| PlayerInfo { id: p.id, name: p.name },
            ) =~= out@);
        }
        assert(self@.players.subrange(0, i as int) =~= self@.players);
        out
    }

    /// Send every available player the list of the other available players.
    fn broadcast_presence(&self) -> (r: Vec<Delivery>)
        ensures
            deliveries(r@) == presence(self@.players),
    {
        let ghost ps = self@.players;
        let mut infos: Vec<PlayerInfo> = Vec::new();
        let mut i: usize = 0;
        while i < self.players.len()
            invariant
                ps == self@.players,
                i <= ps.len(),
                infos@ == available_infos(ps, i as nat),
            decreases ps.len() - i,
        {
            if self.players[i].partner.is_none() {
                infos.push(PlayerInfo { id: self.players[i].id, name: self.players[i].name.clone() });
            }
            i = i + 1;
        }
        let mut out: Vec<Delivery> = Vec::new();
        let mut k: usize = 0;
        while k < infos.len()
            invariant
                k <= infos@.len(),
                infos@ == available_infos(ps, ps.len()),
                deliveries(out@) == presence_upto(infos@, k as nat),
            decreases infos@.len() - k,
        {
            let rid = infos[k].id;
            let mut list: Vec<PlayerInfo> = Vec::new();
            let mut j: usize = 0;
            while j < infos.len()
                invariant
                    j <= infos@.len(),
                    rid == infos@[k as int].id,
                    k < infos@.len(),
                    list@ == others(infos@, rid, j as nat),
                decreases infos@.len() - j,
            {
                if infos[j].id != rid {
                    list.push(PlayerInfo { id: infos[j].id, name: infos[j].name.clone() });
                }
                j = j + 1;
            }
            let ghost before = out@;
            let d = Delivery { to: rid, msg: ServerMsg::Presence { players: list } };
            out.push(d);
            assert(deliveries(out@) =~= deliveries(before).push(d@));
            k = k + 1;
        }
        out
    }
}

} // verus!
