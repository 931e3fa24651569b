//! The wire protocol shared by the client and the relay server.
//!
//! Messages use only primitive types (a move is a `u8` square index). Framing
//! is length-delimited: a big-endian `u32` byte count followed by that many
//! bytes of message body (JSON, produced by the serialization layer).

use vstd::prelude::*;

verus! {

/// Bumped on any incompatible change to the message types. The server rejects a
/// [`ClientMsg::Hello`] whose `protocol` doesn't match.
pub const PROTOCOL_VERSION: u16 = 1;

/// Frames larger than this are rejected (messages are tiny; this guards
/// against a bad or hostile length prefix causing a huge allocation).
pub const MAX_FRAME: usize = 65536;

/// A connected player, for the lifetime of its connection.
pub type PlayerId = u64;

/// A player as advertised in the lobby presence list.
#[derive(Clone, Debug, PartialEq, Eq)]
pub struct PlayerInfo {
    pub id: PlayerId,
    pub name: String,
}

/// Which side a player controls.
#[derive(Clone, Copy, Debug, PartialEq, Eq, Structural)]
pub enum Color {
    Black,
    White,
}

/// An in-game action, relayed opaquely by the server between the two players.
#[derive(Clone, Copy, Debug, PartialEq, Eq, Structural)]
pub enum GameMsg {
    /// Place a disc on the square with this flat index (`0..64`).
    Move { square: u8 },
    /// Start a new game (both sides reset).
    Restart,
    /// Concede the game.
    Resign,
}

/// A message from a client to the server.
#[derive(Clone, Debug, PartialEq, Eq)]
pub enum ClientMsg {
    /// First message on connect: the player's display name and protocol version.
    Hello { name: String, protocol: u16 },
    /// Invite another player (by id) to a game.
    Invite { to: PlayerId },
    /// Accept an invite from `inviter`.
    Accept { inviter: PlayerId },
    /// Decline an invite from `inviter`.
    Decline { inviter: PlayerId },
    /// An in-game action, to be relayed to the opponent.
    Game(GameMsg),
}

/// A message from the server to a client.
#[derive(Clone, Debug, PartialEq, Eq)]
pub enum ServerMsg {
    /// The other players currently available in the lobby.
    Presence { players: Vec<PlayerInfo> },
    /// You received an invite from player `from` (named `name`).
    Invited { from: PlayerId, name: String },
    /// An invite you sent was declined by player `by`.
    InviteDeclined { by: PlayerId },
    /// Paired with an opponent; you play `your_color`.
    Matched { your_color: Color, opponent: String },
    /// An in-game action from the opponent.
    Game(GameMsg),
    /// The opponent disconnected or resigned.
    OpponentLeft,
    /// A protocol-level error (e.g. version mismatch); the connection closes.
    Error(String),
}

/// The four big-endian bytes of `n` (taken modulo `2^32`).
pub open spec fn be32(n: int) -> Seq<u8> {
    let m = n % 0x1_0000_0000;
    seq![(m / 0x100_0000) as u8, (m / 0x1_0000 % 0x100) as u8, (m / 0x100 % 0x100) as u8, (m % 0x100) as u8]
}

/// The number four big-endian bytes encode.
pub open spec fn from_be32(b: Seq<u8>) -> int {
    b[0] * 0x100_0000 + b[1] * 0x1_0000 + b[2] * 0x100 + b[3]
}

/// A frame: the body's length as four big-endian bytes, then the body.
pub open spec fn framed(body: Seq<u8>) -> Seq<u8> {
    be32(body.len() as int) + body
}

/// Wrap a message body in a length-delimited frame. The length prefix is the
/// body length truncated to 32 bits.
pub fn frame_body(body: &[u8]) -> (r: Vec<u8>)
    ensures
        r@ == framed(body@),
{
    let n = body.len();
    let m: u64 = (n as u64) % 0x1_0000_0000;
    let mut frame: Vec<u8> = Vec::new();
    frame.push((m / 0x100_0000) as u8);
    frame.push((m / 0x1_0000 % 0x100) as u8);
    frame.push((m / 0x100 % 0x100) as u8);
    frame.push((m % 0x100) as u8);
    assert(frame@ =~= be32(n as int));
    let mut k: usize = 0;
    while k < body.len()
        invariant
            k <= body@.len(),
            frame@ == be32(n as int) + body@.take(k as int),
            n == body@.len(),
        decreases body@.len() - k,
    {
        frame.push(body[k]);
        assert(body@.take(k + 1) =~= body@.take(k as int).push(body@[k as int]));
        assert(frame@ =~= be32(n as int) + body@.take(k + 1));
        k = k + 1;
    }
    assert(body@.take(body@.len() as int) =~= body@);
    frame
}

/// Why reading a frame failed.
#[derive(Clone, Copy, Debug, PartialEq, Eq, Structural)]
pub enum FrameError {
    /// The stream ended inside a frame body.
    UnexpectedEof,
    /// The length prefix exceeds [`MAX_FRAME`].
    TooLarge,
}

/// An in-memory byte stream read front to back: the bytes and how many of
/// them have been consumed.
pub struct ByteReader {
    data: Vec<u8>,
    pos: usize,
}

/// The abstract state of a [`ByteReader`].
pub struct ReaderView {
    pub data: Seq<u8>,
    pub pos: int,
}

impl View for ByteReader {
    type V = ReaderView;

    closed spec fn view(&self) -> ReaderView {
        ReaderView { data: self.data@, pos: self.pos as int }
    }
}

impl ReaderView {
    /// The reader's position is within its data.
    pub open spec fn wf(self) -> bool {
        0 <= self.pos <= self.data.len()
    }

    /// The bytes not read yet.
    pub open spec fn rest(self) -> Seq<u8> {
        self.data.subrange(self.pos, self.data.len() as int)
    }
}

/// What [`read_frame`] returns and where it leaves the reader, given the
/// bytes not read yet and the current position.
///
/// No bytes left is a clean end of stream (`Ok(None)`); a length prefix cut
/// short is `UnexpectedEof` (all bytes consumed); a length above [`MAX_FRAME`]
/// is `TooLarge` (prefix consumed); a body cut short is `UnexpectedEof` (all
/// bytes consumed); otherwise the body is returned and consumed.
pub open spec fn read_frame_result(rest: Seq<u8>) -> (Result<Option<Seq<u8>>, FrameError>, int) {
    if rest.len() == 0 {
        (Ok(None), 0)
    } else if rest.len() < 4 {
        (Err(FrameError::UnexpectedEof), rest.len() as int)
    } else if from_be32(rest.take(4)) > MAX_FRAME {
        (Err(FrameError::TooLarge), 4)
    } else if rest.len() - 4 < from_be32(rest.take(4)) {
        (Err(FrameError::UnexpectedEof), rest.len() as int)
    } else {
        (Ok(Some(rest.subrange(4, 4 + from_be32(rest.take(4))))), 4 + from_be32(rest.take(4)))
    }
}

impl ByteReader {
    #[verifier::type_invariant]
    spec fn position_in_range(self) -> bool {
        self.pos <= self.data.len()
    }

    /// A reader at the start of `data`.
    pub fn new(data: Vec<u8>) -> (r: ByteReader)
        ensures
            r@.data == data@,
            r@.pos == 0,
    {
        ByteReader { data, pos: 0 }
    }

    /// How many bytes have been consumed.
    pub fn position(&self) -> (r: usize)
        ensures
            r == self@.pos,
            self@.wf(),
    {
        proof {
            use_type_invariant(self);
        }
        self.pos
    }
}

/// A frame result read as sequences.
pub open spec fn frame_result_view(r: Result<Option<Vec<u8>>, FrameError>) -> Result<Option<Seq<u8>>, FrameError> {
    match r {
        Ok(Some(v)) => Ok(Some(v@)),
        Ok(None) => Ok(None),
        Err(e) => Err(e),
    }
}

/// Read one length-delimited frame body. Returns `Ok(None)` on a clean end of
/// stream at a frame boundary (the peer closed the connection).
pub fn read_frame(reader: &mut ByteReader) -> (r: Result<Option<Vec<u8>>, FrameError>)
    ensures
        final(reader)@.wf(),
        final(reader)@.data == old(reader)@.data,
        final(reader)@.pos == old(reader)@.pos + read_frame_result(old(reader)@.rest()).1,
        frame_result_view(r) == read_frame_result(old(reader)@.rest()).0,
{
    proof {
        use_type_invariant(&*reader);
    }
    let ghost rest = old(reader)@.rest();
    let total = reader.data.len();
    let pos = reader.pos;
    if total == pos {
        return Ok(None);
    }
    if total - pos < 4 {
        reader.pos = total;
        return Err(FrameError::UnexpectedEof);
    }
    let b0 = reader.data[pos] as usize;
    let b1 = reader.data[pos + 1] as usize;
    let b2 = reader.data[pos + 2] as usize;
    let b3 = reader.data[pos + 3] as usize;
    assert(rest.take(4) =~= seq![rest[0], rest[1], rest[2], rest[3]]);
    let len: u64 = (b0 as u64) * 0x100_0000 + (b1 as u64) * 0x1_0000 + (b2 as u64) * 0x100 + (b3 as u64);
    assert(len == from_be32(rest.take(4)));
    if len > MAX_FRAME as u64 {
        reader.pos = pos + 4;
        return Err(FrameError::TooLarge);
    }
    let len = len as usize;
    if total - pos - 4 < len {
        reader.pos = total;
        return Err(FrameError::UnexpectedEof);
    }
    let start = pos + 4;
    let data = &reader.data;
    let mut body: Vec<u8> = Vec::new();
    let mut k: usize = 0;
    while k < len
        invariant
            k <= len,
            start + len <= data@.len(),
            start + len <= total,
            total == data@.len(),
            data@ == old(reader)@.data,
            body@ == data@.subrange(start as int, start + k),
        decreases len - k,
    {
        body.push(data[start + k]);
        assert(body@ =~= data@.subrange(start as int, start + k + 1));
        k = k + 1;
    }
    reader.pos = start + len;
    assert(body@ =~= rest.subrange(4, 4 + len));
    Ok(Some(body))
}

/// What a stream reader that got `got` bytes of a length prefix (stopping
/// early only at the end of the stream) does next: nothing read is a clean end
/// (`Ok(None)`), a prefix cut short is `UnexpectedEof`, and a full prefix
/// announces the body length, or `TooLarge`.
pub fn frame_start(got: usize, prefix: [u8; 4]) -> (r: Result<Option<usize>, FrameError>)
    requires
        got <= 4,
    ensures
        got == 0 ==> r == Ok::<Option<usize>, FrameError>(None),
        0 < got < 4 ==> r == Err::<Option<usize>, FrameError>(FrameError::UnexpectedEof),
        got == 4 && from_be32(prefix@) > MAX_FRAME ==> r == Err::<Option<usize>, FrameError>(
            FrameError::TooLarge,
        ),
        got == 4 && from_be32(prefix@) <= MAX_FRAME ==> r == Ok::<Option<usize>, FrameError>(
            Some(from_be32(prefix@) as usize),
        ),
{
    if got == 0 {
        Ok(None)
    } else if got < 4 {
        Err(FrameError::UnexpectedEof)
    } else {
        match frame_len(prefix) {
            Ok(n) => Ok(Some(n)),
            Err(e) => Err(e),
        }
    }
}

/// The body length a four-byte prefix announces, or `TooLarge` when it
/// exceeds [`MAX_FRAME`].
pub fn frame_len(prefix: [u8; 4]) -> (r: Result<usize, FrameError>)
    ensures
        from_be32(prefix@) > MAX_FRAME ==> r == Err::<usize, FrameError>(FrameError::TooLarge),
        from_be32(prefix@) <= MAX_FRAME ==> r == Ok::<usize, FrameError>(from_be32(prefix@) as usize),
{
    let len: u64 = (prefix[0] as u64) * 0x100_0000 + (prefix[1] as u64) * 0x1_0000 + (prefix[2] as u64) * 0x100
        + (prefix[3] as u64);
    if len > MAX_FRAME as u64 {
        Err(FrameError::TooLarge)
    } else {
        Ok(len as usize)
    }
}

/// Decoding a length prefix gives back the length it encodes.
#[verifier::spinoff_prover]
#[verifier::rlimit(40)]
pub proof fn lemma_be32_round_trip(n: int)
    requires
        0 <= n < 0x1_0000_0000,
    ensures
        from_be32(be32(n)) == n,
{
    let a = n / 0x100_0000;
    let r1 = n % 0x100_0000;
    let b = r1 / 0x1_0000;
    let r2 = r1 % 0x1_0000;
    let c = r2 / 0x100;
    let d = r2 % 0x100;
    assert(n == a * 0x100_0000 + r1) by (nonlinear_arith)
        requires
            a == n / 0x100_0000,
            r1 == n % 0x100_0000,
    ;
    assert(r1 == b * 0x1_0000 + r2) by (nonlinear_arith)
        requires
            b == r1 / 0x1_0000,
            r2 == r1 % 0x1_0000,
    ;
    assert(r2 == c * 0x100 + d) by (nonlinear_arith)
        requires
            c == r2 / 0x100,
            d == r2 % 0x100,
    ;
    assert(n / 0x1_0000 % 0x100 == b) by (nonlinear_arith)
        requires
            n == a * 0x100_0000 + r1,
            r1 == b * 0x1_0000 + r2,
            0 <= r2 < 0x1_0000,
            0 <= b < 0x100,
            0 <= a,
    ;
    assert(n / 0x100 % 0x100 == c) by (nonlinear_arith)
        requires
            n == a * 0x100_0000 + b * 0x1_0000 + c * 0x100 + d,
            0 <= d < 0x100,
            0 <= c < 0x100,
            0 <= b < 0x100,
            0 <= a,
    ;
    assert(n % 0x100 == d) by (nonlinear_arith)
        requires
            n == a * 0x100_0000 + b * 0x1_0000 + c * 0x100 + d,
            0 <= d < 0x100,
            0 <= a,
            0 <= b,
            0 <= c,
    ;
}

/// Reading a frame gives back the body that was framed, and stops right after
/// it, whatever follows in the stream.
pub proof fn lemma_read_framed(body: Seq<u8>, tail: Seq<u8>)
    requires
        body.len() <= MAX_FRAME,
    ensures
        read_frame_result(framed(body) + tail) == (Ok::<Option<Seq<u8>>, FrameError>(Some(body)), 4 + body.len() as int),
{
    let s = framed(body) + tail;
    lemma_be32_round_trip(body.len() as int);
    assert(s.take(4) =~= be32(body.len() as int));
    assert(s.subrange(4, 4 + body.len() as int) =~= body);
}

} // verus!
