//! Human-vs-AI game flow, built on the rules and the search.
//!
//! Keeps no windowing or rendering state: just the board and the logic that
//! drives a turn.

use vstd::prelude::*;

use crate::board::{lemma_board_wf, Board};
use crate::heuristic::Heuristic;
use crate::player::Player;
use crate::rules::{legal, lemma_moves, opening, BoardView};
use crate::search::{best_index, lemma_root_choice_legal, root_choice, search, Evaluator};
use crate::selfplay::{game_measure, lemma_progress};
use crate::square::Square;

verus! {

/// The AI's search depth.
pub const AI_DEPTH: u32 = 6;

/// The human plays Black (which moves first); the AI plays White.
pub const HUMAN: Player = Player::Black;

/// The AI (searching with `h`) moves, and either side passes when it has no
/// move, until it is the human's turn with a move to make or the game is over.
pub open spec fn ai_turns(h: Heuristic, b: BoardView) -> BoardView
    decreases game_measure(b),
{
    if !b.wf() || b.is_terminal() {
        b
    } else if b.moves().len() == 0 {
        proof {
            lemma_progress(b, 0);
        }
        ai_turns(h, b.after_pass())
    } else if b.to_move == HUMAN {
        b
    } else {
        let mv = root_choice(h, b, AI_DEPTH as nat);
        proof {
            lemma_root_choice_legal(h, b, AI_DEPTH as nat);
            lemma_progress(b, best_index(h, b, (AI_DEPTH - 1) as nat, b.moves().len()));
        }
        ai_turns(h, b.after_move(mv))
    }
}

/// Where the AI's turns lead: a well-formed board that is finished or where
/// the human has a move.
pub proof fn lemma_ai_turns(h: Heuristic, b: BoardView)
    requires
        b.wf(),
    ensures
        ai_turns(h, b).wf(),
        ai_turns(h, b).is_terminal() || (ai_turns(h, b).to_move == HUMAN && ai_turns(h, b).moves().len()
            > 0),
    decreases game_measure(b),
{
    if !b.is_terminal() {
        if b.moves().len() == 0 {
            lemma_progress(b, 0);
            lemma_ai_turns(h, b.after_pass());
        } else if b.to_move != HUMAN {
            lemma_root_choice_legal(h, b, AI_DEPTH as nat);
            lemma_progress(b, best_index(h, b, (AI_DEPTH - 1) as nat, b.moves().len()));
            lemma_ai_turns(h, b.after_move(root_choice(h, b, AI_DEPTH as nat)));
        }
    }
}

/// The current game plus the AI's evaluator.
pub struct Game {
    pub board: Board,
    pub evaluator: Heuristic,
}

impl Game {
    /// A new game from the opening, against the default engine.
    pub fn new() -> (r: Game)
        ensures
            r.board@ == opening(),
            r.evaluator == (Heuristic { corner: 25, mobility: 5, parity: 1 }),
            r.evaluator.valid(),
    {
        Game { board: Board::new(), evaluator: Heuristic::new() }
    }

    /// True when it is the human's turn to click a move.
    pub fn awaiting_human(&self) -> (r: bool)
        ensures
            r == (!self.board@.is_terminal() && self.board@.to_move == HUMAN),
    {
        !self.board.is_terminal() && self.board.to_move() == HUMAN
    }

    /// Attempt the human's move at `sq`. Returns `true` if it was legal and
    /// applied, in which case the AI has already made its reply; `false` for an
    /// illegal click (ignored) or when it isn't the human's turn.
    pub fn play_human(&mut self, sq: Square) -> (r: bool)
        requires
            old(self).evaluator.valid(),
        ensures
            final(self).evaluator == old(self).evaluator,
            r == (!old(self).board@.is_terminal() && old(self).board@.to_move == HUMAN
                && legal(old(self).board@.cells, old(self).board@.to_move, sq@)),
            r ==> final(self).board@ == ai_turns(old(self).evaluator, old(self).board@.after_move(sq@)),
            r ==> final(self).board@.is_terminal() || (final(self).board@.to_move == HUMAN
                && final(self).board@.moves().len() > 0),
            !r ==> final(self).board == old(self).board,
    {
        proof {
            lemma_board_wf(self.board);
            lemma_moves(self.board@.cells, self.board@.to_move);
        }
        if !self.awaiting_human() {
            return false;
        }
        match self.board.apply(sq) {
            Some(next) => {
                self.board = next;
                proof {
                    lemma_board_wf(self.board);
                    lemma_ai_turns(self.evaluator, self.board@);
                }
                self.run_until_human();
                true
            },
            None => false,
        }
    }

    /// Let the AI move (and pass either side when it has no move) until it is
    /// the human's turn again or the game is over.
    fn run_until_human(&mut self)
        requires
            old(self).evaluator.valid(),
        ensures
            final(self).evaluator == old(self).evaluator,
            final(self).board@ == ai_turns(old(self).evaluator, old(self).board@),
    {
        let ghost h = self.evaluator;
        let ghost start = self.board@;
        proof {
            lemma_board_wf(self.board);
        }
        while !self.board.is_terminal()
            invariant
                self.evaluator == h,
                h.valid(),
                self.board@.wf(),
                ai_turns(h, start) == ai_turns(h, self.board@),
            ensures
                self.evaluator == h,
                ai_turns(h, start) == self.board@,
            decreases game_measure(self.board@),
        {
            let moves = self.board.legal_moves();
            proof {
                lemma_moves(self.board@.cells, self.board@.to_move);
            }
            if moves.len() == 0 {
                proof {
                    lemma_progress(self.board@, 0);
                }
                self.board = self.board.pass();
                continue;
            }
            if self.board.to_move() == HUMAN {
                break;
            }
            let ghost before = self.board@;
            let result = search(&self.board, AI_DEPTH, &self.evaluator);
            proof {
                lemma_root_choice_legal(h, before, AI_DEPTH as nat);
                lemma_progress(before, best_index(h, before, (AI_DEPTH - 1) as nat, before.moves().len()));
            }
            match result.best_move {
                Some(mv) => {
                    self.board = self.board.apply(mv).unwrap();
                },
                None => {
                    self.board = self.board.pass();
                },
            }
        }
    }
}

impl Default for Game {
    fn default() -> (r: Game)
        ensures
            r.board@ == opening(),
            r.evaluator == (Heuristic { corner: 25, mobility: 5, parity: 1 }),
    {
        Game::new()
    }
}

/// After a move, a side with no move in a game that is not over passes:
/// forced passes are never sent over the network, each side derives them.
pub open spec fn settle(b: BoardView) -> BoardView {
    if b.must_pass() {
        b.after_pass()
    } else {
        b
    }
}

/// A networked game: the board and which side this client plays.
pub struct NetGame {
    pub board: Board,
    pub local: Player,
}

impl NetGame {
    /// A game from the opening, with `local` as this client's side.
    pub fn new(local: Player) -> (r: NetGame)
        ensures
            r.board@ == opening(),
            r.local == local,
    {
        NetGame { board: Board::new(), local }
    }

    /// Start over from the opening, on the same side.
    pub fn restart(&mut self)
        ensures
            final(self).board@ == opening(),
            final(self).local == old(self).local,
    {
        self.board = Board::new();
    }

    /// Play a match as `local` from a fresh board.
    pub fn start_match(&mut self, local: Player)
        ensures
            final(self).board@ == opening(),
            final(self).local == local,
    {
        self.board = Board::new();
        self.local = local;
    }

    /// The game is over.
    pub fn is_over(&self) -> (r: bool)
        ensures
            r == self.board@.is_terminal(),
    {
        self.board.is_terminal()
    }

    /// It is this client's turn.
    pub fn awaiting_local(&self) -> (r: bool)
        ensures
            r == (!self.board@.is_terminal() && self.board@.to_move == self.local),
    {
        !self.board.is_terminal() && self.board.to_move() == self.local
    }

    /// Discs of this client and of the opponent.
    pub fn score(&self) -> (r: (u32, u32))
        ensures
            r.0 == self.board@.discs(self.local),
            r.1 == self.board@.discs(crate::player::other(self.local)),
    {
        (self.board.count(self.local), self.board.count(self.local.opponent()))
    }

    /// Play `sq` for the side to move and settle a forced pass.
    fn play(&mut self, sq: Square)
        requires
            legal(old(self).board@.cells, old(self).board@.to_move, sq@),
        ensures
            final(self).board@ == settle(old(self).board@.after_move(sq@)),
            final(self).local == old(self).local,
    {
        let next = self.board.apply(sq).unwrap();
        if next.must_pass() {
            self.board = next.pass();
        } else {
            self.board = next;
        }
    }

    /// This client plays `sq`: only on its own turn and when legal.
    pub fn play_local(&mut self, sq: Square) -> (r: bool)
        ensures
            r == (!old(self).board@.is_terminal() && old(self).board@.to_move == old(self).local && legal(
                old(self).board@.cells,
                old(self).board@.to_move,
                sq@,
            )),
            r ==> final(self).board@ == settle(old(self).board@.after_move(sq@)),
            !r ==> final(self).board == old(self).board,
            final(self).local == old(self).local,
    {
        if !self.awaiting_local() || !self.board.is_legal(sq) {
            return false;
        }
        self.play(sq);
        true
    }

    /// The opponent played `sq`: applied only on the opponent's turn and when
    /// legal.
    pub fn apply_remote_move(&mut self, sq: Square) -> (r: bool)
        ensures
            r == (!old(self).board@.is_terminal() && old(self).board@.to_move != old(self).local && legal(
                old(self).board@.cells,
                old(self).board@.to_move,
                sq@,
            )),
            r ==> final(self).board@ == settle(old(self).board@.after_move(sq@)),
            !r ==> final(self).board == old(self).board,
            final(self).local == old(self).local,
    {
        if self.board.is_terminal() || self.board.to_move() == self.local || !self.board.is_legal(sq) {
            return false;
        }
        self.play(sq);
        true
    }

    /// A click on `sq`: a finished game restarts (the opponent is told to
    /// restart too); otherwise a legal move on this client's turn is played
    /// and sent. Returns the message for the opponent, if any.
    pub fn click(&mut self, sq: Square) -> (r: Option<crate::game_msg::GameMsg>)
        ensures
            old(self).board@.is_terminal() ==> r == Some(crate::game_msg::GameMsg::Restart)
                && final(self).board@ == opening(),
            !old(self).board@.is_terminal() && old(self).board@.to_move == old(self).local && legal(
                old(self).board@.cells,
                old(self).board@.to_move,
                sq@,
            ) ==> r == Some(crate::game_msg::GameMsg::Move { square: sq@ as u8 }) && final(self).board@
                == settle(old(self).board@.after_move(sq@)),
            !old(self).board@.is_terminal() && !(old(self).board@.to_move == old(self).local && legal(
                old(self).board@.cells,
                old(self).board@.to_move,
                sq@,
            )) ==> r is None && final(self).board == old(self).board,
            final(self).local == old(self).local,
    {
        if self.is_over() {
            self.restart();
            return Some(crate::game_msg::GameMsg::Restart);
        }
        if self.play_local(sq) {
            Some(crate::game_msg::GameMsg::Move { square: sq.index() as u8 })
        } else {
            None
        }
    }
}

} // verus!
