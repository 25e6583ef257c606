//! Positions: boards of the rules engine that are known to be playable.

use vstd::prelude::*;
use crate::bits::{count_squares, has_square};
use crate::evaluation::{lemma_regular_bounds, Placement, EVALUATION_LIMIT, SIDE_LIMIT};
use crate::pieces::PieceKind;
use crate::rules::{
    board_after, board_white_to_move, checkers_bits, in_check, is_legal, is_sane, legal_moves,
    legal_moves_of, make_move, masked_moves, masked_moves_of, move_dest_of, piece_bits,
    placement_of, playable, side_bits, status, status_of, white_to_move, Status,
};

verus! {

/// A snapshot of the game. It is a value: playing a move gives a new
/// position and leaves this one as it was.
#[derive(Clone, Copy, Debug)]
pub struct Position {
    board: chess::Board,
}

/// Reads the placement of the pieces off a board.
pub fn read_placement(board: &chess::Board) -> (placement: Placement)
    ensures
        placement == placement_of(*board),
{
    Placement {
        pawns: piece_bits(board, PieceKind::Pawn),
        knights: piece_bits(board, PieceKind::Knight),
        bishops: piece_bits(board, PieceKind::Bishop),
        rooks: piece_bits(board, PieceKind::Rook),
        queens: piece_bits(board, PieceKind::Queen),
        kings: piece_bits(board, PieceKind::King),
        white: side_bits(board, true),
        black: side_bits(board, false),
    }
}

impl View for Position {
    type V = chess::Board;

    closed spec fn view(&self) -> chess::Board {
        self.board
    }
}

impl Position {
    #[verifier::type_invariant]
    spec fn is_playable(self) -> bool {
        playable(self.board)
    }

    /// Takes a board of the engine as a position, if it is playable.
    pub fn new(board: chess::Board) -> (position: Option<Position>)
        ensures
            position is Some <==> playable(board),
            position matches Some(p) ==> p@ == board,
    {
        if !is_sane(&board) {
            return None;
        }
        let placement = read_placement(&board);
        if count_squares(placement.kings & placement.white) == 1 && count_squares(
            placement.kings & placement.black,
        ) == 1 && count_squares(placement.white) <= SIDE_LIMIT && count_squares(placement.black)
            <= SIDE_LIMIT {
            Some(Position { board })
        } else {
            None
        }
    }

    /// The engine's board of this position.
    pub fn board(&self) -> (board: chess::Board)
        ensures
            board == self@,
    {
        self.board
    }

    /// Where the pieces stand.
    pub fn placement(&self) -> (placement: Placement)
        ensures
            placement == placement_of(self@),
    {
        read_placement(&self.board)
    }

    /// The static score of the position, positive when White is better. The
    /// mate score dominates it: a position has one king and at most sixteen
    /// pieces on each side.
    pub fn evaluate(&self) -> (value: i32)
        ensures
            value == placement_of(self@).evaluation(),
            -EVALUATION_LIMIT <= value <= EVALUATION_LIMIT,
    {
        proof {
            use_type_invariant(self);
            lemma_regular_bounds(placement_of(self@));
        }
        read_placement(&self.board).evaluate()
    }

    /// Whether White is to move.
    pub fn white_to_move(&self) -> (white: bool)
        ensures
            white == board_white_to_move(self@),
    {
        white_to_move(&self.board)
    }

    /// Whether the game goes on, or how it has ended for the side to move.
    pub fn status(&self) -> (status: Status)
        ensures
            status == status_of(self@),
    {
        proof {
            use_type_invariant(self);
        }
        status(&self.board)
    }

    /// The moves of the side to move that the engine yields, in its order.
    pub fn legal_moves(&self) -> (moves: Vec<chess::ChessMove>)
        ensures
            moves@ == legal_moves_of(self@),
    {
        proof {
            use_type_invariant(self);
        }
        legal_moves(&self.board)
    }

    /// The moves that the engine yields and that land on a square of
    /// `mask`, in its order.
    pub fn moves_onto(&self, mask: u64) -> (moves: Vec<chess::ChessMove>)
        ensures
            moves@ == masked_moves_of(self@, mask),
            forall|i: int|
                0 <= i < moves@.len() ==> legal_moves_of(self@).contains(#[trigger] moves@[i])
                    && has_square(mask, move_dest_of(moves@[i]) as int),
    {
        proof {
            use_type_invariant(self);
        }
        masked_moves(&self.board, mask)
    }

    /// Whether the side to move is in check.
    pub fn in_check(&self) -> (check: bool)
        ensures
            check == in_check(self@),
    {
        checkers_bits(&self.board) != 0
    }

    /// Whether the engine yields `m` in this position.
    pub fn is_legal(&self, m: chess::ChessMove) -> (legal: bool)
        ensures
            legal == legal_moves_of(self@).contains(m),
    {
        proof {
            use_type_invariant(self);
        }
        is_legal(&self.board, m)
    }

    /// The position after a move that the engine yields, or `None` where
    /// the board after it is not playable.
    pub fn play(&self, m: chess::ChessMove) -> (next: Option<Position>)
        requires
            legal_moves_of(self@).contains(m),
        ensures
            next is Some <==> playable(board_after(self@, m)),
            next matches Some(p) ==> p@ == board_after(self@, m),
    {
        proof {
            use_type_invariant(self);
        }
        Position::new(make_move(&self.board, m))
    }

    /// The position after `m`, or `None` where the engine does not yield
    /// `m` or the board after it is not playable.
    pub fn try_play(&self, m: chess::ChessMove) -> (next: Option<Position>)
        ensures
            next is Some <==> legal_moves_of(self@).contains(m) && playable(
                board_after(self@, m),
            ),
            next matches Some(p) ==> p@ == board_after(self@, m),
    {
        if self.is_legal(m) {
            self.play(m)
        } else {
            None
        }
    }
}

} // verus!
