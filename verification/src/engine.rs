//! The entry point of the computer player, and a one-ply player that takes
//! the most valuable piece it can.

use vstd::prelude::*;
use crate::alphabeta::{alphabeta_root, choose_move, SEARCH_DEPTH};
use crate::bits::has_square;
use crate::evaluation::Placement;
use crate::laws::{lemma_choice_is_best, lemma_mate_is_chosen};
use crate::pieces::PieceKind;
use crate::position::Position;
use crate::rules::{
    board_after, board_side, board_white_to_move, legal_moves_of, masked_moves_of, move_dest,
    move_dest_of, move_of, move_source, new_move, placement_of,
};
use crate::tree::{can_move, root_pick, search_choice, INFINITY};

verus! {

/// Plays the move that alpha-beta search picks `SEARCH_DEPTH` plies deep
/// with the widest window, and returns it.
pub fn ai_move(position: &mut Position) -> (m: chess::ChessMove)
    requires
        can_move(old(position)@),
    ensures
        search_choice(old(position)@, (SEARCH_DEPTH - 1) as nat, m),
        final(position)@ == board_after(old(position)@, m),
{
    proof {
        lemma_choice_is_best(
            position@,
            (SEARCH_DEPTH - 1) as nat,
            !board_white_to_move(position@),
        );
    }
    let m = alphabeta_root(*position, -INFINITY, INFINITY);
    proof {
        let below = (SEARCH_DEPTH - 1) as nat;
        let j = root_pick(position@, below, -INFINITY as int, INFINITY as int)->0;
        lemma_mate_is_chosen(position@, below, j);
    }
    let result = position.play(m);
    *position = result.unwrap();
    m
}

/// Plays the move that `ai_move` plays where a move can be played, and
/// returns it; where none can, leaves the position as it is and returns
/// `None`.
pub fn try_ai_move(position: &mut Position) -> (played: Option<chess::ChessMove>)
    ensures
        played is Some <==> can_move(old(position)@),
        played is None ==> final(position)@ == old(position)@,
        played matches Some(m) ==> search_choice(old(position)@, (SEARCH_DEPTH - 1) as nat, m)
            && final(position)@ == board_after(old(position)@, m),
{
    match choose_move(*position) {
        None => None,
        Some(m) => {
            let result = position.play(m);
            *position = result.unwrap();
            Some(m)
        },
    }
}

/// What the piece on `square` is worth to the one-ply player, in tenths of a
/// pawn: positive for a white piece, negative for a black one, 0 for an
/// empty square.
pub open spec fn square_value(placement: Placement, square: int) -> int {
    let worth: int = match placement.kind_on(square) {
        Some(PieceKind::Pawn) => 10,
        Some(PieceKind::Knight) => 30,
        Some(PieceKind::Bishop) => 30,
        Some(PieceKind::Rook) => 50,
        Some(PieceKind::Queen) => 90,
        Some(PieceKind::King) => 900,
        None => 0,
    };
    if placement.white_on(square) == Some(false) {
        -worth
    } else {
        worth
    }
}

/// The distance of a score from zero.
pub open spec fn magnitude(score: int) -> int {
    if score < 0 {
        -score
    } else {
        score
    }
}

/// What a move takes: the magnitude of the value of its destination square.
pub open spec fn capture_worth(board: chess::Board, m: chess::ChessMove) -> int {
    magnitude(square_value(placement_of(board), move_dest_of(m) as int))
}

/// Whether the move of index `j` is the first of `moves` that takes the
/// most.
pub open spec fn takes_most(board: chess::Board, moves: Seq<chess::ChessMove>, j: int) -> bool {
    &&& 0 <= j < moves.len()
    &&& forall|k: int|
        0 <= k < moves.len() ==> capture_worth(board, #[trigger] moves[k]) <= capture_worth(
            board,
            moves[j],
        )
    &&& forall|k: int|
        0 <= k < j ==> capture_worth(board, #[trigger] moves[k]) < capture_worth(board, moves[j])
}

/// The squares of the pieces of the side that is not to move.
pub open spec fn capture_targets(board: chess::Board) -> u64 {
    board_side(board, !board_white_to_move(board))
}

/// The empty squares.
pub open spec fn quiet_targets(board: chess::Board) -> u64 {
    !(board_side(board, true) | board_side(board, false))
}

/// The moves that the engine yields and that land on a piece of the other
/// side.
pub open spec fn captures_of(board: chess::Board) -> Seq<chess::ChessMove> {
    masked_moves_of(board, capture_targets(board))
}

/// The moves that the engine yields and that land on an empty square.
pub open spec fn quiets_of(board: chess::Board) -> Seq<chess::ChessMove> {
    masked_moves_of(board, quiet_targets(board))
}

/// What the piece on `square` is worth to the one-ply player.
pub fn capture_value(position: Position, square: u8) -> (value: i32)
    ensures
        value == square_value(placement_of(position@), square as int),
{
    let placement = position.placement();
    let captured_piece = placement.piece_on(square);
    let mut value: i32 = match captured_piece {
        Some(PieceKind::Pawn) => 10,
        Some(PieceKind::Knight) => 30,
        Some(PieceKind::Bishop) => 30,
        Some(PieceKind::Rook) => 50,
        Some(PieceKind::Queen) => 90,
        Some(PieceKind::King) => 900,
        None => 0,
    };
    if placement.color_on(square) == Some(false) {
        value = -value;
    }
    value
}

/// What a move to an empty square is worth to the one-ply player: every
/// such move is worth the same.
pub fn quiet_value(position: Position, source: u8, dest: u8) -> (value: i32)
    ensures
        value == 1,
{
    1
}

/// The first of the captures that takes the most valuable piece, or `None`
/// where no move captures.
pub fn best_capture(position: Position) -> (best: Option<chess::ChessMove>)
    ensures
        best is None <==> captures_of(position@).len() == 0,
        best matches Some(m) ==> legal_moves_of(position@).contains(m) && has_square(
            capture_targets(position@),
            move_dest_of(m) as int,
        ) && exists|j: int|
            takes_most(position@, captures_of(position@), j) && m == captures_of(position@)[j],
{
    let targets: u64 = position.placement().side_bits(!position.white_to_move());
    let moves = position.moves_onto(targets);
    let mut value: Option<i32> = None;
    let mut best: Option<chess::ChessMove> = None;
    let ghost mut chosen: int = 0;
    let mut i: usize = 0;
    while i < moves.len()
        invariant
            0 <= i <= moves.len(),
            moves@ == captures_of(position@),
            forall|k: int|
                0 <= k < moves@.len() ==> legal_moves_of(position@).contains(#[trigger] moves@[k])
                    && has_square(capture_targets(position@), move_dest_of(moves@[k]) as int),
            i == 0 ==> best is None && value is None,
            i > 0 ==> takes_most(position@, moves@.take(i as int), chosen) && best == Some(
                moves@[chosen],
            ) && value == Some(capture_worth(position@, moves@[chosen]) as i32),
        decreases moves.len() - i,
    {
        let take = moves[i];
        let worth: i32 = capture_value(position, move_dest(&take));
        let new_value: i32 = if worth < 0 {
            -worth
        } else {
            worth
        };
        let better: bool = match value {
            None => true,
            Some(held) => new_value > held,
        };
        proof {
            let before = moves@.take(i as int);
            let after = moves@.take(i + 1);
            assert forall|k: int| 0 <= k < i implies #[trigger] after[k] == before[k] by {}
            assert(after[i as int] == take);
            if better {
                assert(takes_most(position@, after, i as int));
            } else {
                assert(before[chosen] == after[chosen]);
                assert(takes_most(position@, after, chosen));
            }
        }
        if better {
            value = Some(new_value);
            best = Some(take);
            proof {
                chosen = i as int;
            }
        }
        i += 1;
    }
    proof {
        assert(moves@.take(moves@.len() as int) == moves@);
    }
    best
}

/// The first of the moves to an empty square, or the move from a1 to a2
/// where no move goes to one.
pub fn best_quiet(position: Position) -> (best: chess::ChessMove)
    ensures
        quiets_of(position@).len() > 0 ==> best == quiets_of(position@)[0]
            && legal_moves_of(position@).contains(best) && has_square(
            quiet_targets(position@),
            move_dest_of(best) as int,
        ),
        quiets_of(position@).len() == 0 ==> best == move_of(0, 8, None),
{
    let placement = position.placement();
    let moves = position.moves_onto(!(placement.white | placement.black));
    let mut value: Option<i32> = None;
    let mut best: chess::ChessMove = new_move(0, 8, None);
    let mut i: usize = 0;
    while i < moves.len()
        invariant
            0 <= i <= moves.len(),
            moves@ == quiets_of(position@),
            i == 0 ==> value is None && best == move_of(0, 8, None),
            i > 0 ==> value == Some(1i32) && best == moves@[0],
        decreases moves.len() - i,
    {
        let quiet = moves[i];
        let new_value: i32 = quiet_value(position, move_source(&quiet), move_dest(&quiet));
        let better: bool = match value {
            None => true,
            Some(held) => new_value > held,
        };
        if better {
            value = Some(new_value);
            best = quiet;
        }
        i += 1;
    }
    best
}

/// The one-ply player's move: the best capture where there is one, the
/// first move to an empty square where there is none.
pub fn best_immediate(position: Position) -> (best: chess::ChessMove)
    ensures
        captures_of(position@).len() > 0 ==> has_square(
            capture_targets(position@),
            move_dest_of(best) as int,
        ) && exists|j: int|
            takes_most(position@, captures_of(position@), j) && best == captures_of(position@)[j],
        captures_of(position@).len() == 0 && quiets_of(position@).len() > 0 ==> best == quiets_of(
            position@,
        )[0] && has_square(quiet_targets(position@), move_dest_of(best) as int),
        captures_of(position@).len() > 0 || quiets_of(position@).len() > 0
            ==> legal_moves_of(position@).contains(best),
        captures_of(position@).len() == 0 && quiets_of(position@).len() == 0 ==> best == move_of(
            0,
            8,
            None,
        ),
{
    let take = best_capture(position);
    match take {
        None => best_quiet(position),
        Some(m) => m,
    }
}

} // verus!
