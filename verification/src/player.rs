//! The human player's move: from the square where a piece was picked up and
//! the square where it was put down to the position after the move.

use vstd::prelude::*;
use crate::evaluation::Placement;
use crate::pieces::PieceKind;
use crate::position::Position;
use crate::rules::{
    board_after, legal_moves_of, move_of, new_move, placement_of, playable,
};

verus! {

/// The promotion piece of a move that ends on `released`: a queen where a
/// pawn stands on that square on the first or the eighth rank, none
/// elsewhere.
pub open spec fn promotion_on(placement: Placement, released: int) -> Option<PieceKind> {
    if placement.kind_on(released) == Some(PieceKind::Pawn) && (released / 8 == 0 || released / 8
        == 7) {
        Some(PieceKind::Queen)
    } else {
        None
    }
}

/// The move that picking up on `pressed` and putting down on `released`
/// asks for.
pub open spec fn intended_move(board: chess::Board, pressed: u8, released: u8) -> chess::ChessMove {
    move_of(pressed, released, promotion_on(placement_of(board), released as int))
}

/// The promotion piece of a move that ends on `released`.
pub fn promotion_for(placement: &Placement, released: u8) -> (promotion: Option<PieceKind>)
    ensures
        promotion == promotion_on(*placement, released as int),
{
    let rank: u8 = released / 8;
    if placement.piece_on(released) == Some(PieceKind::Pawn) && (rank == 0 || rank == 7) {
        Some(PieceKind::Queen)
    } else {
        None
    }
}

/// The position after the move from `pressed` to `released`, or `None`
/// where one of the two is no square of the board, the two are the same,
/// the engine does not yield the move, or the board after it is not
/// playable.
pub fn player_move(position: &Position, pressed: u8, released: u8) -> (next: Option<Position>)
    ensures
        next is Some <==> pressed < 64 && released < 64 && released != pressed && legal_moves_of(
            position@,
        ).contains(intended_move(position@, pressed, released)) && playable(
            board_after(position@, intended_move(position@, pressed, released)),
        ),
        next matches Some(p) ==> p@ == board_after(
            position@,
            intended_move(position@, pressed, released),
        ),
{
    if pressed >= 64 || released >= 64 || released == pressed {
        return None;
    }
    let promotion = promotion_for(&position.placement(), released);
    let m = new_move(pressed, released, promotion);
    position.try_play(m)
}

} // verus!
