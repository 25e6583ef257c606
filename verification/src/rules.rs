//! The boundary to the rules engine, the `chess` crate.
//!
//! The engine owns the board and the rules of the game: which moves it
//! yields, what a move does to the board, whether the side to move is in
//! check. Nothing of that is verified here. Each function of the engine that
//! the search calls stands behind one wrapper below, whose contract is
//! believed, not proved; what the engine returns is named by a specification
//! function without a body, so that the search can be specified over the
//! game tree that the engine defines. No wrapper claims that the engine
//! plays by the rules: a board is tested before it is asked about.

use vstd::prelude::*;
use crate::bits::has_square;
use crate::evaluation::Placement;
use crate::pieces::PieceKind;

verus! {

/// The engine's board: piece placement, side to move, castling rights and
/// en-passant square. Opaque here.
#[verifier::external_type_specification]
#[verifier::external_body]
pub struct ExBoard(chess::Board);

/// The engine's move: source square, destination square and promotion
/// piece. Opaque here.
#[verifier::external_type_specification]
#[verifier::external_body]
pub struct ExChessMove(chess::ChessMove);

/// The squares that `Board::pieces` reports for a kind of piece.
pub uninterp spec fn board_pieces(board: chess::Board, kind: PieceKind) -> u64;

/// The squares that `Board::color_combined` reports for White (`true`) or
/// Black (`false`).
pub uninterp spec fn board_side(board: chess::Board, white: bool) -> u64;

/// Whether `Board::side_to_move` is White.
pub uninterp spec fn board_white_to_move(board: chess::Board) -> bool;

/// The squares that `Board::checkers` reports: the pieces that give check to
/// the side to move.
pub uninterp spec fn board_checkers(board: chess::Board) -> u64;

/// What `Board::is_sane` returns.
pub uninterp spec fn board_sane(board: chess::Board) -> bool;

/// The moves of the side to move that `MoveGen::new_legal` yields, in the
/// order in which it yields them.
pub uninterp spec fn legal_moves_of(board: chess::Board) -> Seq<chess::ChessMove>;

/// The board that `Board::make_move_new` returns.
pub uninterp spec fn board_after(board: chess::Board, m: chess::ChessMove) -> chess::Board;

/// The moves that `MoveGen::new_legal` yields once `set_iterator_mask` has
/// been given the squares of `mask`.
pub uninterp spec fn masked_moves_of(board: chess::Board, mask: u64) -> Seq<chess::ChessMove>;

/// The index of the square that `ChessMove::get_source` returns.
pub uninterp spec fn move_source_of(m: chess::ChessMove) -> u8;

/// The index of the square that `ChessMove::get_dest` returns.
pub uninterp spec fn move_dest_of(m: chess::ChessMove) -> u8;

/// The move that `ChessMove::new` returns.
pub uninterp spec fn move_of(source: u8, dest: u8, promotion: Option<PieceKind>) -> chess::ChessMove;

/// Whether the game goes on, or how it has ended for the side to move.
#[derive(Clone, Copy, Debug, PartialEq, Eq, Structural)]
pub enum Status {
    Ongoing,
    Stalemate,
    Checkmate,
}

/// The placement of the pieces on a board.
pub open spec fn placement_of(board: chess::Board) -> Placement {
    Placement {
        pawns: board_pieces(board, PieceKind::Pawn),
        knights: board_pieces(board, PieceKind::Knight),
        bishops: board_pieces(board, PieceKind::Bishop),
        rooks: board_pieces(board, PieceKind::Rook),
        queens: board_pieces(board, PieceKind::Queen),
        kings: board_pieces(board, PieceKind::King),
        white: board_side(board, true),
        black: board_side(board, false),
    }
}

/// The status of a board: ongoing while the engine yields a move; without
/// one, checkmate if the side to move is in check, stalemate if not.
pub open spec fn status_of(board: chess::Board) -> Status {
    if legal_moves_of(board).len() > 0 {
        Status::Ongoing
    } else if board_checkers(board) != 0 {
        Status::Checkmate
    } else {
        Status::Stalemate
    }
}

/// The boards that the engine can be asked about: those that it calls sane
/// and whose placement is regular.
pub open spec fn playable(board: chess::Board) -> bool {
    board_sane(board) && placement_of(board).regular()
}

/// Whether the side to move is in check.
pub open spec fn in_check(board: chess::Board) -> bool {
    board_checkers(board) != 0
}

/// `Board::pieces`: the squares that hold a piece of `kind`, of either
/// colour, bit `i` standing for square `i`.
#[verifier::external_body]
pub(crate) fn piece_bits(board: &chess::Board, kind: PieceKind) -> (bits: u64)
    ensures
        bits == board_pieces(*board, kind),
{
    let piece = match kind {
        PieceKind::Pawn => chess::Piece::Pawn,
        PieceKind::Knight => chess::Piece::Knight,
        PieceKind::Bishop => chess::Piece::Bishop,
        PieceKind::Rook => chess::Piece::Rook,
        PieceKind::Queen => chess::Piece::Queen,
        PieceKind::King => chess::Piece::King,
    };
    board.pieces(piece).0
}

/// `Board::color_combined`: the squares that hold a piece of one colour.
#[verifier::external_body]
pub(crate) fn side_bits(board: &chess::Board, white: bool) -> (bits: u64)
    ensures
        bits == board_side(*board, white),
{
    let color = if white {
        chess::Color::White
    } else {
        chess::Color::Black
    };
    board.color_combined(color).0
}

/// `Board::side_to_move`, as "is it White".
#[verifier::external_body]
pub(crate) fn white_to_move(board: &chess::Board) -> (white: bool)
    ensures
        white == board_white_to_move(*board),
{
    match board.side_to_move() {
        chess::Color::White => true,
        chess::Color::Black => false,
    }
}

/// `Board::is_sane`: the engine's own test of a board, which it applies to
/// every board that it builds from a description.
#[verifier::external_body]
pub(crate) fn is_sane(board: &chess::Board) -> (sane: bool)
    ensures
        sane == board_sane(*board),
{
    board.is_sane()
}

/// `Board::status`. The engine counts the moves that its generator yields;
/// with none it reports checkmate if `checkers` is not empty and stalemate
/// if it is.
#[verifier::external_body]
pub(crate) fn status(board: &chess::Board) -> (status: Status)
    requires
        playable(*board),
    ensures
        status == if legal_moves_of(*board).len() > 0 {
            Status::Ongoing
        } else if board_checkers(*board) != 0 {
            Status::Checkmate
        } else {
            Status::Stalemate
        },
{
    match board.status() {
        chess::BoardStatus::Ongoing => Status::Ongoing,
        chess::BoardStatus::Stalemate => Status::Stalemate,
        chess::BoardStatus::Checkmate => Status::Checkmate,
    }
}

/// `MoveGen::new_legal`, collected: every move that the generator yields
/// for the side to move, in its order.
#[verifier::external_body]
pub(crate) fn legal_moves(board: &chess::Board) -> (moves: Vec<chess::ChessMove>)
    requires
        playable(*board),
    ensures
        moves@ == legal_moves_of(*board),
{
    chess::MoveGen::new_legal(board).collect()
}

/// `Board::make_move_new`: the board after a move that the generator
/// yields. Nothing is claimed of that board but its name: whether it is
/// playable is for the caller to test.
#[verifier::external_body]
pub(crate) fn make_move(board: &chess::Board, m: chess::ChessMove) -> (next: chess::Board)
    requires
        playable(*board),
        legal_moves_of(*board).contains(m),
    ensures
        next == board_after(*board, m),
{
    board.make_move_new(m)
}

/// `Board::checkers`: the squares of the pieces that give check to the side
/// to move.
#[verifier::external_body]
pub(crate) fn checkers_bits(board: &chess::Board) -> (bits: u64)
    ensures
        bits == board_checkers(*board),
{
    board.checkers().0
}

/// `Board::legal`: whether the generator yields `m`.
#[verifier::external_body]
pub(crate) fn is_legal(board: &chess::Board, m: chess::ChessMove) -> (legal: bool)
    requires
        playable(*board),
    ensures
        legal == legal_moves_of(*board).contains(m),
{
    board.legal(m)
}

/// `MoveGen::set_iterator_mask` on a fresh generator, collected. The
/// generator then yields, of its moves, only those that land on a square of
/// the mask.
#[verifier::external_body]
pub(crate) fn masked_moves(board: &chess::Board, mask: u64) -> (moves: Vec<chess::ChessMove>)
    requires
        playable(*board),
    ensures
        moves@ == masked_moves_of(*board, mask),
        forall|i: int|
            0 <= i < moves@.len() ==> legal_moves_of(*board).contains(#[trigger] moves@[i])
                && has_square(mask, move_dest_of(moves@[i]) as int),
{
    let mut iterable = chess::MoveGen::new_legal(board);
    iterable.set_iterator_mask(chess::BitBoard(mask));
    iterable.collect()
}

/// `ChessMove::get_source`, as the index of the square.
#[verifier::external_body]
pub(crate) fn move_source(m: &chess::ChessMove) -> (square: u8)
    ensures
        square == move_source_of(*m),
{
    m.get_source().to_int()
}

/// `ChessMove::get_dest`, as the index of the square.
#[verifier::external_body]
pub(crate) fn move_dest(m: &chess::ChessMove) -> (square: u8)
    ensures
        square == move_dest_of(*m),
{
    m.get_dest().to_int()
}

/// `ChessMove::new`: the move with the given source, destination and
/// promotion piece.
#[verifier::external_body]
pub(crate) fn new_move(source: u8, dest: u8, promotion: Option<PieceKind>) -> (m: chess::ChessMove)
    requires
        source < 64,
        dest < 64,
    ensures
        m == move_of(source, dest, promotion),
{
    let piece = match promotion {
        None => None,
        Some(PieceKind::Pawn) => Some(chess::Piece::Pawn),
        Some(PieceKind::Knight) => Some(chess::Piece::Knight),
        Some(PieceKind::Bishop) => Some(chess::Piece::Bishop),
        Some(PieceKind::Rook) => Some(chess::Piece::Rook),
        Some(PieceKind::Queen) => Some(chess::Piece::Queen),
        Some(PieceKind::King) => Some(chess::Piece::King),
    };
    chess::ChessMove::new(chess::ALL_SQUARES[source as usize], chess::ALL_SQUARES[dest as usize], piece)
}

} // verus!
