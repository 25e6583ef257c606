use std::str::FromStr;

use chess::{Board, BoardStatus, ChessMove, Color, MoveGen, Piece, Square};
use chess_engine::engine::{best_capture, best_immediate, best_quiet, capture_value, quiet_value};
use chess_engine::pieces::PieceKind;
use chess_engine::player::{player_move, promotion_for};
use chess_engine::position::{read_placement, Position};
use chess_engine::rules::Status;

fn at(fen: &str) -> Position {
    Position::new(Board::from_str(fen).expect("valid FEN")).expect("playable board")
}

fn start() -> Position {
    Position::new(Board::default()).expect("playable board")
}

const STALEMATE: &str = "7k/5Q2/6K1/8/8/8/8/8 b - - 0 1";
const CHECKMATE: &str = "rnb1kbnr/pppp1ppp/8/4p3/6Pq/5P2/PPPPP2P/RNBQKBNR w KQkq - 1 3";
const TWO_CAPTURES: &str = "4k3/8/8/3q1p2/4P3/8/8/4K3 w - - 0 1";

#[test]
fn a_position_keeps_its_board() {
    let board = Board::from_str("r1bqkbnr/pppp1ppp/2n5/4p3/2B1P3/5N2/PPPP1PPP/RNBQK2R b KQkq - 3 3")
        .unwrap();
    let p = Position::new(board).unwrap();
    assert_eq!(p.board(), board);
    assert!(!p.white_to_move());
    assert!(start().white_to_move());
}

#[test]
fn a_board_with_seventeen_pieces_on_a_side_is_no_position() {
    let crowded = Board::from_str("4k3/8/8/8/PPPPPPPP/PPPPPPPP/8/4K3 w - - 0 1").unwrap();
    assert!(crowded.is_sane());
    assert!(Position::new(crowded).is_none());
    let full = Board::from_str("4k3/8/8/8/PPPPPPP1/PPPPPPPP/8/4K3 w - - 0 1").unwrap();
    assert!(Position::new(full).is_some());
}

#[test]
fn the_placement_is_read_off_the_board() {
    let board = Board::from_str("8/2k5/3q4/8/8/1N6/5K2/8 w - - 0 1").unwrap();
    let placement = read_placement(&board);
    assert_eq!(placement.pawns, 0);
    assert_eq!(placement.knights, 1 << 17);
    assert_eq!(placement.bishops, 0);
    assert_eq!(placement.rooks, 0);
    assert_eq!(placement.queens, 1 << 43);
    assert_eq!(placement.kings, 1 << 13 | 1 << 50);
    assert_eq!(placement.white, 1 << 17 | 1 << 13);
    assert_eq!(placement.black, 1 << 43 | 1 << 50);
    assert_eq!(Position::new(board).unwrap().placement(), placement);
}

#[test]
fn the_placement_agrees_with_the_engine_on_every_kind_and_colour() {
    let board = Board::from_str("r3k2r/p1ppqpb1/bn2pnp1/3PN3/1p2P3/2N2Q1p/PPPBBPPP/R3K2R w KQkq - 0 1")
        .unwrap();
    let placement = read_placement(&board);
    assert_eq!(placement.pawns, board.pieces(Piece::Pawn).0);
    assert_eq!(placement.knights, board.pieces(Piece::Knight).0);
    assert_eq!(placement.bishops, board.pieces(Piece::Bishop).0);
    assert_eq!(placement.rooks, board.pieces(Piece::Rook).0);
    assert_eq!(placement.queens, board.pieces(Piece::Queen).0);
    assert_eq!(placement.kings, board.pieces(Piece::King).0);
    assert_eq!(placement.white, board.color_combined(Color::White).0);
    assert_eq!(placement.black, board.color_combined(Color::Black).0);
}

#[test]
fn status_tells_the_three_cases_apart() {
    assert_eq!(start().status(), Status::Ongoing);
    assert_eq!(at(STALEMATE).status(), Status::Stalemate);
    assert_eq!(at(CHECKMATE).status(), Status::Checkmate);
    assert_eq!(Board::from_str(STALEMATE).unwrap().status(), BoardStatus::Stalemate);
}

#[test]
fn legal_moves_are_the_engine_s_in_its_order() {
    for fen in [
        "rnbqkbnr/pppppppp/8/8/8/8/PPPPPPPP/RNBQKBNR w KQkq - 0 1",
        "r3k2r/p1ppqpb1/bn2pnp1/3PN3/1p2P3/2N2Q1p/PPPBBPPP/R3K2R w KQkq - 0 1",
        "8/7P/8/8/8/8/8/k3K3 w - - 0 1",
        STALEMATE,
    ] {
        let board = Board::from_str(fen).unwrap();
        let expected: Vec<ChessMove> = MoveGen::new_legal(&board).collect();
        assert_eq!(at(fen).legal_moves(), expected);
    }
    assert_eq!(start().legal_moves().len(), 20);
    assert_eq!(at(STALEMATE).legal_moves().len(), 0);
}

#[test]
fn play_gives_the_engine_s_next_board() {
    let p = start();
    let e4 = ChessMove::new(Square::E2, Square::E4, None);
    let next = p.play(e4).unwrap();
    assert_eq!(next.board(), Board::default().make_move_new(e4));
    assert_ne!(next.board(), p.board());
    assert!(!next.white_to_move());
    assert_eq!(p.board(), Board::default());
}

#[test]
fn try_play_refuses_what_is_not_legal() {
    let p = start();
    let e4 = ChessMove::new(Square::E2, Square::E4, None);
    let e5 = ChessMove::new(Square::E2, Square::E5, None);
    assert!(p.is_legal(e4));
    assert!(!p.is_legal(e5));
    assert_eq!(p.try_play(e4).map(|n| n.board()), Some(Board::default().make_move_new(e4)));
    assert!(p.try_play(e5).is_none());
}

#[test]
fn moves_onto_keeps_the_moves_that_land_on_the_mask() {
    let p = at(TWO_CAPTURES);
    let targets = p.placement().black;
    let captures = p.moves_onto(targets);
    assert_eq!(
        captures,
        vec![
            ChessMove::new(Square::E4, Square::D5, None),
            ChessMove::new(Square::E4, Square::F5, None),
        ]
    );
    assert!(p.moves_onto(0).is_empty());
    assert_eq!(p.moves_onto(u64::MAX), p.legal_moves());
    assert_eq!(p.moves_onto(1 << 36), vec![ChessMove::new(Square::E4, Square::E5, None)]);
}

#[test]
fn capture_value_is_signed_by_colour() {
    let p = at("r3k2r/p1ppqpb1/bn2pnp1/3PN3/1p2P3/2N2Q1p/PPPBBPPP/R3K2R w KQkq - 0 1");
    assert_eq!(capture_value(p, 0), 50);
    assert_eq!(capture_value(p, 4), 900);
    assert_eq!(capture_value(p, 8), 10);
    assert_eq!(capture_value(p, 18), 30);
    assert_eq!(capture_value(p, 11), 30);
    assert_eq!(capture_value(p, 21), 90);
    assert_eq!(capture_value(p, 16), 0);
    assert_eq!(capture_value(p, 56), -50);
    assert_eq!(capture_value(p, 60), -900);
    assert_eq!(capture_value(p, 52), -90);
    assert_eq!(capture_value(p, 41), -30);
    assert_eq!(capture_value(p, 54), -30);
    assert_eq!(capture_value(p, 23), -10);
    assert_eq!(capture_value(p, 64), 0);
    assert_eq!(capture_value(p, 255), 0);
}

#[test]
fn quiet_value_is_one() {
    assert_eq!(quiet_value(start(), 12, 28), 1);
    assert_eq!(quiet_value(start(), 0, 0), 1);
}

#[test]
fn best_capture_takes_the_most_valuable_piece() {
    let p = at(TWO_CAPTURES);
    assert_eq!(best_capture(p), Some(ChessMove::new(Square::E4, Square::D5, None)));
    let landing = best_capture(p).unwrap().get_dest().to_int();
    assert_ne!(p.placement().black & (1 << landing), 0);
    let other_way = at("4k3/8/8/3p1q2/4P3/8/8/4K3 w - - 0 1");
    assert_eq!(best_capture(other_way), Some(ChessMove::new(Square::E4, Square::F5, None)));
}

#[test]
fn best_capture_keeps_the_first_of_equal_captures() {
    let p = at("4k3/8/8/3p1p2/4P3/8/8/4K3 w - - 0 1");
    assert_eq!(best_capture(p), Some(ChessMove::new(Square::E4, Square::D5, None)));
}

#[test]
fn best_capture_is_none_without_captures() {
    assert_eq!(best_capture(start()), None);
    assert_eq!(best_capture(at(STALEMATE)), None);
}

#[test]
fn best_quiet_is_the_first_move_to_an_empty_square() {
    let p = start();
    let empty = !(p.placement().white | p.placement().black);
    assert_eq!(best_quiet(p), p.moves_onto(empty)[0]);
    assert_ne!(empty & (1 << best_quiet(p).get_dest().to_int()), 0);
    assert_eq!(best_quiet(p), p.legal_moves()[0]);
}

#[test]
fn best_quiet_without_a_quiet_move_is_a1_to_a2() {
    let fallback = best_quiet(at(STALEMATE));
    assert_eq!(fallback, ChessMove::new(Square::A1, Square::A2, None));
    assert_eq!(fallback.get_source().to_int(), 0);
    assert_eq!(fallback.get_dest().to_int(), 8);
    assert_eq!(fallback.get_promotion(), None);
}

#[test]
fn best_immediate_prefers_a_capture() {
    assert_eq!(best_immediate(at(TWO_CAPTURES)), ChessMove::new(Square::E4, Square::D5, None));
    assert_eq!(best_immediate(start()), best_quiet(start()));
    assert_eq!(best_immediate(at(STALEMATE)), ChessMove::new(Square::A1, Square::A2, None));
}

#[test]
fn player_move_plays_a_legal_move() {
    let p = start();
    let next = player_move(&p, 12, 28).expect("e2 to e4 is legal");
    assert_eq!(
        next.board(),
        Board::default().make_move_new(ChessMove::new(Square::E2, Square::E4, None))
    );
}

#[test]
fn player_move_refuses_an_illegal_move_and_a_move_in_place() {
    let p = start();
    assert!(player_move(&p, 12, 36).is_none());
    assert!(player_move(&p, 12, 12).is_none());
    assert!(player_move(&p, 28, 36).is_none());
    assert!(player_move(&p, 52, 36).is_none());
    assert!(player_move(&p, 12, 64).is_none());
    assert!(player_move(&p, 200, 28).is_none());
}

#[test]
fn promotion_goes_by_the_piece_on_the_square_of_arrival() {
    let p = at("8/7P/8/8/8/8/8/k3K3 w - - 0 1");
    assert_eq!(promotion_for(&p.placement(), 63), None);
    assert_eq!(promotion_for(&p.placement(), 55), None);
    let odd = at("k7/8/8/8/8/8/8/K7 w - - 0 1").placement();
    let pawn_on_a8 = chess_engine::evaluation::Placement { pawns: 1 << 56, ..odd };
    assert_eq!(promotion_for(&pawn_on_a8, 56), Some(PieceKind::Queen));
    let pawn_on_a1 = chess_engine::evaluation::Placement { pawns: 1, ..odd };
    assert_eq!(promotion_for(&pawn_on_a1, 0), Some(PieceKind::Queen));
    // The pawn that arrives on the eighth rank is not yet on it: no queen,
    // and the bare move is not legal.
    assert!(player_move(&p, 55, 63).is_none());
}
