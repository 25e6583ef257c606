use std::str::FromStr;

use chess::{Board, ChessMove, MoveGen, Square};
use chess_engine::alphabeta::{
    alphabeta, alphabeta_root, alphabeta_root_at, bound_of, choose_move, choose_move_at, evaluate,
    try_alphabeta_root,
};
use chess_engine::engine::{ai_move, try_ai_move};
use chess_engine::negamax::{negamax, negamax_move_at, negamax_root, negamax_root_at};
use chess_engine::position::Position;
use chess_engine::rules::Status;
use chess_engine::tree::{INFINITY, MATE_SCORE};

fn at(fen: &str) -> Position {
    Position::new(Board::from_str(fen).expect("valid FEN")).expect("playable board")
}

fn start() -> Position {
    Position::new(Board::default()).expect("playable board")
}

const STALEMATE: &str = "7k/5Q2/6K1/8/8/8/8/8 b - - 0 1";
const CHECKMATE: &str = "rnb1kbnr/pppp1ppp/8/4p3/6Pq/5P2/PPPPP2P/RNBQKBNR w KQkq - 1 3";
const MATE_IN_ONE: &str = "6k1/5ppp/8/r7/8/8/3B1PPP/4R1K1 w - - 0 1";
const MATE_IN_TWO: &str = "6k1/8/R7/1R6/8/8/8/4K3 w - - 0 1";
const AFTER_E4_E5: &str = "rnbqkbnr/pppp1ppp/8/4p3/4P3/8/PPPP1PPP/RNBQKBNR w KQkq - 0 2";

#[test]
fn depth_zero_is_the_static_score_for_white() {
    let p = at(AFTER_E4_E5);
    assert_eq!(alphabeta(p, 0, -INFINITY, INFINITY, true), evaluate(p));
    assert_eq!(negamax(p, 0, true), evaluate(p));
}

#[test]
fn depth_zero_is_the_negated_static_score_for_black() {
    let p = at("4k3/8/8/8/4P3/8/8/4K3 b - - 0 1");
    assert_eq!(evaluate(p), 120);
    assert_eq!(alphabeta(p, 0, -INFINITY, INFINITY, false), -120);
    assert_eq!(negamax(p, 0, false), -120);
}

#[test]
fn depth_zero_ignores_the_window() {
    let p = at("4k3/8/8/8/4P3/8/8/4K3 w - - 0 1");
    assert_eq!(alphabeta(p, 0, 500, 600, true), 120);
    assert_eq!(alphabeta(p, 0, -600, -500, true), 120);
}

#[test]
fn pruned_and_full_width_scores_agree_at_depth_three() {
    let p = start();
    assert_eq!(alphabeta(p, 3, -INFINITY, INFINITY, true), negamax(p, 3, true));
}

#[test]
fn pruned_and_full_width_scores_agree_in_a_middlegame() {
    let p = at("r1bqkbnr/pppp1ppp/2n5/4p3/2B1P3/5N2/PPPP1PPP/RNBQK2R b KQkq - 3 3");
    for depth in 0..3 {
        assert_eq!(alphabeta(p, depth, -INFINITY, INFINITY, false), negamax(p, depth, false));
    }
}

#[test]
fn pruned_and_full_width_drivers_pick_the_same_move() {
    let p = at("r1bqkbnr/pppp1ppp/2n5/4p3/2B1P3/5N2/PPPP1PPP/RNBQK2R b KQkq - 3 3");
    for depth in 1..4 {
        assert_eq!(alphabeta_root_at(p, depth, -INFINITY, INFINITY), negamax_root_at(p, depth));
    }
}

#[test]
fn a_narrow_window_bounds_the_value() {
    let p = start();
    let value = negamax(p, 2, true);
    let low = alphabeta(p, 2, value + 10, value + 20, true);
    assert!(low <= value + 10 && value <= low);
    let high = alphabeta(p, 2, value - 20, value - 10, true);
    assert!(high >= value - 10 && value >= high);
    assert_eq!(alphabeta(p, 2, value - 1, value + 1, true), value);
}

#[test]
fn stalemate_scores_zero() {
    let p = at(STALEMATE);
    assert_eq!(p.status(), Status::Stalemate);
    for depth in 0..4 {
        assert_eq!(alphabeta(p, depth, -INFINITY, INFINITY, false), 0);
        assert_eq!(negamax(p, depth, false), 0);
    }
    assert_eq!(alphabeta(p, 2, -50, -40, false), 0);
}

#[test]
fn checkmate_scores_the_mate_sentinel() {
    let p = at(CHECKMATE);
    assert_eq!(p.status(), Status::Checkmate);
    assert_eq!(MATE_SCORE, 100_000);
    for depth in 0..4 {
        assert_eq!(alphabeta(p, depth, -INFINITY, INFINITY, true), -100_000);
        assert_eq!(negamax(p, depth, true), -100_000);
    }
}

#[test]
fn a_move_into_stalemate_scores_zero_for_the_mover() {
    // White to move; Qf7 stalemates Black. At depth 1 the best White has is
    // at least the draw that stalemating gives the line, never a mate score.
    let p = at("7k/8/6K1/8/8/8/5Q2/8 w - - 0 1");
    let stalemating = ChessMove::new(Square::F2, Square::F7, None);
    let after = p.play(stalemating).unwrap();
    assert_eq!(after.status(), Status::Stalemate);
    assert_eq!(negamax(after, 3, false), 0);
}

#[test]
fn the_driver_mates_in_one() {
    let p = at(MATE_IN_ONE);
    let mate = ChessMove::new(Square::E1, Square::E8, None);
    assert_eq!(choose_move_at(p, 1), Some(mate));
    assert_eq!(choose_move_at(p, 2), Some(mate));
    assert_eq!(choose_move_at(p, 3), Some(mate));
    assert_eq!(negamax_root_at(p, 2), mate);
    assert_eq!(p.play(mate).unwrap().status(), Status::Checkmate);
}

#[test]
fn the_driver_prefers_mate_to_winning_the_rook() {
    // Bxa5 would win a rook; Re8 mates.
    let p = at(MATE_IN_ONE);
    let capture = ChessMove::new(Square::D2, Square::A5, None);
    assert!(p.legal_moves().contains(&capture));
    for depth in 1..4 {
        assert_ne!(choose_move_at(p, depth), Some(capture));
        assert_eq!(alphabeta(p, depth, -INFINITY, INFINITY, true), 100_000);
    }
}

#[test]
fn the_driver_finds_a_mate_in_two() {
    // A rook cuts the king off on the seventh rank, the other mates on the
    // eighth: three plies.
    let p = at(MATE_IN_TWO);
    assert!(negamax(p, 1, true) < 100_000);
    assert!(negamax(p, 2, true) < 100_000);
    assert_eq!(negamax(p, 3, true), 100_000);
    assert_eq!(alphabeta(p, 3, -INFINITY, INFINITY, true), 100_000);
    let chosen = choose_move_at(p, 3).unwrap();
    let after = p.play(chosen).unwrap();
    assert_eq!(negamax(after, 2, false), -100_000);
    for reply in after.legal_moves() {
        assert_eq!(negamax(after.play(reply).unwrap(), 1, true), 100_000);
    }
}

#[test]
fn depth_one_picks_one_of_the_twenty_opening_moves() {
    let p = start();
    let legal: Vec<ChessMove> = MoveGen::new_legal(&Board::default()).collect();
    assert_eq!(legal.len(), 20);
    let chosen = choose_move_at(p, 1).unwrap();
    assert!(legal.contains(&chosen));
}

#[test]
fn every_depth_picks_a_legal_opening_move() {
    let p = start();
    let legal: Vec<ChessMove> = MoveGen::new_legal(&Board::default()).collect();
    for depth in 1..4 {
        assert!(legal.contains(&choose_move_at(p, depth).unwrap()));
        assert!(legal.contains(&negamax_root_at(p, depth)));
    }
}

#[test]
fn the_driver_returns_no_move_where_the_game_is_over() {
    assert_eq!(choose_move(at(STALEMATE)), None);
    assert_eq!(choose_move(at(CHECKMATE)), None);
    assert_eq!(choose_move_at(at(CHECKMATE), 3), None);
}

#[test]
fn the_driver_returns_no_move_at_depth_zero() {
    assert_eq!(choose_move_at(start(), 0), None);
}

#[test]
fn the_driver_keeps_the_first_of_equal_moves() {
    // Bare kings: every move scores by the king's square alone; the choice
    // is the first move whose score no earlier move reaches.
    let p = at("4k3/8/8/8/8/8/8/4K3 w - - 0 1");
    let moves = p.legal_moves();
    let chosen = choose_move_at(p, 1).unwrap();
    let score = |m: ChessMove| -negamax(p.play(m).unwrap(), 0, false);
    let best = moves.iter().map(|m| score(*m)).max().unwrap();
    let first = moves.iter().find(|m| score(**m) == best).unwrap();
    assert_eq!(chosen, *first);
}

#[test]
fn a_window_above_every_score_is_never_entered() {
    // With alpha at 50000 no opening move scores better: the root scan of
    // the twenty children ends holding nothing, so the driver with the
    // widest window is the one to call.
    let p = start();
    for m in p.legal_moves() {
        assert!(-alphabeta(p.play(m).unwrap(), 1, -INFINITY, -50_000, false) <= 50_000);
    }
}

#[test]
fn the_fixed_depth_driver_answers_a_simple_endgame() {
    let p = at("4k3/8/8/8/8/8/4P3/4K3 w - - 0 1");
    let chosen = alphabeta_root(p, -INFINITY, INFINITY);
    assert!(p.legal_moves().contains(&chosen));
    assert_eq!(Some(chosen), choose_move(p));
    assert_eq!(chosen, negamax_root_at(p, 5));
}

#[test]
fn the_full_width_driver_answers_a_simple_endgame() {
    let p = at("4k3/8/8/8/8/8/4P3/4K3 w - - 0 1");
    let chosen = negamax_root(p);
    assert!(p.legal_moves().contains(&chosen));
    assert_eq!(chosen, alphabeta_root_at(p, 4, -INFINITY, INFINITY));
}

#[test]
fn ai_move_plays_the_move_it_returns() {
    let mut p = at("4k3/8/8/8/8/8/4P3/4K3 b - - 0 1");
    let before = p.board();
    let expected = choose_move(p).unwrap();
    let m = ai_move(&mut p);
    assert_eq!(m, expected);
    assert_eq!(p.board(), before.make_move_new(m));
    assert!(p.white_to_move());
}

#[test]
fn the_fixed_depth_driver_answers_the_opening() {
    let mut p = at("rnbqkbnr/pppppppp/8/8/4P3/8/PPPP1PPP/RNBQKBNR b KQkq - 0 1");
    let legal = p.legal_moves();
    let m = ai_move(&mut p);
    assert!(legal.contains(&m));
    assert!(p.white_to_move());
}

#[test]
fn try_ai_move_leaves_a_finished_game_alone() {
    let mut p = at(CHECKMATE);
    let before = p.board();
    assert_eq!(try_ai_move(&mut p), None);
    assert_eq!(p.board(), before);
    let mut p = at(STALEMATE);
    assert_eq!(try_ai_move(&mut p), None);
}

#[test]
fn try_ai_move_plays_where_the_game_goes_on() {
    let mut p = at(MATE_IN_ONE);
    let before = p.board();
    let mate = ChessMove::new(Square::E1, Square::E8, None);
    assert_eq!(try_ai_move(&mut p), Some(mate));
    assert_eq!(p.board(), before.make_move_new(mate));
    assert_eq!(p.status(), Status::Checkmate);
}

#[test]
fn the_full_width_driver_returns_no_move_where_the_game_is_over() {
    assert_eq!(negamax_move_at(at(STALEMATE), 2), None);
    assert_eq!(negamax_move_at(at(CHECKMATE), 2), None);
    assert_eq!(negamax_move_at(start(), 0), None);
    assert_eq!(negamax_move_at(start(), 2), Some(negamax_root_at(start(), 2)));
    assert_eq!(negamax_move_at(start(), 2), choose_move_at(start(), 2));
}

const KNIGHT_CHECK_WITH_EN_PASSANT: &str = "4k3/8/5N2/8/3pP3/8/8/6K1 b - e3 0 1";
const EN_PASSANT_ONTO_THE_KING: &str = "8/8/8/8/3pP3/4k3/8/6K1 b - e3 0 1";

#[test]
fn a_capture_that_leaves_the_king_in_check_is_passed_over() {
    let p = at(KNIGHT_CHECK_WITH_EN_PASSANT);
    let capture = ChessMove::new(Square::D4, Square::E3, None);
    assert!(p.legal_moves().contains(&capture));
    assert!(p.play(capture).is_none());
    assert!(p.try_play(capture).is_none());
    for depth in 1..4 {
        let chosen = choose_move_at(p, depth).unwrap();
        assert_ne!(chosen, capture);
        assert!(p.play(chosen).is_some());
        assert_eq!(Some(chosen), negamax_move_at(p, depth));
        assert_eq!(alphabeta(p, depth, -INFINITY, INFINITY, false), negamax(p, depth, false));
    }
}

#[test]
fn a_capture_that_lands_on_the_own_king_is_passed_over() {
    let p = at(EN_PASSANT_ONTO_THE_KING);
    let capture = ChessMove::new(Square::D4, Square::E3, None);
    if p.legal_moves().contains(&capture) {
        assert!(p.play(capture).is_none());
    }
    for depth in 1..4 {
        let chosen = choose_move_at(p, depth).unwrap();
        assert_ne!(chosen, capture);
        assert!(p.play(chosen).is_some());
        assert_eq!(alphabeta(p, depth, -INFINITY, INFINITY, false), negamax(p, depth, false));
    }
}

#[test]
fn every_child_of_a_search_is_a_position() {
    for fen in [KNIGHT_CHECK_WITH_EN_PASSANT, EN_PASSANT_ONTO_THE_KING, AFTER_E4_E5, MATE_IN_TWO] {
        let p = at(fen);
        for m in p.legal_moves() {
            if let Some(next) = p.play(m) {
                assert!(Position::new(next.board()).is_some());
                assert!(next.board().is_sane());
            }
        }
    }
}

#[test]
fn a_bound_below_the_least_score_is_the_least_bound() {
    assert_eq!(bound_of(i32::MIN), -INFINITY);
    assert_eq!(bound_of(-INFINITY), -INFINITY);
    assert_eq!(bound_of(0), 0);
    assert_eq!(bound_of(i32::MAX), INFINITY);
    let p = start();
    assert_eq!(alphabeta(p, 2, i32::MIN, INFINITY, true), negamax(p, 2, true));
    assert_eq!(alphabeta(p, 0, i32::MIN, i32::MIN, true), evaluate(p));
    assert_eq!(alphabeta(at(STALEMATE), 3, i32::MIN, i32::MAX, false), 0);
    assert_eq!(alphabeta(at(STALEMATE), 3, i32::MIN, i32::MIN, false), 0);
}

#[test]
fn the_root_with_a_window_above_every_score_picks_nothing() {
    let p = start();
    assert_eq!(try_alphabeta_root(p, 2, 50_000, INFINITY), None);
    assert_eq!(try_alphabeta_root(p, 2, -INFINITY, INFINITY), choose_move_at(p, 2));
    assert_eq!(try_alphabeta_root(p, 2, i32::MIN, INFINITY), choose_move_at(p, 2));
}

#[test]
fn the_side_in_check_is_told_so() {
    assert!(at(KNIGHT_CHECK_WITH_EN_PASSANT).in_check());
    assert!(at(CHECKMATE).in_check());
    assert!(!at(STALEMATE).in_check());
    assert!(!start().in_check());
}
