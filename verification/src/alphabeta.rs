//! Alpha-beta search: the recursive evaluator and the driver at the root.

use vstd::prelude::*;
use crate::evaluation::EVALUATION_LIMIT;
use crate::laws::{lemma_alphabeta_sound, lemma_choice_is_best, lemma_mate_is_chosen};
use crate::pieces::PieceKind;
use crate::position::Position;
use crate::rules::{board_white_to_move, legal_moves_of, placement_of, status_of, Status};
use crate::tree::{
    alphabeta_scan, alphabeta_value, bounded, can_move, is_move_at, leaf_value, negamax_value,
    root_choice, root_pick, root_scan, search_choice, sound_in_window, taken, INFINITY,
    MATE_SCORE,
};

verus! {

/// The static score of a position: material balance plus piece-square
/// bonuses over the six kinds of piece, positive when White is better.
pub fn evaluate(position: Position) -> (value: i32)
    ensures
        value == placement_of(position@).evaluation(),
        -EVALUATION_LIMIT <= value <= EVALUATION_LIMIT,
{
    position.evaluate()
}

/// The material and positional balance of one kind of piece.
pub fn get_piece_balance(position: Position, piece: PieceKind) -> (value: i32)
    ensures
        value == placement_of(position@).piece_balance(piece),
{
    position.placement().get_piece_balance(piece)
}

/// A bound of a window, raised to `-INFINITY` where it lies below.
pub fn bound_of(bound: i32) -> (raised: i32)
    ensures
        raised == bounded(bound as int),
        -INFINITY <= raised,
{
    if bound < -INFINITY {
        -INFINITY
    } else {
        bound
    }
}

/// Searches `depth` plies below `position` within the window `(alpha,
/// beta)` and returns the score in favour of the side to move, which
/// `color` says is White or not. A move after which the board is not
/// playable is passed over.
pub fn alphabeta(position: Position, depth: u32, alpha: i32, beta: i32, color: bool) -> (score: i32)
    ensures
        score == alphabeta_value(
            position@,
            depth as nat,
            bounded(alpha as int),
            bounded(beta as int),
            color,
        ),
        bounded(alpha as int) < bounded(beta as int) ==> sound_in_window(
            score as int,
            negamax_value(position@, depth as nat, color),
            bounded(alpha as int),
            bounded(beta as int),
        ),
        status_of(position@) == Status::Checkmate ==> score == -MATE_SCORE,
        status_of(position@) == Status::Stalemate ==> score == 0,
        status_of(position@) == Status::Ongoing && depth == 0 ==> score == leaf_value(
            position@,
            color,
        ),
        -MATE_SCORE <= score <= MATE_SCORE,
    decreases depth,
{
    let mut alpha: i32 = bound_of(alpha);
    let beta: i32 = bound_of(beta);
    proof {
        if alpha < beta {
            lemma_alphabeta_sound(position@, depth as nat, alpha as int, beta as int, color);
        }
    }
    let status = position.status();
    if status == Status::Checkmate {
        return -MATE_SCORE;
    }
    if status == Status::Stalemate {
        return 0;
    }
    if depth == 0 {
        let value: i32 = evaluate(position);
        return if color {
            value
        } else {
            -value
        };
    }
    let mut value: i32 = -INFINITY;
    let moves = position.legal_moves();
    let ghost goal = alphabeta_scan(
        position@,
        depth as nat,
        alpha as int,
        beta as int,
        color,
        0,
        -INFINITY as int,
    );
    let mut i: usize = 0;
    while i < moves.len()
        invariant_except_break
            goal == alphabeta_scan(
                position@,
                depth as nat,
                alpha as int,
                beta as int,
                color,
                i as int,
                value as int,
            ),
        invariant
            depth > 0,
            0 <= i <= moves.len(),
            moves@ == legal_moves_of(position@),
            -INFINITY <= alpha,
            -INFINITY <= beta,
            value == -INFINITY || -MATE_SCORE <= value <= MATE_SCORE,
        ensures
            goal == value,
            value == -INFINITY || -MATE_SCORE <= value <= MATE_SCORE,
        decreases moves.len() - i,
    {
        let chessmove = moves[i];
        assert(legal_moves_of(position@)[i as int] == chessmove);
        match position.play(chessmove) {
            None => {
                i += 1;
            },
            Some(board_copy) => {
                let score: i32 = -alphabeta(board_copy, depth - 1, -beta, -alpha, !color);
                if score > value {
                    value = score;
                }
                if value > alpha {
                    alpha = value;
                }
                i += 1;
                if alpha >= beta {
                    break;
                }
            },
        }
    }
    if value != -INFINITY {
        value
    } else if position.in_check() {
        -MATE_SCORE
    } else {
        0
    }
}

/// How many plies the driver looks ahead.
pub const SEARCH_DEPTH: u32 = 5;

/// Picks a move for the side to move by searching `depth` plies ahead in
/// the window `(alpha, beta)`: the first move that can be played whose score
/// is strictly better than `alpha` and than the score of every move before
/// it, or `None` where there is no such move.
pub fn try_alphabeta_root(position: Position, depth: u32, alpha: i32, beta: i32) -> (best: Option<
    chess::ChessMove,
>)
    requires
        depth >= 1,
    ensures
        best is Some <==> root_pick(
            position@,
            (depth - 1) as nat,
            bounded(alpha as int),
            bounded(beta as int),
        ) is Some,
        best matches Some(m) ==> is_move_at(
            position@,
            root_pick(position@, (depth - 1) as nat, bounded(alpha as int), bounded(beta as int)),
            m,
        ),
{
    let opponent_is_white: bool = !position.white_to_move();
    let mut alpha: i32 = bound_of(alpha);
    let beta: i32 = bound_of(beta);
    let mut best_moves: Vec<chess::ChessMove> = Vec::new();
    let moves = position.legal_moves();
    let ghost goal = root_choice(
        position@,
        (depth - 1) as nat,
        alpha as int,
        beta as int,
        opponent_is_white,
    );
    let ghost mut chosen: Option<int> = None;
    let mut i: usize = 0;
    while i < moves.len()
        invariant
            depth >= 1,
            0 <= i <= moves.len(),
            moves@ == legal_moves_of(position@),
            -INFINITY <= alpha,
            -INFINITY <= beta,
            goal == root_scan(
                position@,
                (depth - 1) as nat,
                alpha as int,
                beta as int,
                opponent_is_white,
                i as int,
                chosen,
            ),
            chosen is None ==> best_moves@.len() == 0,
            chosen matches Some(j) ==> 0 <= j < i && taken(position@, j) && best_moves@
                == seq![moves@[j]],
        decreases moves.len() - i,
    {
        let chessmove = moves[i];
        assert(legal_moves_of(position@)[i as int] == chessmove);
        match position.play(chessmove) {
            None => {},
            Some(board_copy) => {
                let value: i32 = -alphabeta(
                    board_copy,
                    depth - 1,
                    -beta,
                    -alpha,
                    opponent_is_white,
                );
                if value > alpha {
                    alpha = value;
                    best_moves.clear();
                    best_moves.push(chessmove);
                    proof {
                        chosen = Some(i as int);
                    }
                }
            },
        }
        i += 1;
    }
    if best_moves.len() > 0 {
        Some(best_moves[0])
    } else {
        None
    }
}

/// Picks a move for the side to move by searching `depth` plies ahead in
/// the window `(alpha, beta)`.
pub fn alphabeta_root_at(position: Position, depth: u32, alpha: i32, beta: i32) -> (best:
    chess::ChessMove)
    requires
        depth >= 1,
        root_pick(position@, (depth - 1) as nat, bounded(alpha as int), bounded(beta as int))
            is Some,
    ensures
        is_move_at(
            position@,
            root_pick(position@, (depth - 1) as nat, bounded(alpha as int), bounded(beta as int)),
            best,
        ),
{
    let best = try_alphabeta_root(position, depth, alpha, beta);
    best.unwrap()
}

/// Picks a move for the side to move by searching `SEARCH_DEPTH` plies
/// ahead in the window `(alpha, beta)`.
pub fn alphabeta_root(position: Position, alpha: i32, beta: i32) -> (best: chess::ChessMove)
    requires
        root_pick(
            position@,
            (SEARCH_DEPTH - 1) as nat,
            bounded(alpha as int),
            bounded(beta as int),
        ) is Some,
    ensures
        is_move_at(
            position@,
            root_pick(
                position@,
                (SEARCH_DEPTH - 1) as nat,
                bounded(alpha as int),
                bounded(beta as int),
            ),
            best,
        ),
{
    alphabeta_root_at(position, SEARCH_DEPTH, alpha, beta)
}

/// The move that the search picks `depth` plies deep with the widest
/// window, or `None` where no move can be played or `depth` is 0. The move
/// is the first of the moves that can be played whose full-width score no
/// other reaches.
pub fn choose_move_at(position: Position, depth: u32) -> (best: Option<chess::ChessMove>)
    ensures
        best is Some <==> depth >= 1 && can_move(position@),
        best matches Some(m) ==> search_choice(position@, (depth - 1) as nat, m),
{
    if depth == 0 || position.status() != Status::Ongoing {
        return None;
    }
    proof {
        lemma_choice_is_best(position@, (depth - 1) as nat, !board_white_to_move(position@));
    }
    let best = try_alphabeta_root(position, depth, -INFINITY, INFINITY);
    proof {
        if best is Some {
            let below = (depth - 1) as nat;
            let j = root_pick(position@, below, -INFINITY as int, INFINITY as int)->0;
            lemma_mate_is_chosen(position@, below, j);
        }
    }
    best
}

/// The move that the search picks `SEARCH_DEPTH` plies deep, or `None`
/// where no move can be played.
pub fn choose_move(position: Position) -> (best: Option<chess::ChessMove>)
    ensures
        best is Some <==> can_move(position@),
        best matches Some(m) ==> search_choice(position@, (SEARCH_DEPTH - 1) as nat, m),
{
    choose_move_at(position, SEARCH_DEPTH)
}

} // verus!
