//! Full-width search: every line is followed to the horizon, none pruned.

use vstd::prelude::*;
use crate::alphabeta::evaluate;
use crate::laws::lemma_choice_is_best;
use crate::position::Position;
use crate::rules::{legal_moves_of, status_of, Status};
use crate::tree::{
    can_move, leaf_value, negamax_best, negamax_choice, negamax_root_scan, negamax_value,
    plays_best, taken, INFINITY, MATE_SCORE,
};

verus! {

/// How many plies the full-width driver looks ahead.
pub const NEGAMAX_DEPTH: u32 = 4;

/// Searches `depth` plies below `position`, every move of every node, and
/// returns the score in favour of the side to move, which `color` says is
/// White or not. A move after which the board is not playable is passed
/// over.
pub fn negamax(position: Position, depth: u32, color: bool) -> (score: i32)
    ensures
        score == negamax_value(position@, depth as nat, color),
        status_of(position@) == Status::Checkmate ==> score == -MATE_SCORE,
        status_of(position@) == Status::Stalemate ==> score == 0,
        status_of(position@) == Status::Ongoing && depth == 0 ==> score == leaf_value(
            position@,
            color,
        ),
        -MATE_SCORE <= score <= MATE_SCORE,
    decreases depth,
{
    let status = position.status();
    if status == Status::Checkmate {
        return -MATE_SCORE;
    }
    if status == Status::Stalemate {
        return 0;
    }
    if depth == 0 {
        let value: i32 = evaluate(position);
        return if color {
            value
        } else {
            -value
        };
    }
    let mut max: i32 = -INFINITY;
    let moves = position.legal_moves();
    let mut i: usize = 0;
    while i < moves.len()
        invariant
            depth > 0,
            0 <= i <= moves.len(),
            moves@ == legal_moves_of(position@),
            max == negamax_best(position@, depth as nat, color, i as int),
            max == -INFINITY || -MATE_SCORE <= max <= MATE_SCORE,
        decreases moves.len() - i,
    {
        let chessmove = moves[i];
        assert(legal_moves_of(position@)[i as int] == chessmove);
        match position.play(chessmove) {
            None => {},
            Some(board_copy) => {
                let score: i32 = -negamax(board_copy, depth - 1, !color);
                if score > max {
                    max = score;
                }
            },
        }
        i += 1;
    }
    if max != -INFINITY {
        max
    } else if position.in_check() {
        -MATE_SCORE
    } else {
        0
    }
}

/// The move that full-width search picks `depth` plies deep: the first of
/// the moves that can be played whose score is strictly better than that of
/// every move before it. `None` where no move can be played or `depth` is
/// 0.
pub fn negamax_move_at(position: Position, depth: u32) -> (best: Option<chess::ChessMove>)
    ensures
        best is Some <==> depth >= 1 && can_move(position@),
        best matches Some(m) ==> plays_best(position@, (depth - 1) as nat, m),
{
    if depth == 0 {
        return None;
    }
    let opponent_is_white: bool = !position.white_to_move();
    let mut best_moves: Vec<chess::ChessMove> = Vec::new();
    let mut max: i32 = -INFINITY;
    let moves = position.legal_moves();
    let ghost goal = negamax_choice(position@, (depth - 1) as nat, opponent_is_white);
    let ghost mut chosen: Option<int> = None;
    proof {
        lemma_choice_is_best(position@, (depth - 1) as nat, opponent_is_white);
    }
    let mut i: usize = 0;
    while i < moves.len()
        invariant
            depth >= 1,
            0 <= i <= moves.len(),
            moves@ == legal_moves_of(position@),
            -INFINITY <= max <= MATE_SCORE,
            goal == negamax_root_scan(
                position@,
                (depth - 1) as nat,
                opponent_is_white,
                i as int,
                max as int,
                chosen,
            ),
            chosen is None ==> best_moves@.len() == 0,
            chosen matches Some(j) ==> 0 <= j < i && taken(position@, j) && best_moves@
                == seq![moves@[j]],
        decreases moves.len() - i,
    {
        let chessmove = moves[i];
        assert(legal_moves_of(position@)[i as int] == chessmove);
        match position.play(chessmove) {
            None => {},
            Some(board_copy) => {
                let score: i32 = -negamax(board_copy, depth - 1, opponent_is_white);
                if score > max {
                    max = score;
                    best_moves.clear();
                    best_moves.push(chessmove);
                    proof {
                        chosen = Some(i as int);
                    }
                }
            },
        }
        i += 1;
    }
    if best_moves.len() > 0 {
        Some(best_moves[0])
    } else {
        None
    }
}

/// Picks a move for the side to move by full-width search `depth` plies
/// ahead.
pub fn negamax_root_at(position: Position, depth: u32) -> (best: chess::ChessMove)
    requires
        depth >= 1,
        can_move(position@),
    ensures
        plays_best(position@, (depth - 1) as nat, best),
{
    let best = negamax_move_at(position, depth);
    best.unwrap()
}

/// Picks a move for the side to move by full-width search `NEGAMAX_DEPTH`
/// plies ahead.
pub fn negamax_root(position: Position) -> (best: chess::ChessMove)
    requires
        can_move(position@),
    ensures
        plays_best(position@, (NEGAMAX_DEPTH - 1) as nat, best),
{
    negamax_root_at(position, NEGAMAX_DEPTH)
}

} // verus!
