//! The game tree and the values that the searches compute on it.
//!
//! The tree is the engine's, as far as it can be played: the children of a
//! board are the boards after the moves that the engine yields, in its
//! order, and of these only the playable ones. A move whose board is not
//! playable is passed over as if the engine had not yielded it. A value is a
//! score in favour of the side that moves at the node (negamax convention).

use vstd::prelude::*;
use crate::evaluation::lemma_evaluation_bounds;
use crate::rules::{
    board_after, board_white_to_move, in_check, legal_moves_of, placement_of, playable,
    status_of, Status,
};

verus! {

/// A checkmated side scores `-MATE_SCORE`.
pub const MATE_SCORE: i32 = 100_000;

/// The widest window is `(-INFINITY, INFINITY)`; a node of which no move has
/// been searched yet holds `-INFINITY`.
pub const INFINITY: i32 = 2_147_483_647;

/// No value of a node is further from zero than this.
pub const VALUE_LIMIT: i32 = 7_718_400;

/// The larger of two scores.
pub open spec fn larger(a: int, b: int) -> int {
    if a >= b {
        a
    } else {
        b
    }
}

/// A bound of a window, raised to `-INFINITY` where it lies below: no score
/// lies below `-INFINITY`, so the window holds the same scores.
pub open spec fn bounded(bound: int) -> int {
    larger(bound, -INFINITY as int)
}

/// The board after the move of index `i`.
pub open spec fn child(board: chess::Board, i: int) -> chess::Board {
    board_after(board, legal_moves_of(board)[i])
}

/// Whether the move of index `i` can be played: the board after it is
/// playable.
pub open spec fn taken(board: chess::Board, i: int) -> bool {
    playable(child(board, i))
}

/// Whether some move can be played.
pub open spec fn can_move(board: chess::Board) -> bool {
    exists|i: int| 0 <= i < legal_moves_of(board).len() && #[trigger] taken(board, i)
}

/// The static score of a board in favour of the mover.
pub open spec fn leaf_value(board: chess::Board, mover_is_white: bool) -> int {
    if mover_is_white {
        placement_of(board).evaluation()
    } else {
        -placement_of(board).evaluation()
    }
}

/// What a node is worth after the scan of its moves: the best score found,
/// or, where no move could be played, what the end of the game is worth:
/// `-MATE_SCORE` to a mover in check, 0 to one who is not.
pub open spec fn settled(board: chess::Board, best: int) -> int {
    if best != -INFINITY {
        best
    } else if in_check(board) {
        -MATE_SCORE
    } else {
        0
    }
}

/// The value of a node under full-width search to `depth` plies:
/// `-MATE_SCORE` where the mover is checkmated, 0 at a stalemate, the static
/// score at depth 0, and otherwise the best of the negated values of the
/// children, settled where there is no child.
pub open spec fn negamax_value(board: chess::Board, depth: nat, mover_is_white: bool) -> int
    decreases depth, 1int, 0int,
{
    match status_of(board) {
        Status::Checkmate => -MATE_SCORE,
        Status::Stalemate => 0,
        Status::Ongoing => if depth == 0 {
            leaf_value(board, mover_is_white)
        } else {
            settled(
                board,
                negamax_best(board, depth, mover_is_white, legal_moves_of(board).len() as int),
            )
        },
    }
}

/// The best negated value among the children by the first `n` moves,
/// `-INFINITY` for none.
pub open spec fn negamax_best(board: chess::Board, depth: nat, mover_is_white: bool, n: int) -> int
    decreases depth, 0int, n,
{
    if n <= 0 || depth == 0 {
        -INFINITY
    } else if !taken(board, n - 1) {
        negamax_best(board, depth, mover_is_white, n - 1)
    } else {
        larger(
            negamax_best(board, depth, mover_is_white, n - 1),
            -negamax_value(child(board, n - 1), (depth - 1) as nat, !mover_is_white),
        )
    }
}

/// What alpha-beta search returns at a node for the window `(alpha, beta)`.
/// Terminal nodes and depth 0 score as in `negamax_value`; elsewhere the
/// children are scanned in order, each with the negated and narrowed window,
/// and the result is settled where there is no child.
pub open spec fn alphabeta_value(
    board: chess::Board,
    depth: nat,
    alpha: int,
    beta: int,
    mover_is_white: bool,
) -> int
    decreases depth, 1int, 0int,
{
    match status_of(board) {
        Status::Checkmate => -MATE_SCORE,
        Status::Stalemate => 0,
        Status::Ongoing => if depth == 0 {
            leaf_value(board, mover_is_white)
        } else {
            settled(
                board,
                alphabeta_scan(board, depth, alpha, beta, mover_is_white, 0, -INFINITY as int),
            )
        },
    }
}

/// The scan of the moves from index `i` on, with `best` the best score so
/// far and `alpha` the lower bound so far. Each child's negated score can
/// raise `best`, and `best` can raise `alpha`; once `alpha` reaches `beta`
/// the scan stops and returns `best`.
pub open spec fn alphabeta_scan(
    board: chess::Board,
    depth: nat,
    alpha: int,
    beta: int,
    mover_is_white: bool,
    i: int,
    best: int,
) -> int
    decreases depth, 0int, legal_moves_of(board).len() - i,
{
    if i < 0 || i >= legal_moves_of(board).len() || depth == 0 {
        best
    } else if !taken(board, i) {
        alphabeta_scan(board, depth, alpha, beta, mover_is_white, i + 1, best)
    } else {
        let score = -alphabeta_value(
            child(board, i),
            (depth - 1) as nat,
            -beta,
            -alpha,
            !mover_is_white,
        );
        let raised = larger(score, best);
        let bound = larger(alpha, raised);
        if bound >= beta {
            raised
        } else {
            alphabeta_scan(board, depth, bound, beta, mover_is_white, i + 1, raised)
        }
    }
}

/// The index of the move that the root scan holds after the moves from
/// index `i` on, where `chosen` is the one it holds before and `alpha` the
/// best score so far. A move replaces the held one when its negated score,
/// searched `depth` plies deep in the window `(-beta, -alpha)`, is strictly
/// better than `alpha`; a tie keeps the earlier move.
pub open spec fn root_scan(
    board: chess::Board,
    depth: nat,
    alpha: int,
    beta: int,
    opponent_is_white: bool,
    i: int,
    chosen: Option<int>,
) -> Option<int>
    decreases legal_moves_of(board).len() - i,
{
    if i < 0 || i >= legal_moves_of(board).len() {
        chosen
    } else if !taken(board, i) {
        root_scan(board, depth, alpha, beta, opponent_is_white, i + 1, chosen)
    } else {
        let value = -alphabeta_value(child(board, i), depth, -beta, -alpha, opponent_is_white);
        if value > alpha {
            root_scan(board, depth, value, beta, opponent_is_white, i + 1, Some(i))
        } else {
            root_scan(board, depth, alpha, beta, opponent_is_white, i + 1, chosen)
        }
    }
}

/// The index of the move that alpha-beta search picks at the root, if any
/// move scores better than `alpha`.
pub open spec fn root_choice(
    board: chess::Board,
    depth: nat,
    alpha: int,
    beta: int,
    opponent_is_white: bool,
) -> Option<int> {
    root_scan(board, depth, alpha, beta, opponent_is_white, 0, None)
}

/// The index of the move that full-width search holds at the root after the
/// moves from index `i` on, where `chosen` is the one it holds before and
/// `best` its score. A move replaces the held one when its negated value is
/// strictly better; a tie keeps the earlier move.
pub open spec fn negamax_root_scan(
    board: chess::Board,
    depth: nat,
    opponent_is_white: bool,
    i: int,
    best: int,
    chosen: Option<int>,
) -> Option<int>
    decreases legal_moves_of(board).len() - i,
{
    if i < 0 || i >= legal_moves_of(board).len() {
        chosen
    } else if !taken(board, i) {
        negamax_root_scan(board, depth, opponent_is_white, i + 1, best, chosen)
    } else {
        let score = -negamax_value(child(board, i), depth, opponent_is_white);
        if score > best {
            negamax_root_scan(board, depth, opponent_is_white, i + 1, score, Some(i))
        } else {
            negamax_root_scan(board, depth, opponent_is_white, i + 1, best, chosen)
        }
    }
}

/// The index of the move that full-width search picks at the root, if a
/// move can be played.
pub open spec fn negamax_choice(board: chess::Board, depth: nat, opponent_is_white: bool) -> Option<
    int,
> {
    negamax_root_scan(board, depth, opponent_is_white, 0, -INFINITY as int, None)
}

/// The score of the move of index `j` for the side that makes it: the
/// negated full-width value of the board after it, `depth` plies deep.
pub open spec fn move_value(board: chess::Board, depth: nat, opponent_is_white: bool, j: int) -> int {
    -negamax_value(child(board, j), depth, opponent_is_white)
}

/// Whether the move of index `c` is the first among the best of the first
/// `n` moves, of those that can be played.
pub open spec fn first_best(
    board: chess::Board,
    depth: nat,
    opponent_is_white: bool,
    c: int,
    n: int,
) -> bool {
    &&& 0 <= c < n
    &&& taken(board, c)
    &&& forall|j: int|
        0 <= j < n && taken(board, j) ==> #[trigger] move_value(
            board,
            depth,
            opponent_is_white,
            j,
        ) <= move_value(board, depth, opponent_is_white, c)
    &&& forall|j: int|
        0 <= j < c && taken(board, j) ==> #[trigger] move_value(
            board,
            depth,
            opponent_is_white,
            j,
        ) < move_value(board, depth, opponent_is_white, c)
}

/// What alpha-beta search returns, relative to its window, against the
/// value of the node: a score inside the window is the value; a score at or
/// below `alpha` is an upper bound of the value; a score at or above `beta`
/// is a lower bound.
pub open spec fn sound_in_window(score: int, value: int, alpha: int, beta: int) -> bool {
    &&& score <= alpha ==> value <= score
    &&& score >= beta ==> value >= score
    &&& alpha < score < beta ==> value == score
}

/// The index of the move that alpha-beta search picks at the root for the
/// side to move, with `below` plies under each move.
pub open spec fn root_pick(board: chess::Board, below: nat, alpha: int, beta: int) -> Option<int> {
    root_choice(board, below, alpha, beta, !board_white_to_move(board))
}

/// Whether `m` is the move of index `pick`, and can be played.
pub open spec fn is_move_at(board: chess::Board, pick: Option<int>, m: chess::ChessMove) -> bool {
    pick matches Some(j) && 0 <= j < legal_moves_of(board).len() && m == legal_moves_of(board)[j]
        && taken(board, j)
}

/// Whether `m` is the move that full-width search picks for the side to
/// move, with `below` plies under each move: the first of the moves that
/// can be played whose score no other reaches.
pub open spec fn plays_best(board: chess::Board, below: nat, m: chess::ChessMove) -> bool {
    negamax_choice(board, below, !board_white_to_move(board)) matches Some(j) && first_best(
        board,
        below,
        !board_white_to_move(board),
        j,
        legal_moves_of(board).len() as int,
    ) && m == legal_moves_of(board)[j]
}

/// The score of the move of index `j` for the side to move, with `below`
/// plies under it.
pub open spec fn score_of_move(board: chess::Board, below: nat, j: int) -> int {
    move_value(board, below, !board_white_to_move(board), j)
}

/// Whether some move that can be played scores `MATE_SCORE`, with `below`
/// plies under each move: a move that checkmates does, and a move after
/// which every line ends in checkmate within the horizon.
pub open spec fn mate_offered(board: chess::Board, below: nat) -> bool {
    exists|i: int|
        0 <= i < legal_moves_of(board).len() && taken(board, i) && #[trigger] score_of_move(
            board,
            below,
            i,
        ) == MATE_SCORE
}

/// Whether `m` is a move that can be played and scores `MATE_SCORE`.
pub open spec fn gives_mate(board: chess::Board, below: nat, m: chess::ChessMove) -> bool {
    exists|j: int|
        0 <= j < legal_moves_of(board).len() && taken(board, j) && m == legal_moves_of(board)[j]
            && #[trigger] score_of_move(board, below, j) == MATE_SCORE
}

/// What the driver promises of the move `m` that it picks with `below`
/// plies under each move: it is the move that alpha-beta search with the
/// widest window holds at the end of its root scan; it is the first of the
/// moves that can be played whose full-width score no other reaches; and it
/// scores `MATE_SCORE` where any move does.
pub open spec fn search_choice(board: chess::Board, below: nat, m: chess::ChessMove) -> bool {
    &&& is_move_at(board, root_pick(board, below, -INFINITY as int, INFINITY as int), m)
    &&& plays_best(board, below, m)
    &&& mate_offered(board, below) ==> gives_mate(board, below, m)
}

/// The static score of any board is within `VALUE_LIMIT` of zero.
pub proof fn lemma_leaf_bounds(board: chess::Board, mover_is_white: bool)
    ensures
        -VALUE_LIMIT <= leaf_value(board, mover_is_white) <= VALUE_LIMIT,
{
    lemma_evaluation_bounds(placement_of(board));
}

/// Whatever the window, alpha-beta search returns a score within
/// `VALUE_LIMIT` of zero: never one of the two infinities.
pub proof fn lemma_alphabeta_bounds(
    board: chess::Board,
    depth: nat,
    alpha: int,
    beta: int,
    mover_is_white: bool,
)
    ensures
        -VALUE_LIMIT <= alphabeta_value(board, depth, alpha, beta, mover_is_white) <= VALUE_LIMIT,
    decreases depth, 1int, 0int,
{
    lemma_leaf_bounds(board, mover_is_white);
    if status_of(board) == Status::Ongoing && depth > 0 {
        lemma_scan_bounds(board, depth, alpha, beta, mover_is_white, 0, -INFINITY as int);
    }
}

/// The scan returns `-INFINITY` or a score within `VALUE_LIMIT` of zero, if
/// it starts with one.
pub proof fn lemma_scan_bounds(
    board: chess::Board,
    depth: nat,
    alpha: int,
    beta: int,
    mover_is_white: bool,
    i: int,
    best: int,
)
    requires
        depth > 0,
        0 <= i <= legal_moves_of(board).len(),
        -VALUE_LIMIT <= best <= VALUE_LIMIT || best == -INFINITY,
    ensures
        ({
            let r = alphabeta_scan(board, depth, alpha, beta, mover_is_white, i, best);
            -VALUE_LIMIT <= r <= VALUE_LIMIT || r == -INFINITY
        }),
    decreases depth, 0int, legal_moves_of(board).len() - i,
{
    if i < legal_moves_of(board).len() {
        if !taken(board, i) {
            lemma_scan_bounds(board, depth, alpha, beta, mover_is_white, i + 1, best);
        } else {
            lemma_alphabeta_bounds(
                child(board, i),
                (depth - 1) as nat,
                -beta,
                -alpha,
                !mover_is_white,
            );
            let score = -alphabeta_value(
                child(board, i),
                (depth - 1) as nat,
                -beta,
                -alpha,
                !mover_is_white,
            );
            let raised = larger(score, best);
            let bound = larger(alpha, raised);
            if bound < beta {
                lemma_scan_bounds(board, depth, bound, beta, mover_is_white, i + 1, raised);
            }
        }
    }
}

/// The value of a node is within `VALUE_LIMIT` of zero: never one of the two
/// infinities.
pub proof fn lemma_negamax_bounds(board: chess::Board, depth: nat, mover_is_white: bool)
    ensures
        -VALUE_LIMIT <= negamax_value(board, depth, mover_is_white) <= VALUE_LIMIT,
    decreases depth, 1int, 0int,
{
    lemma_leaf_bounds(board, mover_is_white);
    if status_of(board) == Status::Ongoing && depth > 0 {
        lemma_best_bounds(board, depth, mover_is_white, legal_moves_of(board).len() as int);
    }
}

/// The best among the children by the first `n` moves is `-INFINITY` where
/// none of these moves can be played, and within `VALUE_LIMIT` of zero where
/// one can.
pub proof fn lemma_best_bounds(board: chess::Board, depth: nat, mover_is_white: bool, n: int)
    requires
        depth > 0,
        0 <= n <= legal_moves_of(board).len(),
    ensures
        ({
            let best = negamax_best(board, depth, mover_is_white, n);
            &&& -VALUE_LIMIT <= best <= VALUE_LIMIT || best == -INFINITY
            &&& best == -INFINITY <==> forall|j: int| 0 <= j < n ==> !#[trigger] taken(board, j)
        }),
    decreases depth, 0int, n,
{
    if n > 0 {
        lemma_best_bounds(board, depth, mover_is_white, n - 1);
        lemma_negamax_bounds(child(board, n - 1), (depth - 1) as nat, !mover_is_white);
        if taken(board, n - 1) {
            assert(!(forall|j: int| 0 <= j < n ==> !#[trigger] taken(board, j)));
        }
    }
}

} // verus!
