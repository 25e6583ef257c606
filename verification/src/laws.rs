//! What holds of the searches on every game tree.

use vstd::prelude::*;
use crate::evaluation::lemma_regular_bounds;
use crate::rules::{
    board_white_to_move, legal_moves_of, placement_of, playable, status_of, Status,
};
use crate::tree::{
    alphabeta_scan, alphabeta_value, can_move, child, first_best, gives_mate, larger, leaf_value,
    lemma_alphabeta_bounds, lemma_best_bounds, lemma_negamax_bounds, mate_offered, move_value,
    negamax_best, negamax_choice, negamax_root_scan, negamax_value, root_choice, root_scan,
    score_of_move, sound_in_window, taken, INFINITY, MATE_SCORE, VALUE_LIMIT,
};

verus! {

/// The depth-0 base case is exact: where the game is not over, searching 0
/// plies returns the static score in favour of the mover, whatever the
/// window.
pub proof fn lemma_depth_zero_exact(
    board: chess::Board,
    alpha: int,
    beta: int,
    mover_is_white: bool,
)
    requires
        status_of(board) == Status::Ongoing,
    ensures
        alphabeta_value(board, 0, alpha, beta, mover_is_white) == leaf_value(board, mover_is_white),
        negamax_value(board, 0, mover_is_white) == leaf_value(board, mover_is_white),
{
}

/// A stalemate scores as an exact draw at the node where it occurs, at every
/// depth and in every window.
pub proof fn lemma_stalemate_is_draw(
    board: chess::Board,
    depth: nat,
    alpha: int,
    beta: int,
    mover_is_white: bool,
)
    requires
        status_of(board) == Status::Stalemate,
    ensures
        alphabeta_value(board, depth, alpha, beta, mover_is_white) == 0,
        negamax_value(board, depth, mover_is_white) == 0,
{
}

/// A checkmate scores `-MATE_SCORE` for the side that is mated, at every
/// depth and in every window.
pub proof fn lemma_checkmate_is_lost(
    board: chess::Board,
    depth: nat,
    alpha: int,
    beta: int,
    mover_is_white: bool,
)
    requires
        status_of(board) == Status::Checkmate,
    ensures
        alphabeta_value(board, depth, alpha, beta, mover_is_white) == -MATE_SCORE,
        negamax_value(board, depth, mover_is_white) == -MATE_SCORE,
{
}

/// The best among the children by the first `n` moves is no better than the
/// best among those by the first `m`, for `n` up to `m`.
pub proof fn lemma_best_monotone(
    board: chess::Board,
    depth: nat,
    mover_is_white: bool,
    n: int,
    m: int,
)
    requires
        depth > 0,
        0 <= n <= m,
    ensures
        negamax_best(board, depth, mover_is_white, n) <= negamax_best(
            board,
            depth,
            mover_is_white,
            m,
        ),
    decreases m - n,
{
    if n < m {
        lemma_best_monotone(board, depth, mover_is_white, n, m - 1);
    }
}

/// A scan over moves of which none can be played returns what it started
/// with.
proof fn lemma_scan_untaken(
    board: chess::Board,
    depth: nat,
    alpha: int,
    beta: int,
    mover_is_white: bool,
    i: int,
    best: int,
)
    requires
        0 <= i <= legal_moves_of(board).len(),
        forall|j: int| i <= j < legal_moves_of(board).len() ==> !#[trigger] taken(board, j),
    ensures
        alphabeta_scan(board, depth, alpha, beta, mover_is_white, i, best) == best,
    decreases legal_moves_of(board).len() - i,
{
    if i < legal_moves_of(board).len() && depth > 0 {
        assert(!taken(board, i));
        lemma_scan_untaken(board, depth, alpha, beta, mover_is_white, i + 1, best);
    }
}

/// Pruning is sound: in every window that is not empty, the score that
/// alpha-beta search returns at a node stands to the node's full-width value
/// as `sound_in_window` says.
pub proof fn lemma_alphabeta_sound(
    board: chess::Board,
    depth: nat,
    alpha: int,
    beta: int,
    mover_is_white: bool,
)
    requires
        -INFINITY <= alpha < beta <= INFINITY,
    ensures
        sound_in_window(
            alphabeta_value(board, depth, alpha, beta, mover_is_white),
            negamax_value(board, depth, mover_is_white),
            alpha,
            beta,
        ),
    decreases depth, 1int, 0int,
{
    if status_of(board) == Status::Ongoing && depth > 0 {
        let n = legal_moves_of(board).len() as int;
        lemma_scan_sound(board, depth, alpha, alpha, beta, mover_is_white, 0, -INFINITY as int);
        lemma_best_bounds(board, depth, mover_is_white, n);
        if negamax_best(board, depth, mover_is_white, n) == -INFINITY {
            lemma_scan_untaken(board, depth, alpha, beta, mover_is_white, 0, -INFINITY as int);
        }
    }
}

/// The scan from move `i` on is sound for the window `(floor, beta)` that
/// the node was entered with, if the state of the scan is: `alpha` is
/// `floor` raised by `best`, and `best` is the best of the children by the
/// first `i` moves where it is above `floor`, an upper bound of it where
/// not.
proof fn lemma_scan_sound(
    board: chess::Board,
    depth: nat,
    floor: int,
    alpha: int,
    beta: int,
    mover_is_white: bool,
    i: int,
    best: int,
)
    requires
        depth > 0,
        0 <= i <= legal_moves_of(board).len(),
        -INFINITY <= floor,
        beta <= INFINITY,
        alpha == larger(floor, best),
        alpha < beta,
        best <= floor ==> negamax_best(board, depth, mover_is_white, i) <= best,
        best > floor ==> negamax_best(board, depth, mover_is_white, i) == best,
    ensures
        sound_in_window(
            alphabeta_scan(board, depth, alpha, beta, mover_is_white, i, best),
            negamax_best(board, depth, mover_is_white, legal_moves_of(board).len() as int),
            floor,
            beta,
        ),
    decreases depth, 0int, legal_moves_of(board).len() - i,
{
    let n = legal_moves_of(board).len() as int;
    if i < n {
        if !taken(board, i) {
            lemma_scan_sound(board, depth, floor, alpha, beta, mover_is_white, i + 1, best);
        } else {
            let below = (depth - 1) as nat;
            lemma_alphabeta_sound(child(board, i), below, -beta, -alpha, !mover_is_white);
            let score = -alphabeta_value(child(board, i), below, -beta, -alpha, !mover_is_white);
            let value = -negamax_value(child(board, i), below, !mover_is_white);
            let raised = larger(score, best);
            let bound = larger(alpha, raised);
            assert(negamax_best(board, depth, mover_is_white, i + 1) == larger(
                negamax_best(board, depth, mover_is_white, i),
                value,
            ));
            if bound >= beta {
                lemma_best_monotone(board, depth, mover_is_white, i + 1, n);
            } else {
                lemma_scan_sound(board, depth, floor, bound, beta, mover_is_white, i + 1, raised);
            }
        }
    }
}

/// Pruning changes the nodes visited, never the value: with the widest
/// window, alpha-beta search returns the full-width value of every node at
/// every depth.
pub proof fn lemma_pruning_is_exact(board: chess::Board, depth: nat, mover_is_white: bool)
    ensures
        alphabeta_value(board, depth, -INFINITY as int, INFINITY as int, mover_is_white)
            == negamax_value(board, depth, mover_is_white),
{
    lemma_alphabeta_sound(board, depth, -INFINITY as int, INFINITY as int, mover_is_white);
    lemma_alphabeta_bounds(board, depth, -INFINITY as int, INFINITY as int, mover_is_white);
}

/// From move `i` on, the root scan of alpha-beta search with no upper bound
/// holds the move that the root scan of full-width search holds.
proof fn lemma_root_scan_matches(
    board: chess::Board,
    depth: nat,
    alpha: int,
    opponent_is_white: bool,
    i: int,
    chosen: Option<int>,
)
    requires
        0 <= i <= legal_moves_of(board).len(),
        -INFINITY <= alpha <= VALUE_LIMIT,
    ensures
        root_scan(board, depth, alpha, INFINITY as int, opponent_is_white, i, chosen)
            == negamax_root_scan(board, depth, opponent_is_white, i, alpha, chosen),
    decreases legal_moves_of(board).len() - i,
{
    if i < legal_moves_of(board).len() {
        if !taken(board, i) {
            lemma_root_scan_matches(board, depth, alpha, opponent_is_white, i + 1, chosen);
        } else {
            lemma_alphabeta_sound(
                child(board, i),
                depth,
                -INFINITY as int,
                -alpha,
                opponent_is_white,
            );
            lemma_alphabeta_bounds(
                child(board, i),
                depth,
                -INFINITY as int,
                -alpha,
                opponent_is_white,
            );
            lemma_negamax_bounds(child(board, i), depth, opponent_is_white);
            let value = -alphabeta_value(
                child(board, i),
                depth,
                -INFINITY as int,
                -alpha,
                opponent_is_white,
            );
            if value > alpha {
                lemma_root_scan_matches(board, depth, value, opponent_is_white, i + 1, Some(i));
            } else {
                lemma_root_scan_matches(board, depth, alpha, opponent_is_white, i + 1, chosen);
            }
        }
    }
}

/// Pruning never changes the move: with the widest window, alpha-beta
/// search picks at the root the move that full-width search picks.
pub proof fn lemma_root_matches_full_width(
    board: chess::Board,
    depth: nat,
    opponent_is_white: bool,
)
    ensures
        root_choice(board, depth, -INFINITY as int, INFINITY as int, opponent_is_white)
            == negamax_choice(board, depth, opponent_is_white),
{
    lemma_root_scan_matches(board, depth, -INFINITY as int, opponent_is_white, 0, None);
}

/// The root scan of full-width search ends with the first among the best of
/// all moves, if it holds the first among the best of those before `i`; it
/// ends with none where no move can be played.
proof fn lemma_negamax_scan_optimal(
    board: chess::Board,
    depth: nat,
    opponent_is_white: bool,
    i: int,
    best: int,
    chosen: Option<int>,
)
    requires
        0 <= i <= legal_moves_of(board).len(),
        chosen is None ==> best == -INFINITY && forall|j: int|
            0 <= j < i ==> !#[trigger] taken(board, j),
        chosen matches Some(c) ==> first_best(board, depth, opponent_is_white, c, i) && best
            == move_value(board, depth, opponent_is_white, c),
    ensures
        match negamax_root_scan(board, depth, opponent_is_white, i, best, chosen) {
            Some(c) => first_best(
                board,
                depth,
                opponent_is_white,
                c,
                legal_moves_of(board).len() as int,
            ),
            None => forall|j: int|
                0 <= j < legal_moves_of(board).len() ==> !#[trigger] taken(board, j),
        },
    decreases legal_moves_of(board).len() - i,
{
    if i < legal_moves_of(board).len() {
        if !taken(board, i) {
            if chosen is Some {
                assert(first_best(board, depth, opponent_is_white, chosen->0, i + 1));
            }
            lemma_negamax_scan_optimal(board, depth, opponent_is_white, i + 1, best, chosen);
        } else {
            lemma_negamax_bounds(child(board, i), depth, opponent_is_white);
            let score = move_value(board, depth, opponent_is_white, i);
            if score > best {
                assert(first_best(board, depth, opponent_is_white, i, i + 1));
                lemma_negamax_scan_optimal(board, depth, opponent_is_white, i + 1, score, Some(i));
            } else {
                assert(first_best(board, depth, opponent_is_white, chosen->0, i + 1));
                lemma_negamax_scan_optimal(board, depth, opponent_is_white, i + 1, best, chosen);
            }
        }
    }
}

/// The driver's choice is optimal: both searches pick the first of the
/// moves that can be played whose score no other such move's score exceeds,
/// and pick none exactly where no move can be played.
pub proof fn lemma_choice_is_best(board: chess::Board, depth: nat, opponent_is_white: bool)
    ensures
        match negamax_choice(board, depth, opponent_is_white) {
            Some(c) => first_best(
                board,
                depth,
                opponent_is_white,
                c,
                legal_moves_of(board).len() as int,
            ),
            None => !can_move(board),
        },
        negamax_choice(board, depth, opponent_is_white) is Some <==> can_move(board),
        root_choice(board, depth, -INFINITY as int, INFINITY as int, opponent_is_white)
            == negamax_choice(board, depth, opponent_is_white),
{
    lemma_negamax_scan_optimal(board, depth, opponent_is_white, 0, -INFINITY as int, None);
    lemma_root_matches_full_width(board, depth, opponent_is_white);
    match negamax_choice(board, depth, opponent_is_white) {
        Some(c) => {
            assert(taken(board, c));
        },
        None => {},
    }
}

/// The mate score dominates: on a playable board no value is further from
/// zero than `MATE_SCORE`, and the static score does not reach it.
pub proof fn lemma_within_mate(board: chess::Board, depth: nat, mover_is_white: bool)
    requires
        playable(board),
    ensures
        -MATE_SCORE <= negamax_value(board, depth, mover_is_white) <= MATE_SCORE,
        -MATE_SCORE < leaf_value(board, mover_is_white) < MATE_SCORE,
    decreases depth, 1int, 0int,
{
    lemma_regular_bounds(placement_of(board));
    if status_of(board) == Status::Ongoing && depth > 0 {
        lemma_best_within_mate(board, depth, mover_is_white, legal_moves_of(board).len() as int);
    }
}

/// The best among the children by the first `n` moves is `-INFINITY` or no
/// further from zero than `MATE_SCORE`.
proof fn lemma_best_within_mate(board: chess::Board, depth: nat, mover_is_white: bool, n: int)
    requires
        depth > 0,
        0 <= n <= legal_moves_of(board).len(),
    ensures
        ({
            let best = negamax_best(board, depth, mover_is_white, n);
            -MATE_SCORE <= best <= MATE_SCORE || best == -INFINITY
        }),
    decreases depth, 0int, n,
{
    if n > 0 {
        lemma_best_within_mate(board, depth, mover_is_white, n - 1);
        if taken(board, n - 1) {
            lemma_within_mate(child(board, n - 1), (depth - 1) as nat, !mover_is_white);
        }
    }
}

/// A move that checkmates scores `MATE_SCORE` at every depth.
pub proof fn lemma_mating_move_value(
    board: chess::Board,
    depth: nat,
    opponent_is_white: bool,
    i: int,
)
    requires
        status_of(child(board, i)) == Status::Checkmate,
    ensures
        move_value(board, depth, opponent_is_white, i) == MATE_SCORE,
{
}

/// Where a move that scores `MATE_SCORE` is on offer, the first among the
/// best moves scores `MATE_SCORE`, whatever material the other moves win.
pub proof fn lemma_mate_is_chosen(board: chess::Board, below: nat, c: int)
    requires
        first_best(
            board,
            below,
            !board_white_to_move(board),
            c,
            legal_moves_of(board).len() as int,
        ),
    ensures
        score_of_move(board, below, c) <= MATE_SCORE,
        mate_offered(board, below) ==> gives_mate(board, below, legal_moves_of(board)[c]),
{
    lemma_within_mate(child(board, c), below, !board_white_to_move(board));
    if mate_offered(board, below) {
        let i = choose|i: int|
            0 <= i < legal_moves_of(board).len() && taken(board, i) && #[trigger] score_of_move(
                board,
                below,
                i,
            ) == MATE_SCORE;
        assert(move_value(board, below, !board_white_to_move(board), i) <= move_value(
            board,
            below,
            !board_white_to_move(board),
            c,
        ));
        assert(score_of_move(board, below, c) == MATE_SCORE);
    }
}

/// Forced-mate precedence: where some move that can be played scores
/// `MATE_SCORE`, the driver picks a move that scores `MATE_SCORE`.
pub proof fn lemma_mate_precedence(board: chess::Board, below: nat)
    requires
        mate_offered(board, below),
    ensures
        root_choice(
            board,
            below,
            -INFINITY as int,
            INFINITY as int,
            !board_white_to_move(board),
        ) matches Some(c) && 0 <= c < legal_moves_of(board).len() && taken(board, c)
            && score_of_move(board, below, c) == MATE_SCORE,
{
    lemma_choice_is_best(board, below, !board_white_to_move(board));
    let i = choose|i: int|
        0 <= i < legal_moves_of(board).len() && taken(board, i) && #[trigger] score_of_move(
            board,
            below,
            i,
        ) == MATE_SCORE;
    assert(taken(board, i));
    let c = negamax_choice(board, below, !board_white_to_move(board))->0;
    lemma_mate_is_chosen(board, below, c);
    assert(move_value(board, below, !board_white_to_move(board), i) <= move_value(
        board,
        below,
        !board_white_to_move(board),
        c,
    ));
}

/// The best among the children by the first `n` moves, where one of these
/// moves can be played, is the score of one of them and no less than the
/// score of any.
pub proof fn lemma_best_is_attained(
    board: chess::Board,
    below: nat,
    opponent_is_white: bool,
    n: int,
)
    requires
        0 <= n <= legal_moves_of(board).len(),
    ensures
        negamax_best(board, below + 1, !opponent_is_white, n) != -INFINITY ==> exists|j: int|
            0 <= j < n && taken(board, j) && #[trigger] move_value(
                board,
                below,
                opponent_is_white,
                j,
            ) == negamax_best(board, below + 1, !opponent_is_white, n),
        forall|j: int|
            0 <= j < n && taken(board, j) ==> #[trigger] move_value(
                board,
                below,
                opponent_is_white,
                j,
            ) <= negamax_best(board, below + 1, !opponent_is_white, n),
    decreases n,
{
    let depth = below + 1;
    assert((depth - 1) as nat == below);
    if n > 0 {
        lemma_best_is_attained(board, below, opponent_is_white, n - 1);
        lemma_best_bounds(board, depth, !opponent_is_white, n - 1);
        let before = negamax_best(board, depth, !opponent_is_white, n - 1);
        let now = negamax_best(board, depth, !opponent_is_white, n);
        if taken(board, n - 1) {
            lemma_negamax_bounds(child(board, n - 1), below, opponent_is_white);
            let last = move_value(board, below, opponent_is_white, n - 1);
            if last < before {
                let j = choose|j: int|
                    0 <= j < n - 1 && taken(board, j) && #[trigger] move_value(
                        board,
                        below,
                        opponent_is_white,
                        j,
                    ) == before;
                assert(move_value(board, below, opponent_is_white, j) == now);
            } else {
                assert(last == now);
            }
        } else if now != -INFINITY {
            let j = choose|j: int|
                0 <= j < n - 1 && taken(board, j) && #[trigger] move_value(
                    board,
                    below,
                    opponent_is_white,
                    j,
                ) == before;
            assert(move_value(board, below, opponent_is_white, j) == now);
        }
    }
}

/// A mate score is a forced mate: on a playable board where the game goes
/// on, a node is worth `MATE_SCORE` only where some move that can be played
/// scores it, and worth `-MATE_SCORE` only where every move that can be
/// played scores that. No static score enters: at depth 0 such a node is
/// worth neither.
pub proof fn lemma_mate_score_is_forced(board: chess::Board, below: nat, opponent_is_white: bool)
    requires
        playable(board),
        status_of(board) == Status::Ongoing,
    ensures
        negamax_value(board, below + 1, !opponent_is_white) == MATE_SCORE ==> exists|j: int|
            0 <= j < legal_moves_of(board).len() && taken(board, j) && #[trigger] move_value(
                board,
                below,
                opponent_is_white,
                j,
            ) == MATE_SCORE,
        negamax_value(board, below + 1, !opponent_is_white) == -MATE_SCORE ==> forall|j: int|
            0 <= j < legal_moves_of(board).len() && taken(board, j) ==> #[trigger] move_value(
                board,
                below,
                opponent_is_white,
                j,
            ) == -MATE_SCORE,
        -MATE_SCORE < negamax_value(board, 0, !opponent_is_white) < MATE_SCORE,
{
    lemma_within_mate(board, below + 1, !opponent_is_white);
    let n = legal_moves_of(board).len() as int;
    lemma_best_is_attained(board, below, opponent_is_white, n);
    lemma_best_bounds(board, below + 1, !opponent_is_white, n);
    assert forall|j: int| 0 <= j < n && taken(board, j) implies -MATE_SCORE <= #[trigger] move_value(
        board,
        below,
        opponent_is_white,
        j,
    ) by {
        lemma_within_mate(child(board, j), below, opponent_is_white);
    }
}

} // verus!
