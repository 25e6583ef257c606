use std::str::FromStr;

use chess::Board;
use chess_engine::alphabeta::{evaluate, get_piece_balance};
use chess_engine::evaluation::{material_balance_of, piece_balance_of, Placement};
use chess_engine::material::{material_by_square, material_on};
use chess_engine::pieces::PieceKind;
use chess_engine::position::Position;

fn at(fen: &str) -> Position {
    Position::new(Board::from_str(fen).expect("valid FEN")).expect("playable board")
}

const KINDS: [PieceKind; 6] = [
    PieceKind::Pawn,
    PieceKind::Knight,
    PieceKind::Bishop,
    PieceKind::Rook,
    PieceKind::Queen,
    PieceKind::King,
];

const POSITIONS: [&str; 6] = [
    "rnbqkbnr/pppppppp/8/8/8/8/PPPPPPPP/RNBQKBNR w KQkq - 0 1",
    "r1bqkbnr/pppp1ppp/2n5/4p3/2B1P3/5N2/PPPP1PPP/RNBQK2R b KQkq - 3 3",
    "4k3/8/8/8/4P3/8/8/4K3 w - - 0 1",
    "6k1/5ppp/8/r7/8/8/3B1PPP/4R1K1 w - - 0 1",
    "8/2k5/3q4/8/8/1N6/5K2/8 w - - 0 1",
    "r3k2r/p1ppqpb1/bn2pnp1/3PN3/1p2P3/2N2Q1p/PPPBBPPP/R3K2R w KQkq - 0 1",
];

#[test]
fn initial_position_evaluates_to_zero() {
    let start = Position::new(Board::default()).unwrap();
    assert_eq!(evaluate(start), 0);
}

#[test]
fn initial_position_balances_every_kind() {
    let start = Position::new(Board::default()).unwrap();
    for kind in KINDS {
        assert_eq!(get_piece_balance(start, kind), 0);
    }
}

#[test]
fn lone_white_pawn_counts_material_and_square() {
    // Kings on e1 and e8 cancel; the pawn on e4 is worth 100 + 20.
    let p = at("4k3/8/8/8/4P3/8/8/4K3 w - - 0 1");
    assert_eq!(get_piece_balance(p, PieceKind::Pawn), 120);
    assert_eq!(get_piece_balance(p, PieceKind::King), 0);
    assert_eq!(evaluate(p), 120);
}

#[test]
fn lone_black_pawn_counts_against_white() {
    // The black pawn on e5 mirrors a white pawn on e4.
    let p = at("4k3/8/8/4p3/8/8/8/4K3 w - - 0 1");
    assert_eq!(get_piece_balance(p, PieceKind::Pawn), -120);
    assert_eq!(evaluate(p), -120);
}

#[test]
fn evaluation_adds_material_and_bonus_of_each_piece() {
    // White: Kf2 (0 + 0... f2 is 20), Nb3 (320 + 5). Black: Kc7, Qd6.
    let p = at("8/2k5/3q4/8/8/1N6/5K2/8 w - - 0 1");
    assert_eq!(get_piece_balance(p, PieceKind::Knight), 320 + 5);
    // d6 mirrors d3, where the queen's table holds 5.
    assert_eq!(get_piece_balance(p, PieceKind::Queen), -(900 + 5));
    // f2 holds 0 for the white king; c7 mirrors c2, which holds 0.
    assert_eq!(get_piece_balance(p, PieceKind::King), 0);
    assert_eq!(evaluate(p), 325 - 905);
}

#[test]
fn balance_of_one_kind_from_its_two_sets() {
    // Two white rooks on a1 and h1 against one black rook on a8.
    let white: u64 = 1 | 1 << 7;
    let black: u64 = 1 << 56;
    assert_eq!(piece_balance_of(PieceKind::Rook, white, black), 500);
    assert_eq!(material_balance_of(PieceKind::Rook, white, black), 500);
    // A white rook on d1 has a bonus of 5; a black rook on d8 has the same.
    assert_eq!(piece_balance_of(PieceKind::Rook, 1 << 3, 0), 505);
    assert_eq!(piece_balance_of(PieceKind::Rook, 0, 1 << 59), -505);
    assert_eq!(piece_balance_of(PieceKind::Rook, 0, 0), 0);
}

#[test]
fn balance_is_defined_on_every_pair_of_sets() {
    assert_eq!(material_balance_of(PieceKind::King, u64::MAX, 0), 64 * 20000);
    assert_eq!(material_balance_of(PieceKind::King, 0, u64::MAX), -64 * 20000);
    assert_eq!(piece_balance_of(PieceKind::Queen, u64::MAX, u64::MAX), 0);
    let all: i32 = PieceKind::Pawn.bonus_table().iter().sum();
    assert_eq!(piece_balance_of(PieceKind::Pawn, u64::MAX, 0), 6400 + all);
}

#[test]
fn mirroring_a_placement_negates_the_score() {
    for fen in POSITIONS {
        let placement = at(fen).placement();
        let mirrored = placement.mirrored();
        assert_eq!(mirrored.evaluate(), -placement.evaluate());
        assert_eq!(mirrored.evaluate_material(), -placement.evaluate_material());
        assert_eq!(mirrored.mirrored(), placement);
        for kind in KINDS {
            assert_eq!(mirrored.get_piece_balance(kind), -placement.get_piece_balance(kind));
        }
    }
}

#[test]
fn mirroring_negates_the_score_of_placements_that_no_game_reaches() {
    let odd = Placement {
        pawns: 0x00ff_00ff_0000_1234,
        knights: 0xffff_0000_0000_0000,
        bishops: 0x0000_0000_0000_00ff,
        rooks: 0x1111_1111_1111_1111,
        queens: 0x8000_0000_0000_0001,
        kings: 0x0000_0018_1800_0000,
        white: 0x0f0f_0f0f_f0f0_f0f0,
        black: 0xf0f0_f0f0_0f0f_0f0f,
    };
    assert_eq!(odd.mirrored().evaluate(), -odd.evaluate());
    assert_eq!(odd.mirrored().mirrored(), odd);
}

#[test]
fn the_mirrored_board_has_the_mirrored_placement() {
    let white_pov = at("r1bqkbnr/pppp1ppp/2n5/4p3/2B1P3/5N2/PPPP1PPP/RNBQK2R b KQkq - 3 3");
    let black_pov = at("rnbqk2r/pppp1ppp/5n2/2b1p3/4P3/2N5/PPPP1PPP/R1BQKBNR w KQkq - 3 3");
    assert_eq!(black_pov.placement(), white_pov.placement().mirrored());
    assert_eq!(evaluate(black_pov), -evaluate(white_pov));
}

#[test]
fn material_counts_pieces_only() {
    let p = at("8/2k5/3q4/8/8/1N6/5K2/8 w - - 0 1").placement();
    assert_eq!(p.get_material_balance(PieceKind::Knight), 320);
    assert_eq!(p.get_material_balance(PieceKind::Queen), -900);
    assert_eq!(p.get_material_balance(PieceKind::King), 0);
    assert_eq!(p.evaluate_material(), -580);
    assert_eq!(Position::new(Board::default()).unwrap().placement().evaluate_material(), 0);
}

#[test]
fn the_two_counts_of_material_agree() {
    for fen in POSITIONS {
        let placement = at(fen).placement();
        assert_eq!(material_by_square(&placement), placement.evaluate_material());
    }
}

#[test]
fn material_of_one_square() {
    let p = at("8/2k5/3q4/8/8/1N6/5K2/8 w - - 0 1").placement();
    assert_eq!(material_on(&p, 17), 320);
    assert_eq!(material_on(&p, 43), -900);
    assert_eq!(material_on(&p, 13), 20000);
    assert_eq!(material_on(&p, 50), -20000);
    assert_eq!(material_on(&p, 0), 0);
}

#[test]
fn a_piece_without_a_colour_counts_as_white_square_by_square() {
    let placement = Placement {
        pawns: 1 << 12,
        knights: 0,
        bishops: 0,
        rooks: 0,
        queens: 0,
        kings: 0,
        white: 0,
        black: 0,
    };
    assert_eq!(material_by_square(&placement), 100);
    assert_eq!(placement.evaluate_material(), 0);
}

#[test]
fn piece_and_colour_on_a_square() {
    let p = Position::new(Board::default()).unwrap().placement();
    assert_eq!(p.piece_on(0), Some(PieceKind::Rook));
    assert_eq!(p.piece_on(1), Some(PieceKind::Knight));
    assert_eq!(p.piece_on(2), Some(PieceKind::Bishop));
    assert_eq!(p.piece_on(3), Some(PieceKind::Queen));
    assert_eq!(p.piece_on(4), Some(PieceKind::King));
    assert_eq!(p.piece_on(12), Some(PieceKind::Pawn));
    assert_eq!(p.piece_on(28), None);
    assert_eq!(p.piece_on(60), Some(PieceKind::King));
    assert_eq!(p.color_on(4), Some(true));
    assert_eq!(p.color_on(60), Some(false));
    assert_eq!(p.color_on(28), None);
    assert_eq!(p.kind_bits(PieceKind::Pawn), 0x00ff_0000_0000_ff00);
    assert_eq!(p.side_bits(true), 0xffff);
    assert_eq!(p.side_bits(false), 0xffff_0000_0000_0000);
}

#[test]
fn the_initial_placement_is_the_engine_s() {
    let start = Position::new(Board::default()).unwrap();
    assert_eq!(start.placement(), Placement::initial());
    assert_eq!(Placement::initial().mirrored(), Placement::initial());
    assert_eq!(Placement::initial().evaluate(), 0);
}
