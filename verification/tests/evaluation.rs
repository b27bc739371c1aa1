use chess_search::eval::evaluate_pos;
use chess_search::pieces::{Color, Piece, Role, Square};
use chess_search::render::{board_rows, piece_symbol};
use chess_search::tables::{get_piece_value, PieceSquareTable};
use shakmaty::fen::Fen;
use shakmaty::{CastlingMode, Chess};

fn position(fen: &str) -> Chess {
    let parsed: Fen = fen.parse().expect("a well-formed FEN");
    parsed.into_position(CastlingMode::Standard).expect("a legal position")
}

fn square(file: u8, rank: u8) -> Square {
    Square::from_coords(file, rank).expect("a square of the board")
}

#[test]
fn squares_are_numbered_rank_by_rank() {
    let e4 = square(4, 3);
    assert_eq!(e4.index(), 28);
    assert_eq!(e4.file(), 4);
    assert_eq!(e4.rank(), 3);
    assert_eq!(Square::from_index(28), Some(e4));
    assert_eq!(Square::from_index(0), Some(square(0, 0)));
    assert_eq!(Square::from_index(63), Some(square(7, 7)));
}

#[test]
fn squares_off_the_board_are_refused() {
    assert_eq!(Square::from_index(64), None);
    assert_eq!(Square::from_index(255), None);
    assert_eq!(Square::from_coords(8, 0), None);
    assert_eq!(Square::from_coords(0, 8), None);
}

#[test]
fn sides_are_each_other_s_opponent() {
    assert_eq!(Color::White.other(), Color::Black);
    assert_eq!(Color::Black.other(), Color::White);
}

#[test]
fn material_values_on_neutral_squares() {
    let pst = PieceSquareTable::new();
    // a1 for White reads the last row of each table, first column.
    let a1 = square(0, 0);
    assert_eq!(get_piece_value(&pst, Role::Pawn, Color::White, a1), 100);
    assert_eq!(get_piece_value(&pst, Role::Knight, Color::White, a1), 320 - 20);
    assert_eq!(get_piece_value(&pst, Role::Bishop, Color::White, a1), 330 - 20);
    assert_eq!(get_piece_value(&pst, Role::Rook, Color::White, a1), 500);
    assert_eq!(get_piece_value(&pst, Role::Queen, Color::White, a1), 900 - 30);
    assert_eq!(get_piece_value(&pst, Role::King, Color::White, a1), 20000);
}

#[test]
fn white_reads_its_table_from_the_far_edge() {
    let pst = PieceSquareTable::new();
    assert_eq!(get_piece_value(&pst, Role::Pawn, Color::White, square(4, 3)), 140);
    assert_eq!(get_piece_value(&pst, Role::Pawn, Color::White, square(4, 1)), 70);
    assert_eq!(get_piece_value(&pst, Role::Pawn, Color::White, square(4, 6)), 170);
    assert_eq!(get_piece_value(&pst, Role::Rook, Color::White, square(3, 6)), 520);
    assert_eq!(get_piece_value(&pst, Role::King, Color::White, square(6, 0)), 20020);
    assert_eq!(get_piece_value(&pst, Role::Knight, Color::White, square(1, 0)), 320);
}

#[test]
fn black_reads_its_table_from_the_near_edge() {
    let pst = PieceSquareTable::new();
    assert_eq!(get_piece_value(&pst, Role::Pawn, Color::Black, square(4, 4)), 140);
    assert_eq!(get_piece_value(&pst, Role::Pawn, Color::Black, square(4, 1)), 170);
    assert_eq!(get_piece_value(&pst, Role::Pawn, Color::Black, square(4, 6)), 70);
    assert_eq!(get_piece_value(&pst, Role::Rook, Color::Black, square(3, 1)), 520);
    assert_eq!(get_piece_value(&pst, Role::King, Color::Black, square(6, 7)), 20020);
    assert_eq!(get_piece_value(&pst, Role::Bishop, Color::Black, square(3, 3)), 360);
}

#[test]
fn mirrored_squares_are_worth_the_same_to_either_side() {
    let pst = PieceSquareTable::new();
    let roles = [Role::Pawn, Role::Knight, Role::Bishop, Role::Rook, Role::Queen, Role::King];
    for role in roles {
        for file in 0..8u8 {
            for rank in 0..8u8 {
                let white = get_piece_value(&pst, role, Color::White, square(file, rank));
                let black = get_piece_value(&pst, role, Color::Black, square(file, 7 - rank));
                assert_eq!(white, black);
            }
        }
    }
}

#[test]
fn the_starting_position_is_level() {
    assert_eq!(evaluate_pos(&Chess::default()), 0);
}

#[test]
fn a_lone_pawn_counts_for_its_owner() {
    // The two kings stand on mirrored squares and cancel out.
    let pos = position("4k3/8/8/8/4P3/8/8/4K3 w - - 0 1");
    assert_eq!(evaluate_pos(&pos), 140);
}

#[test]
fn a_lone_pawn_counts_against_the_opponent() {
    let pos = position("4k3/8/8/8/4P3/8/8/4K3 b - - 0 1");
    assert_eq!(evaluate_pos(&pos), -140);
}

#[test]
fn the_mirrored_pawn_is_worth_the_same_to_its_own_side() {
    let white = position("4k3/8/8/8/4P3/8/8/4K3 w - - 0 1");
    let black = position("4k3/8/8/4p3/8/8/8/4K3 b - - 0 1");
    assert_eq!(evaluate_pos(&black), 140);
    assert_eq!(evaluate_pos(&black), evaluate_pos(&white));
}

#[test]
fn the_mirrored_pawn_negates_the_score_of_the_same_mover() {
    let white = position("4k3/8/8/8/4P3/8/8/4K3 w - - 0 1");
    let mirrored = position("4k3/8/8/4p3/8/8/8/4K3 w - - 0 1");
    assert_eq!(evaluate_pos(&mirrored), -140);
    assert_eq!(evaluate_pos(&mirrored), -evaluate_pos(&white));
}

#[test]
fn passing_the_move_negates_the_score() {
    let fens = [
        "r1bqkbnr/pppp1ppp/2n5/4p3/4P3/5N2/PPPP1PPP/RNBQKB1R",
        "8/5k2/3p4/1p1Pp2p/pP2Pp1P/P4P1K/8/8",
        "rnbq1rk1/pp2ppbp/3p1np1/8/3NP3/2N1BP2/PPPQ2PP/R3KB1R",
    ];
    for board in fens {
        let white = position(&format!("{} w - - 0 1", board));
        let black = position(&format!("{} b - - 0 1", board));
        assert_eq!(evaluate_pos(&white), -evaluate_pos(&black));
    }
}

#[test]
fn a_pawn_push_is_scored_from_the_new_mover_s_side() {
    // After 1. e4 the pawn has left a square worth -30 for one worth 40.
    let pos = position("rnbqkbnr/pppppppp/8/8/4P3/8/PPPP1PPP/RNBQKBNR b KQkq - 0 1");
    assert_eq!(evaluate_pos(&pos), -70);
}

#[test]
fn material_and_placement_add_up() {
    // Black: king h8 (20000). White: queen f7 (900 - 5), king g6 (20000).
    let pos = position("7k/5Q2/6K1/8/8/8/8/8 b - - 0 1");
    assert_eq!(evaluate_pos(&pos), -895);
}

#[test]
fn a_full_board_stays_far_from_overflow() {
    let pos = position("rnbqkbnr/pppppppp/8/8/8/8/PPPPPPPP/RNBQKBNR w KQkq - 0 1");
    let score = evaluate_pos(&pos);
    assert!((-1284480..=1284480).contains(&score));
}

#[test]
fn pieces_have_their_symbols() {
    let white_pawn = Piece { role: Role::Pawn, color: Color::White };
    let black_pawn = Piece { role: Role::Pawn, color: Color::Black };
    let white_king = Piece { role: Role::King, color: Color::White };
    let black_queen = Piece { role: Role::Queen, color: Color::Black };
    assert_eq!(piece_symbol(white_pawn), '\u{265F}');
    assert_eq!(piece_symbol(black_pawn), '\u{2659}');
    assert_eq!(piece_symbol(white_king), '\u{265A}');
    assert_eq!(piece_symbol(black_queen), '\u{2655}');
    assert_eq!(piece_symbol(Piece { role: Role::Knight, color: Color::White }), '\u{265E}');
    assert_eq!(piece_symbol(Piece { role: Role::Bishop, color: Color::Black }), '\u{2657}');
    assert_eq!(piece_symbol(Piece { role: Role::Rook, color: Color::White }), '\u{265C}');
}

#[test]
fn the_starting_board_is_drawn_from_the_eighth_rank_down() {
    let rows = board_rows(&Chess::default());
    let text: Vec<String> = rows.iter().map(|row| row.iter().collect()).collect();
    assert_eq!(
        text,
        vec![
            "\u{2656}\u{2658}\u{2657}\u{2655}\u{2654}\u{2657}\u{2658}\u{2656}",
            "\u{2659}\u{2659}\u{2659}\u{2659}\u{2659}\u{2659}\u{2659}\u{2659}",
            "........",
            "........",
            "........",
            "........",
            "\u{265F}\u{265F}\u{265F}\u{265F}\u{265F}\u{265F}\u{265F}\u{265F}",
            "\u{265C}\u{265E}\u{265D}\u{265B}\u{265A}\u{265D}\u{265E}\u{265C}",
        ]
    );
}

#[test]
fn a_lone_piece_is_drawn_on_its_own_square() {
    let rows = board_rows(&position("4k3/8/8/8/4P3/8/8/4K3 w - - 0 1"));
    assert_eq!(rows.len(), 8);
    for (r, row) in rows.iter().enumerate() {
        assert_eq!(row.len(), 8);
        for (f, symbol) in row.iter().enumerate() {
            let expected = match (r, f) {
                (0, 4) => '\u{2654}',
                (4, 4) => '\u{265F}',
                (7, 4) => '\u{265A}',
                _ => '.',
            };
            assert_eq!(*symbol, expected);
        }
    }
}
