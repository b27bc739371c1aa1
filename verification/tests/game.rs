use chess_search::game::{player_turn, MoveError};
use shakmaty::fen::Fen;
use shakmaty::{CastlingMode, Chess, Move, Position, Role, Square};

fn position(fen: &str) -> Chess {
    let parsed: Fen = fen.parse().expect("a well-formed FEN");
    parsed.into_position(CastlingMode::Standard).expect("a legal position")
}

#[test]
fn a_legal_move_is_played() {
    let start = Chess::default();
    let next = player_turn(&start, "e2e4").expect("a legal first move");
    assert_eq!(next, position("rnbqkbnr/pppppppp/8/8/4P3/8/PPPP1PPP/RNBQKBNR b KQkq - 0 1"));
    assert_ne!(next, start);
    let pushed = Move::Normal {
        role: Role::Pawn,
        from: Square::E2,
        capture: None,
        to: Square::E4,
        promotion: None,
    };
    let mut expected = start.clone();
    expected.play_unchecked(&pushed);
    assert_eq!(next, expected);
    assert_eq!(next.fullmoves(), expected.fullmoves());
}

#[test]
fn castling_is_read_as_a_king_move() {
    let pos = position("r3k2r/pppppppp/8/8/8/8/PPPPPPPP/R3K2R w KQkq - 0 1");
    let next = player_turn(&pos, "e1g1").expect("castling is legal here");
    assert_eq!(next, position("r3k2r/pppppppp/8/8/8/8/PPPPPPPP/R4RK1 b kq - 1 1"));
}

#[test]
fn a_promotion_names_its_piece() {
    let pos = position("8/4P3/8/8/8/8/k7/4K3 w - - 0 1");
    let next = player_turn(&pos, "e7e8q").expect("the pawn may promote");
    assert_eq!(next, position("4Q3/8/8/8/8/8/k7/4K3 b - - 0 1"));
}

#[test]
fn text_that_is_no_move_is_invalid() {
    let start = Chess::default();
    for input in ["", "e2", "e2e4e5", "zzzz", "e9e4", "hello", "e2-e4", "0000"] {
        assert_eq!(player_turn(&start, input), Err(MoveError::Invalid));
    }
}

#[test]
fn a_move_that_the_position_lacks_is_invalid() {
    let start = Chess::default();
    for input in ["e2e5", "e4e5", "e1e2", "a1a8", "e7e5", "e2e4q"] {
        assert_eq!(player_turn(&start, input), Err(MoveError::Invalid));
    }
}

#[test]
fn a_move_that_leaves_the_king_in_check_is_invalid() {
    let pos = position("4k3/8/8/8/8/8/4r3/4K2R w K - 0 1");
    assert_eq!(player_turn(&pos, "h1h2"), Err(MoveError::Invalid));
    assert!(player_turn(&pos, "e1e2").is_ok());
}

#[test]
fn a_rejected_move_leaves_the_position_alone() {
    let start = Chess::default();
    let before = start.clone();
    let _ = player_turn(&start, "e2e5");
    assert_eq!(start, before);
}
