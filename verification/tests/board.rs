use chess_board::bitboard::BitBoard;
use chess_board::board::Board;
use chess_board::piece::{Color, Piece};
use chess_board::side::Side;
use chess_board::square::Square;

const COLORS: [Color; 2] = [Color::White, Color::Black];

const PIECES: [Piece; 6] =
    [Piece::Pawn, Piece::Knight, Piece::Bishop, Piece::Rook, Piece::Queen, Piece::King];

fn square(index: u8) -> Square {
    Square::new(index).unwrap()
}

// The messages read the letters as FEN does, lower case for black. The board
// itself keeps the lower-case pieces, those on ranks 1 and 2, in `white`.
#[test]
fn test_starting_position_squares() {
    let board = Board::new();
    assert_eq!(board.get_piece_char(0), 'r', "a1 should be black rook");
    assert_eq!(board.get_piece_char(1), 'n', "b1 should be black knight");
    assert_eq!(board.get_piece_char(2), 'b', "c1 should be black bishop");
    assert_eq!(board.get_piece_char(3), 'q', "d1 should be black queen");
    assert_eq!(board.get_piece_char(4), 'k', "e1 should be black king");
    assert_eq!(board.get_piece_char(5), 'b', "f1 should be black bishop");
    assert_eq!(board.get_piece_char(6), 'n', "g1 should be black knight");
    assert_eq!(board.get_piece_char(7), 'r', "h1 should be black rook");

    assert_eq!(board.get_piece_char(56), 'R', "a8 should be white rook");
    assert_eq!(board.get_piece_char(57), 'N', "b8 should be white knight");
    assert_eq!(board.get_piece_char(58), 'B', "c8 should be white bishop");
    assert_eq!(board.get_piece_char(59), 'Q', "d8 should be white queen");
    assert_eq!(board.get_piece_char(60), 'K', "e8 should be white king");
    assert_eq!(board.get_piece_char(61), 'B', "f8 should be white bishop");
    assert_eq!(board.get_piece_char(62), 'N', "g8 should be white knight");
    assert_eq!(board.get_piece_char(63), 'R', "h8 should be white rook");
}

#[test]
fn test_count_pieces() {
    let board = Board::new();
    assert_eq!(board.white.pawns.popcount(), 8, "White should have 8 pawns");
    assert_eq!(board.white.king.popcount(), 1, "White should have 1 king");
}

#[test]
fn test_basic_squares() {
    let board = Board::new();
    assert_eq!(board.get_piece_char(0), 'r');
}

#[test]
fn test_get_piece_bitboard() {
    let board = Board::new();
    let pawns = board.get_piece_bitboard(Color::White, Piece::Pawn);
    let knights = board.get_piece_bitboard(Color::White, Piece::Knight);
    let bishops = board.get_piece_bitboard(Color::White, Piece::Bishop);
    let rooks = board.get_piece_bitboard(Color::White, Piece::Rook);
    let queens = board.get_piece_bitboard(Color::White, Piece::Queen);
    let king = board.get_piece_bitboard(Color::White, Piece::King);
    let bking = board.get_piece_bitboard(Color::Black, Piece::King);
    assert_eq!(pawns.popcount(), 8);
    assert_eq!(knights.popcount(), 2);
    assert_eq!(bishops.popcount(), 2);
    assert_eq!(rooks.popcount(), 2);
    assert_eq!(queens.popcount(), 1);
    assert_eq!(king.popcount(), 1);
    assert_eq!(king.popcount(), 1);
    assert_eq!(bking.popcount(), 1);
}

#[test]
fn test_combined_occupancy() {
    let board: Board = Board::new();
    assert_eq!(
        board.combined_occupancy().popcount(),
        32,
        "Total board pieces count should be 32"
    );
    assert_eq!(
        board.white.combined().popcount(),
        16,
        "Total white pieces count should be 16"
    );
    assert_eq!(
        board.black.combined().popcount(),
        16,
        "Total black pieces count should be 16"
    );
}

#[test]
fn starting_position_words() {
    let board = Board::new();
    assert_eq!(board.white.pawns, BitBoard(0x0000_0000_0000_FF00));
    assert_eq!(board.white.knights, BitBoard(0x0000_0000_0000_0042));
    assert_eq!(board.white.bishops, BitBoard(0x0000_0000_0000_0024));
    assert_eq!(board.white.rooks, BitBoard(0x0000_0000_0000_0081));
    assert_eq!(board.white.queens, BitBoard(0x0000_0000_0000_0008));
    assert_eq!(board.white.king, BitBoard(0x0000_0000_0000_0010));
    assert_eq!(board.black.pawns, BitBoard(0x00FF_0000_0000_0000));
    assert_eq!(board.black.knights, BitBoard(0x4200_0000_0000_0000));
    assert_eq!(board.black.bishops, BitBoard(0x2400_0000_0000_0000));
    assert_eq!(board.black.rooks, BitBoard(0x8100_0000_0000_0000));
    assert_eq!(board.black.queens, BitBoard(0x0800_0000_0000_0000));
    assert_eq!(board.black.king, BitBoard(0x1000_0000_0000_0000));
}

#[test]
fn starting_position_counts() {
    let board = Board::new();
    assert_eq!(board.white.pawns.popcount(), 8);
    assert_eq!(board.white.combined().popcount(), 16);
    assert_eq!(board.black.combined().popcount(), 16);
    assert_eq!(board.combined_occupancy().popcount(), 32);
}

#[test]
fn starting_position_layout() {
    let board = Board::new();
    let back = [
        Piece::Rook,
        Piece::Knight,
        Piece::Bishop,
        Piece::Queen,
        Piece::King,
        Piece::Bishop,
        Piece::Knight,
        Piece::Rook,
    ];
    for file in 0..8u8 {
        let piece = back[file as usize];
        let white_back = Square::from_coords(file, 0).unwrap();
        let white_pawn = Square::from_coords(file, 1).unwrap();
        let black_pawn = Square::from_coords(file, 6).unwrap();
        let black_back = Square::from_coords(file, 7).unwrap();
        assert!(board.get_piece_bitboard(Color::White, piece).contains(white_back));
        assert!(board.get_piece_bitboard(Color::White, Piece::Pawn).contains(white_pawn));
        assert!(board.get_piece_bitboard(Color::Black, Piece::Pawn).contains(black_pawn));
        assert!(board.get_piece_bitboard(Color::Black, piece).contains(black_back));
    }
    for index in 16..48u8 {
        assert!(!board.combined_occupancy().contains(square(index)));
    }
}

#[test]
fn starting_position_square_identity() {
    let board = Board::new();
    assert!(board.get_piece_bitboard(Color::White, Piece::Rook).contains(square(0)));
    assert!(board.get_piece_bitboard(Color::White, Piece::King).contains(square(4)));
    assert!(board.get_piece_bitboard(Color::Black, Piece::Rook).contains(square(56)));
    assert!(board.get_piece_bitboard(Color::Black, Piece::King).contains(square(60)));
    assert_eq!(square(0).name(), "a1");
    assert_eq!(square(4).name(), "e1");
    assert_eq!(square(56).name(), "a8");
    assert_eq!(square(60).name(), "e8");
    assert_eq!(board.get_piece_char(0), 'r');
    assert_eq!(board.get_piece_char(4), 'k');
    assert_eq!(board.get_piece_char(56), 'R');
    assert_eq!(board.get_piece_char(60), 'K');
}

#[test]
fn get_piece_bitboard_returns_each_field() {
    let board = Board::new();
    assert_eq!(board.get_piece_bitboard(Color::White, Piece::Pawn), board.white.pawns);
    assert_eq!(board.get_piece_bitboard(Color::White, Piece::Knight), board.white.knights);
    assert_eq!(board.get_piece_bitboard(Color::White, Piece::Bishop), board.white.bishops);
    assert_eq!(board.get_piece_bitboard(Color::White, Piece::Rook), board.white.rooks);
    assert_eq!(board.get_piece_bitboard(Color::White, Piece::Queen), board.white.queens);
    assert_eq!(board.get_piece_bitboard(Color::White, Piece::King), board.white.king);
    assert_eq!(board.get_piece_bitboard(Color::Black, Piece::Pawn), board.black.pawns);
    assert_eq!(board.get_piece_bitboard(Color::Black, Piece::Knight), board.black.knights);
    assert_eq!(board.get_piece_bitboard(Color::Black, Piece::Bishop), board.black.bishops);
    assert_eq!(board.get_piece_bitboard(Color::Black, Piece::Rook), board.black.rooks);
    assert_eq!(board.get_piece_bitboard(Color::Black, Piece::Queen), board.black.queens);
    assert_eq!(board.get_piece_bitboard(Color::Black, Piece::King), board.black.king);
}

#[test]
fn piece_char_of_every_starting_square() {
    let board = Board::new();
    let expected = "rnbqkbnrpppppppp................................PPPPPPPPRNBQKBNR";
    for (index, symbol) in expected.chars().enumerate() {
        assert_eq!(board.get_piece_char(index), symbol);
    }
}

#[test]
fn piece_char_matches_the_owning_set() {
    let board = Board::new();
    let symbols = [['p', 'n', 'b', 'r', 'q', 'k'], ['P', 'N', 'B', 'R', 'Q', 'K']];
    for index in 0..64u8 {
        let shown = board.get_piece_char(index as usize);
        let mut owners = 0;
        for (c, color) in COLORS.iter().enumerate() {
            for (p, piece) in PIECES.iter().enumerate() {
                let owns = board.get_piece_bitboard(*color, *piece).contains(square(index));
                assert_eq!(owns, shown == symbols[c][p]);
                if owns {
                    owners += 1;
                }
            }
        }
        assert_eq!(owners == 0, shown == '.');
        assert!(owners <= 1);
    }
}

#[test]
fn piece_char_outside_the_board_is_the_dot() {
    let board = Board::new();
    assert_eq!(board.get_piece_char(64), '.');
    assert_eq!(board.get_piece_char(64 + 4), '.');
    assert_eq!(board.get_piece_char(usize::MAX), '.');
}

#[test]
fn piece_char_takes_the_first_set_on_an_inconsistent_board() {
    let mut board = Board::new();
    board.black.queens.set(square(0));
    board.white.pawns.set(square(60));
    assert_eq!(board.get_piece_char(0), 'r');
    assert_eq!(board.get_piece_char(60), 'p');
    board.white.knights.set(square(0));
    assert_eq!(board.get_piece_char(0), 'n');
}

#[test]
fn combined_occupancy_is_the_union_of_both_sides() {
    let board = Board::new();
    assert_eq!(board.combined_occupancy(), BitBoard(0xFFFF_0000_0000_FFFF));
    assert_eq!(board.white.combined(), BitBoard(0x0000_0000_0000_FFFF));
    assert_eq!(board.black.combined(), BitBoard(0xFFFF_0000_0000_0000));
    let empty = BitBoard::empty();
    let none = Side {
        pawns: empty,
        knights: empty,
        bishops: empty,
        rooks: empty,
        queens: empty,
        king: empty,
    };
    let bare = Board { white: none, black: none };
    assert_eq!(bare.combined_occupancy(), BitBoard::empty());
}

#[test]
fn starting_board_is_consistent() {
    assert!(Board::new().is_consistent());
}

#[test]
fn board_with_a_square_of_both_colours_is_inconsistent() {
    let mut board = Board::new();
    board.black.queens.set(square(0));
    assert!(board.white.is_consistent());
    assert!(board.black.is_consistent());
    assert!(!board.is_consistent());
}

#[test]
fn board_with_an_inconsistent_side_is_inconsistent() {
    let mut board = Board::new();
    board.black.queens.set(square(60));
    assert!(board.white.is_consistent());
    assert!(!board.black.is_consistent());
    assert!(!board.is_consistent());
}

#[test]
fn board_after_a_move_is_consistent() {
    let mut board = Board::new();
    board.white.pawns = BitBoard(0x0000_0000_1000_EF00);
    assert!(board.is_consistent());
    assert_eq!(board.get_piece_char(12), '.');
    assert_eq!(board.get_piece_char(28), 'p');
    assert_eq!(board.combined_occupancy().popcount(), 32);
}

#[test]
fn pretty_of_the_starting_board() {
    let expected = "\n  +------------------------+\n\
                    8 | R  N  B  Q  K  B  N  R |\n\
                    7 | P  P  P  P  P  P  P  P |\n\
                    6 | .  .  .  .  .  .  .  . |\n\
                    5 | .  .  .  .  .  .  .  . |\n\
                    4 | .  .  .  .  .  .  .  . |\n\
                    3 | .  .  .  .  .  .  .  . |\n\
                    2 | p  p  p  p  p  p  p  p |\n\
                    1 | r  n  b  q  k  b  n  r |\n";
    let expected = format!(
        "{}{}{}",
        expected, "  +------------------------+\n", "    a  b  c  d  e  f  g  h\n"
    );
    assert_eq!(Board::new().pretty(), expected);
}

#[test]
fn pretty_of_a_bare_board() {
    let empty = BitBoard::empty();
    let none = Side {
        pawns: empty,
        knights: empty,
        bishops: empty,
        rooks: empty,
        queens: empty,
        king: empty,
    };
    let mut board = Board { white: none, black: none };
    board.white.king.set(square(4));
    board.black.king.set(square(60));
    let text = board.pretty();
    let lines: Vec<&str> = text.split('\n').collect();
    assert_eq!(lines.len(), 13);
    assert_eq!(lines[0], "");
    assert_eq!(lines[1], "  +------------------------+");
    assert_eq!(lines[2], "8 | .  .  .  .  K  .  .  . |");
    for line in &lines[3..9] {
        assert_eq!(&line[1..], " | .  .  .  .  .  .  .  . |");
    }
    assert_eq!(lines[9], "1 | .  .  .  .  k  .  .  . |");
    assert_eq!(lines[10], "  +------------------------+");
    assert_eq!(lines[11], "    a  b  c  d  e  f  g  h");
    assert_eq!(lines[12], "");
}
