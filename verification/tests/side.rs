use chess_board::bitboard::BitBoard;
use chess_board::board::Board;
use chess_board::side::Side;
use chess_board::square::Square;

fn fields(side: &Side) -> [BitBoard; 6] {
    [side.pawns, side.knights, side.bishops, side.rooks, side.queens, side.king]
}

#[test]
fn combined_is_the_union_of_the_six_sets() {
    let side = Side {
        pawns: BitBoard(0x0000_0000_0000_0101),
        knights: BitBoard(0x0000_0000_0000_0002),
        bishops: BitBoard(0x0000_0000_0040_0000),
        rooks: BitBoard(0x8000_0000_0000_0000),
        queens: BitBoard(0),
        king: BitBoard(0x0000_0010_0000_0000),
    };
    assert_eq!(side.combined(), BitBoard(0x8000_0010_0040_0103));
    assert_eq!(side.combined().popcount(), 6);
}

#[test]
fn combined_follows_a_change_of_a_field() {
    let mut side = Board::new().white;
    assert_eq!(side.combined(), BitBoard(0xFFFF));
    side.queens.set(Square::new(35).unwrap());
    assert_eq!(side.combined(), BitBoard(0x0000_0008_0000_FFFF));
    side.pawns = BitBoard::empty();
    assert_eq!(side.combined(), BitBoard(0x0000_0008_0000_00FF));
}

#[test]
fn combined_of_overlapping_sets_counts_a_square_once() {
    let mut side = Board::new().white;
    side.knights.set(Square::new(0).unwrap());
    assert_eq!(side.combined(), BitBoard(0xFFFF));
    assert_eq!(side.combined().popcount(), 16);
}

#[test]
fn each_occupied_square_is_in_exactly_one_set() {
    let board = Board::new();
    for side in [board.white, board.black] {
        assert!(side.is_consistent());
        let combined = side.combined();
        for index in 0..64u8 {
            let square = Square::new(index).unwrap();
            let holders = fields(&side).iter().filter(|set| set.contains(square)).count();
            if combined.contains(square) {
                assert_eq!(holders, 1);
            } else {
                assert_eq!(holders, 0);
            }
        }
    }
}

#[test]
fn is_consistent_finds_every_shared_square() {
    let start = Board::new().white;
    let shared = Square::new(20).unwrap();
    for first in 0..6 {
        for second in 0..6 {
            let mut sets = fields(&start);
            sets[first].set(shared);
            sets[second].set(shared);
            let side = Side {
                pawns: sets[0],
                knights: sets[1],
                bishops: sets[2],
                rooks: sets[3],
                queens: sets[4],
                king: sets[5],
            };
            assert_eq!(side.is_consistent(), first == second);
        }
    }
}

#[test]
fn side_without_pieces_is_consistent() {
    let empty = BitBoard::empty();
    let side = Side {
        pawns: empty,
        knights: empty,
        bishops: empty,
        rooks: empty,
        queens: empty,
        king: empty,
    };
    assert!(side.is_consistent());
    assert_eq!(side.combined(), BitBoard::empty());
}
