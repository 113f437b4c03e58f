use chess_board::square::Square;

#[test]
fn new_round_trips_through_index() {
    for index in 0..64u8 {
        let square = Square::new(index);
        assert!(square.is_some());
        assert_eq!(square.unwrap().index(), index);
    }
}

#[test]
fn new_fails_from_64_on() {
    for index in 64..=255u8 {
        assert_eq!(Square::new(index), None);
    }
}

#[test]
fn file_and_rank_of_an_index() {
    let a1 = Square::new(0).unwrap();
    assert_eq!((a1.file(), a1.rank()), (0, 0));
    let h1 = Square::new(7).unwrap();
    assert_eq!((h1.file(), h1.rank()), (7, 0));
    let a2 = Square::new(8).unwrap();
    assert_eq!((a2.file(), a2.rank()), (0, 1));
    let e4 = Square::new(28).unwrap();
    assert_eq!((e4.file(), e4.rank()), (4, 3));
    let h8 = Square::new(63).unwrap();
    assert_eq!((h8.file(), h8.rank()), (7, 7));
}

#[test]
fn from_coords_gives_rank_times_eight_plus_file() {
    for rank in 0..8u8 {
        for file in 0..8u8 {
            let square = Square::from_coords(file, rank).unwrap();
            assert_eq!(square.index(), rank * 8 + file);
            assert_eq!(square.file(), file);
            assert_eq!(square.rank(), rank);
            assert_eq!(Some(square), Square::new(rank * 8 + file));
        }
    }
}

#[test]
fn from_coords_fails_outside_the_board() {
    assert_eq!(Square::from_coords(8, 0), None);
    assert_eq!(Square::from_coords(0, 8), None);
    assert_eq!(Square::from_coords(8, 8), None);
    assert_eq!(Square::from_coords(255, 3), None);
    assert_eq!(Square::from_coords(3, 255), None);
    assert_eq!(Square::from_coords(32, 31), None);
    for bad in 8..=255u8 {
        for good in 0..8u8 {
            assert_eq!(Square::from_coords(bad, good), None);
            assert_eq!(Square::from_coords(good, bad), None);
        }
    }
}

#[test]
fn coords_round_trip() {
    for index in 0..64u8 {
        let square = Square::new(index).unwrap();
        assert_eq!(Square::from_coords(square.file(), square.rank()), Some(square));
    }
}

#[test]
fn name_of_the_corners() {
    assert_eq!(Square::new(0).unwrap().name(), "a1");
    assert_eq!(Square::new(7).unwrap().name(), "h1");
    assert_eq!(Square::new(56).unwrap().name(), "a8");
    assert_eq!(Square::new(63).unwrap().name(), "h8");
}

#[test]
fn name_from_coords() {
    assert_eq!(Square::from_coords(0, 0).unwrap().name(), "a1");
    assert_eq!(Square::from_coords(7, 7).unwrap().name(), "h8");
    assert_eq!(Square::from_coords(4, 3).unwrap().name(), "e4");
    assert_eq!(Square::from_coords(3, 2).unwrap().name(), "d3");
    assert_eq!(Square::from_coords(6, 0).unwrap().name(), "g1");
    assert_eq!(Square::from_coords(1, 7).unwrap().name(), "b8");
}

#[test]
fn name_of_every_square() {
    let files = ['a', 'b', 'c', 'd', 'e', 'f', 'g', 'h'];
    for rank in 0..8u8 {
        for file in 0..8u8 {
            let expected = format!("{}{}", files[file as usize], rank + 1);
            assert_eq!(Square::from_coords(file, rank).unwrap().name(), expected);
        }
    }
}

#[test]
fn squares_compare_by_index() {
    assert_eq!(Square::new(12), Square::from_coords(4, 1));
    assert_ne!(Square::new(12), Square::new(13));
    let copy = Square::new(12).unwrap();
    let same = copy;
    assert_eq!(copy, same);
}
