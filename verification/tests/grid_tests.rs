use sudoku_session::grid::{is_peer, same_block, same_col, same_row, Number, Square};

fn sq(col: u8, row: u8) -> Square {
    Square::from_col_row(col, row).unwrap()
}

#[test]
fn square_from_col_row_inside_the_grid() {
    assert_eq!(Square::from_col_row(0, 0), Some(Square { col: 0, row: 0 }));
    assert_eq!(Square::from_col_row(8, 8), Some(Square { col: 8, row: 8 }));
    assert_eq!(Square::from_col_row(3, 7), Some(Square { col: 3, row: 7 }));
}

#[test]
fn square_from_col_row_outside_the_grid() {
    assert_eq!(Square::from_col_row(9, 0), None);
    assert_eq!(Square::from_col_row(0, 9), None);
    assert_eq!(Square::from_col_row(255, 255), None);
}

#[test]
fn square_index_reads_the_grid_row_by_row() {
    assert_eq!(sq(0, 0).index(), 0);
    assert_eq!(sq(8, 0).index(), 8);
    assert_eq!(sq(0, 1).index(), 9);
    assert_eq!(sq(4, 4).index(), 40);
    assert_eq!(sq(8, 8).index(), 80);
}

#[test]
fn square_from_index_is_the_inverse_of_index() {
    for i in 0..81usize {
        let s = Square::from_index(i).unwrap();
        assert_eq!(s.index(), i);
    }
    assert_eq!(Square::from_index(81), None);
    assert_eq!(Square::from_index(40), Some(Square { col: 4, row: 4 }));
}

#[test]
fn block_of_each_corner_and_the_centre() {
    assert_eq!(sq(0, 0).block(), 0);
    assert_eq!(sq(8, 0).block(), 2);
    assert_eq!(sq(0, 8).block(), 6);
    assert_eq!(sq(8, 8).block(), 8);
    assert_eq!(sq(4, 4).block(), 4);
    assert_eq!(sq(3, 2).block(), 1);
    assert_eq!(sq(2, 3).block(), 3);
}

#[test]
fn relations_between_squares() {
    assert!(same_row(sq(0, 4), sq(8, 4)));
    assert!(!same_row(sq(0, 4), sq(0, 5)));
    assert!(same_col(sq(2, 0), sq(2, 8)));
    assert!(!same_col(sq(2, 0), sq(3, 0)));
    assert!(same_block(sq(3, 3), sq(5, 5)));
    assert!(!same_block(sq(2, 2), sq(3, 3)));
}

#[test]
fn a_square_has_twenty_peers() {
    for i in 0..81usize {
        let a = Square::from_index(i).unwrap();
        let mut n = 0;
        for j in 0..81usize {
            if is_peer(a, Square::from_index(j).unwrap()) {
                n += 1;
            }
        }
        assert_eq!(n, 20);
        assert!(!is_peer(a, a));
    }
}

#[test]
fn number_new_accepts_one_to_nine() {
    assert_eq!(Number::new(0), None);
    assert_eq!(Number::new(10), None);
    for v in 1..=9u8 {
        assert_eq!(Number::new(v).unwrap().get(), v);
    }
}

#[test]
fn is_wf_of_squares_and_numbers() {
    assert!(Square { col: 8, row: 8 }.is_wf());
    assert!(!Square { col: 9, row: 8 }.is_wf());
    assert!(!Square { col: 8, row: 9 }.is_wf());
    assert!(Number { value: 1 }.is_wf());
    assert!(Number { value: 9 }.is_wf());
    assert!(!Number { value: 0 }.is_wf());
    assert!(!Number { value: 10 }.is_wf());
}
