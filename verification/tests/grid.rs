use coverage_mon::grid::{col, col_to_num, led_index, num_to_col, num_to_row, row, row_to_num, Col, Row};

#[test]
fn grid_index_to_position_and_back() {
    for i in 0..16usize {
        let c = col(i);
        let r = row(i);
        assert_eq!(led_index(c, r), i);
    }
}

#[test]
fn grid_position_to_index_and_back() {
    for cn in 0..4usize {
        for rn in 0..4usize {
            let c = num_to_col(cn);
            let r = num_to_row(rn);
            let ix = led_index(c, r);
            assert_eq!(col(ix), c);
            assert_eq!(row(ix), r);
        }
    }
}

#[test]
fn grid_column_numbering() {
    assert_eq!(col_to_num(Col::A), 0);
    assert_eq!(col_to_num(Col::B), 1);
    assert_eq!(col_to_num(Col::C), 2);
    assert_eq!(col_to_num(Col::D), 3);
    assert_eq!(num_to_col(0), Col::A);
    assert_eq!(num_to_col(3), Col::D);
}

#[test]
fn grid_row_numbering() {
    assert_eq!(row_to_num(Row::R0), 0);
    assert_eq!(row_to_num(Row::R1), 1);
    assert_eq!(row_to_num(Row::R2), 2);
    assert_eq!(row_to_num(Row::R3), 3);
    assert_eq!(num_to_row(0), Row::R0);
    assert_eq!(num_to_row(3), Row::R3);
}

#[test]
fn grid_linear_layout_is_row_major() {
    assert_eq!(led_index(Col::A, Row::R0), 0);
    assert_eq!(led_index(Col::D, Row::R0), 3);
    assert_eq!(led_index(Col::A, Row::R1), 4);
    assert_eq!(led_index(Col::B, Row::R1), 5);
    assert_eq!(led_index(Col::D, Row::R3), 15);
}
