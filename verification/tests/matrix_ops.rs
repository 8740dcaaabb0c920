use polynome::matrix::{COOMatrix, Matrix};

#[test]
fn matrix_shape_of_two_by_three() {
    let m = Matrix::new(vec![vec![1, 2, 3], vec![4, 5, 6]]);
    assert_eq!(m.shape(), (2, 3));
}

#[test]
fn matrix_shape_of_empty() {
    let m: Matrix<i32> = Matrix::new(Vec::new());
    assert_eq!(m.shape(), (0, 0));
}

#[test]
fn matrix_row_reads_back() {
    let m = Matrix::new(vec![vec![1, 2], vec![3, 4]]);
    assert_eq!(m.row(0), &vec![1, 2]);
    assert_eq!(m.row(1), &vec![3, 4]);
}

#[test]
fn matrix_set_entry_updates_one_cell() {
    let mut m = Matrix::new(vec![vec![1, 2], vec![3, 4]]);
    m.set_entry(1, 0, 9);
    assert_eq!(m.row(0), &vec![1, 2]);
    assert_eq!(m.row(1), &vec![9, 4]);
}

#[test]
fn coo_matrix_records_pushes_in_order() {
    let mut m = COOMatrix::new();
    assert_eq!(m.data().len(), 0);
    m.push(0, 1, 7.5_f64);
    m.push(2, 0, -1.0_f64);
    let entries = m.data();
    assert_eq!(entries.len(), 2);
    assert_eq!(entries[0].row, 0);
    assert_eq!(entries[0].col, 1);
    assert_eq!(entries[0].value, 7.5);
    assert_eq!(entries[1].row, 2);
    assert_eq!(entries[1].col, 0);
    assert_eq!(entries[1].value, -1.0);
}
