use concurrency::{dot_product, multiply, multiply_with_pool, process_task, Error, Matrix, MsgInput, Vector};

#[test]
fn test_matrix() {
    let a = Matrix::new(vec![1, 2, 3, 4, 5, 6], 2, 3);
    let b = Matrix::new(vec![1, 2, 3, 4, 5, 6], 3, 2);
    let c = multiply(a, b).unwrap();
    assert_eq!(c.cols(), 2);
    assert_eq!(c.rows(), 2);
    assert_eq!(c.debug_string(), "Matrix:rows=2,cols=2,{22 28,49 64}");
}

#[test]
fn multiply_two_by_three() {
    let a = Matrix::new(vec![1, 2, 3, 4, 5, 6], 2, 3);
    let b = Matrix::new(vec![1, 2, 3, 4, 5, 6], 3, 2);
    let c = multiply(a, b).unwrap();
    assert_eq!(c.get(0, 0), 22);
    assert_eq!(c.get(0, 1), 28);
    assert_eq!(c.get(1, 0), 49);
    assert_eq!(c.get(1, 1), 64);
    assert_eq!(c.format(), "{22 28,49 64}");
}

#[test]
fn multiply_one_by_one() {
    let a = Matrix::new(vec![5], 1, 1);
    let b = Matrix::new(vec![7], 1, 1);
    let c = multiply(a, b).unwrap();
    assert_eq!(c.rows(), 1);
    assert_eq!(c.cols(), 1);
    assert_eq!(c.get(0, 0), 35);
    assert_eq!(c.format(), "{35}");
}

#[test]
fn multiply_dimension_mismatch() {
    let a = Matrix::new(vec![1, 2, 3, 4, 5, 6], 2, 3);
    let b = Matrix::new(vec![1, 2, 3, 4], 2, 2);
    match multiply(a, b) {
        Err(Error::DimensionMismatch) => {}
        _ => panic!("expected a dimension mismatch"),
    }
}

#[test]
fn multiply_negative_entries() {
    let a = Matrix::new(vec![-1, 2], 1, 2);
    let b = Matrix::new(vec![3, -4], 2, 1);
    let c = multiply(a, b).unwrap();
    assert_eq!(c.get(0, 0), -11);
    assert_eq!(c.format(), "{-11}");
}

#[test]
fn multiply_is_idempotent() {
    let a1 = Matrix::new(vec![9, -3, 0, 14], 2, 2);
    let b1 = Matrix::new(vec![2, 5, -7, 1], 2, 2);
    let a2 = Matrix::new(vec![9, -3, 0, 14], 2, 2);
    let b2 = Matrix::new(vec![2, 5, -7, 1], 2, 2);
    let c1 = multiply(a1, b1).unwrap();
    let c2 = multiply(a2, b2).unwrap();
    assert_eq!(c1.format(), c2.format());
    assert_eq!(c1.debug_string(), c2.debug_string());
    for i in 0..2 {
        for j in 0..2 {
            assert_eq!(c1.get(i, j), c2.get(i, j));
        }
    }
}

#[test]
fn format_is_stable() {
    let m = Matrix::new(vec![10, -20, 300, 4], 2, 2);
    let first = m.format();
    let second = m.format();
    assert_eq!(first, "{10 -20,300 4}");
    assert_eq!(first, second);
}

#[test]
fn pool_with_closed_queue_zero_fills() {
    let a = Matrix::new(vec![1, 2], 2, 1);
    let b = Matrix::new(vec![3], 1, 1);
    // Worker 0 open, worker 1 closed: row 1 is routed to the closed queue,
    // so its cell keeps the additive identity while the call still succeeds.
    let open = vec![true, false];
    let c = multiply_with_pool(&a, &b, &open).unwrap();
    assert_eq!(c.get(0, 0), 3);
    assert_eq!(c.get(1, 0), 0);
}

#[test]
fn pool_with_all_queues_closed_returns_zeros() {
    let a = Matrix::new(vec![1, 2, 3, 4], 2, 2);
    let b = Matrix::new(vec![5, 6, 7, 8], 2, 2);
    let open = vec![false];
    let c = multiply_with_pool(&a, &b, &open).unwrap();
    assert_eq!(c.format(), "{0 0,0 0}");
}

#[test]
fn dot_product_matches_by_hand() {
    let a = Vector::new(vec![1, 2, 3]);
    let b = Vector::new(vec![4, 5, 6]);
    assert_eq!(dot_product(a, b).unwrap(), 32);
}

#[test]
fn dot_product_length_mismatch() {
    let a = Vector::new(vec![1, 2, 3]);
    let b = Vector::new(vec![4, 5]);
    match dot_product(a, b) {
        Err(Error::LengthMismatch) => {}
        _ => panic!("expected a length mismatch"),
    }
}

#[test]
fn dot_product_overflow() {
    let a = Vector::new(vec![i64::MAX]);
    let b = Vector::new(vec![2]);
    match dot_product(a, b) {
        Err(Error::Overflow) => {}
        _ => panic!("expected an overflow"),
    }
}

#[test]
fn process_task_keeps_destination() {
    let row = Vector::new(vec![2, 3]);
    let col = Vector::new(vec![4, 5]);
    let out = process_task(MsgInput::new(7, row, col)).unwrap();
    assert_eq!(out.idx, 7);
    assert_eq!(out.value, 23);
}

#[test]
fn error_messages_name_the_failure() {
    assert_eq!(
        Error::DimensionMismatch.message(),
        "dimension mismatch: a.col != b.row"
    );
    assert_eq!(
        Error::LengthMismatch.message(),
        "dot product error: a.len() != b.len()"
    );
}
