use matrix::{Matrix, MatrixError};

#[test]
fn new() {
    let m = Matrix::new(2, 2, 0);
    let em = Matrix::new_with_val(2, 2, vec![0, 0, 0, 0]).unwrap();
    assert_eq!(m, em);

    let m2 = Matrix::new(3, 4, 1);
    let em2 = Matrix::new_with_val(3, 4, vec![1, 1, 1, 1, 1, 1, 1, 1, 1, 1, 1, 1]).unwrap();
    assert_eq!(m2, em2);
}

#[test]
fn new_with_val() {
    let v = vec![1, 2, 3, 4, 5, 6];
    let m = Matrix::new_with_val(2, 3, v.clone()).unwrap();
    assert_eq!(m.index(0, 0).unwrap(), v[0]);
    assert_eq!(m.index(0, 1).unwrap(), v[1]);
    assert_eq!(m.index(0, 2).unwrap(), v[2]);
    assert_eq!(m.index(1, 0).unwrap(), v[3]);
    assert_eq!(m.index(1, 1).unwrap(), v[4]);
    assert_eq!(m.index(1, 2).unwrap(), v[5]);
    assert!(Matrix::new_with_val(3, 3, vec![1]).is_err());
}

#[test]
fn index() {
    let m = Matrix::new_with_val(2, 2, vec![1, 2, 3, 4]).unwrap();
    assert_eq!(m.index(0, 0).unwrap(), 1);
    assert_eq!(m.index(0, 1).unwrap(), 2);
    assert_eq!(m.index(1, 0).unwrap(), 3);
    assert_eq!(m.index(1, 1).unwrap(), 4);
    assert!(m.index(2, 0).is_err());
    assert!(m.index(0, 2).is_err());
}

#[test]
fn insert() {
    let mut m = Matrix::new(2, 2, 0);
    m.insert(0, 1, 42).unwrap();
    assert_eq!(m.index(0, 1).unwrap(), 42);
}

#[test]
fn dimensions() {
    assert_eq!(Matrix::new(2, 2, 0).dimensions(), (2, 2));
    assert_eq!(Matrix::new(22, 43, 0).dimensions(), (22, 43));
}

#[test]
fn map() {
    let m = Matrix::new_with_val(2, 2, vec![1, 2, 3, 4]).unwrap();
    let m2 = m.map(|x| x * 2);
    let m3 = Matrix::new_with_val(2, 2, vec![2, 4, 6, 8]).unwrap();
    assert_eq!(m2, m3);
}

#[test]
fn map2() {
    let m = Matrix::new_with_val(2, 2, vec![1, 2, 3, 4]).unwrap();
    let m2 = Matrix::new_with_val(2, 2, vec![1, 2, 3, 4]).unwrap();
    let m3 = m.map2(&m2, |x, y| x * y).unwrap();
    let m4 = Matrix::new_with_val(2, 2, vec![1, 4, 9, 16]).unwrap();
    assert_eq!(m3, m4);

    let m5 = Matrix::new(3, 3, 0);
    assert!(m.map2(&m5, |x, y| y + x).is_err());
}

#[test]
fn add() {
    let m = Matrix::new_with_val(2, 2, vec![1, 2, 3, 4]).unwrap();
    let m2 = Matrix::new_with_val(2, 2, vec![1, 2, 3, 4]).unwrap();
    let m3 = m.add(&m2).unwrap();
    let m4 = Matrix::new_with_val(2, 2, vec![2, 4, 6, 8]).unwrap();
    assert_eq!(m3, m4);

    let m5 = Matrix::new(3, 3, 0);
    assert!(m.add(&m5).is_err());
}

#[test]
fn sub() {
    let m = Matrix::new_with_val(2, 2, vec![1, 2, 3, 4]).unwrap();
    let m2 = Matrix::new_with_val(2, 2, vec![1, 2, 3, 4]).unwrap();
    let m3 = m.sub(&m2).unwrap();
    let m4 = Matrix::new(2, 2, 0);
    assert_eq!(m3, m4);

    let m5 = Matrix::new(3, 3, 0);
    assert!(m.sub(&m5).is_err());
}

#[test]
fn scale() {
    let m = Matrix::new_with_val(2, 2, vec![1, 2, 3, 4]).unwrap();
    let m2 = m.scale(2);
    let m3 = Matrix::new_with_val(2, 2, vec![2, 4, 6, 8]).unwrap();
    assert_eq!(m2, m3);
}

#[test]
fn vec_mult() {
    let m = Matrix::new(3, 4, 3);
    let v = vec![1, 2, 3, 4];
    let v2 = m.vec_mult(&v).unwrap();
    let v3 = vec![30, 30, 30];
    assert_eq!(v2, v3);
}

#[test]
fn transpose() {
    let m = Matrix::new_with_val(2, 3, vec![1, 2, 3, 4, 5, 6]).unwrap();
    let m2 = m.transpose();
    assert_eq!(m2.dimensions(), (3, 2));
    let m3 = Matrix::new_with_val(3, 2, vec![1, 4, 2, 5, 3, 6]).unwrap();
    assert_eq!(m2, m3);
}
