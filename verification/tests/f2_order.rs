use f2_order::field::F2Val;
use f2_order::matrix::{F2Matrix, MatrixError};
use f2_order::order::order_of;

fn bit(b: u8) -> F2Val {
    if b == 1 {
        F2Val::O
    } else {
        F2Val::Z
    }
}

fn m3(grid: [[u8; 3]; 3]) -> F2Matrix<3> {
    let rows: Vec<Vec<F2Val>> = grid.iter().map(|r| r.iter().map(|&b| bit(b)).collect()).collect();
    F2Matrix::<3>::from_grid(rows).unwrap()
}

fn x3() -> F2Matrix<3> {
    m3([[0, 1, 0], [1, 0, 0], [1, 1, 1]])
}

fn y3() -> F2Matrix<3> {
    m3([[1, 0, 0], [0, 0, 1], [0, 1, 1]])
}

#[test]
fn field_addition_truth_table() {
    assert_eq!(F2Val::Z.add(F2Val::Z), F2Val::Z);
    assert_eq!(F2Val::Z.add(F2Val::O), F2Val::O);
    assert_eq!(F2Val::O.add(F2Val::Z), F2Val::O);
    assert_eq!(F2Val::O.add(F2Val::O), F2Val::Z);
}

#[test]
fn field_multiplication_truth_table() {
    assert_eq!(F2Val::Z.mul(F2Val::Z), F2Val::Z);
    assert_eq!(F2Val::Z.mul(F2Val::O), F2Val::Z);
    assert_eq!(F2Val::O.mul(F2Val::Z), F2Val::Z);
    assert_eq!(F2Val::O.mul(F2Val::O), F2Val::O);
}

#[test]
fn field_commutativity() {
    for &a in &[F2Val::Z, F2Val::O] {
        for &b in &[F2Val::Z, F2Val::O] {
            assert_eq!(a.add(b), b.add(a));
            assert_eq!(a.mul(b), b.mul(a));
        }
    }
}

#[test]
fn field_identities() {
    for &a in &[F2Val::Z, F2Val::O] {
        assert_eq!(a.add(F2Val::Z), a);
        assert_eq!(a.mul(F2Val::O), a);
    }
}

#[test]
fn field_one_plus_one_and_zero_absorbs() {
    assert_eq!(F2Val::O.add(F2Val::O), F2Val::Z);
    for &a in &[F2Val::Z, F2Val::O] {
        assert_eq!(F2Val::Z.mul(a), F2Val::Z);
    }
}

#[test]
fn field_associativity_and_distributivity() {
    let vals = [F2Val::Z, F2Val::O];
    for &a in &vals {
        for &b in &vals {
            for &c in &vals {
                assert_eq!(a.add(b).add(c), a.add(b.add(c)));
                assert_eq!(a.mul(b).mul(c), a.mul(b.mul(c)));
                assert_eq!(a.mul(b.add(c)), a.mul(b).add(a.mul(c)));
            }
        }
    }
}

#[test]
fn field_assign_operations() {
    let mut a = F2Val::O;
    a.add_assign(F2Val::O);
    assert_eq!(a, F2Val::Z);
    let mut b = F2Val::O;
    b.mul_assign(F2Val::Z);
    assert_eq!(b, F2Val::Z);
}

#[test]
fn field_rendering() {
    assert_eq!(F2Val::Z.render(), "0");
    assert_eq!(F2Val::O.render(), "1");
}

#[test]
fn zero_and_identity_entries() {
    let z = F2Matrix::<3>::zero();
    let e = F2Matrix::<3>::e();
    for i in 0..3usize {
        for j in 0..3usize {
            assert_eq!(z.entry(i, j), F2Val::Z);
            assert_eq!(e.entry(i, j), if i == j { F2Val::O } else { F2Val::Z });
        }
    }
}

#[test]
fn from_grid_stores_entries_verbatim() {
    let x = x3();
    let expected: [[u8; 3]; 3] = [[0, 1, 0], [1, 0, 0], [1, 1, 1]];
    for i in 0..3usize {
        for j in 0..3usize {
            assert_eq!(x.entry(i, j), bit(expected[i][j]));
        }
    }
}

#[test]
fn from_grid_rejects_wrong_row_count() {
    let rows: Vec<Vec<F2Val>> = vec![vec![F2Val::Z, F2Val::O], vec![F2Val::O, F2Val::Z]];
    let r = F2Matrix::<3>::from_grid(rows);
    assert_eq!(r.unwrap_err(), MatrixError::ShapeMismatch);
}

#[test]
fn from_grid_rejects_short_row() {
    let rows: Vec<Vec<F2Val>> = vec![
        vec![F2Val::Z, F2Val::O, F2Val::Z],
        vec![F2Val::O, F2Val::Z],
        vec![F2Val::O, F2Val::O, F2Val::O],
    ];
    let r = F2Matrix::<3>::from_grid(rows);
    assert_eq!(r.unwrap_err(), MatrixError::ShapeMismatch);
}

#[test]
fn product_of_examples_exact() {
    let xy = x3().mul(&y3());
    let expected = m3([[0, 0, 1], [1, 0, 0], [1, 1, 0]]);
    assert!(xy == expected);
}

#[test]
fn identity_is_neutral_on_both_sides() {
    let x = x3();
    let e = F2Matrix::<3>::e();
    assert!(x.mul(&e) == x);
    assert!(e.mul(&x) == x);
}

#[test]
fn zero_matrix_absorbs_on_the_left() {
    let z = F2Matrix::<3>::zero();
    assert!(z.mul(&x3()) == z);
    assert!(z.mul(&y3()) == z);
}

#[test]
fn multiplication_is_associative_on_examples() {
    let a = x3();
    let b = y3();
    let c = x3().mul(&y3());
    assert!(a.mul(&b).mul(&c) == a.mul(&b.mul(&c)));
}

#[test]
fn mul_assign_equals_mul() {
    let mut m = x3();
    m.mul_assign(&y3());
    assert!(m == x3().mul(&y3()));
}

#[test]
fn matrix_equality_is_structural() {
    assert!(x3() == x3());
    assert!(x3() != y3());
    assert!(F2Matrix::<3>::zero() != F2Matrix::<3>::e());
}

#[test]
fn order_of_identity_is_two() {
    let e = F2Matrix::<3>::e();
    assert_eq!(order_of(&e), 2);
}

#[test]
fn order_of_x_is_two() {
    // x is an involution: multiplying x by itself once already yields the
    // identity, so the first checked exponent succeeds.
    assert_eq!(order_of(&x3()), 2);
}

#[test]
fn order_of_y_is_three() {
    assert_eq!(order_of(&y3()), 3);
}

#[test]
fn order_of_xy_is_seven() {
    let xy = x3().mul(&y3());
    assert_eq!(order_of(&xy), 7);
}

#[test]
fn order_is_consistent_with_repeated_multiplication() {
    let e = F2Matrix::<3>::e();
    for m in [x3(), y3(), x3().mul(&y3())] {
        let k = order_of(&m);
        assert!(k >= 2);
        let mut acc = m.mul(&m);
        for _ in 2..k {
            assert!(acc != e);
            acc.mul_assign(&m);
        }
        assert!(acc == e);
    }
}

#[test]
fn rendering_reproduces_the_grid() {
    assert_eq!(x3().render(), "010\n100\n111\n");
    assert_eq!(y3().render(), "100\n001\n011\n");
    assert_eq!(F2Matrix::<3>::e().render(), "100\n010\n001\n");
    let rendered = x3().render();
    let lines: Vec<&str> = rendered.lines().collect();
    assert_eq!(lines.len(), 3);
    for i in 0..3usize {
        assert_eq!(lines[i].len(), 3);
        for j in 0..3usize {
            let expected = if x3().entry(i, j) == F2Val::O { '1' } else { '0' };
            assert_eq!(lines[i].chars().nth(j).unwrap(), expected);
        }
    }
}

#[test]
fn one_by_one_matrices() {
    let one = F2Matrix::<1>::from_grid(vec![vec![F2Val::O]]).unwrap();
    assert!(one == F2Matrix::<1>::e());
    assert_eq!(order_of(&one), 2);
    assert_eq!(one.render(), "1\n");
}

#[test]
fn zero_dimension_matrices() {
    let empty = F2Matrix::<0>::from_grid(Vec::new()).unwrap();
    assert!(empty == F2Matrix::<0>::e());
    assert!(empty == F2Matrix::<0>::zero());
    assert_eq!(order_of(&empty), 2);
    assert_eq!(empty.render(), "");
}
