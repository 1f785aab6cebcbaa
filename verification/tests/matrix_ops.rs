use ray_kernel::matrix::Matrix;
use ray_kernel::point::Point;
use ray_kernel::scalar::Scalar;
use ray_kernel::vector::Vector;

fn s(i: i64) -> Scalar {
    Scalar::from_int(i)
}

fn sr(n: i64, d: i64) -> Scalar {
    Scalar::from_ratio(n, d)
}

#[test]
fn should_create_a_matrix() {
    let m = Matrix::new(2, 3);
    assert_eq!(m.row_count, 2);
    assert_eq!(m.col_count, 3);
}

#[test]
fn should_be_able_to_write_a_cell() {
    let mut m = Matrix::new(2, 3);
    assert_eq!(m.get_cell(0, 0), s(0));
    m.write_cell(0, 0, s(3));
    assert_eq!(m.get_cell(0, 0), s(3));
}

#[test]
fn should_be_able_to_get_a_cell() {
    let m = Matrix::new(2, 3);
    assert_eq!(m.get_cell(0, 0), s(0));
}

#[test]
fn should_patch_the_matrix() {
    let new_value = vec![vec![s(1), s(2), s(3)]];
    let mut m = Matrix::new(1, 3);
    m.patch(new_value);
    assert_eq!(m.get_cell(0, 0), s(1));
    assert_eq!(m.get_cell(0, 1), s(2));
    assert_eq!(m.get_cell(0, 2), s(3));
}

#[test]
fn should_add_matrices() {
    let mut m1 = Matrix::new(1, 3);
    m1.patch(vec![vec![s(1), s(2), s(3)]]);

    let mut m2 = Matrix::new(1, 3);
    m2.patch(vec![vec![s(2), s(3), s(4)]]);

    let m3 = m1.add(&m2);
    assert_eq!(m3.get_cell(0, 0), s(3));
    assert_eq!(m3.get_cell(0, 1), s(5));
    assert_eq!(m3.get_cell(0, 2), s(7));

    let m4 = m1.add(&m2);
    assert_eq!(m4.get_cell(0, 0), s(3));
    assert_eq!(m4.get_cell(0, 1), s(5));
    assert_eq!(m4.get_cell(0, 2), s(7));
}

#[test]
fn should_sub_matrices() {
    let mut m1 = Matrix::new(1, 3);
    m1.patch(vec![vec![s(1), s(2), s(3)]]);

    let mut m2 = Matrix::new(1, 3);
    m2.patch(vec![vec![s(2), s(3), s(4)]]);

    let m3 = m1.sub(&m2);
    assert_eq!(m3.get_cell(0, 0), s(-1));
    assert_eq!(m3.get_cell(0, 1), s(-1));
    assert_eq!(m3.get_cell(0, 2), s(-1));

    let m4 = m1.sub(&m2);
    assert_eq!(m4.get_cell(0, 0), s(-1));
    assert_eq!(m4.get_cell(0, 1), s(-1));
    assert_eq!(m4.get_cell(0, 2), s(-1));
}

#[test]
fn should_compare_eq_matrices() {
    let mut m1 = Matrix::new(1, 3);
    m1.patch(vec![vec![s(1), s(2), s(3)]]);

    let mut m2 = Matrix::new(1, 3);
    m2.patch(vec![vec![s(2), s(3), s(4)]]);

    let cmp = m1 == m2;
    assert_eq!(cmp, false);

    let mut m1 = Matrix::new(1, 3);
    m1.patch(vec![vec![s(1), s(2), s(3)]]);

    let mut m2 = Matrix::new(1, 3);
    m2.patch(vec![vec![s(1), s(2), s(3)]]);

    let cmp = m1 == m2;
    assert_eq!(cmp, true);
}

#[test]
fn should_compare_neq_matrices() {
    let mut m1 = Matrix::new(1, 3);
    m1.patch(vec![vec![s(1), s(2), s(3)]]);

    let mut m2 = Matrix::new(1, 3);
    m2.patch(vec![vec![s(2), s(3), s(4)]]);

    let cmp = m1 != m2;
    assert_eq!(cmp, true);

    let mut m1 = Matrix::new(1, 3);
    m1.patch(vec![vec![s(1), s(2), s(3)]]);

    let mut m2 = Matrix::new(1, 3);
    m2.patch(vec![vec![s(1), s(2), s(3)]]);

    let cmp = m1 != m2;
    assert_eq!(cmp, false);
}

#[test]
fn should_return_row() {
    let mut m = Matrix::new(2, 3);
    m.patch(vec![vec![s(1), s(2), s(3)], vec![s(2), s(3), s(4)]]);
    let row = m.get_row(1);
    assert_eq!(row[0], s(2));
    assert_eq!(row[1], s(3));
    assert_eq!(row[2], s(4));
}

#[test]
fn should_return_col() {
    let mut m = Matrix::new(2, 3);
    m.patch(vec![vec![s(1), s(2), s(3)], vec![s(2), s(3), s(4)]]);
    let row = m.get_col(1);
    assert_eq!(row[0], s(2));
    assert_eq!(row[1], s(3));
}

#[test]
fn should_multiply_matrices() {
    let mut m1 = Matrix::new(2, 3);
    let mut m2 = Matrix::new(3, 2);
    m1.patch(vec![vec![s(1), s(2), s(3)], vec![s(4), s(5), s(6)]]);
    m2.patch(vec![vec![s(7), s(8)], vec![s(9), s(10)], vec![s(11), s(12)]]);
    let new_matrix = m1.mul(&m2);
    assert_eq!(new_matrix.row_count, 2);
    assert_eq!(new_matrix.col_count, 2);

    assert_eq!(new_matrix.get_cell(0, 0), s(58));
    assert_eq!(new_matrix.get_cell(0, 1), s(64));
    assert_eq!(new_matrix.get_cell(1, 0), s(139));
    assert_eq!(new_matrix.get_cell(1, 1), s(154));
}

#[test]
fn should_multiply_with_scalars() {
    let mut m1 = Matrix::new(2, 3);
    m1.patch(vec![vec![s(1), s(2), s(3)], vec![s(4), s(5), s(6)]]);
    let new_matrix = m1.scalar_mul(s(2));
    assert_eq!(new_matrix.row_count, 2);
    assert_eq!(new_matrix.col_count, 3);

    assert_eq!(new_matrix.get_cell(0, 0), s(2));
    assert_eq!(new_matrix.get_cell(0, 1), s(4));
    assert_eq!(new_matrix.get_cell(0, 2), s(6));
    assert_eq!(new_matrix.get_cell(1, 0), s(8));
    assert_eq!(new_matrix.get_cell(1, 1), s(10));
    assert_eq!(new_matrix.get_cell(1, 2), s(12));
}

#[test]
fn should_transpose() {
    let mut m1 = Matrix::new(2, 3);
    m1.patch(vec![vec![s(1), s(2), s(3)], vec![s(4), s(5), s(6)]]);
    let new_matrix = m1.transpose();
    assert_eq!(new_matrix.row_count, 3);
    assert_eq!(new_matrix.col_count, 2);

    assert_eq!(new_matrix.get_cell(0, 0), s(1));
    assert_eq!(new_matrix.get_cell(0, 1), s(4));
    assert_eq!(new_matrix.get_cell(1, 0), s(2));
    assert_eq!(new_matrix.get_cell(1, 1), s(5));
    assert_eq!(new_matrix.get_cell(2, 0), s(3));
    assert_eq!(new_matrix.get_cell(2, 1), s(6));
}

#[test]
fn get_identity_matrix() {
    let matrix = Matrix::identity(2);
    assert_eq!(matrix.get_cell(0, 0), s(1));
    assert_eq!(matrix.get_cell(1, 1), s(1));
    assert_eq!(matrix.get_cell(0, 1), s(0));
    assert_eq!(matrix.get_cell(1, 0), s(0));
}

#[test]
fn should_get_sub_matrix() {
    let mut m1 = Matrix::new(3, 3);
    m1.patch(vec![
        vec![s(1), s(2), s(3)],
        vec![s(4), s(5), s(6)],
        vec![s(7), s(8), s(9)],
    ]);
    let new_matrix = m1.sub_matrix(1, 1);
    assert_eq!(new_matrix.row_count, 2);
    assert_eq!(new_matrix.col_count, 2);

    assert_eq!(new_matrix.get_cell(0, 0), s(1));
    assert_eq!(new_matrix.get_cell(0, 1), s(3));
    assert_eq!(new_matrix.get_cell(1, 0), s(7));
    assert_eq!(new_matrix.get_cell(1, 1), s(9));
}

#[test]
fn should_get_determinant_2x2() {
    let mut m1 = Matrix::new(2, 2);
    m1.patch(vec![vec![s(3), s(8)], vec![s(4), s(6)]]);
    assert_eq!(m1.determinant(), s(-14));
}

#[test]
fn should_get_determinant_3x3() {
    let mut m1 = Matrix::new(3, 3);
    m1.patch(vec![
        vec![s(6), s(1), s(1)],
        vec![s(4), s(-2), s(5)],
        vec![s(2), s(8), s(7)],
    ]);
    assert_eq!(m1.determinant(), s(-306));
}

#[test]
fn should_get_determinant_4x4() {
    let mut m1 = Matrix::new(4, 4);
    m1.patch(vec![
        vec![s(6), s(1), s(1), s(6)],
        vec![s(4), s(-2), s(5), s(8)],
        vec![s(2), s(8), s(7), s(9)],
        vec![s(12), s(-1), s(7), s(7)],
    ]);
    assert_eq!(m1.determinant(), s(2944));
}

#[test]
fn should_return_if_has_inverse() {
    let mut m_with_inverse = Matrix::new(4, 4);
    m_with_inverse.patch(vec![
        vec![s(6), s(4), s(4), s(4)],
        vec![s(5), s(5), s(7), s(6)],
        vec![s(4), s(-9), s(3), s(-7)],
        vec![s(9), s(1), s(7), s(-6)],
    ]);
    assert_eq!(m_with_inverse.determinant(), s(-2120));
    assert_eq!(m_with_inverse.has_inverse(), true);
}

#[test]
fn should_return_if_has_no_inverse() {
    let mut m_with_inverse = Matrix::new(4, 4);
    m_with_inverse.patch(vec![
        vec![s(-4), s(2), s(-2), s(3)],
        vec![s(9), s(6), s(2), s(6)],
        vec![s(0), s(-5), s(1), s(-5)],
        vec![s(0), s(0), s(0), s(0)],
    ]);
    assert_eq!(m_with_inverse.determinant(), s(0));
    assert_eq!(m_with_inverse.has_inverse(), false);
}

#[test]
fn should_get_the_inverse() {
    let mut m1 = Matrix::new(4, 4);
    m1.patch(vec![
        vec![s(-5), s(2), s(6), s(-8)],
        vec![s(1), s(-5), s(1), s(8)],
        vec![s(7), s(7), s(-6), s(-7)],
        vec![s(1), s(-3), s(7), s(4)],
    ]);
    let inverse = m1.inverse();
    let mut expected_matrix = Matrix::new(4, 4);
    expected_matrix.patch(vec![
        vec![
            sr(21804512, 100000000),
            sr(45112783, 100000000),
            sr(24060151, 100000000),
            sr(-4511278, 100000000),
        ],
        vec![
            sr(-80827070, 100000000),
            sr(-145676700, 100000000),
            sr(-44360903, 100000000),
            sr(52067673, 100000000),
        ],
        vec![
            sr(-7894737, 100000000),
            sr(-22368422, 100000000),
            sr(-5263158, 100000000),
            sr(19736843, 100000000),
        ],
        vec![
            sr(-52255640, 100000000),
            sr(-81390977, 100000000),
            sr(-30075190, 100000000),
            sr(30639097, 100000000),
        ],
    ]);
    assert_eq!(inverse, expected_matrix);
}

#[test]
fn should_inverse_a_multiplication_result() {
    let mut a = Matrix::new(4, 4);
    a.patch(vec![
        vec![s(-5), s(2), s(6), s(-8)],
        vec![s(1), s(-5), s(1), s(8)],
        vec![s(7), s(7), s(-6), s(-7)],
        vec![s(1), s(-3), s(7), s(4)],
    ]);
    let mut b = Matrix::new(4, 4);
    b.patch(vec![
        vec![s(6), s(4), s(4), s(4)],
        vec![s(5), s(5), s(7), s(6)],
        vec![s(4), s(-9), s(3), s(-7)],
        vec![s(9), s(1), s(7), s(-6)],
    ]);
    let c = a.mul(&b);
    let c_mul_b_inverse = c.mul(&b.inverse());
    assert_eq!(c_mul_b_inverse, a);
}

#[test]
fn should_create_translation_matrix_3d() {
    let m = Matrix::translation_3d(s(1), s(2), s(3));
    assert_eq!(m.get_cell(0, 3), s(1));
    assert_eq!(m.get_cell(1, 3), s(2));
    assert_eq!(m.get_cell(2, 3), s(3));
}

#[test]
fn should_translate_a_point() {
    let m = Matrix::translation_3d(s(5), s(-3), s(2));
    let p = Point::new(s(-3), s(4), s(5));
    let new_point = m.mul_point(&p);
    assert_eq!(new_point.x, s(2));
    assert_eq!(new_point.y, s(1));
    assert_eq!(new_point.z, s(7));
    assert_eq!(new_point.w, s(1));
}

#[test]
fn should_revert_point_translation() {
    let m = Matrix::translation_3d(s(5), s(-3), s(2));
    let m_inverse = m.inverse();

    let p = Point::new(s(-3), s(4), s(5));
    let new_point = m.mul_point(&p);

    let restoring_point = m_inverse.mul_point(&new_point);
    assert_eq!(restoring_point.x, s(-3));
    assert_eq!(restoring_point.y, s(4));
    assert_eq!(restoring_point.z, s(5));
    assert_eq!(restoring_point.w, s(1));
}

#[test]
fn should_translate_a_vector() {
    let m = Matrix::translation_3d(s(5), s(-3), s(2));
    let v = Vector::new(s(-3), s(4), s(5));
    let new_vector = m.mul_vector(&v);
    assert_eq!(new_vector.x, s(-3));
    assert_eq!(new_vector.y, s(4));
    assert_eq!(new_vector.z, s(5));
    assert_eq!(new_vector.w, s(0));
}

#[test]
fn should_scale_a_point() {
    let m = Matrix::scaling_3d(s(2), s(3), s(4));
    let p = Point::new(s(-4), s(6), s(8));
    let new_point = m.mul_point(&p);
    assert_eq!(new_point.x, s(-8));
    assert_eq!(new_point.y, s(18));
    assert_eq!(new_point.z, s(32));
    assert_eq!(new_point.w, s(1));
}

#[test]
fn should_revert_point_scaling() {
    let m = Matrix::scaling_3d(s(2), s(3), s(4));
    let m_inverse = m.inverse();

    let p = Point::new(s(-4), s(6), s(8));
    let new_point = m.mul_point(&p);

    let restoring_point = m_inverse.mul_point(&new_point);
    assert!(restoring_point.x.approx_eq(s(-4)));
    assert!(restoring_point.y.approx_eq(s(6)));
    assert!(restoring_point.z.approx_eq(s(8)));
    assert_eq!(restoring_point.w, s(1));
}

#[test]
fn should_scale_a_vector() {
    let m = Matrix::scaling_3d(s(2), s(3), s(4));

    let v = Vector::new(s(-4), s(6), s(8));
    let new_vector = m.mul_vector(&v);

    assert_eq!(new_vector.x, s(-8));
    assert_eq!(new_vector.y, s(18));
    assert_eq!(new_vector.z, s(32));
    assert_eq!(new_vector.w, s(0));
}
