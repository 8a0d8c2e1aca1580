use th_rust::ml::error::MlError;
use th_rust::ml::scalar::{Real, Scalar};
use th_rust::ml::tensor::{dot, matmul2d, Tensor};

/// Single-precision reals as tensor elements.
#[derive(Clone, Copy, Debug, PartialEq)]
struct F(f32);

impl Scalar for F {
    fn zero_spec() -> F {
        F(0.0)
    }

    fn one_spec() -> F {
        F(1.0)
    }

    fn add_spec(self, rhs: F) -> F {
        F(self.0 + rhs.0)
    }

    fn sub_spec(self, rhs: F) -> F {
        F(self.0 - rhs.0)
    }

    fn mul_spec(self, rhs: F) -> F {
        F(self.0 * rhs.0)
    }

    fn zero() -> F {
        F(0.0)
    }

    fn one() -> F {
        F(1.0)
    }

    fn add(self, rhs: F) -> F {
        F(self.0 + rhs.0)
    }

    fn sub(self, rhs: F) -> F {
        F(self.0 - rhs.0)
    }

    fn mul(self, rhs: F) -> F {
        F(self.0 * rhs.0)
    }
}

impl Real for F {
    fn sqrt(self) -> F {
        F(self.0.powf(0.5))
    }

    fn recip(self) -> F {
        F(1.0 / self.0)
    }

    fn powi(self, p: i32) -> F {
        F(self.0.powi(p))
    }

    fn root(self, p: i32) -> F {
        F(self.0.powf(1.0 / (p as f32)))
    }
}

fn ints(values: &[i64], shape: &[u32]) -> Tensor<i64> {
    Tensor::new(values.to_vec(), shape.to_vec(), String::from("ints")).unwrap()
}

fn floats(values: &[f32], shape: &[u32]) -> Tensor<F> {
    let data: Vec<F> = values.iter().map(|v| F(*v)).collect();
    Tensor::new(data, shape.to_vec(), String::from("floats")).unwrap()
}

#[test]
fn tensor_new_keeps_buffer_shape_and_name() {
    let t = Tensor::new(vec![1i64, 2, 3, 4, 5, 6], vec![1, 2, 3], String::from("t")).unwrap();
    assert_eq!(t.data(), &vec![1, 2, 3, 4, 5, 6]);
    assert_eq!(t.shape(), &vec![1, 2, 3]);
    assert_eq!(t.name(), "t");
}

#[test]
fn tensor_new_refuses_a_buffer_of_the_wrong_length() {
    let r = Tensor::new(vec![1i64, 2, 3, 4, 5], vec![2, 3], String::from("t"));
    assert_eq!(r.err(), Some(MlError::ShapeMismatch));
    let r = Tensor::new(vec![1i64, 2, 3, 4, 5, 6, 7], vec![2, 3], String::from("t"));
    assert_eq!(r.err(), Some(MlError::ShapeMismatch));
    let r = Tensor::new(Vec::<i64>::new(), vec![], String::from("t"));
    assert_eq!(r.err(), Some(MlError::ShapeMismatch));
    let r = Tensor::new(vec![1i64], vec![3, 0], String::from("t"));
    assert_eq!(r.err(), Some(MlError::ShapeMismatch));
}

#[test]
fn tensor_without_dimensions_holds_one_element() {
    let t = Tensor::new(vec![9i64], vec![], String::from("t")).unwrap();
    assert_eq!(t.get_index(vec![]), Ok(0));
}

#[test]
fn tensor_with_a_dimension_of_zero_is_empty() {
    let big = u32::MAX;
    let t = Tensor::new(Vec::<i64>::new(), vec![big, big, big, 0], String::from("t")).unwrap();
    assert_eq!(t.get_index(vec![1, 1, 1, 0]), Err(MlError::IndexOutOfRange));
    let t = Tensor::new(Vec::<i64>::new(), vec![0, big, big, big], String::from("t")).unwrap();
    assert_eq!(t.get_index(vec![0, 1, 1, 1]), Err(MlError::IndexOutOfRange));
}

#[test]
fn tensor_new_refuses_a_shape_too_large_for_any_buffer() {
    let big = u32::MAX;
    let r = Tensor::new(vec![1i64, 2], vec![big, big, big, big], String::from("t"));
    assert_eq!(r.err(), Some(MlError::ShapeMismatch));
}

#[test]
fn tensor_get_index_is_row_major() {
    let t = ints(&[0; 24], &[2, 3, 4]);
    assert_eq!(t.get_index(vec![0, 0, 0]), Ok(0));
    assert_eq!(t.get_index(vec![0, 0, 3]), Ok(3));
    assert_eq!(t.get_index(vec![0, 1, 0]), Ok(4));
    assert_eq!(t.get_index(vec![1, 0, 0]), Ok(12));
    assert_eq!(t.get_index(vec![1, 2, 3]), Ok(23));
    let m = ints(&[0; 12], &[3, 4]);
    assert_eq!(m.get_index(vec![1, 2]), Ok(6));
    let v = ints(&[0; 5], &[5]);
    assert_eq!(v.get_index(vec![4]), Ok(4));
}

#[test]
fn tensor_get_index_refuses_the_wrong_number_of_coordinates() {
    let t = ints(&[0; 24], &[2, 3, 4]);
    assert_eq!(t.get_index(vec![1, 2]), Err(MlError::ShapeMismatch));
    assert_eq!(t.get_index(vec![1, 2, 3, 0]), Err(MlError::ShapeMismatch));
    assert_eq!(t.get_index(vec![]), Err(MlError::ShapeMismatch));
    assert_eq!(t.get_index(vec![9, 9]), Err(MlError::ShapeMismatch));
}

#[test]
fn tensor_get_index_refuses_a_coordinate_outside_its_dimension() {
    let t = ints(&[0; 24], &[2, 3, 4]);
    assert_eq!(t.get_index(vec![2, 0, 0]), Err(MlError::IndexOutOfRange));
    assert_eq!(t.get_index(vec![0, 3, 0]), Err(MlError::IndexOutOfRange));
    assert_eq!(t.get_index(vec![0, 0, 4]), Err(MlError::IndexOutOfRange));
    assert_eq!(t.get_index(vec![1, 2, u32::MAX]), Err(MlError::IndexOutOfRange));
}

#[test]
fn tensor_norms() {
    let t = floats(&[3.0, -4.0, 0.0, 12.0], &[2, 1, 2]);
    assert_eq!(t.forbenius_norm(), F(13.0));
    assert!((t.lp_norm(2).0 - 13.0).abs() < 1e-5);
    let u = floats(&[1.0, 2.0, 2.0, 0.0], &[4]);
    assert!((u.lp_norm(1).0 - 5.0).abs() < 1e-6);
    assert!((u.lp_norm(3).0 - 17.0f32.powf(1.0 / 3.0)).abs() < 1e-6);
}

#[test]
fn tensor_dot_sums_the_products() {
    let a = ints(&[1, 2, 3, 4, 5, 6], &[1, 2, 3]);
    let b = ints(&[6, 5, 4, 3, 2, 1], &[1, 2, 3]);
    assert_eq!(dot(&a, &b), Ok(6 + 10 + 12 + 12 + 10 + 6));
    let x = floats(&[0.5, 2.0], &[2]);
    let y = floats(&[4.0, 0.25], &[2]);
    assert_eq!(dot(&x, &y), Ok(F(2.5)));
}

#[test]
fn tensor_dot_refuses_shapes_that_differ() {
    let a = ints(&[1, 2, 3, 4, 5, 6], &[2, 3]);
    let b = ints(&[1, 2, 3, 4, 5, 6], &[3, 2]);
    assert_eq!(dot(&a, &b), Err(MlError::ShapeMismatch));
    let c = ints(&[1, 2, 3, 4, 5, 6], &[6]);
    assert_eq!(dot(&a, &c), Err(MlError::ShapeMismatch));
    let d = ints(&[1, 2, 3, 4, 5, 6], &[2, 3, 1]);
    assert_eq!(dot(&a, &d), Err(MlError::ShapeMismatch));
}

#[test]
fn tensor_matmul2d_multiplies_rows_by_columns() {
    let a = ints(&[1, 2, 3, 4, 5, 6], &[2, 3]);
    let b = ints(&[7, 8, 9, 10, 11, 12], &[3, 2]);
    let p = matmul2d(&a, &b).unwrap();
    assert_eq!(p.shape(), &vec![2, 2]);
    assert_eq!(p.data(), &vec![58, 64, 139, 154]);
    assert_eq!(p.name(), "mult_ouput");
    let q = matmul2d(&b, &a).unwrap();
    assert_eq!(q.shape(), &vec![3, 3]);
    assert_eq!(q.data(), &vec![39, 54, 69, 49, 68, 87, 59, 82, 105]);
}

#[test]
fn tensor_matmul2d_refuses_what_cannot_be_multiplied() {
    let a = ints(&[1, 2, 3, 4, 5, 6], &[2, 3]);
    let b = ints(&[1, 2, 3, 4, 5, 6], &[2, 3]);
    assert_eq!(matmul2d(&a, &b).err(), Some(MlError::ShapeMismatch));
    let v = ints(&[1, 2, 3], &[3]);
    assert_eq!(matmul2d(&a, &v).err(), Some(MlError::ShapeMismatch));
    assert_eq!(matmul2d(&v, &a).err(), Some(MlError::ShapeMismatch));
    let c = ints(&[1, 2, 3, 4, 5, 6], &[3, 2, 1]);
    assert_eq!(matmul2d(&a, &c).err(), Some(MlError::ShapeMismatch));
}
