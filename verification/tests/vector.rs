use th_rust::ml::scalar::{Ordered, Real, Scalar};
use th_rust::ml::vector::Vector;

/// Single-precision reals as vector elements.
#[derive(Clone, Copy, Debug, PartialEq)]
struct F(f32);

impl Scalar for F {
    fn zero_spec() -> F {
        F(0.0)
    }

    fn one_spec() -> F {
        F(1.0)
    }

    fn add_spec(self, rhs: F) -> F {
        F(self.0 + rhs.0)
    }

    fn sub_spec(self, rhs: F) -> F {
        F(self.0 - rhs.0)
    }

    fn mul_spec(self, rhs: F) -> F {
        F(self.0 * rhs.0)
    }

    fn zero() -> F {
        F(0.0)
    }

    fn one() -> F {
        F(1.0)
    }

    fn add(self, rhs: F) -> F {
        F(self.0 + rhs.0)
    }

    fn sub(self, rhs: F) -> F {
        F(self.0 - rhs.0)
    }

    fn mul(self, rhs: F) -> F {
        F(self.0 * rhs.0)
    }
}

impl Real for F {
    fn sqrt(self) -> F {
        F(self.0.powf(0.5))
    }

    fn recip(self) -> F {
        F(1.0 / self.0)
    }

    fn powi(self, p: i32) -> F {
        F(self.0.powi(p))
    }

    fn root(self, p: i32) -> F {
        F(self.0.powf(1.0 / (p as f32)))
    }
}

impl Ordered for F {
    fn exceeds_spec(self, rhs: F) -> Option<bool> {
        if self.0 > rhs.0 {
            Some(true)
        } else if self.0 <= rhs.0 {
            Some(false)
        } else {
            None
        }
    }

    fn exceeds(self, rhs: F) -> Option<bool> {
        if self.0 > rhs.0 {
            Some(true)
        } else if self.0 <= rhs.0 {
            Some(false)
        } else {
            None
        }
    }
}

/// An integer key with a tag that takes no part in the order.
#[derive(Clone, Copy, Debug, PartialEq)]
struct Tagged {
    key: i64,
    tag: char,
}

impl Scalar for Tagged {
    fn zero_spec() -> Tagged {
        Tagged { key: 0, tag: '0' }
    }

    fn one_spec() -> Tagged {
        Tagged { key: 1, tag: '1' }
    }

    fn add_spec(self, rhs: Tagged) -> Tagged {
        Tagged { key: self.key + rhs.key, tag: '+' }
    }

    fn sub_spec(self, rhs: Tagged) -> Tagged {
        Tagged { key: self.key - rhs.key, tag: '-' }
    }

    fn mul_spec(self, rhs: Tagged) -> Tagged {
        Tagged { key: self.key * rhs.key, tag: '*' }
    }

    fn zero() -> Tagged {
        Tagged { key: 0, tag: '0' }
    }

    fn one() -> Tagged {
        Tagged { key: 1, tag: '1' }
    }

    fn add(self, rhs: Tagged) -> Tagged {
        Tagged { key: self.key + rhs.key, tag: '+' }
    }

    fn sub(self, rhs: Tagged) -> Tagged {
        Tagged { key: self.key - rhs.key, tag: '-' }
    }

    fn mul(self, rhs: Tagged) -> Tagged {
        Tagged { key: self.key * rhs.key, tag: '*' }
    }
}

impl Ordered for Tagged {
    fn exceeds_spec(self, rhs: Tagged) -> Option<bool> {
        Some(self.key > rhs.key)
    }

    fn exceeds(self, rhs: Tagged) -> Option<bool> {
        Some(self.key > rhs.key)
    }
}

fn floats(values: &[f32]) -> Vector<F> {
    Vector { data: values.iter().map(|v| F(*v)).collect(), name: String::from("v") }
}

#[test]
fn vector_lp_norm() {
    let v = floats(&[1.0, 2.0, 2.0]);
    assert!((v.lp_norm(2).0 - 3.0).abs() < 1e-6);
    assert!((v.lp_norm(1).0 - 5.0).abs() < 1e-6);
    assert!((v.lp_norm(3).0 - 17.0f32.powf(1.0 / 3.0)).abs() < 1e-6);
}

#[test]
fn vector_lp_norm_takes_no_absolute_value() {
    let v = floats(&[-3.0, 1.0]);
    assert_eq!(v.lp_norm(1), F(-2.0));
    assert!(v.lp_norm(3).0.is_nan());
}

#[test]
fn vector_euclid_norm_is_the_lp_norm_for_two() {
    let v = floats(&[3.0, -4.0]);
    assert!((v.euclid_norm().0 - 5.0).abs() < 1e-6);
    assert_eq!(v.euclid_norm(), v.lp_norm(2));
}

#[test]
fn vector_max_norm_is_the_greatest_element() {
    assert_eq!(floats(&[1.0, 7.5, -3.0, 2.0]).max_norm(), F(7.5));
    assert_eq!(floats(&[-1.0, -7.5, -3.0]).max_norm(), F(-1.0));
    assert_eq!(floats(&[4.0]).max_norm(), F(4.0));
    let ints: Vector<i64> = Vector { data: vec![3, 9, -2, 9, 1], name: String::from("i") };
    assert_eq!(ints.max_norm(), 9);
    assert_eq!(ints.try_max_norm(), Some(9));
}

#[test]
fn vector_max_norm_keeps_the_last_of_equal_elements() {
    let v = Vector {
        data: vec![
            Tagged { key: 5, tag: 'a' },
            Tagged { key: 9, tag: 'b' },
            Tagged { key: 9, tag: 'c' },
            Tagged { key: 2, tag: 'd' },
        ],
        name: String::from("t"),
    };
    assert_eq!(v.max_norm(), Tagged { key: 9, tag: 'c' });
}

#[test]
fn vector_try_max_norm_of_an_empty_vector_is_none() {
    assert_eq!(floats(&[]).try_max_norm(), None);
}

#[test]
fn vector_try_max_norm_is_none_where_elements_cannot_be_ordered() {
    assert_eq!(floats(&[1.0, f32::NAN, 2.0]).try_max_norm(), None);
    assert_eq!(floats(&[f32::NAN, 1.0]).try_max_norm(), None);
    assert_eq!(floats(&[1.0, 2.0, f32::NAN]).try_max_norm(), None);
    // A single element is never compared.
    assert!(floats(&[f32::NAN]).try_max_norm().unwrap().0.is_nan());
}

#[test]
fn integers_are_ordered() {
    assert_eq!(<i64 as Ordered>::exceeds(3, 2), Some(true));
    assert_eq!(<i64 as Ordered>::exceeds(2, 2), Some(false));
    assert_eq!(<i64 as Ordered>::exceeds(-4, 2), Some(false));
}
