use linalg::{Float, LinalgError, Number, Vector};
use std::ops::{Add, Div, Mul, Sub};

#[derive(Debug, Clone, Copy, PartialEq, PartialOrd)]
struct Real(f64);

impl Number for Real {
    fn zero_spec() -> Real {
        Real(0.0)
    }

    fn one_spec() -> Real {
        Real(1.0)
    }

    fn zero() -> Real {
        Real(0.0)
    }

    fn one() -> Real {
        Real(1.0)
    }
}

impl Float for Real {
    type IExp = i32;
    type FExp = Real;

    fn powi_spec(self, exp: i32) -> Real {
        self.powi(exp)
    }

    fn powf_spec(self, exp: Real) -> Real {
        self.powf(exp)
    }

    fn sqrt_spec(self) -> Real {
        self.sqrt()
    }

    fn powi(self, exp: i32) -> Real {
        Real(self.0.powi(exp))
    }

    fn powf(self, exp: Real) -> Real {
        Real(self.0.powf(exp.0))
    }

    fn sqrt(self) -> Real {
        Real(self.0.sqrt())
    }
}

impl Add for Real {
    type Output = Real;
    fn add(self, o: Real) -> Real {
        Real(self.0 + o.0)
    }
}

impl Sub for Real {
    type Output = Real;
    fn sub(self, o: Real) -> Real {
        Real(self.0 - o.0)
    }
}

impl Mul for Real {
    type Output = Real;
    fn mul(self, o: Real) -> Real {
        Real(self.0 * o.0)
    }
}

impl Div for Real {
    type Output = Real;
    fn div(self, o: Real) -> Real {
        Real(self.0 / o.0)
    }
}

impl From<i32> for Real {
    fn from(n: i32) -> Real {
        Real(n as f64)
    }
}

impl From<f64> for Real {
    fn from(x: f64) -> Real {
        Real(x)
    }
}

#[test]
fn norm() {
    let v = Vector::repeat(Real(1.0), 4).unwrap();
    assert_eq!(v.norm(2).unwrap(), Real(2.0));
    assert_eq!(v.normalize(), Vector::repeat(Real(0.5), 4).unwrap());
    let v = Vector::<Real>::from_vec(vec!(2.0, 17.0, 5.3, 1.1)).unwrap();
    assert!((v.norm(2).unwrap().0 - 17.9527).abs() < 0.0001);
    {
        let diff = v.normalize().sub(Vector::<Real>::from_vec(vec!(
            0.111404, 0.946932, 0.29522, 0.0612721
        )).unwrap()).unwrap();
        for i in 1..5 {
            assert!(diff.index(i).unwrap().0 < 0.00001);
        }
    }
}

#[test]
fn norm_order_must_be_positive() {
    let v = Vector::repeat(Real(1.0), 3).unwrap();
    assert_eq!(v.norm(0).unwrap_err(), LinalgError::InvalidNormOrder);
    assert_eq!(v.norm(-1).unwrap_err(), LinalgError::InvalidNormOrder);
}

#[test]
fn norm_of_order_one_keeps_signs() {
    let v = Vector::<Real>::from_vec(vec!(3.0, -1.0)).unwrap();
    assert_eq!(v.norm(1).unwrap(), Real(2.0));
    assert_eq!(v.norm(3).unwrap(), Real(26.0f64.powf(1.0 / 3.0)));
}
