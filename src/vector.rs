//! A vector: a fixed, positive number of elements, indexed from 1.
use core::ops::{Add, Div, Mul, Sub};
use vstd::pervasive::strictly_cloned;
use vstd::prelude::*;
use vstd::std_specs::convert::FromSpec;
use vstd::std_specs::ops::{AddSpec, DivSpec, MulSpec, SubSpec};
use crate::error::LinalgError;
use crate::number::{Float, Number};
use crate::seqops::{
    add_defined, clone_is_copy, converted, repeated, dot, dot_defined, dot_prefix, reversed, scale_all, scale_defined,
    scaled_by_clone, seq_add, seq_scale, seq_sub, sub_defined, zip_add, zip_sub,
};

verus! {

/// An ordered sequence of `dims() > 0` elements; element `i` is read with
/// `index(i)` for `1 <= i <= dims()`.
#[derive(Debug, Clone, PartialEq)]
pub struct Vector<T> {
    vals: Vec<T>,
}

impl<T> View for Vector<T> {
    type V = Seq<T>;

    /// The elements; element `i` of the vector is `self@[i - 1]`.
    closed spec fn view(&self) -> Seq<T> {
        self.vals@
    }
}

/// The three ways to build a vector of one value agree: `dims` clones of `v`
/// (where cloning copies), whatever `new` builds from a generator that only
/// yields `v`, and `dims` copies of `v` converted into `T` (where converting a
/// `T` into `T` keeps it).
pub proof fn lemma_constructions_agree<T: From<T>, F: Fn(usize) -> T>(
    v: T,
    dims: usize,
    f: F,
    built: Seq<T>,
)
    requires
        forall|x: T| #[trigger] T::from_spec(x) == x,
        forall|i: usize, x: T| #[trigger] f.ensures((i,), x) ==> x == v,
        built.len() == dims,
        forall|i: int| 0 <= i < dims ==> f.ensures(((i + 1) as usize,), #[trigger] built[i]),
    ensures
        built == repeated(v, dims as nat),
        converted::<T, T>(repeated(v, dims as nat)) == repeated(v, dims as nat),
{
    assert(built =~= repeated(v, dims as nat));
    assert(converted::<T, T>(repeated(v, dims as nat)) =~= repeated(v, dims as nat));
}

impl<T> Vector<T> {
    /// A vector holds at least one element.
    pub open spec fn wf(&self) -> bool {
        self@.len() > 0
    }

    /// The number of elements.
    pub fn dims(&self) -> (r: usize)
        requires
            self.wf(),
        ensures
            r == self@.len(),
            r > 0,
    {
        self.vals.len()
    }

    /// The vector whose element `i` is `f(i)`, for `i` from 1 to `dims` in
    /// increasing order; refused when `dims` is zero.
    pub fn new(dims: usize, f: impl Fn(usize) -> T) -> (r: Result<Vector<T>, LinalgError>)
        requires
            forall|i: usize| 1 <= i <= dims ==> #[trigger] f.requires((i,)),
        ensures
            match r {
                Ok(v) => dims > 0 && v.wf() && v@.len() == dims && forall|i: int|
                    0 <= i < dims ==> f.ensures(((i + 1) as usize,), #[trigger] v@[i]),
                Err(e) => dims == 0 && e == LinalgError::InvalidDimension,
            },
    {
        if dims == 0 {
            return Err(LinalgError::InvalidDimension);
        }
        let mut vals: Vec<T> = Vec::with_capacity(dims);
        let mut i: usize = 0;
        while i < dims
            invariant
                i <= dims,
                vals@.len() == i,
                forall|i: usize| 1 <= i <= dims ==> #[trigger] f.requires((i,)),
                forall|j: int| 0 <= j < i ==> f.ensures(((j + 1) as usize,), #[trigger] vals@[j]),
            decreases dims - i,
        {
            let x = f(i + 1);
            vals.push(x);
            i = i + 1;
        }
        Ok(Vector { vals })
    }

    /// The vector of the given elements, each converted into `T`; refused when
    /// there are none.
    pub fn from_vec<U>(vals: Vec<U>) -> (r: Result<Vector<T>, LinalgError>)
        where
            T: From<U>,
        ensures
            match r {
                Ok(v) => vals@.len() > 0 && v.wf() && v@.len() == vals@.len() && (T::obeys_from_spec()
                    ==> v@ == converted::<U, T>(vals@)),
                Err(e) => vals@.len() == 0 && e == LinalgError::InvalidDimension,
            },
    {
        let n = vals.len();
        if n == 0 {
            return Err(LinalgError::InvalidDimension);
        }
        let ghost src = vals@;
        let mut rest = reversed(vals);
        let mut out: Vec<T> = Vec::with_capacity(n);
        let mut k: usize = 0;
        while k < n
            invariant
                n == src.len(),
                k <= n,
                rest@.len() == n - k,
                forall|j: int| 0 <= j < n - k ==> rest@[j] == src[n - 1 - j],
                out@.len() == k,
                T::obeys_from_spec() ==> forall|j: int|
                    0 <= j < k ==> #[trigger] out@[j] == T::from_spec(src[j]),
            decreases n - k,
        {
            let x = rest.pop().unwrap();
            assert(x == src[k as int]);
            out.push(T::from(x));
            k = k + 1;
        }
        proof {
            if T::obeys_from_spec() {
                assert(out@ =~= converted::<U, T>(src));
            }
        }
        Ok(Vector { vals: out })
    }

    /// Element `i`, counting from 1; refused when `i` is zero or past `dims()`.
    pub fn index(&self, i: usize) -> (r: Result<&T, LinalgError>)
        ensures
            match r {
                Ok(x) => 1 <= i <= self@.len() && *x == self@[i - 1],
                Err(e) => (i == 0 || i > self@.len()) && e == LinalgError::IndexOutOfBounds,
            },
    {
        if i == 0 || i > self.vals.len() {
            return Err(LinalgError::IndexOutOfBounds);
        }
        Ok(&self.vals[i - 1])
    }

    /// Replaces element `i`, counting from 1; refused, with the vector left as it
    /// was, when `i` is zero or past `dims()`.
    pub fn set(&mut self, i: usize, x: T) -> (r: Result<(), LinalgError>)
        requires
            old(self).wf(),
        ensures
            final(self).wf(),
            match r {
                Ok(_) => 1 <= i <= old(self)@.len() && final(self)@ == old(self)@.update(i - 1, x),
                Err(e) => (i == 0 || i > old(self)@.len()) && e == LinalgError::IndexOutOfBounds
                    && final(self)@ == old(self)@,
            },
    {
        if i == 0 || i > self.vals.len() {
            return Err(LinalgError::IndexOutOfBounds);
        }
        self.vals.set(i - 1, x);
        Ok(())
    }

    /// Element-wise sum; refused when the dimensions differ.
    pub fn add<U, V>(self, other: Vector<U>) -> (r: Result<Vector<V>, LinalgError>)
        where
            T: Add<U, Output = V>,
        requires
            self.wf(),
            other.wf(),
            self@.len() == other@.len() ==> add_defined(self@, other@),
        ensures
            match r {
                Ok(v) => self@.len() == other@.len() && v.wf() && v@.len() == self@.len() && (
                T::obeys_add_spec() ==> v@ == seq_add(self@, other@)),
                Err(e) => self@.len() != other@.len() && e == LinalgError::DimensionMismatch,
            },
    {
        if self.vals.len() != other.vals.len() {
            return Err(LinalgError::DimensionMismatch);
        }
        Ok(Vector { vals: zip_add(self.vals, other.vals) })
    }

    /// Element-wise difference; refused when the dimensions differ.
    pub fn sub<U, V>(self, other: Vector<U>) -> (r: Result<Vector<V>, LinalgError>)
        where
            T: Sub<U, Output = V>,
        requires
            self.wf(),
            other.wf(),
            self@.len() == other@.len() ==> sub_defined(self@, other@),
        ensures
            match r {
                Ok(v) => self@.len() == other@.len() && v.wf() && v@.len() == self@.len() && (
                T::obeys_sub_spec() ==> v@ == seq_sub(self@, other@)),
                Err(e) => self@.len() != other@.len() && e == LinalgError::DimensionMismatch,
            },
    {
        if self.vals.len() != other.vals.len() {
            return Err(LinalgError::DimensionMismatch);
        }
        Ok(Vector { vals: zip_sub(self.vals, other.vals) })
    }

    /// Every element multiplied by the scalar, the scalar being the left
    /// operand of each product.
    pub fn mul<U, V>(self, scalar: U) -> (r: Vector<V>)
        where
            U: Mul<T, Output = V> + Clone,
        requires
            self.wf(),
            scale_defined(scalar, self@),
        ensures
            r.wf(),
            r@.len() == self@.len(),
            forall|i: int| 0 <= i < self@.len() ==> #[trigger] scaled_by_clone(scalar, self@[i], r@[i]),
            clone_is_copy::<U>() && U::obeys_mul_spec() ==> r@ == seq_scale(scalar, self@),
    {
        Vector { vals: scale_all(scalar, self.vals) }
    }

    /// `v1[1]*v2[1] + ... + v1[n]*v2[n]`, accumulated from zero in increasing
    /// index order; refused when the dimensions differ.
    pub fn scalar_product<U, V>(v1: Vector<T>, v2: Vector<U>) -> (r: Result<V, LinalgError>)
        where
            T: Mul<U, Output = V>,
            V: Number + Add<V, Output = V>,
        requires
            v1.wf(),
            v2.wf(),
            T::obeys_mul_spec(),
            V::obeys_add_spec(),
            v1@.len() == v2@.len() ==> dot_defined(v1@, v2@),
        ensures
            match r {
                Ok(x) => v1@.len() == v2@.len() && x == dot_prefix(v1@, v2@, v1@.len() as int),
                Err(e) => v1@.len() != v2@.len() && e == LinalgError::DimensionMismatch,
            },
    {
        if v1.vals.len() != v2.vals.len() {
            return Err(LinalgError::DimensionMismatch);
        }
        Ok(dot(v1.vals, v2.vals))
    }
}

impl<T: Clone> Vector<T> {
    /// The vector of `dims` clones of `val`; refused when `dims` is zero.
    pub fn repeat(val: T, dims: usize) -> (r: Result<Vector<T>, LinalgError>)
        ensures
            match r {
                Ok(v) => dims > 0 && v.wf() && v@.len() == dims && (forall|i: int|
                    0 <= i < dims ==> cloned(val, #[trigger] v@[i])) && (clone_is_copy::<T>() ==> v@
                    == repeated(val, dims as nat)),
                Err(e) => dims == 0 && e == LinalgError::InvalidDimension,
            },
    {
        if dims == 0 {
            return Err(LinalgError::InvalidDimension);
        }
        let mut vals: Vec<T> = Vec::with_capacity(dims);
        let mut i: usize = 0;
        while i < dims
            invariant
                i <= dims,
                vals@.len() == i,
                forall|j: int| 0 <= j < i ==> cloned(val, #[trigger] vals@[j]),
            decreases dims - i,
        {
            vals.push(val.clone());
            i = i + 1;
        }
        proof {
            if clone_is_copy::<T>() {
                assert forall|j: int| 0 <= j < dims implies vals@[j] == val by {
                    assert(cloned(val, vals@[j]));
                    assert(strictly_cloned(val, vals@[j]) ==> val == vals@[j]);
                }
                assert(vals@ =~= repeated(val, dims as nat));
            }
        }
        Ok(Vector { vals })
    }
}

/// `s[0]^n + ... + s[k-1]^n`, added from the left onto zero. No absolute value
/// is taken, so for odd `n` negative elements count negatively.
pub open spec fn pow_sum<T: Float<IExp = i32> + Add<T, Output = T>>(s: Seq<T>, n: i32, k: int) -> T
    decreases k,
{
    if k <= 0 {
        T::zero_spec()
    } else {
        pow_sum(s, n, k - 1).add_spec(s[k - 1].powi_spec(n))
    }
}

/// The exponent `1 / n` that turns a sum of `n`-th powers into a norm.
pub open spec fn inverse_order<T: Float + Div<T, Output = T> + From<i32>>(n: i32) -> T {
    T::one_spec().div_spec(T::from_spec(n))
}

/// The norm of order `n`: `(s[0]^n + ... + s[len-1]^n)^(1/n)`.
pub open spec fn norm_value<T: Float<IExp = i32, FExp = T> + Add<T, Output = T> + Div<T, Output = T> + From<i32>>(
    s: Seq<T>,
    n: i32,
) -> T {
    pow_sum(s, n, s.len() as int).powf_spec(inverse_order::<T>(n))
}

/// Whether each partial sum of `pow_sum(s, n, s.len())` and the division
/// `1 / n` are defined.
pub open spec fn norm_defined<T: Float<IExp = i32> + Add<T, Output = T> + Div<T, Output = T> + From<i32>>(
    s: Seq<T>,
    n: i32,
) -> bool {
    &&& forall|k: int| 0 <= k < s.len() ==> #[trigger] pow_sum(s, n, k).add_req(s[k].powi_spec(n))
    &&& T::one_spec().div_req(T::from_spec(n))
}

impl<T: Float<IExp = i32, FExp = T> + Clone + Add<T, Output = T> + Div<T, Output = T> + From<i32>> Vector<T> {
    fn norm_of(&self, n: i32) -> (r: T)
        requires
            self.wf(),
            clone_is_copy::<T>(),
            T::obeys_add_spec(),
            T::obeys_div_spec(),
            T::obeys_from_spec(),
            norm_defined(self@, n),
        ensures
            r == norm_value(self@, n),
    {
        let mut sum = T::zero();
        let len = self.vals.len();
        let mut i: usize = 0;
        while i < len
            invariant
                len == self@.len(),
                i <= len,
                clone_is_copy::<T>(),
                T::obeys_add_spec(),
                norm_defined(self@, n),
                sum == pow_sum(self@, n, i as int),
            decreases len - i,
        {
            let x = self.vals[i].clone();
            assert(strictly_cloned(self@[i as int], x) ==> self@[i as int] == x);
            let p = x.powi(n);
            assert(pow_sum(self@, n, i as int).add_req(self@[i as int].powi_spec(n)));
            sum = sum + p;
            i = i + 1;
        }
        let e = T::one() / T::from(n);
        sum.powf(e)
    }

    /// The norm of order `n`, `(x_1^n + ... + x_dims^n)^(1/n)`, with no absolute
    /// value taken first; refused when `n` is not positive.
    pub fn norm(&self, n: i32) -> (r: Result<T, LinalgError>)
        requires
            self.wf(),
            clone_is_copy::<T>(),
            T::obeys_add_spec(),
            T::obeys_div_spec(),
            T::obeys_from_spec(),
            n > 0 ==> norm_defined(self@, n),
        ensures
            match r {
                Ok(x) => n > 0 && x == norm_value(self@, n),
                Err(e) => n <= 0 && e == LinalgError::InvalidNormOrder,
            },
    {
        if n <= 0 {
            return Err(LinalgError::InvalidNormOrder);
        }
        Ok(self.norm_of(n))
    }

    /// The vector scaled by `1 / norm(2)`. A zero norm is divided by as the
    /// element type divides.
    pub fn normalize(self) -> (r: Vector<T>)
        where
            T: Mul<T, Output = T>,
        requires
            self.wf(),
            clone_is_copy::<T>(),
            T::obeys_add_spec(),
            T::obeys_div_spec(),
            T::obeys_from_spec(),
            T::obeys_mul_spec(),
            norm_defined(self@, 2),
            T::one_spec().div_req(norm_value(self@, 2)),
            scale_defined(T::one_spec().div_spec(norm_value(self@, 2)), self@),
        ensures
            r.wf(),
            r@ == seq_scale(T::one_spec().div_spec(norm_value(self@, 2)), self@),
    {
        let length = self.norm_of(2);
        let factor = T::one() / length;
        self.mul(factor)
    }
}

} // verus!
