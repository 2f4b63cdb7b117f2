//! Element-wise and accumulating operations on sequences, shared by vectors and
//! matrices: their mathematical models, and executable forms that consume their
//! operands and evaluate in increasing index order.
use core::ops::{Add, Mul, Sub};
use vstd::prelude::*;
use crate::number::Number;
use vstd::pervasive::strictly_cloned;
use vstd::std_specs::convert::FromSpec;
use vstd::std_specs::ops::{AddSpec, MulSpec, SubSpec};

verus! {

/// Cloning a value of `T` gives back the same value.
pub open spec fn clone_is_copy<T: Clone>() -> bool {
    forall|a: T, b: T| #[trigger] strictly_cloned(a, b) ==> a == b
}

/// `n` copies of `v`.
pub open spec fn repeated<T>(v: T, n: nat) -> Seq<T> {
    Seq::new(n, |i: int| v)
}

/// Every element converted into `T`.
pub open spec fn converted<U, T: From<U>>(s: Seq<U>) -> Seq<T> {
    Seq::new(s.len(), |i: int| T::from_spec(s[i]))
}

/// Element-wise sum.
pub open spec fn seq_add<T: Add<U, Output = V>, U, V>(a: Seq<T>, b: Seq<U>) -> Seq<V> {
    Seq::new(a.len(), |i: int| a[i].add_spec(b[i]))
}

/// Element-wise difference.
pub open spec fn seq_sub<T: Sub<U, Output = V>, U, V>(a: Seq<T>, b: Seq<U>) -> Seq<V> {
    Seq::new(a.len(), |i: int| a[i].sub_spec(b[i]))
}

/// Every element multiplied by `s`, with `s` as the left operand.
pub open spec fn seq_scale<U: Mul<T, Output = V>, T, V>(s: U, a: Seq<T>) -> Seq<V> {
    Seq::new(a.len(), |i: int| s.mul_spec(a[i]))
}

/// Whether every element-wise sum is defined.
pub open spec fn add_defined<T: Add<U, Output = V>, U, V>(a: Seq<T>, b: Seq<U>) -> bool {
    forall|i: int| 0 <= i < a.len() ==> (#[trigger] a[i]).add_req(b[i])
}

/// Whether every element-wise difference is defined.
pub open spec fn sub_defined<T: Sub<U, Output = V>, U, V>(a: Seq<T>, b: Seq<U>) -> bool {
    forall|i: int| 0 <= i < a.len() ==> (#[trigger] a[i]).sub_req(b[i])
}

/// Whether every product of a clone of `s` with an element is defined.
pub open spec fn scale_defined<U: Mul<T, Output = V> + Clone, T, V>(s: U, a: Seq<T>) -> bool {
    forall|i: int, c: U| 0 <= i < a.len() && cloned(s, c) ==> (#[trigger] c.mul_req(a[i]))
}

/// `y` is a clone of `s` multiplied by `x`, the clone on the left.
pub open spec fn scaled_by_clone<U: Mul<T, Output = V> + Clone, T, V>(s: U, x: T, y: V) -> bool {
    exists|c: U| cloned(s, c) && (U::obeys_mul_spec() ==> y == c.mul_spec(x))
}

/// `a[0]*b[0] + ... + a[k-1]*b[k-1]`, added from the left onto zero.
pub open spec fn dot_prefix<T: Mul<U, Output = V>, U, V: Number + Add<V, Output = V>>(
    a: Seq<T>,
    b: Seq<U>,
    k: int,
) -> V
    decreases k,
{
    if k <= 0 {
        V::zero_spec()
    } else {
        dot_prefix(a, b, k - 1).add_spec(a[k - 1].mul_spec(b[k - 1]))
    }
}

/// Whether each product and each partial sum of `dot_prefix(a, b, a.len())` is
/// defined.
pub open spec fn dot_defined<T: Mul<U, Output = V>, U, V: Number + Add<V, Output = V>>(
    a: Seq<T>,
    b: Seq<U>,
) -> bool {
    forall|k: int|
        0 <= k < a.len() ==> (#[trigger] a[k]).mul_req(b[k]) && dot_prefix(a, b, k).add_req(
            a[k].mul_spec(b[k]),
        )
}

/// The elements of `v` in the opposite order.
pub(crate) fn reversed<T>(v: Vec<T>) -> (r: Vec<T>)
    ensures
        r@.len() == v@.len(),
        forall|i: int| 0 <= i < v@.len() ==> r@[i] == v@[v@.len() - 1 - i],
{
    let ghost orig = v@;
    let mut src = v;
    let mut r: Vec<T> = Vec::new();
    while src.len() > 0
        invariant
            src@ == orig.subrange(0, src@.len() as int),
            r@.len() + src@.len() == orig.len(),
            forall|i: int| 0 <= i < r@.len() ==> r@[i] == orig[orig.len() - 1 - i],
        decreases src@.len(),
    {
        let x = src.pop().unwrap();
        r.push(x);
    }
    r
}

/// Element-wise sum, consuming both operands.
pub(crate) fn zip_add<T: Add<U, Output = V>, U, V>(a: Vec<T>, b: Vec<U>) -> (r: Vec<V>)
    requires
        a@.len() == b@.len(),
        add_defined(a@, b@),
    ensures
        r@.len() == a@.len(),
        T::obeys_add_spec() ==> r@ == seq_add(a@, b@),
{
    let ghost sa = a@;
    let ghost sb = b@;
    let n = a.len();
    let mut ra = reversed(a);
    let mut rb = reversed(b);
    let mut out: Vec<V> = Vec::with_capacity(n);
    let mut k: usize = 0;
    while k < n
        invariant
            n == sa.len(),
            n == sb.len(),
            k <= n,
            add_defined(sa, sb),
            ra@.len() == n - k,
            rb@.len() == n - k,
            forall|j: int| 0 <= j < n - k ==> ra@[j] == sa[n - 1 - j],
            forall|j: int| 0 <= j < n - k ==> rb@[j] == sb[n - 1 - j],
            out@.len() == k,
            forall|j: int| 0 <= j < k ==> T::obeys_add_spec() ==> out@[j] == sa[j].add_spec(sb[j]),
        decreases n - k,
    {
        let x = ra.pop().unwrap();
        let y = rb.pop().unwrap();
        assert(x == sa[k as int] && y == sb[k as int]);
        out.push(x + y);
        k = k + 1;
    }
    proof {
        if T::obeys_add_spec() {
            assert(out@ =~= seq_add(sa, sb));
        }
    }
    out
}

/// Element-wise difference, consuming both operands.
pub(crate) fn zip_sub<T: Sub<U, Output = V>, U, V>(a: Vec<T>, b: Vec<U>) -> (r: Vec<V>)
    requires
        a@.len() == b@.len(),
        sub_defined(a@, b@),
    ensures
        r@.len() == a@.len(),
        T::obeys_sub_spec() ==> r@ == seq_sub(a@, b@),
{
    let ghost sa = a@;
    let ghost sb = b@;
    let n = a.len();
    let mut ra = reversed(a);
    let mut rb = reversed(b);
    let mut out: Vec<V> = Vec::with_capacity(n);
    let mut k: usize = 0;
    while k < n
        invariant
            n == sa.len(),
            n == sb.len(),
            k <= n,
            sub_defined(sa, sb),
            ra@.len() == n - k,
            rb@.len() == n - k,
            forall|j: int| 0 <= j < n - k ==> ra@[j] == sa[n - 1 - j],
            forall|j: int| 0 <= j < n - k ==> rb@[j] == sb[n - 1 - j],
            out@.len() == k,
            forall|j: int| 0 <= j < k ==> T::obeys_sub_spec() ==> out@[j] == sa[j].sub_spec(sb[j]),
        decreases n - k,
    {
        let x = ra.pop().unwrap();
        let y = rb.pop().unwrap();
        assert(x == sa[k as int] && y == sb[k as int]);
        out.push(x - y);
        k = k + 1;
    }
    proof {
        if T::obeys_sub_spec() {
            assert(out@ =~= seq_sub(sa, sb));
        }
    }
    out
}

/// Every element multiplied by a clone of `s`, with the scalar on the left,
/// consuming the elements.
pub(crate) fn scale_all<U: Mul<T, Output = V> + Clone, T, V>(s: U, a: Vec<T>) -> (r: Vec<V>)
    requires
        scale_defined(s, a@),
    ensures
        r@.len() == a@.len(),
        forall|i: int| 0 <= i < a@.len() ==> #[trigger] scaled_by_clone(s, a@[i], r@[i]),
        clone_is_copy::<U>() && U::obeys_mul_spec() ==> r@ == seq_scale(s, a@),
{
    let ghost sa = a@;
    let n = a.len();
    let mut ra = reversed(a);
    let mut out: Vec<V> = Vec::with_capacity(n);
    let mut k: usize = 0;
    while k < n
        invariant
            n == sa.len(),
            k <= n,
            scale_defined(s, sa),
            ra@.len() == n - k,
            forall|j: int| 0 <= j < n - k ==> ra@[j] == sa[n - 1 - j],
            out@.len() == k,
            forall|j: int| 0 <= j < k ==> #[trigger] scaled_by_clone(s, sa[j], out@[j]),
        decreases n - k,
    {
        let x = ra.pop().unwrap();
        assert(x == sa[k as int]);
        let c = s.clone();
        assert(cloned(s, c));
        out.push(c * x);
        assert(scaled_by_clone(s, sa[k as int], out@[k as int]));
        k = k + 1;
    }
    proof {
        if clone_is_copy::<U>() && U::obeys_mul_spec() {
            assert forall|i: int| 0 <= i < n implies out@[i] == s.mul_spec(sa[i]) by {
                assert(scaled_by_clone(s, sa[i], out@[i]));
                let c = choose|c: U| cloned(s, c) && (U::obeys_mul_spec() ==> out@[i] == c.mul_spec(sa[i]));
                assert(strictly_cloned(s, c) ==> s == c);
            }
            assert(out@ =~= seq_scale(s, sa));
        }
    }
    out
}

/// `a[0]*b[0] + ... + a[n-1]*b[n-1]`, accumulated from zero in increasing
/// index order, consuming both operands.
pub(crate) fn dot<T: Mul<U, Output = V>, U, V: Number + Add<V, Output = V>>(a: Vec<T>, b: Vec<U>) -> (r: V)
    requires
        a@.len() == b@.len(),
        T::obeys_mul_spec(),
        V::obeys_add_spec(),
        dot_defined(a@, b@),
    ensures
        r == dot_prefix(a@, b@, a@.len() as int),
{
    let ghost sa = a@;
    let ghost sb = b@;
    let n = a.len();
    let mut ra = reversed(a);
    let mut rb = reversed(b);
    let mut acc = V::zero();
    let mut k: usize = 0;
    while k < n
        invariant
            n == sa.len(),
            n == sb.len(),
            k <= n,
            T::obeys_mul_spec(),
            V::obeys_add_spec(),
            dot_defined(sa, sb),
            ra@.len() == n - k,
            rb@.len() == n - k,
            forall|j: int| 0 <= j < n - k ==> ra@[j] == sa[n - 1 - j],
            forall|j: int| 0 <= j < n - k ==> rb@[j] == sb[n - 1 - j],
            acc == dot_prefix(sa, sb, k as int),
        decreases n - k,
    {
        let x = ra.pop().unwrap();
        let y = rb.pop().unwrap();
        assert(x == sa[k as int] && y == sb[k as int]);
        assert(sa[k as int].mul_req(sb[k as int]));
        let p = x * y;
        acc = acc + p;
        k = k + 1;
    }
    acc
}


/// Element-wise sum is associative wherever the element sum is.
pub proof fn lemma_add_associative<T: Add<T, Output = T>>(a: Seq<T>, b: Seq<T>, c: Seq<T>)
    requires
        a.len() == b.len(),
        b.len() == c.len(),
        forall|x: T, y: T, z: T|
            #[trigger] x.add_spec(y).add_spec(z) == x.add_spec(#[trigger] y.add_spec(z)),
    ensures
        seq_add(seq_add(a, b), c) == seq_add(a, seq_add(b, c)),
{
    assert(seq_add(seq_add(a, b), c) =~= seq_add(a, seq_add(b, c)));
}

/// Scaling distributes over the element-wise sum wherever the scalar's
/// product distributes over the element sum.
pub proof fn lemma_scale_distributes<U: Mul<T, Output = V>, T: Add<T, Output = T>, V: Add<
    V,
    Output = V,
>>(s: U, a: Seq<T>, b: Seq<T>)
    requires
        a.len() == b.len(),
        forall|x: T, y: T| #[trigger] s.mul_spec(x.add_spec(y)) == s.mul_spec(x).add_spec(s.mul_spec(y)),
    ensures
        seq_scale(s, seq_add(a, b)) == seq_add(seq_scale(s, a), seq_scale(s, b)),
{
    assert forall|i: int| 0 <= i < a.len() implies seq_scale(s, seq_add(a, b))[i] == seq_add(
        seq_scale(s, a),
        seq_scale(s, b),
    )[i] by {
        assert(s.mul_spec(a[i].add_spec(b[i])) == s.mul_spec(a[i]).add_spec(s.mul_spec(b[i])));
    }
    assert(seq_scale(s, seq_add(a, b)) =~= seq_add(seq_scale(s, a), seq_scale(s, b)));
}

} // verus!
