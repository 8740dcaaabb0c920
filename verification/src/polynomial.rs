//! Univariate polynomial algebra over an arbitrary coefficient type.
//!
//! A polynomial is an ordered coefficient sequence, index `i` holding the
//! coefficient of the term of degree `i`; trailing zeros are kept as stored.
//! The coefficient arithmetic itself is supplied by the caller as closures,
//! so the operations here pin down everything else: result lengths, the
//! implicit zero padding of the shorter operand, which coefficients feed
//! which closure call, and the convolution index bookkeeping.

use vstd::prelude::*;

verus! {

/// A univariate polynomial: `coefs[i]` multiplies the term of degree `i`.
#[derive(Debug, PartialEq)]
pub struct Polynome<T> {
    pub coefs: Vec<T>,
}

/// A plain scalar, kept distinct from a one-term polynomial so that callers
/// can tell scalar multiplication apart from polynomial multiplication.
#[derive(Debug, PartialEq)]
pub struct Scalar<T> {
    pub value: T,
}

/// The one failure the algebra can report: an operation that needs at least
/// one coefficient was asked of an empty coefficient sequence.
#[derive(Debug, PartialEq, Eq, Structural, Clone, Copy)]
pub enum PolynomeError {
    InvalidState,
}

impl<T> View for Polynome<T> {
    type V = Seq<T>;

    open spec fn view(&self) -> Seq<T> {
        self.coefs@
    }
}

/// The coefficient of degree `i`, reading past the stored length as the
/// default (the implicit zero padding of two-operand operations).
pub open spec fn coef_or<T>(s: Seq<T>, i: int, default: T) -> T {
    if 0 <= i < s.len() {
        s[i]
    } else {
        default
    }
}

/// `acc` is a possible value of the running sum after folding `plus` over
/// the first `j` terms produced by `term` on `coefs`.
pub open spec fn eval_sum<T, P: Fn(T, T) -> T, F: Fn(usize, T) -> T>(
    plus: P,
    term: F,
    coefs: Seq<T>,
    zero: T,
    j: int,
    acc: T,
) -> bool
    decreases j,
{
    if j <= 0 {
        acc == zero
    } else {
        exists|prev: T, t: T|
            eval_sum(plus, term, coefs, zero, j - 1, prev)
                && call_ensures(term, (((j - 1) as usize), coefs[j - 1]), t)
                && #[trigger] call_ensures(plus, (prev, t), acc)
    }
}

/// `acc` is a possible value of the running convolution sum for output
/// degree `k` after the first `j` products, the product of index `j'` being
/// `times(a[j'], b[k - j'])` with out-of-range coefficients read as `zero`.
pub open spec fn conv_sum<T, P: Fn(T, T) -> T, M: Fn(T, T) -> T>(
    plus: P,
    times: M,
    a: Seq<T>,
    b: Seq<T>,
    zero: T,
    k: int,
    j: int,
    acc: T,
) -> bool
    decreases j,
{
    if j <= 0 {
        acc == zero
    } else {
        exists|prev: T, prod: T|
            conv_sum(plus, times, a, b, zero, k, j - 1, prev)
                && call_ensures(times, (coef_or(a, j - 1, zero), coef_or(b, k - (j - 1), zero)), prod)
                && #[trigger] call_ensures(plus, (prev, prod), acc)
    }
}

/// A value of the running sum before any term was folded is `zero` itself.
pub proof fn eval_sum_base<T, P: Fn(T, T) -> T, F: Fn(usize, T) -> T>(
    plus: P,
    term: F,
    coefs: Seq<T>,
    zero: T,
    acc: T,
)
    requires
        eval_sum(plus, term, coefs, zero, 0, acc),
    ensures
        acc == zero,
{
}

/// Destruct one step of an evaluation fold: a value of the sum after `j`
/// terms came, by one `term` and one `plus` call, from a value of the sum
/// after `j - 1` terms.
pub proof fn eval_sum_unfold<T, P: Fn(T, T) -> T, F: Fn(usize, T) -> T>(
    plus: P,
    term: F,
    coefs: Seq<T>,
    zero: T,
    j: int,
    acc: T,
) -> (w: (T, T))
    requires
        j >= 1,
        eval_sum(plus, term, coefs, zero, j, acc),
    ensures
        eval_sum(plus, term, coefs, zero, j - 1, w.0),
        call_ensures(term, (((j - 1) as usize), coefs[j - 1]), w.1),
        call_ensures(plus, (w.0, w.1), acc),
{
    let (prev, t) = choose|prev: T, t: T|
        eval_sum(plus, term, coefs, zero, j - 1, prev)
            && call_ensures(term, (((j - 1) as usize), coefs[j - 1]), t)
            && #[trigger] call_ensures(plus, (prev, t), acc);
    (prev, t)
}

/// A value of the running convolution sum before any product was folded is
/// `zero` itself.
pub proof fn conv_sum_base<T, P: Fn(T, T) -> T, M: Fn(T, T) -> T>(
    plus: P,
    times: M,
    a: Seq<T>,
    b: Seq<T>,
    zero: T,
    k: int,
    acc: T,
)
    requires
        conv_sum(plus, times, a, b, zero, k, 0, acc),
    ensures
        acc == zero,
{
}

/// Destruct one step of a convolution fold: a value of the sum after `j`
/// products came, by one `times` and one `plus` call, from a value of the
/// sum after `j - 1` products.
pub proof fn conv_sum_unfold<T, P: Fn(T, T) -> T, M: Fn(T, T) -> T>(
    plus: P,
    times: M,
    a: Seq<T>,
    b: Seq<T>,
    zero: T,
    k: int,
    j: int,
    acc: T,
) -> (w: (T, T))
    requires
        j >= 1,
        conv_sum(plus, times, a, b, zero, k, j, acc),
    ensures
        conv_sum(plus, times, a, b, zero, k, j - 1, w.0),
        call_ensures(times, (coef_or(a, j - 1, zero), coef_or(b, k - (j - 1), zero)), w.1),
        call_ensures(plus, (w.0, w.1), acc),
{
    let (prev, prod) = choose|prev: T, prod: T|
        conv_sum(plus, times, a, b, zero, k, j - 1, prev)
            && call_ensures(times, (coef_or(a, j - 1, zero), coef_or(b, k - (j - 1), zero)), prod)
            && #[trigger] call_ensures(plus, (prev, prod), acc);
    (prev, prod)
}

/// When `plus` and `term` are deterministic — equal arguments admit only
/// one result — the whole evaluation fold admits only one result: any two
/// values of the sum after `j` terms are equal. Evaluation is then a pure
/// function of the polynomial and the point.
pub proof fn eval_sum_deterministic<T, P: Fn(T, T) -> T, F: Fn(usize, T) -> T>(
    plus: P,
    term: F,
    coefs: Seq<T>,
    zero: T,
    j: int,
    acc1: T,
    acc2: T,
)
    requires
        eval_sum(plus, term, coefs, zero, j, acc1),
        eval_sum(plus, term, coefs, zero, j, acc2),
        forall|x: T, y: T, r1: T, r2: T|
            #[trigger] call_ensures(plus, (x, y), r1) && #[trigger] call_ensures(plus, (x, y), r2)
                ==> r1 == r2,
        forall|i: usize, x: T, r1: T, r2: T|
            #[trigger] call_ensures(term, (i, x), r1) && #[trigger] call_ensures(term, (i, x), r2)
                ==> r1 == r2,
    ensures
        acc1 == acc2,
    decreases j,
{
    if j <= 0 {
    } else {
        let w1 = eval_sum_unfold(plus, term, coefs, zero, j, acc1);
        let w2 = eval_sum_unfold(plus, term, coefs, zero, j, acc2);
        eval_sum_deterministic(plus, term, coefs, zero, j - 1, w1.0, w2.0);
    }
}

/// When `plus` and `times` are deterministic — equal arguments admit only
/// one result — the whole convolution fold admits only one result: any two
/// values of the sum for degree `k` after `j` products are equal. The
/// product polynomial is then a pure function of its operands.
pub proof fn conv_sum_deterministic<T, P: Fn(T, T) -> T, M: Fn(T, T) -> T>(
    plus: P,
    times: M,
    a: Seq<T>,
    b: Seq<T>,
    zero: T,
    k: int,
    j: int,
    acc1: T,
    acc2: T,
)
    requires
        conv_sum(plus, times, a, b, zero, k, j, acc1),
        conv_sum(plus, times, a, b, zero, k, j, acc2),
        forall|x: T, y: T, r1: T, r2: T|
            #[trigger] call_ensures(plus, (x, y), r1) && #[trigger] call_ensures(plus, (x, y), r2)
                ==> r1 == r2,
        forall|x: T, y: T, r1: T, r2: T|
            #[trigger] call_ensures(times, (x, y), r1) && #[trigger] call_ensures(times, (x, y), r2)
                ==> r1 == r2,
    ensures
        acc1 == acc2,
    decreases j,
{
    if j <= 0 {
    } else {
        let w1 = conv_sum_unfold(plus, times, a, b, zero, k, j, acc1);
        let w2 = conv_sum_unfold(plus, times, a, b, zero, k, j, acc2);
        conv_sum_deterministic(plus, times, a, b, zero, k, j - 1, w1.0, w2.0);
    }
}

/// For a polynomial with a single stored coefficient `c`, evaluation has
/// exactly one contribution: any result `r` of `get_value` is a value of
/// `plus(zero, t)` where `t` is a value of `term(0, c)`. Whether that makes
/// `r == c` is up to the caller's arithmetic.
pub proof fn eval_sum_single<T, P: Fn(T, T) -> T, F: Fn(usize, T) -> T>(
    plus: P,
    term: F,
    coefs: Seq<T>,
    zero: T,
    r: T,
) -> (w: (T, T))
    requires
        coefs.len() == 1,
        eval_sum(plus, term, coefs, zero, 1, r),
    ensures
        call_ensures(term, (0usize, coefs[0]), w.1),
        call_ensures(plus, (zero, w.1), r),
{
    let w = eval_sum_unfold(plus, term, coefs, zero, 1, r);
    eval_sum_base(plus, term, coefs, zero, w.0);
    w
}

/// For two polynomials of a single stored coefficient each, the product has
/// exactly one contribution: its only coefficient is a value of
/// `plus(zero, t)` where `t` is a value of `times(a[0], b[0])`.
pub proof fn conv_sum_single<T, P: Fn(T, T) -> T, M: Fn(T, T) -> T>(
    plus: P,
    times: M,
    a: Seq<T>,
    b: Seq<T>,
    zero: T,
    r: T,
) -> (w: (T, T))
    requires
        a.len() == 1,
        b.len() == 1,
        conv_sum(plus, times, a, b, zero, 0, 1, r),
    ensures
        call_ensures(times, (a[0], b[0]), w.1),
        call_ensures(plus, (zero, w.1), r),
{
    let w = conv_sum_unfold(plus, times, a, b, zero, 0, 1, r);
    conv_sum_base(plus, times, a, b, zero, 0, w.0);
    w
}

/// `out` can be reached from the coefficient `c` of degree `i` by one
/// `div_index(c, i + 1)` call followed by one `times_index(i + 1, _)` call.
pub open spec fn div_then_times<T, F: Fn(T, usize) -> T, G: Fn(usize, T) -> T>(
    div_index: F,
    times_index: G,
    c: T,
    i: int,
    out: T,
) -> bool {
    exists|mid: T|
        call_ensures(div_index, (c, ((i + 1) as usize)), mid)
            && #[trigger] call_ensures(times_index, (((i + 1) as usize), mid), out)
}

/// Taking the derivative of the antiderivative restores the original shape:
/// for a non-empty polynomial the lengths agree exactly, for an empty one
/// the single-term zero polynomial is left, and the coefficient of degree
/// `i` is reached from the original `p[i]` by one `div_index(p[i], i + 1)`
/// call followed by one `times_index(i + 1, _)` call. Whether that round
/// trip reproduces `p[i]` itself is up to the caller's arithmetic.
pub proof fn derivative_primitive_shape<T, F: Fn(T, usize) -> T, G: Fn(usize, T) -> T>(
    p: Seq<T>,
    prim: Seq<T>,
    deriv: Seq<T>,
    zero: T,
    div_index: F,
    times_index: G,
)
    requires
        prim.len() == p.len() + 1,
        prim[0] == zero,
        forall|i: int|
            0 <= i < p.len() ==> call_ensures(div_index, (p[i], ((i + 1) as usize)), #[trigger] prim[i + 1]),
        prim.len() <= 1 ==> deriv.len() == 1 && deriv[0] == zero,
        prim.len() > 1 ==> deriv.len() == prim.len() - 1,
        prim.len() > 1 ==> forall|i: int|
            0 <= i < deriv.len() ==> call_ensures(
                times_index,
                (((i + 1) as usize), prim[i + 1]),
                #[trigger] deriv[i],
            ),
    ensures
        p.len() == 0 ==> deriv.len() == 1 && deriv[0] == zero,
        p.len() >= 1 ==> deriv.len() == p.len(),
        p.len() >= 1 ==> forall|i: int|
            0 <= i < p.len() ==> div_then_times(div_index, times_index, p[i], i, #[trigger] deriv[i]),
{
    assert forall|i: int| 0 <= i < p.len() implies div_then_times(
        div_index,
        times_index,
        p[i],
        i,
        #[trigger] deriv[i],
    ) by {
        let mid = prim[i + 1];
        assert(call_ensures(div_index, (p[i], ((i + 1) as usize)), mid));
        assert(call_ensures(times_index, (((i + 1) as usize), mid), deriv[i]));
    }
}

impl<T> Polynome<T> {
    /// Wrap a coefficient sequence, lowest degree first.
    pub fn new(coefs: Vec<T>) -> (p: Self)
        ensures
            p@ == coefs@,
    {
        Polynome { coefs }
    }

    /// The degree: one less than the stored length. An empty coefficient
    /// sequence has no degree and reports `InvalidState` instead.
    pub fn get_degre(&self) -> (r: Result<usize, PolynomeError>)
        ensures
            self@.len() == 0 ==> r == Result::<usize, PolynomeError>::Err(PolynomeError::InvalidState),
            self@.len() > 0 ==> r == Result::<usize, PolynomeError>::Ok(((self@.len() - 1) as usize)),
    {
        if self.coefs.len() == 0 {
            Err(PolynomeError::InvalidState)
        } else {
            Ok(self.coefs.len() - 1)
        }
    }
}

impl<T: Copy> Polynome<T> {
    /// Evaluate the polynomial as a left-to-right sum of per-term values:
    /// `term(i, coefs[i])` is expected to produce `coefs[i] * x^i` for the
    /// caller's point `x`, and `plus` to add two coefficient values.
    pub fn get_value<P: Fn(T, T) -> T, F: Fn(usize, T) -> T>(
        &self,
        zero: T,
        plus: P,
        term: F,
    ) -> (r: T)
        requires
            forall|x: T, y: T| #[trigger] call_requires(plus, (x, y)),
            forall|i: usize, x: T| #[trigger] call_requires(term, (i, x)),
        ensures
            eval_sum(plus, term, self@, zero, self@.len() as int, r),
    {
        let mut res = zero;
        let mut i: usize = 0;
        while i < self.coefs.len()
            invariant
                i <= self@.len(),
                forall|x: T, y: T| #[trigger] call_requires(plus, (x, y)),
                forall|j: usize, x: T| #[trigger] call_requires(term, (j, x)),
                eval_sum(plus, term, self@, zero, i as int, res),
            decreases self@.len() - i,
        {
            let t = term(i, self.coefs[i]);
            let next = plus(res, t);
            proof {
                assert(eval_sum(plus, term, self@, zero, (i + 1) as int, next));
            }
            res = next;
            i = i + 1;
        }
        res
    }

    /// Multiply every coefficient by a scalar, through the caller's `times`
    /// closure; the length is unchanged.
    pub fn scalar_dot<F: Fn(T) -> T>(&self, times: F) -> (r: Self)
        requires
            forall|x: T| #[trigger] call_requires(times, (x,)),
        ensures
            r@.len() == self@.len(),
            forall|i: int|
                0 <= i < self@.len() ==> call_ensures(times, (self@[i],), #[trigger] r@[i]),
    {
        let mut coefs: Vec<T> = Vec::new();
        let mut i: usize = 0;
        while i < self.coefs.len()
            invariant
                i <= self@.len(),
                coefs@.len() == i,
                forall|x: T| #[trigger] call_requires(times, (x,)),
                forall|j: int| 0 <= j < i ==> call_ensures(times, (self@[j],), #[trigger] coefs@[j]),
            decreases self@.len() - i,
        {
            coefs.push(times(self.coefs[i]));
            i = i + 1;
        }
        Polynome { coefs }
    }

    /// Elementwise sum over the full length of the longer operand, the
    /// shorter one padded with `zero`: no term of either operand is dropped.
    pub fn add<P: Fn(T, T) -> T>(&self, other: &Self, zero: T, plus: P) -> (r: Self)
        requires
            forall|x: T, y: T| #[trigger] call_requires(plus, (x, y)),
        ensures
            r@.len() == vstd::math::max(self@.len() as int, other@.len() as int),
            forall|i: int|
                0 <= i < r@.len() ==> call_ensures(
                    plus,
                    (coef_or(self@, i, zero), coef_or(other@, i, zero)),
                    #[trigger] r@[i],
                ),
    {
        let max_len = if self.coefs.len() >= other.coefs.len() {
            self.coefs.len()
        } else {
            other.coefs.len()
        };
        let mut coefs: Vec<T> = Vec::new();
        let mut i: usize = 0;
        while i < max_len
            invariant
                i <= max_len,
                max_len == vstd::math::max(self@.len() as int, other@.len() as int),
                coefs@.len() == i,
                forall|x: T, y: T| #[trigger] call_requires(plus, (x, y)),
                forall|j: int|
                    0 <= j < i ==> call_ensures(
                        plus,
                        (coef_or(self@, j, zero), coef_or(other@, j, zero)),
                        #[trigger] coefs@[j],
                    ),
            decreases max_len - i,
        {
            let a = if i < self.coefs.len() {
                self.coefs[i]
            } else {
                zero
            };
            let b = if i < other.coefs.len() {
                other.coefs[i]
            } else {
                zero
            };
            coefs.push(plus(a, b));
            i = i + 1;
        }
        Polynome { coefs }
    }

    /// Discrete convolution: the result has length
    /// `len(self) + len(other) - 1`, and its coefficient of degree `k` is a
    /// fold of `plus` over the products `times(self[j], other[k - j])` for
    /// `j` in `[0, k]`, out-of-range coefficients read as `zero`.
    pub fn multiply<P: Fn(T, T) -> T, M: Fn(T, T) -> T>(
        &self,
        other: &Self,
        zero: T,
        plus: P,
        times: M,
    ) -> (r: Self)
        requires
            self@.len() >= 1,
            other@.len() >= 1,
            self@.len() + other@.len() - 1 <= usize::MAX,
            forall|x: T, y: T| #[trigger] call_requires(plus, (x, y)),
            forall|x: T, y: T| #[trigger] call_requires(times, (x, y)),
        ensures
            r@.len() == self@.len() + other@.len() - 1,
            forall|k: int|
                0 <= k < r@.len() ==> conv_sum(
                    plus,
                    times,
                    self@,
                    other@,
                    zero,
                    k,
                    k + 1,
                    #[trigger] r@[k],
                ),
    {
        let deg = (self.coefs.len() - 1) + (other.coefs.len() - 1) + 1;
        let mut coefs: Vec<T> = Vec::new();
        let mut k: usize = 0;
        while k < deg
            invariant
                k <= deg,
                deg == self@.len() + other@.len() - 1,
                coefs@.len() == k,
                forall|x: T, y: T| #[trigger] call_requires(plus, (x, y)),
                forall|x: T, y: T| #[trigger] call_requires(times, (x, y)),
                forall|k2: int|
                    0 <= k2 < k ==> conv_sum(
                        plus,
                        times,
                        self@,
                        other@,
                        zero,
                        k2,
                        k2 + 1,
                        #[trigger] coefs@[k2],
                    ),
            decreases deg - k,
        {
            let mut acc = zero;
            let mut j: usize = 0;
            while j <= k
                invariant
                    j <= k + 1,
                    k < deg,
                    forall|x: T, y: T| #[trigger] call_requires(plus, (x, y)),
                    forall|x: T, y: T| #[trigger] call_requires(times, (x, y)),
                    conv_sum(plus, times, self@, other@, zero, k as int, j as int, acc),
                decreases k + 1 - j,
            {
                let a = if j < self.coefs.len() {
                    self.coefs[j]
                } else {
                    zero
                };
                let b = if k - j < other.coefs.len() {
                    other.coefs[k - j]
                } else {
                    zero
                };
                let prod = times(a, b);
                let next = plus(acc, prod);
                proof {
                    assert(conv_sum(plus, times, self@, other@, zero, k as int, (j + 1) as int, next));
                }
                acc = next;
                j = j + 1;
            }
            coefs.push(acc);
            k = k + 1;
        }
        Polynome { coefs }
    }

    /// Term-wise derivative: the constant term is dropped and the remaining
    /// coefficients shift down one degree, each put through
    /// `times_index(i + 1, coefs[i + 1])` (expected to compute
    /// `(i + 1) * coefs[i + 1]`). A constant or empty polynomial yields the
    /// single-term zero polynomial.
    pub fn derivative<F: Fn(usize, T) -> T>(&self, zero: T, times_index: F) -> (r: Self)
        requires
            forall|i: usize, x: T| #[trigger] call_requires(times_index, (i, x)),
        ensures
            self@.len() <= 1 ==> r@.len() == 1 && r@[0] == zero,
            self@.len() > 1 ==> r@.len() == self@.len() - 1,
            self@.len() > 1 ==> forall|i: int|
                0 <= i < r@.len() ==> call_ensures(
                    times_index,
                    (((i + 1) as usize), self@[i + 1]),
                    #[trigger] r@[i],
                ),
    {
        if self.coefs.len() <= 1 {
            let mut coefs: Vec<T> = Vec::new();
            coefs.push(zero);
            return Polynome { coefs };
        }
        let mut coefs: Vec<T> = Vec::new();
        let mut i: usize = 1;
        while i < self.coefs.len()
            invariant
                1 <= i <= self@.len(),
                coefs@.len() == i - 1,
                forall|j: usize, x: T| #[trigger] call_requires(times_index, (j, x)),
                forall|j: int|
                    0 <= j < i - 1 ==> call_ensures(
                        times_index,
                        (((j + 1) as usize), self@[j + 1]),
                        #[trigger] coefs@[j],
                    ),
            decreases self@.len() - i,
        {
            coefs.push(times_index(i, self.coefs[i]));
            i = i + 1;
        }
        Polynome { coefs }
    }

    /// Antiderivative with the integration constant fixed at `zero`: the
    /// result is one longer, starts with `zero`, and carries
    /// `div_index(coefs[i], i + 1)` (expected to compute `coefs[i] / (i + 1)`)
    /// at degree `i + 1`.
    pub fn primitive<F: Fn(T, usize) -> T>(&self, zero: T, div_index: F) -> (r: Self)
        requires
            self@.len() + 1 <= usize::MAX,
            forall|x: T, i: usize| #[trigger] call_requires(div_index, (x, i)),
        ensures
            r@.len() == self@.len() + 1,
            r@[0] == zero,
            forall|i: int|
                0 <= i < self@.len() ==> call_ensures(
                    div_index,
                    (self@[i], ((i + 1) as usize)),
                    #[trigger] r@[i + 1],
                ),
    {
        let mut coefs: Vec<T> = Vec::new();
        coefs.push(zero);
        let mut i: usize = 0;
        while i < self.coefs.len()
            invariant
                i <= self@.len(),
                coefs@.len() == i + 1,
                coefs@[0] == zero,
                forall|x: T, j: usize| #[trigger] call_requires(div_index, (x, j)),
                forall|j: int|
                    0 <= j < i ==> call_ensures(
                        div_index,
                        (self@[j], ((j + 1) as usize)),
                        #[trigger] coefs@[j + 1],
                    ),
            decreases self@.len() - i,
        {
            coefs.push(div_index(self.coefs[i], i + 1));
            i = i + 1;
        }
        Polynome { coefs }
    }
}

} // verus!
