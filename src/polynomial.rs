//! Dense polynomials, and the ring elements of S[x]/(x^n - 1) built on them.

use vstd::prelude::*;
use crate::complex::{Number, Transformable};
use crate::convolution::{
    convolution,
    cyclic_convolution_spec,
    cyclic_partial,
    dispatch_spec,
    linear_convolution_spec,
    linear_partial,
    wrap_index,
    FFT_THRESHOLD,
};

verus! {

/// base^exp by repeated squaring: the spec mirrors the order in which the
/// squarings and products are taken.
pub open spec fn power_spec<T: Number>(base: T, exp: nat) -> T
    decreases exp,
{
    if exp == 0 {
        T::one_spec()
    } else if exp == 1 {
        base
    } else if exp % 2 == 0 {
        power_spec(T::mul_spec(base, base), exp / 2)
    } else {
        T::mul_spec(base, power_spec(T::mul_spec(base, base), exp / 2))
    }
}

/// Integer power by repeated squaring, in O(log exp) multiplications.
pub fn pow<T: Number>(base: T, exp: usize) -> (r: T)
    ensures
        r == power_spec(base, exp as nat),
    decreases exp,
{
    if exp == 0 {
        T::one()
    } else if exp == 1 {
        base
    } else if exp % 2 == 0 {
        pow(base.times(base), exp / 2)
    } else {
        base.times(pow(base.times(base), exp / 2))
    }
}

/// x^d, multiplied up from one: ((1·x)·x)···.
pub open spec fn monomial_power<T: Number>(x: T, d: nat) -> T
    decreases d,
{
    if d == 0 {
        T::one_spec()
    } else {
        T::mul_spec(monomial_power(x, (d - 1) as nat), x)
    }
}

/// Σ_{d < k} c[d]·x^d, summed from degree 0 upward.
pub open spec fn eval_prefix<T: Number>(c: Seq<T>, x: T, k: nat) -> T
    decreases k,
{
    if k == 0 {
        T::zero_spec()
    } else {
        T::add_spec(
            eval_prefix(c, x, (k - 1) as nat),
            T::mul_spec(c[k - 1], monomial_power(x, (k - 1) as nat)),
        )
    }
}

/// The value of the polynomial with coefficients `c` at `x`.
pub open spec fn eval_spec<T: Number>(c: Seq<T>, x: T) -> T {
    eval_prefix(c, x, c.len())
}

/// The coefficient of degree `k`, zero beyond the end.
pub open spec fn coef_or_zero<T: Number>(s: Seq<T>, k: int) -> T {
    if 0 <= k < s.len() {
        s[k]
    } else {
        T::zero_spec()
    }
}

/// Coefficientwise sum, the shorter operand extended with zeros.
pub open spec fn sum_spec<T: Number>(a: Seq<T>, b: Seq<T>) -> Seq<T> {
    Seq::new(
        if a.len() >= b.len() { a.len() } else { b.len() },
        |k: int| T::add_spec(coef_or_zero(a, k), coef_or_zero(b, k)),
    )
}

/// Coefficientwise difference, the shorter operand extended with zeros.
pub open spec fn difference_spec<T: Number>(a: Seq<T>, b: Seq<T>) -> Seq<T> {
    Seq::new(
        if a.len() >= b.len() { a.len() } else { b.len() },
        |k: int| T::sub_spec(coef_or_zero(a, k), coef_or_zero(b, k)),
    )
}

/// Coefficientwise negation.
pub open spec fn negation_spec<T: Number>(a: Seq<T>) -> Seq<T> {
    Seq::new(a.len(), |k: int| T::neg_spec(a[k]))
}

/// A polynomial with coefficients in `T`: the coefficient of degree d is at
/// index d. An empty sequence is the zero polynomial.
#[derive(Clone)]
pub struct Polynomial<T: Number> {
    coefs: Vec<T>,
}

impl<T: Number> View for Polynomial<T> {
    type V = Seq<T>;

    closed spec fn view(&self) -> Seq<T> {
        self.coefs@
    }
}

fn combine<T: Number>(a: &Vec<T>, b: &Vec<T>, subtract: bool) -> (r: Vec<T>)
    ensures
        r@ == if subtract {
            difference_spec(a@, b@)
        } else {
            sum_spec(a@, b@)
        },
{
    let len = if a.len() >= b.len() { a.len() } else { b.len() };
    let ghost target = if subtract {
        difference_spec(a@, b@)
    } else {
        sum_spec(a@, b@)
    };
    let mut out: Vec<T> = Vec::with_capacity(len);
    let mut k: usize = 0;
    while k < len
        invariant
            len == target.len(),
            k <= len,
            target == if subtract {
                difference_spec(a@, b@)
            } else {
                sum_spec(a@, b@)
            },
            out@ =~= target.subrange(0, k as int),
        decreases len - k,
    {
        let x = if k < a.len() { a[k] } else { T::zero() };
        let y = if k < b.len() { b[k] } else { T::zero() };
        if subtract {
            out.push(x.minus(y));
        } else {
            out.push(x.plus(y));
        }
        k += 1;
    }
    proof {
        assert(target.subrange(0, k as int) =~= target);
    }
    out
}

impl<T: Number> Polynomial<T> {
    /// The polynomial with coefficients `arr`, in order of degree.
    pub fn new(arr: &[T]) -> (r: Self)
        ensures
            r@ == arr@,
    {
        let mut coefs: Vec<T> = Vec::with_capacity(arr.len());
        let mut i: usize = 0;
        while i < arr.len()
            invariant
                i <= arr.len(),
                coefs@ =~= arr@.subrange(0, i as int),
            decreases arr.len() - i,
        {
            coefs.push(arr[i]);
            i += 1;
        }
        proof {
            assert(arr@.subrange(0, i as int) =~= arr@);
        }
        Polynomial { coefs }
    }

    /// The monomial coef·x^deg.
    pub fn new_monomial(coef: T, deg: usize) -> (r: Self)
        requires
            deg < usize::MAX,
        ensures
            r@ == Seq::new(deg as nat, |k: int| T::zero_spec()).push(coef),
    {
        let mut coefs: Vec<T> = Vec::with_capacity(deg + 1);
        let mut i: usize = 0;
        while i < deg
            invariant
                i <= deg,
                coefs@ =~= Seq::new(i as nat, |k: int| T::zero_spec()),
            decreases deg - i,
        {
            coefs.push(T::zero());
            i += 1;
        }
        coefs.push(coef);
        Polynomial { coefs }
    }

    /// The number of coefficients stored.
    pub fn len(&self) -> (r: usize)
        ensures
            r == self@.len(),
    {
        self.coefs.len()
    }

    /// The polynomial evaluated at `x`: Σ_d coef[d]·x^d, summed from degree 0
    /// upward while the powers of `x` are multiplied up.
    pub fn apply(&self, x: T) -> (r: T)
        ensures
            r == eval_spec(self@, x),
    {
        let mut ret = T::zero();
        let mut x_powers = T::one();
        let mut deg: usize = 0;
        while deg < self.coefs.len()
            invariant
                deg <= self@.len(),
                ret == eval_prefix(self@, x, deg as nat),
                x_powers == monomial_power(x, deg as nat),
            decreases self@.len() - deg,
        {
            ret = ret.plus(self.coefs[deg].times(x_powers));
            x_powers = x_powers.times(x);
            deg += 1;
        }
        ret
    }

    /// The coefficient of degree `n`.
    pub fn coef(&self, n: usize) -> (r: T)
        requires
            n < self@.len(),
        ensures
            r == self@[n as int],
    {
        self.coefs[n]
    }

    /// The coefficient of degree `n`, to be written.
    pub fn coef_mut(&mut self, n: usize) -> (r: &mut T)
        requires
            n < old(self)@.len(),
        ensures
            *r == old(self)@[n as int],
            final(self)@ == old(self)@.update(n as int, *final(r)),
    {
        &mut self.coefs[n]
    }

    /// The sum, the shorter operand extended with zeros.
    pub fn add(&self, other: &Self) -> (r: Self)
        ensures
            r@ == sum_spec(self@, other@),
    {
        Polynomial { coefs: combine(&self.coefs, &other.coefs, false) }
    }

    /// The difference, the shorter operand extended with zeros.
    pub fn sub(&self, other: &Self) -> (r: Self)
        ensures
            r@ == difference_spec(self@, other@),
    {
        Polynomial { coefs: combine(&self.coefs, &other.coefs, true) }
    }

    /// Adds `other` into this polynomial, which grows to the longer length.
    pub fn add_assign(&mut self, other: &Self)
        ensures
            final(self)@ == sum_spec(old(self)@, other@),
    {
        self.coefs = combine(&self.coefs, &other.coefs, false);
    }

    /// Subtracts `other` from this polynomial, which grows to the longer length.
    pub fn sub_assign(&mut self, other: &Self)
        ensures
            final(self)@ == difference_spec(old(self)@, other@),
    {
        self.coefs = combine(&self.coefs, &other.coefs, true);
    }

    /// The negation, coefficient by coefficient.
    pub fn neg(&self) -> (r: Self)
        ensures
            r@ == negation_spec(self@),
    {
        let mut coefs: Vec<T> = Vec::with_capacity(self.coefs.len());
        let mut k: usize = 0;
        while k < self.coefs.len()
            invariant
                k <= self@.len(),
                coefs@ =~= negation_spec(self@).subrange(0, k as int),
            decreases self@.len() - k,
        {
            coefs.push(self.coefs[k].negated());
            k += 1;
        }
        proof {
            assert(negation_spec(self@).subrange(0, k as int) =~= negation_spec(self@));
        }
        Polynomial { coefs }
    }
}

/// Why a ring operation refused its operands.
#[derive(Debug, PartialEq, Eq, Structural, Clone, Copy)]
pub enum ModularArithmeticError {
    /// The operands belong to different rings: (modulus of the left operand,
    /// modulus of the right operand).
    ModulusMismatch(usize, usize),
    /// A coefficient was asked for beyond the ring size: (degree, modulus).
    DegreeOutOfRange(usize, usize),
}

/// `p` cut or padded with zeros to length `n`.
pub open spec fn padded<T: Number>(p: Seq<T>, n: nat) -> Seq<T> {
    Seq::new(n, |k: int| coef_or_zero(p, k))
}

/// `p` padded to length `n`, then the coefficients of degrees n, n+1, ..., m-1
/// added, in that order, into slot (degree mod n).
pub open spec fn fold_upto<T: Number>(p: Seq<T>, n: nat, m: nat) -> Seq<T>
    decreases m,
{
    if m <= n || n == 0 {
        padded(p, n)
    } else {
        let s = fold_upto(p, n, (m - 1) as nat);
        let slot = (m - 1) % (n as int);
        s.update(slot, T::add_spec(s[slot], p[m - 1]))
    }
}

/// The representative of `p` in S[x]/(x^n - 1): every coefficient of degree
/// i >= n folded into slot i mod n, in increasing order of i, so that
/// overlapping folds accumulate.
pub open spec fn sanitize_spec<T: Number>(p: Seq<T>, n: nat) -> Seq<T> {
    fold_upto(p, n, p.len())
}

pub proof fn lemma_fold_upto_len<T: Number>(p: Seq<T>, n: nat, m: nat)
    ensures
        fold_upto(p, n, m).len() == n,
    decreases m,
{
    if m > n && n > 0 {
        lemma_fold_upto_len(p, n, (m - 1) as nat);
    }
}

/// Sanitizing a sequence that already has n coefficients leaves it as it is,
/// and sanitizing a sanitized sequence again at the same n changes nothing.
pub proof fn lemma_sanitize_idempotent<T: Number>(p: Seq<T>, n: nat)
    ensures
        p.len() == n ==> sanitize_spec(p, n) == p,
        sanitize_spec(sanitize_spec(p, n), n) == sanitize_spec(p, n),
{
    lemma_fold_upto_len(p, n, p.len());
    let s = sanitize_spec(p, n);
    assert(padded(s, n) =~= s);
    if p.len() == n {
        assert(padded(p, n) =~= p);
    }
}

/// The coefficientwise sum of two elements of the same ring.
pub open spec fn ring_sum<T: Number>(a: Seq<T>, b: Seq<T>) -> Seq<T> {
    Seq::new(a.len(), |k: int| T::add_spec(a[k], b[k]))
}

/// With machine-integer coefficients, ring addition is commutative and
/// associative, as the elementwise accumulation of a matrix product needs.
pub proof fn lemma_integer_ring_sum_laws(a: Seq<i64>, b: Seq<i64>, c: Seq<i64>)
    requires
        a.len() == b.len() == c.len(),
    ensures
        ring_sum(a, b) == ring_sum(b, a),
        ring_sum(ring_sum(a, b), c) == ring_sum(a, ring_sum(b, c)),
{
    assert(ring_sum(a, b) =~= ring_sum(b, a));
    assert(ring_sum(ring_sum(a, b), c) =~= ring_sum(a, ring_sum(b, c)));
}

/// Up to `FFT_THRESHOLD` coefficients the product takes the direct path, whose
/// result already has n coefficients: the reduction leaves it unchanged and the
/// ring product is exactly the cyclic convolution of the operands.
pub proof fn lemma_small_product_is_cyclic<T: Transformable>(a: Seq<T>, b: Seq<T>)
    requires
        a.len() == b.len(),
        a.len() <= FFT_THRESHOLD,
    ensures
        sanitize_spec(dispatch_spec(a, b), a.len()) == cyclic_convolution_spec(a, b),
{
    lemma_sanitize_idempotent(cyclic_convolution_spec(a, b), a.len());
}

proof fn lemma_fold_linear(l: Seq<i64>, n: nat, m: nat)
    requires
        n > 0,
        l.len() == 2 * n - 1,
        n <= m <= 2 * n - 1,
    ensures
        fold_upto(l, n, m).len() == n,
        forall|k: int|
            0 <= k < n ==> #[trigger] fold_upto(l, n, m)[k] == if k < m - n {
                i64::add_spec(l[k], l[k + n])
            } else {
                l[k]
            },
    decreases m,
{
    lemma_fold_upto_len(l, n, m);
    if m > n {
        lemma_fold_linear(l, n, (m - 1) as nat);
        vstd::arithmetic::div_mod::lemma_fundamental_div_mod_converse(
            m - 1,
            n as int,
            1,
            m - 1 - n,
        );
    }
}

proof fn lemma_cyclic_prefix(a: Seq<i64>, b: Seq<i64>, k: int, m: int)
    requires
        a.len() == b.len(),
        0 <= k < a.len(),
        0 <= m <= k + 1,
    ensures
        cyclic_partial(a, b, k, m) == linear_partial(a, b, k, m),
    decreases m,
{
    if m > 0 {
        lemma_cyclic_prefix(a, b, k, m - 1);
        assert(wrap_index(k, m - 1, a.len() as int) == k - (m - 1)) by {
            vstd::arithmetic::div_mod::lemma_small_mod((k - (m - 1)) as nat, a.len());
        }
    }
}

proof fn lemma_linear_skips(a: Seq<i64>, b: Seq<i64>, i: int, m: int)
    requires
        a.len() == b.len(),
        0 <= i,
        0 <= m,
    ensures
        i + 1 <= m <= a.len() ==> linear_partial(a, b, i, m) == linear_partial(a, b, i, i + 1),
        m <= i - b.len() + 1 ==> linear_partial(a, b, i, m) == 0,
    decreases m,
{
    if m > 0 {
        lemma_linear_skips(a, b, i, m - 1);
    }
}

proof fn lemma_cyclic_split(a: Seq<i64>, b: Seq<i64>, k: int, m: int)
    requires
        a.len() == b.len(),
        0 <= k < a.len() - 1,
        k + 1 <= m <= a.len(),
    ensures
        cyclic_partial(a, b, k, m) == i64::add_spec(
            linear_partial(a, b, k, k + 1),
            linear_partial(a, b, k + a.len(), m),
        ),
    decreases m,
{
    let n = a.len() as int;
    if m == k + 1 {
        lemma_cyclic_prefix(a, b, k, m);
        lemma_linear_skips(a, b, k + n, m);
    } else {
        lemma_cyclic_split(a, b, k, m - 1);
        assert(wrap_index(k, m - 1, n) == k + n - (m - 1)) by {
            vstd::arithmetic::div_mod::lemma_mod_add_multiples_vanish(k - (m - 1), n);
            vstd::arithmetic::div_mod::lemma_small_mod((k + n - (m - 1)) as nat, n as nat);
        }
    }
}

/// Reducing the schoolbook linear product of two operands of n coefficients
/// gives their cyclic convolution, for machine-integer coefficients: the
/// transform-free version of the agreement between the two multiplication
/// paths.
pub proof fn lemma_reduced_linear_is_cyclic(a: Seq<i64>, b: Seq<i64>)
    requires
        a.len() == b.len(),
        a.len() > 0,
    ensures
        sanitize_spec(linear_convolution_spec(a, b), a.len()) == cyclic_convolution_spec(a, b),
{
    let n = a.len();
    let l = linear_convolution_spec(a, b);
    lemma_fold_linear(l, n, (2 * n - 1) as nat);
    let s = sanitize_spec(l, n);
    let c = cyclic_convolution_spec(a, b);
    assert forall|k: int| 0 <= k < n implies s[k] == c[k] by {
        if k < n - 1 {
            lemma_linear_skips(a, b, k, n as int);
            lemma_cyclic_split(a, b, k, n as int);
        } else {
            lemma_cyclic_prefix(a, b, k, n as int);
        }
    }
    assert(s =~= c);
}

/// An element of the ring S[x]/(x^n - 1), whose multiplication is cyclic
/// convolution. It always holds exactly n coefficients, n being its modulus.
#[derive(Clone)]
pub struct ModularArithmeticPolynomial<T: Number> {
    polynomial: Polynomial<T>,
}

impl<T: Number> View for ModularArithmeticPolynomial<T> {
    type V = Seq<T>;

    closed spec fn view(&self) -> Seq<T> {
        self.polynomial@
    }
}

impl<T: Number> ModularArithmeticPolynomial<T> {
    /// The ring element congruent to `poly` modulo x^modulus - 1.
    pub fn new(poly: &Polynomial<T>, modulus: usize) -> (r: Self)
        ensures
            r@ == sanitize_spec(poly@, modulus as nat),
            r@.len() == modulus,
    {
        ModularArithmeticPolynomial { polynomial: Self::sanitize(poly, modulus) }
    }

    /// The zero of the ring of the given modulus.
    pub fn new_zero(modulus: usize) -> (r: Self)
        ensures
            r@ == Seq::new(modulus as nat, |k: int| T::zero_spec()),
    {
        let empty: Vec<T> = Vec::new();
        let r = Self::new(&Polynomial::new(empty.as_slice()), modulus);
        assert(r@ =~= Seq::new(modulus as nat, |k: int| T::zero_spec()));
        r
    }

    /// The value of this polynomial at `x`.
    pub fn apply(&self, x: T) -> (r: T)
        ensures
            r == eval_spec(self@, x),
    {
        self.polynomial.apply(x)
    }

    /// n, the number of coefficients of every element of this ring.
    pub fn modulus(&self) -> (r: usize)
        ensures
            r == self@.len(),
    {
        self.polynomial.len()
    }

    /// All n coefficients, in order of degree.
    pub fn coefs(&self) -> (r: Vec<T>)
        ensures
            r@ == self@,
    {
        let c = &self.polynomial.coefs;
        let mut out: Vec<T> = Vec::with_capacity(c.len());
        let mut k: usize = 0;
        while k < c.len()
            invariant
                k <= c@.len(),
                c@ == self@,
                out@ =~= c@.subrange(0, k as int),
            decreases c@.len() - k,
        {
            out.push(c[k]);
            k += 1;
        }
        proof {
            assert(c@.subrange(0, k as int) =~= c@);
        }
        out
    }

    /// The coefficient of degree `n`.
    pub fn coef(&self, n: usize) -> (r: Result<T, ModularArithmeticError>)
        ensures
            n < self@.len() <==> r is Ok,
            r is Ok ==> r->Ok_0 == self@[n as int],
            r is Err ==> r == Err::<T, _>(
                ModularArithmeticError::DegreeOutOfRange(n, self@.len() as usize),
            ),
    {
        if n >= self.modulus() {
            return Err(ModularArithmeticError::DegreeOutOfRange(n, self.modulus()));
        }
        Ok(self.polynomial.coef(n))
    }

    /// The coefficient of degree `n`, to be written.
    pub fn coef_mut(&mut self, n: usize) -> (r: Result<&mut T, ModularArithmeticError>)
        ensures
            n < old(self)@.len() <==> r is Ok,
            r is Ok ==> *r->Ok_0 == old(self)@[n as int],
            r is Ok ==> final(self)@ == old(self)@.update(n as int, *final(r->Ok_0)),
            r is Err ==> final(self)@ == old(self)@ && r == Err::<&mut T, _>(
                ModularArithmeticError::DegreeOutOfRange(n, old(self)@.len() as usize),
            ),
    {
        if n >= self.modulus() {
            return Err(ModularArithmeticError::DegreeOutOfRange(n, self.modulus()));
        }
        Ok(self.polynomial.coef_mut(n))
    }

    /// Writes `value` as the coefficient of degree `n`.
    pub fn set_coef(&mut self, n: usize, value: T) -> (r: Result<(), ModularArithmeticError>)
        ensures
            n < old(self)@.len() <==> r is Ok,
            r is Ok ==> final(self)@ == old(self)@.update(n as int, value),
            r is Err ==> final(self)@ == old(self)@ && r == Err::<(), _>(
                ModularArithmeticError::DegreeOutOfRange(n, old(self)@.len() as usize),
            ),
    {
        if n >= self.modulus() {
            return Err(ModularArithmeticError::DegreeOutOfRange(n, self.modulus()));
        }
        let c = self.polynomial.coef_mut(n);
        *c = value;
        Ok(())
    }

    /// Pads or cuts `poly` to `modulus` coefficients, then folds every
    /// coefficient of degree i >= modulus into slot i mod modulus.
    fn sanitize(poly: &Polynomial<T>, modulus: usize) -> (r: Polynomial<T>)
        ensures
            r@ == sanitize_spec(poly@, modulus as nat),
            r@.len() == modulus,
    {
        proof {
            lemma_fold_upto_len(poly@, modulus as nat, poly@.len());
        }
        let p = &poly.coefs;
        let mut ret: Vec<T> = Vec::with_capacity(modulus);
        let mut k: usize = 0;
        while k < modulus
            invariant
                k <= modulus,
                ret@ =~= padded(p@, modulus as nat).subrange(0, k as int),
            decreases modulus - k,
        {
            if k < p.len() {
                ret.push(p[k]);
            } else {
                ret.push(T::zero());
            }
            k += 1;
        }
        proof {
            assert(padded(p@, modulus as nat).subrange(0, k as int) =~= padded(p@, modulus as nat));
        }
        if modulus == 0 || p.len() <= modulus {
            return Polynomial { coefs: ret };
        }
        let size = p.len();
        let mut reduced_i: usize = 0;
        let mut i: usize = modulus;
        let ghost mut q: int = 1;
        while i < size
            invariant
                modulus > 0,
                modulus <= i <= size,
                size == p@.len(),
                reduced_i < modulus,
                i == q * modulus + reduced_i,
                ret@ == fold_upto(p@, modulus as nat, i as nat),
                ret@.len() == modulus,
            decreases size - i,
        {
            proof {
                vstd::arithmetic::div_mod::lemma_fundamental_div_mod_converse(
                    i as int,
                    modulus as int,
                    q,
                    reduced_i as int,
                );
                lemma_fold_upto_len(p@, modulus as nat, i as nat);
            }
            let v = ret[reduced_i].plus(p[i]);
            ret.set(reduced_i, v);
            reduced_i += 1;
            if reduced_i == modulus {
                reduced_i = 0;
                proof {
                    assert((q + 1) * modulus == q * modulus + modulus) by (nonlinear_arith);
                    q = q + 1;
                }
            }
            i += 1;
        }
        Polynomial { coefs: ret }
    }

    /// The sum of two elements of the same ring, coefficient by coefficient.
    pub fn add(&self, other: &Self) -> (r: Result<Self, ModularArithmeticError>)
        ensures
            self@.len() == other@.len() <==> r is Ok,
            r is Ok ==> r->Ok_0@ == ring_sum(self@, other@),
            r is Ok ==> r->Ok_0@.len() == self@.len(),
            r is Err ==> r == Err::<Self, _>(
                ModularArithmeticError::ModulusMismatch(self@.len() as usize, other@.len() as usize),
            ),
    {
        self.check_modulus(other)?;
        let r = ModularArithmeticPolynomial { polynomial: self.polynomial.add(&other.polynomial) };
        assert(r@ =~= ring_sum(self@, other@));
        Ok(r)
    }

    /// The difference of two elements of the same ring, coefficient by
    /// coefficient.
    pub fn sub(&self, other: &Self) -> (r: Result<Self, ModularArithmeticError>)
        ensures
            self@.len() == other@.len() <==> r is Ok,
            r is Ok ==> r->Ok_0@ == Seq::new(
                self@.len(),
                |k: int| T::sub_spec(self@[k], other@[k]),
            ),
            r is Err ==> r == Err::<Self, _>(
                ModularArithmeticError::ModulusMismatch(self@.len() as usize, other@.len() as usize),
            ),
    {
        self.check_modulus(other)?;
        let r = ModularArithmeticPolynomial { polynomial: self.polynomial.sub(&other.polynomial) };
        assert(r@ =~= Seq::new(self@.len(), |k: int| T::sub_spec(self@[k], other@[k])));
        Ok(r)
    }

    /// Adds `other`, of the same ring, into this element.
    pub fn add_assign(&mut self, other: &Self)
        requires
            old(self)@.len() == other@.len(),
        ensures
            final(self)@ == ring_sum(old(self)@, other@),
    {
        self.polynomial.add_assign(&other.polynomial);
        assert(self@ =~= ring_sum(old(self)@, other@));
    }

    /// Subtracts `other`, of the same ring, from this element.
    pub fn sub_assign(&mut self, other: &Self)
        requires
            old(self)@.len() == other@.len(),
        ensures
            final(self)@ == Seq::new(
                old(self)@.len(),
                |k: int| T::sub_spec(old(self)@[k], other@[k]),
            ),
    {
        self.polynomial.sub_assign(&other.polynomial);
        assert(self@ =~= Seq::new(old(self)@.len(), |k: int| T::sub_spec(old(self)@[k], other@[k])));
    }

    /// The additive inverse, coefficient by coefficient.
    pub fn neg(&self) -> (r: Self)
        ensures
            r@ == negation_spec(self@),
    {
        ModularArithmeticPolynomial { polynomial: self.polynomial.neg() }
    }

    fn check_modulus(&self, other: &Self) -> (r: Result<(), ModularArithmeticError>)
        ensures
            self@.len() == other@.len() <==> r is Ok,
            r is Err ==> r == Err::<(), _>(
                ModularArithmeticError::ModulusMismatch(self@.len() as usize, other@.len() as usize),
            ),
    {
        if self.modulus() != other.modulus() {
            return Err(ModularArithmeticError::ModulusMismatch(self.modulus(), other.modulus()));
        }
        Ok(())
    }
}

impl<T: Transformable> ModularArithmeticPolynomial<T> {
    /// The product of two elements of the same ring: the operands' coefficients
    /// are convolved (directly, or through the fast Fourier transform for large
    /// moduli) and the result folded back into the ring.
    pub fn mul(&self, other: &Self) -> (r: Result<Self, ModularArithmeticError>)
        requires
            self@.len() <= usize::MAX / 4,
        ensures
            self@.len() == other@.len() <==> r is Ok,
            r is Ok ==> r->Ok_0@ == sanitize_spec(dispatch_spec(self@, other@), self@.len()),
            r is Ok ==> r->Ok_0@.len() == self@.len(),
            r is Err ==> r == Err::<Self, _>(
                ModularArithmeticError::ModulusMismatch(self@.len() as usize, other@.len() as usize),
            ),
    {
        self.check_modulus(other)?;
        let n = self.modulus();
        if n == 0 {
            let empty: Vec<T> = Vec::new();
            proof {
                assert(dispatch_spec(self@, other@) =~= empty@);
            }
            return Ok(Self::new(&Polynomial { coefs: empty }, 0));
        }
        let c = convolution(&self.polynomial.coefs, &other.polynomial.coefs);
        Ok(Self::new(&Polynomial { coefs: c }, n))
    }
}

} // verus!
