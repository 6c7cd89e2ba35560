//! The radix-2 fast Fourier transform over complex values, for lengths that
//! are powers of two.

use vstd::prelude::*;
use crate::complex::{Complex, FftReal, Number};

verus! {

/// Why a transform refused its input.
#[derive(Debug, PartialEq, Eq, Structural, Clone, Copy)]
pub enum FftError {
    /// The length is zero or not a power of two.
    InvalidTransformSize(usize),
}

pub open spec fn is_power_of_two(n: nat) -> bool
    decreases n,
{
    if n == 0 {
        false
    } else if n == 1 {
        true
    } else {
        n % 2 == 0 && is_power_of_two(n / 2)
    }
}

/// The order in which the transform reads its input: the indices of the even
/// positions first, then those of the odd positions, each half ordered the same
/// way recursively. This is the bit-reversal permutation.
pub open spec fn oddeven_perm(m: nat) -> Seq<usize>
    decreases m,
{
    if m <= 1 {
        seq![0usize]
    } else {
        let h = oddeven_perm(m / 2);
        h.map_values(|p: usize| (2 * p) as usize) + h.map_values(|p: usize| (2 * p + 1) as usize)
    }
}

/// `a` read in the order `perm`.
pub open spec fn permuted<C>(a: Seq<C>, perm: Seq<usize>) -> Seq<C> {
    Seq::new(perm.len(), |i: int| a[perm[i] as int])
}

/// `v` multiplied by the twiddle factor `w[k * stride]`; the factor of index 0
/// is one and is left out.
pub open spec fn twiddled<C: Number>(v: C, w: Seq<C>, k: int, stride: int) -> C {
    if k == 0 {
        v
    } else {
        C::mul_spec(w[k * stride], v)
    }
}

/// The butterfly network on input already in bit-reversed order: each half is
/// transformed, then combined as (e[k] + w·o[k], e[k] - w·o[k]). `stride` is the
/// step through the twiddle table `w` at this block size.
pub open spec fn butterfly<C: Number>(y: Seq<C>, w: Seq<C>, stride: int) -> Seq<C>
    decreases y.len(),
{
    if y.len() <= 1 {
        y
    } else {
        let h = y.len() / 2;
        let e = butterfly(y.subrange(0, h as int), w, 2 * stride);
        let o = butterfly(y.subrange(h as int, y.len() as int), w, 2 * stride);
        Seq::new(
            y.len(),
            |k: int|
                if k < h {
                    C::add_spec(e[k], twiddled(o[k], w, k, stride))
                } else {
                    C::sub_spec(e[k - h], twiddled(o[k - h], w, k - h, stride))
                },
        )
    }
}

/// root^k, multiplied up from one: ((1·root)·root)···.
pub open spec fn root_power<C: Number>(root: C, k: nat) -> C
    decreases k,
{
    if k == 0 {
        C::one_spec()
    } else {
        C::mul_spec(root_power(root, (k - 1) as nat), root)
    }
}

/// The twiddle table: the first m powers of `root`.
pub open spec fn twiddles<C: Number>(root: C, m: nat) -> Seq<C> {
    Seq::new(m, |k: int| root_power(root, k as nat))
}

/// The primitive n-th root of unity e^{i·2π/n}.
pub open spec fn unit_root<R: FftReal>(n: usize) -> Complex<R> {
    Complex::from_parts(R::unit_root_spec(n).0, R::unit_root_spec(n).1)
}

/// The forward transform of `a`, of power-of-two length n, with the roots
/// e^{i·2πk/n}.
pub open spec fn forward_spec<R: FftReal>(a: Seq<Complex<R>>) -> Seq<Complex<R>> {
    let n = a.len();
    butterfly(
        permuted(a, oddeven_perm(n)),
        twiddles(unit_root::<R>(n as usize), n / 2),
        1,
    )
}

/// The inverse transform of `a`: the transform with conjugated roots, each
/// sample then divided by n.
pub open spec fn inverse_spec<R: FftReal>(a: Seq<Complex<R>>) -> Seq<Complex<R>> {
    let n = a.len();
    let t = twiddles(unit_root::<R>(n as usize), n / 2);
    let y = butterfly(
        permuted(a, oddeven_perm(n)),
        Seq::new(t.len(), |k: int| t[k].conj_spec()),
        1,
    );
    Seq::new(y.len(), |k: int| y[k].div_len_spec(n as usize))
}

proof fn lemma_double_power_of_two(p: nat)
    requires
        is_power_of_two(p),
    ensures
        is_power_of_two(2 * p),
{
    assert((2 * p) / 2 == p);
}

/// The smallest power of two that is at least `num` (one for zero).
pub fn next_power_of_2(num: usize) -> (r: usize)
    requires
        num <= usize::MAX / 2 + 1,
    ensures
        is_power_of_two(r as nat),
        r >= num,
        r == 1 || r / 2 < num,
{
    let mut p: usize = 1;
    while p < num
        invariant
            is_power_of_two(p as nat),
            num <= usize::MAX / 2 + 1,
            p == 1 || p / 2 < num,
            p >= 1,
        decreases usize::MAX - p,
    {
        proof {
            lemma_double_power_of_two(p as nat);
        }
        p = p * 2;
    }
    p
}

pub(crate) proof fn lemma_power_of_two_gap(a: nat, b: nat)
    requires
        is_power_of_two(a),
        is_power_of_two(b),
        a > b,
    ensures
        a >= 2 * b,
    decreases b,
{
    if b > 1 {
        lemma_power_of_two_gap(a / 2, b / 2);
    }
}

proof fn lemma_oddeven_perm(m: nat)
    requires
        is_power_of_two(m),
        m <= usize::MAX,
    ensures
        oddeven_perm(m).len() == m,
        forall|j: int| 0 <= j < m ==> oddeven_perm(m)[j] < m,
    decreases m,
{
    if m > 1 {
        let h = oddeven_perm(m / 2);
        lemma_oddeven_perm(m / 2);
        assert forall|j: int| 0 <= j < m implies oddeven_perm(m)[j] < m by {
            if j < m / 2 {
                assert(oddeven_perm(m)[j] == (2 * h[j]) as usize);
            } else {
                assert(oddeven_perm(m)[j] == (2 * h[j - m / 2] + 1) as usize);
            }
        }
    }
}

/// Both transforms keep the length of their input.
pub proof fn lemma_transform_len<R: FftReal>(a: Seq<Complex<R>>)
    requires
        is_power_of_two(a.len()),
        a.len() <= usize::MAX,
    ensures
        forward_spec(a).len() == a.len(),
        inverse_spec(a).len() == a.len(),
{
    lemma_oddeven_perm(a.len());
}

/// Whether `n` is a power of two.
pub fn is_power_of_2(n: usize) -> (r: bool)
    ensures
        r == is_power_of_two(n as nat),
{
    let mut m: usize = n;
    while m > 1 && m % 2 == 0
        invariant
            is_power_of_two(n as nat) == is_power_of_two(m as nat),
        decreases m,
    {
        m = m / 2;
    }
    m == 1
}

/// The bit-reversal permutation of a power-of-two `size`: the order in which the
/// transform reads its input (see `oddeven_perm`).
pub fn oddeven_sort(size: usize) -> (r: Result<Vec<usize>, FftError>)
    ensures
        is_power_of_two(size as nat) <==> r is Ok,
        r is Ok ==> r->Ok_0@ == oddeven_perm(size as nat),
        r is Err ==> r == Err::<Vec<usize>, _>(FftError::InvalidTransformSize(size)),
{
    if !is_power_of_2(size) {
        return Err(FftError::InvalidTransformSize(size));
    }
    let mut cur: Vec<usize> = vec![0];
    let mut len: usize = 1;
    proof {
        assert(cur@ =~= oddeven_perm(1));
    }
    while len < size
        invariant
            is_power_of_two(len as nat),
            is_power_of_two(size as nat),
            len <= size,
            cur@ == oddeven_perm(len as nat),
        decreases size - len,
    {
        proof {
            lemma_power_of_two_gap(size as nat, len as nat);
            lemma_oddeven_perm(len as nat);
        }
        let mut next: Vec<usize> = Vec::with_capacity(2 * len);
        let mut j: usize = 0;
        while j < len
            invariant
                cur@ == oddeven_perm(len as nat),
                cur@.len() == len,
                2 * len <= size,
                forall|t: int| 0 <= t < len ==> cur@[t] < len,
                j <= len,
                next@ =~= cur@.subrange(0, j as int).map_values(|p: usize| (2 * p) as usize),
            decreases len - j,
        {
            next.push(2 * cur[j]);
            j += 1;
        }
        let mut j: usize = 0;
        while j < len
            invariant
                cur@ == oddeven_perm(len as nat),
                cur@.len() == len,
                2 * len <= size,
                forall|t: int| 0 <= t < len ==> cur@[t] < len,
                j <= len,
                next@ =~= cur@.map_values(|p: usize| (2 * p) as usize) + cur@.subrange(
                    0,
                    j as int,
                ).map_values(|p: usize| (2 * p + 1) as usize),
            decreases len - j,
        {
            next.push(2 * cur[j] + 1);
            j += 1;
        }
        proof {
            lemma_double_power_of_two(len as nat);
            assert((2 * len) as nat / 2 == len as nat);
            assert(cur@.subrange(0, len as int) =~= cur@);
            assert(next@ =~= oddeven_perm((2 * len) as nat));
        }
        cur = next;
        len = 2 * len;
    }
    Ok(cur)
}

/// The twiddle table of a transform of length `size`: the `size / 2` powers
/// w[k] = e^{i·2πk/size}, each multiplied up from the previous one by the
/// primitive root, so that only one root is taken from the scalar type.
pub fn get_roots_of_unity<R: FftReal>(size: usize) -> (r: Vec<Complex<R>>)
    requires
        size > 0,
    ensures
        r@ == twiddles(unit_root::<R>(size), (size / 2) as nat),
{
    let half_size = size / 2;
    let (c, s) = R::unit_root(size);
    let first_root = Complex::new(c, s);
    let mut roots: Vec<Complex<R>> = Vec::with_capacity(half_size);
    if half_size == 0 {
        proof {
            assert(roots@ =~= twiddles(unit_root::<R>(size), 0));
        }
        return roots;
    }
    roots.push(Complex::one());
    let mut k: usize = 1;
    while k < half_size
        invariant
            1 <= k <= half_size,
            first_root == unit_root::<R>(size),
            roots@ =~= twiddles(first_root, k as nat),
        decreases half_size - k,
    {
        let next = roots[k - 1].times(first_root);
        roots.push(next);
        k += 1;
    }
    roots
}

/// `a` read in the order `perm`.
fn permute<C: Copy>(a: &Vec<C>, perm: &Vec<usize>) -> (r: Vec<C>)
    requires
        forall|i: int| 0 <= i < perm.len() ==> perm@[i] < a.len(),
    ensures
        r@ == permuted(a@, perm@),
{
    let mut out: Vec<C> = Vec::with_capacity(perm.len());
    let mut i: usize = 0;
    while i < perm.len()
        invariant
            i <= perm.len(),
            forall|t: int| 0 <= t < perm.len() ==> perm@[t] < a.len(),
            out@ =~= permuted(a@, perm@).subrange(0, i as int),
        decreases perm.len() - i,
    {
        out.push(a[perm[i]]);
        i += 1;
    }
    proof {
        assert(permuted(a@, perm@).subrange(0, i as int) =~= permuted(a@, perm@));
    }
    out
}

/// Runs the butterfly network in place on `x[lo..lo + len]`: both halves are
/// transformed, then each pair (x[lo + k], x[lo + k + len/2]) is combined.
fn butterfly_in_place<C: Number>(
    x: &mut Vec<C>,
    lo: usize,
    len: usize,
    w: &Vec<C>,
    stride: usize,
)
    requires
        is_power_of_two(len as nat),
        lo + len <= old(x).len(),
        stride >= 1,
        len * stride <= usize::MAX,
        len <= 1 || len * stride <= 2 * w.len(),
    ensures
        final(x)@.len() == old(x)@.len(),
        final(x)@.subrange(lo as int, lo + len) == butterfly(
            old(x)@.subrange(lo as int, lo + len),
            w@,
            stride as int,
        ),
        forall|i: int|
            0 <= i < old(x)@.len() && !(lo <= i < lo + len) ==> final(x)@[i] == old(x)@[i],
    decreases len,
{
    let ghost x0 = x@;
    if len <= 1 {
        return;
    }
    let h = len / 2;
    assert(len == 2 * h);
    assert(h * (2 * stride) == len * stride) by (nonlinear_arith)
        requires
            len == 2 * h,
    ;
    assert(2 * stride <= len * stride) by (nonlinear_arith)
        requires
            len >= 2,
    ;
    butterfly_in_place(x, lo, h, w, 2 * stride);
    let ghost x1 = x@;
    butterfly_in_place(x, lo + h, h, w, 2 * stride);
    let ghost mid = x@;
    let ghost e = mid.subrange(lo as int, lo + h);
    let ghost o = mid.subrange(lo + h, lo + len);
    let ghost y = x0.subrange(lo as int, lo + len);
    proof {
        assert(y.subrange(0, h as int) =~= x0.subrange(lo as int, lo + h));
        assert(y.subrange(h as int, len as int) =~= x0.subrange(lo + h, lo + len));
        assert(x1.subrange(lo + h, lo + len) =~= x0.subrange(lo + h, lo + len));
        assert(e =~= x1.subrange(lo as int, lo + h));
        assert(e == butterfly(y.subrange(0, h as int), w@, 2 * stride as int));
        assert(o == butterfly(y.subrange(h as int, len as int), w@, 2 * stride as int));
    }
    let mut k: usize = 0;
    while k < h
        invariant
            len == 2 * h,
            h * (2 * stride) == len * stride,
            len * stride <= 2 * w.len(),
            lo + len <= x0.len(),
            lo + len <= x.len(),
            stride >= 1,
            x@.len() == mid.len() == x0.len(),
            0 <= k <= h,
            e == mid.subrange(lo as int, lo + h),
            o == mid.subrange(lo + h, lo + len),
            forall|i: int| 0 <= i < x0.len() && !(lo <= i < lo + len) ==> x@[i] == x0[i],
            forall|i: int| lo + k <= i < lo + h ==> x@[i] == mid[i],
            forall|i: int| lo + h + k <= i < lo + len ==> x@[i] == mid[i],
            forall|i: int|
                lo <= i < lo + k ==> x@[i] == C::add_spec(
                    e[i - lo],
                    twiddled(o[i - lo], w@, i - lo, stride as int),
                ),
            forall|i: int|
                lo + h <= i < lo + h + k ==> x@[i] == C::sub_spec(
                    e[i - lo - h],
                    twiddled(o[i - lo - h], w@, i - lo - h, stride as int),
                ),
        decreases h - k,
    {
        let ev = x[lo + k];
        let od = x[lo + h + k];
        assert(ev == e[k as int]);
        assert(od == o[k as int]);
        let t = if k == 0 {
            od
        } else {
            assert(k * stride < h * stride) by (nonlinear_arith)
                requires
                    k < h,
                    stride >= 1,
            ;
            assert(h * stride * 2 == len * stride) by (nonlinear_arith)
                requires
                    h * (2 * stride) == len * stride,
            ;
            w[k * stride].times(od)
        };
        assert(t == twiddled(o[k as int], w@, k as int, stride as int));
        x.set(lo + k, ev.plus(t));
        x.set(lo + h + k, ev.minus(t));
        k += 1;
    }
    proof {
        let b = butterfly(y, w@, stride as int);
        assert forall|j: int| 0 <= j < len implies x@.subrange(lo as int, lo + len)[j] == b[j] by {
            if j < h {
                assert(x@[lo + j] == C::add_spec(e[j], twiddled(o[j], w@, j, stride as int)));
            } else {
                assert(x@[lo + j] == C::sub_spec(
                    e[j - h],
                    twiddled(o[j - h], w@, j - h, stride as int),
                ));
            }
        }
        assert(x@.subrange(lo as int, lo + len) =~= b);
    }
}

/// Runs the butterfly network over `a`, already in bit-reversed order, with
/// the twiddle table `w` of a transform of length `a.len()`.
fn fft_core<C: Number>(a: Vec<C>, w: &Vec<C>) -> (r: Vec<C>)
    requires
        is_power_of_two(a.len() as nat),
        a.len() <= 1 || a.len() <= 2 * w.len(),
    ensures
        r@ == butterfly(a@, w@, 1),
{
    let mut x = a;
    let n = x.len();
    butterfly_in_place(&mut x, 0, n, w, 1);
    proof {
        assert(x@.subrange(0, n as int) =~= x@);
        assert(a@.subrange(0, n as int) =~= a@);
    }
    x
}

/// The forward transform of `a`, whose length n must be a power of two: the
/// radix-2 butterfly network run on the bit-reversed input (see
/// `forward_spec`). In exact arithmetic its samples are Σ_j a[j]·e^{i·2πjk/n}.
pub fn fft_forward<R: FftReal>(a: &Vec<Complex<R>>) -> (r: Result<Vec<Complex<R>>, FftError>)
    ensures
        is_power_of_two(a.len() as nat) <==> r is Ok,
        r is Ok ==> r->Ok_0@ == forward_spec(a@),
        r is Err ==> r == Err::<Vec<Complex<R>>, _>(FftError::InvalidTransformSize(a.len())),
{
    let n = a.len();
    let perm = match oddeven_sort(n) {
        Ok(p) => p,
        Err(e) => return Err(e),
    };
    proof {
        lemma_oddeven_perm(n as nat);
    }
    let w = get_roots_of_unity::<R>(n);
    let x = permute(a, &perm);
    Ok(fft_core(x, &w))
}

/// The inverse transform: the forward transform with conjugated roots
/// e^{-i·2πjk/n}, every sample then divided by n (see `inverse_spec`).
pub fn fft_inverse<R: FftReal>(a: &Vec<Complex<R>>) -> (r: Result<Vec<Complex<R>>, FftError>)
    ensures
        is_power_of_two(a.len() as nat) <==> r is Ok,
        r is Ok ==> r->Ok_0@ == inverse_spec(a@),
        r is Err ==> r == Err::<Vec<Complex<R>>, _>(FftError::InvalidTransformSize(a.len())),
{
    let n = a.len();
    let perm = match oddeven_sort(n) {
        Ok(p) => p,
        Err(e) => return Err(e),
    };
    proof {
        lemma_oddeven_perm(n as nat);
    }
    let roots = get_roots_of_unity::<R>(n);
    let ghost t = roots@;
    let mut w: Vec<Complex<R>> = Vec::with_capacity(roots.len());
    let mut k: usize = 0;
    while k < roots.len()
        invariant
            k <= roots.len(),
            t == roots@,
            w@ =~= Seq::new(t.len(), |j: int| t[j].conj_spec()).subrange(0, k as int),
        decreases roots.len() - k,
    {
        w.push(roots[k].conj());
        k += 1;
    }
    proof {
        assert(w@ =~= Seq::new(t.len(), |j: int| t[j].conj_spec()));
    }
    let x = permute(a, &perm);
    let y = fft_core(x, &w);
    let mut out: Vec<Complex<R>> = Vec::with_capacity(n);
    let mut k: usize = 0;
    while k < y.len()
        invariant
            k <= y.len(),
            n == a.len(),
            n > 0,
            out@ =~= Seq::new(y@.len(), |j: int| y@[j].div_len_spec(n)).subrange(0, k as int),
        decreases y.len() - k,
    {
        out.push(y[k].div_len(n));
        k += 1;
    }
    proof {
        assert(out@ =~= Seq::new(y@.len(), |j: int| y@[j].div_len_spec(n)));
    }
    Ok(out)
}

} // verus!
