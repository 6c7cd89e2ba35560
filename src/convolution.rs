//! Products of coefficient sequences: the direct cyclic convolution, the
//! schoolbook linear convolution, the transform-based linear convolution and
//! the size-based choice between them.

use vstd::prelude::*;
use crate::complex::{Complex, Number, Transformable};
use crate::fft::{
    fft_forward,
    fft_inverse,
    forward_spec,
    inverse_spec,
    is_power_of_two,
    next_power_of_2,
};

verus! {

/// Why a convolution refused its operands.
#[derive(Debug, PartialEq, Eq, Structural, Clone, Copy)]
pub enum ConvolutionError {
    /// The operand lengths differ or are zero: (length of `a`, length of `b`).
    InvalidConvolutionInput(usize, usize),
}

/// The index of `b` paired with `a[j]` in slot `i` of a cyclic product of
/// length `n`: (i - j) mod n.
pub open spec fn wrap_index(i: int, j: int, n: int) -> int {
    (i - j) % n
}

/// Σ_{j < k} a[j]·b[(i - j) mod n], summed from j = 0 upward.
pub open spec fn cyclic_partial<T: Number>(a: Seq<T>, b: Seq<T>, i: int, k: int) -> T
    decreases k,
{
    if k <= 0 {
        T::zero_spec()
    } else {
        T::add_spec(
            cyclic_partial(a, b, i, k - 1),
            T::mul_spec(a[k - 1], b[wrap_index(i, k - 1, a.len() as int)]),
        )
    }
}

/// The cyclic convolution of two sequences of length n:
/// result[i] = Σ_{j=0}^{n-1} a[j]·b[(i - j) mod n].
pub open spec fn cyclic_convolution_spec<T: Number>(a: Seq<T>, b: Seq<T>) -> Seq<T> {
    Seq::new(a.len(), |i: int| cyclic_partial(a, b, i, a.len() as int))
}

/// Σ a[j]·b[i - j] over the j < k with 0 <= i - j < len(b), from j = 0 upward.
pub open spec fn linear_partial<T: Number>(a: Seq<T>, b: Seq<T>, i: int, k: int) -> T
    decreases k,
{
    if k <= 0 {
        T::zero_spec()
    } else if 0 <= i - (k - 1) < b.len() {
        T::add_spec(linear_partial(a, b, i, k - 1), T::mul_spec(a[k - 1], b[i - (k - 1)]))
    } else {
        linear_partial(a, b, i, k - 1)
    }
}

/// The linear convolution of two sequences of length n, of length 2n - 1:
/// result[i] = Σ_{j} a[j]·b[i - j], over the j where both indices exist.
pub open spec fn linear_convolution_spec<T: Number>(a: Seq<T>, b: Seq<T>) -> Seq<T> {
    Seq::new((2 * a.len() - 1) as nat, |i: int| linear_partial(a, b, i, a.len() as int))
}

proof fn lemma_wrap_index(i: int, j: int, n: int)
    requires
        0 <= i < n,
        0 <= j < n,
    ensures
        wrap_index(i, j, n) == if j <= i { i - j } else { n + i - j },
{
    if j <= i {
        vstd::arithmetic::div_mod::lemma_small_mod((i - j) as nat, n as nat);
    } else {
        vstd::arithmetic::div_mod::lemma_mod_add_multiples_vanish(i - j, n);
        vstd::arithmetic::div_mod::lemma_small_mod((n + i - j) as nat, n as nat);
    }
}

/// Cyclic convolution, the product in the ring of polynomials modulo x^n - 1:
/// the result has the operands' length n, every higher-degree term wrapping
/// around onto degree (i mod n). Each slot costs n multiplications.
pub fn convolution_for_polynomial_mult_in_modular_arithmetic<T: Number>(
    a: &Vec<T>,
    b: &Vec<T>,
) -> (r: Result<Vec<T>, ConvolutionError>)
    ensures
        a.len() == b.len() && a.len() > 0 <==> r is Ok,
        r is Ok ==> r->Ok_0@ == cyclic_convolution_spec(a@, b@),
        r is Err ==> r == Err::<Vec<T>, _>(
            ConvolutionError::InvalidConvolutionInput(a.len(), b.len()),
        ),
{
    if a.len() != b.len() || a.len() == 0 {
        return Err(ConvolutionError::InvalidConvolutionInput(a.len(), b.len()));
    }
    let n = a.len();
    let mut out: Vec<T> = Vec::with_capacity(n);
    let mut i: usize = 0;
    while i < n
        invariant
            n == a.len() == b.len(),
            i <= n,
            out@.len() == i,
            forall|k: int| 0 <= k < i ==> out@[k] == cyclic_partial(a@, b@, k, n as int),
        decreases n - i,
    {
        let mut acc = T::zero();
        let mut j: usize = 0;
        while j < n
            invariant
                n == a.len() == b.len(),
                i < n,
                j <= n,
                acc == cyclic_partial(a@, b@, i as int, j as int),
            decreases n - j,
        {
            let idx: usize = if j <= i { i - j } else { n - (j - i) };
            proof {
                lemma_wrap_index(i as int, j as int, n as int);
            }
            acc = acc.plus(a[j].times(b[idx]));
            j += 1;
        }
        out.push(acc);
        i += 1;
    }
    proof {
        assert(out@ =~= cyclic_convolution_spec(a@, b@));
    }
    Ok(out)
}

/// The schoolbook linear convolution of two operands of equal length n, of
/// length 2n - 1.
pub fn naive_convolution<T: Number>(a: &Vec<T>, b: &Vec<T>) -> (r: Vec<T>)
    requires
        a.len() == b.len(),
        0 < a.len() <= usize::MAX / 2,
    ensures
        r@ == linear_convolution_spec(a@, b@),
{
    let n = a.len();
    let total: usize = 2 * n - 1;
    let mut out: Vec<T> = Vec::with_capacity(total);
    let mut i: usize = 0;
    while i < total
        invariant
            n == a.len() == b.len(),
            n > 0,
            total == 2 * n - 1,
            i <= total,
            out@.len() == i,
            forall|k: int| 0 <= k < i ==> out@[k] == linear_partial(a@, b@, k, n as int),
        decreases total - i,
    {
        let mut acc = T::zero();
        let mut j: usize = 0;
        while j < n
            invariant
                n == a.len() == b.len(),
                i < total,
                total == 2 * n - 1,
                j <= n,
                acc == linear_partial(a@, b@, i as int, j as int),
            decreases n - j,
        {
            if j <= i && i - j < n {
                acc = acc.plus(a[j].times(b[i - j]));
            }
            j += 1;
        }
        out.push(acc);
        i += 1;
    }
    proof {
        assert(out@ =~= linear_convolution_spec(a@, b@));
    }
    out
}

/// Operands of more coefficients than this are multiplied through the fast
/// Fourier transform; smaller ones directly, where the transform's setup costs
/// more than it saves. The choice affects speed only.
pub const FFT_THRESHOLD: usize = 130;

/// The length of the transform used for operands of length n: the smallest
/// power of two that is at least `m` = 2n.
pub open spec fn transform_length(m: nat) -> nat {
    choose|t: nat| is_power_of_two(t) && t >= m && (t == 1 || t / 2 < m)
}

/// `a` lifted to the complex working type, padded with lifted zeros up to
/// length `target`.
pub open spec fn lifted_padded<T: Transformable>(a: Seq<T>, target: nat) -> Seq<
    Complex<T::Real>,
> {
    Seq::new(
        target,
        |i: int|
            if i < a.len() {
                T::lift_spec(a[i])
            } else {
                T::lift_spec(T::zero_spec())
            },
    )
}

/// The linear convolution of `a` and `b` (equal length n) as the transform
/// computes it: both operands lifted and padded to `transform_length(2n)`,
/// transformed, multiplied sample by sample, transformed back, and the first
/// 2n - 1 samples projected back to the scalar type.
pub open spec fn fft_convolution_spec<T: Transformable>(a: Seq<T>, b: Seq<T>) -> Seq<T> {
    let target = transform_length(2 * a.len());
    let fa = forward_spec(lifted_padded(a, target));
    let fb = forward_spec(lifted_padded(b, target));
    let prod = Seq::new(target, |k: int| Complex::<T::Real>::mul_spec(fa[k], fb[k]));
    let c = inverse_spec(prod);
    Seq::new((2 * a.len() - 1) as nat, |i: int| T::project_spec(c[i]))
}

/// What the size-based choice computes for operands of length n: the cyclic
/// convolution (length n) up to `FFT_THRESHOLD`, the transform-based linear
/// convolution (length 2n - 1) above it.
pub open spec fn dispatch_spec<T: Transformable>(a: Seq<T>, b: Seq<T>) -> Seq<T> {
    if a.len() > FFT_THRESHOLD {
        fft_convolution_spec(a, b)
    } else {
        cyclic_convolution_spec(a, b)
    }
}

proof fn lemma_transform_length(t: nat, m: nat)
    requires
        m >= 1,
        is_power_of_two(t),
        t >= m,
        t == 1 || t / 2 < m,
    ensures
        transform_length(m) == t,
{
    let c = transform_length(m);
    assert(is_power_of_two(c) && c >= m && (c == 1 || c / 2 < m));
    if c > t {
        crate::fft::lemma_power_of_two_gap(c, t);
    } else if t > c {
        crate::fft::lemma_power_of_two_gap(t, c);
    }
}

fn lift_padded<T: Transformable>(a: &Vec<T>, target: usize) -> (r: Vec<Complex<T::Real>>)
    requires
        a.len() <= target,
    ensures
        r@ == lifted_padded(a@, target as nat),
{
    let mut out: Vec<Complex<T::Real>> = Vec::with_capacity(target);
    let mut i: usize = 0;
    while i < target
        invariant
            a.len() <= target,
            i <= target,
            out@ =~= lifted_padded(a@, target as nat).subrange(0, i as int),
        decreases target - i,
    {
        if i < a.len() {
            out.push(a[i].lift());
        } else {
            out.push(T::zero().lift());
        }
        i += 1;
    }
    proof {
        assert(lifted_padded(a@, target as nat).subrange(0, i as int) =~= lifted_padded(
            a@,
            target as nat,
        ));
    }
    out
}

/// The linear convolution of two operands of equal length n computed through
/// the fast Fourier transform in O(n log n): the operands are lifted to the
/// complex working type, padded to the next power of two at or above 2n,
/// transformed, multiplied sample by sample and transformed back; the first
/// 2n - 1 samples are projected back to the scalar type.
pub fn convolution_via_fft<T: Transformable>(a: &Vec<T>, b: &Vec<T>) -> (r: Vec<T>)
    requires
        a.len() == b.len(),
        0 < a.len() <= usize::MAX / 4,
    ensures
        r@ == fft_convolution_spec(a@, b@),
        r@.len() == 2 * a.len() - 1,
{
    let size = a.len();
    let target = next_power_of_2(2 * size);
    proof {
        lemma_transform_length(target as nat, (2 * size) as nat);
    }
    let ac = lift_padded(a, target);
    let bc = lift_padded(b, target);
    let fa = fft_forward(&ac).unwrap();
    let fb = fft_forward(&bc).unwrap();
    proof {
        crate::fft::lemma_transform_len(ac@);
        crate::fft::lemma_transform_len(bc@);
    }
    let mut prod: Vec<Complex<T::Real>> = Vec::with_capacity(target);
    let mut k: usize = 0;
    while k < target
        invariant
            k <= target,
            fa@.len() == target,
            fb@.len() == target,
            prod@ =~= Seq::new(
                target as nat,
                |j: int| Complex::<T::Real>::mul_spec(fa@[j], fb@[j]),
            ).subrange(0, k as int),
        decreases target - k,
    {
        prod.push(fa[k].times(fb[k]));
        k += 1;
    }
    proof {
        assert(prod@ =~= Seq::new(
            target as nat,
            |j: int| Complex::<T::Real>::mul_spec(fa@[j], fb@[j]),
        ));
    }
    let c = fft_inverse(&prod).unwrap();
    proof {
        crate::fft::lemma_transform_len(prod@);
    }
    let total: usize = 2 * size - 1;
    let mut out: Vec<T> = Vec::with_capacity(total);
    let mut i: usize = 0;
    while i < total
        invariant
            i <= total,
            total < target,
            c@.len() == target,
            out@ =~= Seq::new(total as nat, |j: int| T::project_spec(c@[j])).subrange(0, i as int),
        decreases total - i,
    {
        out.push(T::project(c[i]));
        i += 1;
    }
    proof {
        assert(out@ =~= Seq::new(total as nat, |j: int| T::project_spec(c@[j])));
    }
    out
}

/// The product coefficients of two operands of equal length n, by the cheaper
/// algorithm: the direct cyclic convolution (n coefficients) up to
/// `FFT_THRESHOLD`, the transform-based linear convolution (2n - 1
/// coefficients) above it. Both are reduced the same way by the ring.
pub fn convolution<T: Transformable>(a: &Vec<T>, b: &Vec<T>) -> (r: Vec<T>)
    requires
        a.len() == b.len(),
        0 < a.len() <= usize::MAX / 4,
    ensures
        r@ == dispatch_spec(a@, b@),
{
    if a.len() > FFT_THRESHOLD {
        convolution_via_fft(a, b)
    } else {
        convolution_for_polynomial_mult_in_modular_arithmetic(a, b).unwrap()
    }
}

} // verus!
