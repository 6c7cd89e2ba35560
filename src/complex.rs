//! Scalar types: the capabilities a ring coefficient must offer, and complex
//! numbers built over a real scalar.

use vstd::prelude::*;

verus! {

/// What a ring coefficient must support: zero, one, addition, subtraction,
/// negation and multiplication.
///
/// Each operation is tied to a spec function that names its result, so that
/// the contracts of the ring operations can state exactly which scalar
/// operations produce each coefficient, and in which order.
pub trait Number: Sized + Copy {
    spec fn zero_spec() -> Self;

    spec fn one_spec() -> Self;

    spec fn add_spec(a: Self, b: Self) -> Self;

    spec fn sub_spec(a: Self, b: Self) -> Self;

    spec fn neg_spec(a: Self) -> Self;

    spec fn mul_spec(a: Self, b: Self) -> Self;

    fn zero() -> (r: Self)
        ensures
            r == Self::zero_spec(),
    ;

    fn one() -> (r: Self)
        ensures
            r == Self::one_spec(),
    ;

    fn plus(self, other: Self) -> (r: Self)
        ensures
            r == Self::add_spec(self, other),
    ;

    fn minus(self, other: Self) -> (r: Self)
        ensures
            r == Self::sub_spec(self, other),
    ;

    fn negated(self) -> (r: Self)
        ensures
            r == Self::neg_spec(self),
    ;

    fn times(self, other: Self) -> (r: Self)
        ensures
            r == Self::mul_spec(self, other),
    ;
}

/// A scalar that can serve as the real and imaginary part of a `Complex`.
pub trait RealNumber: Number {
}

/// Machine integers form the ring Z/2^64: every operation wraps.
impl Number for i64 {
    open spec fn zero_spec() -> i64 {
        0
    }

    open spec fn one_spec() -> i64 {
        1
    }

    open spec fn add_spec(a: i64, b: i64) -> i64 {
        a.wrapping_add(b)
    }

    open spec fn sub_spec(a: i64, b: i64) -> i64 {
        a.wrapping_sub(b)
    }

    open spec fn neg_spec(a: i64) -> i64 {
        (0i64).wrapping_sub(a)
    }

    open spec fn mul_spec(a: i64, b: i64) -> i64 {
        a.wrapping_mul(b)
    }

    fn zero() -> (r: i64) {
        0
    }

    fn one() -> (r: i64) {
        1
    }

    fn plus(self, other: i64) -> (r: i64) {
        self.wrapping_add(other)
    }

    fn minus(self, other: i64) -> (r: i64) {
        self.wrapping_sub(other)
    }

    fn negated(self) -> (r: i64) {
        (0i64).wrapping_sub(self)
    }

    fn times(self, other: i64) -> (r: i64) {
        self.wrapping_mul(other)
    }
}

impl RealNumber for i64 {
}

/// A real scalar that can drive the fast Fourier transform: it supplies the
/// primitive roots of unity and the division by the transform length, which
/// only an approximate real type can compute.
pub trait FftReal: RealNumber {
    /// The pair (cos(2π/n), sin(2π/n)) in this scalar type.
    spec fn unit_root_spec(n: usize) -> (Self, Self);

    /// `x` divided by `n`.
    spec fn div_len_spec(x: Self, n: usize) -> Self;

    fn unit_root(n: usize) -> (r: (Self, Self))
        requires
            n > 0,
        ensures
            r == Self::unit_root_spec(n),
    ;

    fn div_len(x: Self, n: usize) -> (r: Self)
        requires
            n > 0,
        ensures
            r == Self::div_len_spec(x, n),
    ;
}

/// A complex number over a real scalar type.
#[derive(Clone, Copy, Debug, PartialEq)]
pub struct Complex<T: RealNumber> {
    r: T,
    i: T,
}

impl<T: RealNumber> Complex<T> {
    /// The real part.
    pub closed spec fn re(self) -> T {
        self.r
    }

    /// The imaginary part.
    pub closed spec fn im(self) -> T {
        self.i
    }

    /// The complex number with real part `re` and imaginary part `im`.
    pub closed spec fn from_parts(re: T, im: T) -> Self {
        Complex { r: re, i: im }
    }

    /// The complex conjugate.
    pub closed spec fn conj_spec(self) -> Self {
        Complex { r: self.r, i: T::neg_spec(self.i) }
    }

    /// The complex number re_part + im_part·i.
    pub fn new(re_part: T, im_part: T) -> (r: Self)
        ensures
            r == Self::from_parts(re_part, im_part),
            r.re() == re_part,
            r.im() == im_part,
    {
        Complex { r: re_part, i: im_part }
    }

    /// The componentwise product.
    pub fn dot(self, other: Self) -> (r: Self)
        ensures
            r.re() == T::mul_spec(self.re(), other.re()),
            r.im() == T::mul_spec(self.im(), other.im()),
    {
        Complex { r: self.r.times(other.r), i: self.i.times(other.i) }
    }

    /// The real part.
    pub fn real_part(&self) -> (r: T)
        ensures
            r == self.re(),
    {
        self.r
    }

    /// The real part, to be written.
    pub fn real_mut(&mut self) -> (r: &mut T)
        ensures
            *r == old(self).re(),
            final(self).re() == *final(r),
            final(self).im() == old(self).im(),
    {
        &mut self.r
    }

    /// The imaginary part.
    pub fn imag_part(&self) -> (r: T)
        ensures
            r == self.im(),
    {
        self.i
    }

    /// The imaginary part, to be written.
    pub fn imag_mut(&mut self) -> (r: &mut T)
        ensures
            *r == old(self).im(),
            final(self).im() == *final(r),
            final(self).re() == old(self).re(),
    {
        &mut self.i
    }

    /// The complex conjugate: the imaginary part negated.
    pub fn conj(self) -> (r: Self)
        ensures
            r == self.conj_spec(),
            r.re() == self.re(),
            r.im() == T::neg_spec(self.im()),
    {
        Complex { r: self.r, i: self.i.negated() }
    }
}

impl<T: RealNumber> From<(T, T)> for Complex<T> {
    /// The complex number with parts (real, imaginary).
    fn from(t: (T, T)) -> (r: Complex<T>) {
        Complex::new(t.0, t.1)
    }
}

impl<T: RealNumber> vstd::std_specs::convert::FromSpecImpl<(T, T)> for Complex<T> {
    open spec fn obeys_from_spec() -> bool {
        true
    }

    open spec fn from_spec(t: (T, T)) -> Complex<T> {
        Complex::from_parts(t.0, t.1)
    }
}

impl<T: FftReal> Complex<T> {
    /// Both parts divided by `n`.
    pub closed spec fn div_len_spec(self, n: usize) -> Self {
        Complex { r: T::div_len_spec(self.r, n), i: T::div_len_spec(self.i, n) }
    }

    /// Both parts divided by `n`.
    pub fn div_len(self, n: usize) -> (r: Self)
        requires
            n > 0,
        ensures
            r == self.div_len_spec(n),
    {
        Complex { r: T::div_len(self.r, n), i: T::div_len(self.i, n) }
    }
}

/// A scalar that can be carried into the complex working type of the fast
/// Fourier transform and brought back from it.
pub trait Transformable: Number {
    type Real: FftReal;

    spec fn lift_spec(x: Self) -> Complex<Self::Real>;

    spec fn project_spec(c: Complex<Self::Real>) -> Self;

    /// This scalar as a complex working value.
    fn lift(self) -> (r: Complex<Self::Real>)
        ensures
            r == Self::lift_spec(self),
    ;

    /// A complex working value brought back to this scalar type.
    fn project(c: Complex<Self::Real>) -> (r: Self)
        ensures
            r == Self::project_spec(c),
    ;
}

/// Complex numbers are their own working type.
impl<R: FftReal> Transformable for Complex<R> {
    type Real = R;

    open spec fn lift_spec(x: Self) -> Complex<R> {
        x
    }

    open spec fn project_spec(c: Complex<R>) -> Self {
        c
    }

    fn lift(self) -> (r: Complex<R>) {
        self
    }

    fn project(c: Complex<R>) -> (r: Self) {
        c
    }
}

impl<T: RealNumber> Number for Complex<T> {
    open spec fn zero_spec() -> Self {
        Complex::from_parts(T::zero_spec(), T::zero_spec())
    }

    open spec fn one_spec() -> Self {
        Complex::from_parts(T::one_spec(), T::zero_spec())
    }

    open spec fn add_spec(a: Self, b: Self) -> Self {
        Complex::from_parts(T::add_spec(a.re(), b.re()), T::add_spec(a.im(), b.im()))
    }

    open spec fn sub_spec(a: Self, b: Self) -> Self {
        Complex::from_parts(T::sub_spec(a.re(), b.re()), T::sub_spec(a.im(), b.im()))
    }

    open spec fn neg_spec(a: Self) -> Self {
        Complex::from_parts(T::neg_spec(a.re()), T::neg_spec(a.im()))
    }

    /// (a.re·b.re - a.im·b.im, a.re·b.im + a.im·b.re)
    open spec fn mul_spec(a: Self, b: Self) -> Self {
        Complex::from_parts(
            T::sub_spec(T::mul_spec(a.re(), b.re()), T::mul_spec(a.im(), b.im())),
            T::add_spec(T::mul_spec(a.re(), b.im()), T::mul_spec(a.im(), b.re())),
        )
    }

    fn zero() -> (r: Self) {
        Complex { r: T::zero(), i: T::zero() }
    }

    fn one() -> (r: Self) {
        Complex { r: T::one(), i: T::zero() }
    }

    fn plus(self, other: Self) -> (r: Self) {
        Complex { r: self.r.plus(other.r), i: self.i.plus(other.i) }
    }

    fn minus(self, other: Self) -> (r: Self) {
        Complex { r: self.r.minus(other.r), i: self.i.minus(other.i) }
    }

    fn negated(self) -> (r: Self) {
        Complex { r: self.r.negated(), i: self.i.negated() }
    }

    fn times(self, other: Self) -> (r: Self) {
        let re = self.r.times(other.r).minus(self.i.times(other.i));
        let im = self.r.times(other.i).plus(self.i.times(other.r));
        Complex { r: re, i: im }
    }
}

} // verus!
