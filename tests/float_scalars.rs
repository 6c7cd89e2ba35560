use mod_poly::complex::{Complex, FftReal, Number, RealNumber, Transformable};
use mod_poly::convolution::{convolution, convolution_for_polynomial_mult_in_modular_arithmetic, convolution_via_fft, naive_convolution};
use mod_poly::fft::{fft_forward, fft_inverse, FftError};
use mod_poly::polynomial::{ModularArithmeticError, ModularArithmeticPolynomial, Polynomial};

/// A double-precision real scalar.
#[derive(Clone, Copy, Debug, PartialEq)]
struct F64(f64);

impl Number for F64 {
    fn zero_spec() -> Self {
        F64(0.0)
    }
    fn one_spec() -> Self {
        F64(1.0)
    }
    fn add_spec(a: Self, b: Self) -> Self {
        F64(a.0 + b.0)
    }
    fn sub_spec(a: Self, b: Self) -> Self {
        F64(a.0 - b.0)
    }
    fn neg_spec(a: Self) -> Self {
        F64(-a.0)
    }
    fn mul_spec(a: Self, b: Self) -> Self {
        F64(a.0 * b.0)
    }
    fn zero() -> Self {
        F64(0.0)
    }
    fn one() -> Self {
        F64(1.0)
    }
    fn plus(self, other: Self) -> Self {
        F64(self.0 + other.0)
    }
    fn minus(self, other: Self) -> Self {
        F64(self.0 - other.0)
    }
    fn negated(self) -> Self {
        F64(-self.0)
    }
    fn times(self, other: Self) -> Self {
        F64(self.0 * other.0)
    }
}

impl RealNumber for F64 {}

impl FftReal for F64 {
    fn unit_root_spec(n: usize) -> (Self, Self) {
        Self::unit_root(n)
    }
    fn div_len_spec(x: Self, n: usize) -> Self {
        Self::div_len(x, n)
    }
    fn unit_root(n: usize) -> (Self, Self) {
        let theta = 2.0 * std::f64::consts::PI / (n as f64);
        (F64(theta.cos()), F64(theta.sin()))
    }
    fn div_len(x: Self, n: usize) -> Self {
        F64(x.0 / (n as f64))
    }
}

impl Transformable for F64 {
    type Real = F64;
    fn lift_spec(x: Self) -> Complex<F64> {
        x.lift()
    }
    fn project_spec(c: Complex<F64>) -> Self {
        Self::project(c)
    }
    fn lift(self) -> Complex<F64> {
        Complex::new(self, F64(0.0))
    }
    fn project(c: Complex<F64>) -> Self {
        c.real_part()
    }
}

/// A single-precision real scalar; its transforms run in double precision.
#[derive(Clone, Copy, Debug, PartialEq)]
struct F32(f32);

impl Number for F32 {
    fn zero_spec() -> Self {
        F32(0.0)
    }
    fn one_spec() -> Self {
        F32(1.0)
    }
    fn add_spec(a: Self, b: Self) -> Self {
        F32(a.0 + b.0)
    }
    fn sub_spec(a: Self, b: Self) -> Self {
        F32(a.0 - b.0)
    }
    fn neg_spec(a: Self) -> Self {
        F32(-a.0)
    }
    fn mul_spec(a: Self, b: Self) -> Self {
        F32(a.0 * b.0)
    }
    fn zero() -> Self {
        F32(0.0)
    }
    fn one() -> Self {
        F32(1.0)
    }
    fn plus(self, other: Self) -> Self {
        F32(self.0 + other.0)
    }
    fn minus(self, other: Self) -> Self {
        F32(self.0 - other.0)
    }
    fn negated(self) -> Self {
        F32(-self.0)
    }
    fn times(self, other: Self) -> Self {
        F32(self.0 * other.0)
    }
}

impl RealNumber for F32 {}

impl FftReal for F32 {
    fn unit_root_spec(n: usize) -> (Self, Self) {
        Self::unit_root(n)
    }
    fn div_len_spec(x: Self, n: usize) -> Self {
        Self::div_len(x, n)
    }
    fn unit_root(n: usize) -> (Self, Self) {
        let theta = 2.0 * std::f32::consts::PI / (n as f32);
        (F32(theta.cos()), F32(theta.sin()))
    }
    fn div_len(x: Self, n: usize) -> Self {
        F32(x.0 / (n as f32))
    }
}

impl Transformable for F32 {
    type Real = F64;
    fn lift_spec(x: Self) -> Complex<F64> {
        x.lift()
    }
    fn project_spec(c: Complex<F64>) -> Self {
        Self::project(c)
    }
    fn lift(self) -> Complex<F64> {
        Complex::new(F64(self.0 as f64), F64(0.0))
    }
    fn project(c: Complex<F64>) -> Self {
        F32(c.real_part().0 as f32)
    }
}

fn c32(re: f32, im: f32) -> Complex<F32> {
    Complex::new(F32(re), F32(im))
}

fn c64(re: f64, im: f64) -> Complex<F64> {
    Complex::new(F64(re), F64(im))
}

fn i_f32() -> Complex<F32> {
    c32(0.0, 1.0)
}

fn reals64(v: &[f64]) -> Vec<F64> {
    v.iter().map(|x| F64(*x)).collect()
}

fn nearly_equal_f32(a: f32, b: f32) -> bool {
    let abs_a = a.abs();
    let abs_b = b.abs();
    let diff = (a - b).abs();

    if a == b {
        true
    } else if a == 0.0 || b == 0.0 || diff < f32::MIN_POSITIVE {
        diff < f32::EPSILON
    } else {
        (diff / f32::min(abs_a + abs_b, f32::MAX)) < f32::EPSILON
    }
}

fn close64(a: f64, b: f64, tol: f64) -> bool {
    (a - b).abs() <= tol * (1.0 + a.abs().max(b.abs()))
}

#[test]
fn complex_new() {
    let a = c32(0.0, 0.0);

    assert_eq!(a.real_part(), F32(0.0));
    assert_eq!(a.imag_part(), F32(0.0));
}

#[test]
fn complex_from_tuple() {
    let a = Complex::from((F32(0.0), F32(0.0)));

    assert_eq!(a.real_part(), F32(0.0));
    assert_eq!(a.imag_part(), F32(0.0));
}

#[test]
fn complex_copy() {
    let a = c32(0.0, 0.0);
    let mut b = a;

    *b.real_mut() = F32(1.0);

    assert_eq!(a.real_part(), F32(0.0));
    assert_eq!(b.real_part(), F32(1.0));
}

#[test]
fn complex_add() {
    let a = c32(0.0, 0.0);
    let mut b = a;

    *b.real_mut() = F32(1.0);
    *b.imag_mut() = F32(1.0);

    assert_eq!(a.plus(b), b);
}

#[test]
fn complex_sub() {
    let a = c32(0.0, 0.0);
    let mut b = a;

    *b.real_mut() = F32(1.0);
    *b.imag_mut() = F32(1.0);

    assert_eq!(b.minus(a), b);
}

#[test]
fn complex_dot() {
    let a = c32(1.0, 1.0);
    let b = c32(2.0, 3.0);

    assert_eq!(Complex::dot(a, b), c32(2.0, 3.0));
}

#[test]
fn complex_mul() {
    let a = c32(1.0, 1.0);
    let b = c32(2.0, 3.0);

    assert_eq!(a.times(b), c32(-1.0, 5.0));
}

#[test]
fn complex_addassign() {
    let mut a = c32(1.0, 1.0);
    let b = c32(2.0, 3.0);

    a = a.plus(b);

    assert_eq!(a, c32(3.0, 4.0));
}

#[test]
fn complex_subassign() {
    let mut a = c32(1.0, 1.0);
    let b = c32(2.0, 3.0);

    a = a.minus(b);

    assert_eq!(a, c32(-1.0, -2.0));
}

#[test]
fn complex_mulassign() {
    let mut a = c32(1.0, 1.0);
    let b = c32(2.0, 3.0);

    a = a.times(b);

    assert_eq!(a, c32(-1.0, 5.0));
}

#[test]
fn complex_conj_and_neg() {
    let a = c32(1.0, -2.0);
    assert_eq!(a.conj(), c32(1.0, 2.0));
    assert_eq!(a.negated(), c32(-1.0, 2.0));
    assert_eq!(Complex::<F32>::one(), c32(1.0, 0.0));
    assert_eq!(Complex::<F32>::zero(), c32(0.0, 0.0));
}

#[test]
fn polynomial_empty() {
    let p = Polynomial::<F32>::new(&[]);

    assert_eq!(p.apply(F32(1000.0)), F32(0.0));
}

#[test]
fn polynomial_real() {
    let a = F64(1.0);
    let b = F64(2.0);
    let c = F64(1.0);

    let poly_1 = Polynomial::new(&[a, b, c]);

    assert_eq!(poly_1.apply(F64(2.0)), F64(9.0));
}

#[test]
fn polynomial_neg() {
    let a = F64(1.0);
    let b = F64(2.0);
    let c = F64(1.0);

    let poly_1 = Polynomial::new(&[a, b, c]);
    let poly_2 = poly_1.neg();

    assert_eq!(poly_2.apply(F64(2.0)), poly_1.apply(F64(2.0)).negated());
}

#[test]
fn polynomial_complex() {
    let a = c32(1.0, 0.0);
    let b = i_f32().times(c32(2.0, 0.0));
    let c = c32(1.0, 1.0);

    let poly_1 = Polynomial::new(&[a, b, c]);

    assert_eq!(poly_1.apply(c32(1.0, 0.0)), c32(2.0, 3.0));
}

#[test]
fn monomial() {
    let poly_1 = Polynomial::new_monomial(i_f32(), 2);

    assert_eq!(poly_1.apply(c32(2.0, 0.0)), i_f32().times(c32(4.0, 0.0)));
}

#[test]
fn mod_polynomial() {
    let mono_1 = Polynomial::new_monomial(F64(1.0), 1);
    let mono_2 = Polynomial::new_monomial(F64(1.0), 2);
    let mono_3 = Polynomial::new_monomial(F64(1.0), 3);
    let mono_4 = Polynomial::new_monomial(F64(1.0), 4);
    let mono_5 = Polynomial::new_monomial(F64(1.0), 5);
    let mono_6 = Polynomial::new_monomial(F64(1.0), 6);

    let mut mod_poly = ModularArithmeticPolynomial::new(&mono_1, 3);
    assert_eq!(mod_poly.coefs().len(), mod_poly.modulus());
    assert_eq!(mod_poly.apply(F64(2.0)), F64(2.0));

    mod_poly = ModularArithmeticPolynomial::new(&mono_2, 3);
    assert_eq!(mod_poly.coefs().len(), mod_poly.modulus());
    assert_eq!(mod_poly.apply(F64(2.0)), F64(4.0));

    mod_poly = ModularArithmeticPolynomial::new(&mono_3, 3);
    assert_eq!(mod_poly.coefs().len(), mod_poly.modulus());
    assert_eq!(mod_poly.apply(F64(2.0)), F64(1.0));

    mod_poly = ModularArithmeticPolynomial::new(&mono_4, 3);
    assert_eq!(mod_poly.coefs().len(), mod_poly.modulus());
    assert_eq!(mod_poly.apply(F64(2.0)), F64(2.0));

    mod_poly = ModularArithmeticPolynomial::new(&mono_5, 3);
    assert_eq!(mod_poly.coefs().len(), mod_poly.modulus());
    assert_eq!(mod_poly.apply(F64(2.0)), F64(4.0));

    mod_poly = ModularArithmeticPolynomial::new(&mono_6, 3);
    assert_eq!(mod_poly.coefs().len(), mod_poly.modulus());
    assert_eq!(mod_poly.apply(F64(2.0)), F64(1.0));
}

#[test]
fn add_polynomial() {
    let a = c32(1.0, 0.0);
    let b = i_f32().times(c32(2.0, 0.0));
    let c = c32(1.0, 1.0);

    let zero = c32(0.0, 0.0);

    let mut poly_1 = Polynomial::new(&[a, b, zero]);
    let mut poly_2 = Polynomial::new(&[zero, zero, c]);

    let sum_1 = poly_1.add(&poly_2);
    assert_eq!(sum_1.apply(c32(1.0, 0.0)), c32(2.0, 3.0));

    let sum_2 = poly_2.add(&poly_1);
    assert_eq!(sum_2.apply(c32(1.0, 0.0)), c32(2.0, 3.0));

    poly_1 = Polynomial::new(&[a, b, c32(1.0, 0.0)]);
    poly_2 = Polynomial::new(&[zero, zero, i_f32()]);
    let sum = poly_1.add(&poly_2);
    assert_eq!(sum.apply(c32(2.0, 0.0)), c32(5.0, 8.0));
}

#[test]
fn sub_polynomial() {
    let a = c32(1.0, 0.0);
    let b = i_f32().times(c32(2.0, 0.0));
    let c = c32(1.0, 1.0);

    let zero = c32(0.0, 0.0);

    let poly_1 = Polynomial::new(&[a, b, zero]);
    let poly_2 = Polynomial::new(&[zero, zero, c]);

    let sum_1 = poly_1.sub(&poly_2);
    assert_eq!(sum_1.apply(c32(1.0, 0.0)), c32(0.0, 1.0));
}

#[test]
fn subassign_polynomial() {
    let a = c32(1.0, 0.0);
    let b = i_f32().times(c32(2.0, 0.0));
    let c = c32(1.0, 1.0);

    let zero = c32(0.0, 0.0);

    let mut poly_1 = Polynomial::new(&[a, b, zero]);
    let poly_2 = Polynomial::new(&[zero, zero, c]);

    poly_1.sub_assign(&poly_2);
    assert_eq!(poly_1.apply(c32(1.0, 0.0)), c32(0.0, 1.0));
}

#[test]
fn add_assign_polynomial() {
    let a = c32(1.0, 0.0);
    let b = i_f32().times(c32(2.0, 0.0));
    let c = c32(1.0, 1.0);

    let zero = c32(0.0, 0.0);

    let mut poly_1 = Polynomial::new(&[a, b, zero]);
    let mut poly_2 = Polynomial::new(&[zero, zero, c]);

    let mut sum_1 = poly_1.clone();
    sum_1.add_assign(&poly_2);
    assert_eq!(sum_1.apply(c32(1.0, 0.0)), c32(2.0, 3.0));

    let mut sum_2 = poly_2.clone();
    sum_2.add_assign(&poly_1);
    assert_eq!(sum_2.apply(c32(1.0, 0.0)), c32(2.0, 3.0));

    poly_1 = Polynomial::new(&[a, b, c32(1.0, 0.0)]);
    poly_2 = Polynomial::new(&[zero, zero, i_f32()]);
    let mut sum = poly_1.clone();
    sum.add_assign(&poly_2);
    assert_eq!(sum.apply(c32(2.0, 0.0)), c32(5.0, 8.0));
}

#[test]
fn add_mod_polynomial() {
    let mono_5 = Polynomial::new_monomial(F64(1.0), 5);
    let mono_6 = Polynomial::new_monomial(F64(1.0), 6);

    let mod_poly_5 = ModularArithmeticPolynomial::new(&mono_5, 3);
    let mod_poly_6 = ModularArithmeticPolynomial::new(&mono_6, 3);

    let sum_mod_poly = mod_poly_5.add(&mod_poly_6).expect("");
    assert_eq!(sum_mod_poly.apply(F64(2.0)), F64(5.0));
}

#[test]
fn sub_mod_polynomial() {
    let mono_5 = Polynomial::new_monomial(F64(1.0), 5);
    let mono_6 = Polynomial::new_monomial(F64(1.0), 6);

    let mod_poly_5 = ModularArithmeticPolynomial::new(&mono_5, 3);
    let mod_poly_6 = ModularArithmeticPolynomial::new(&mono_6, 3);

    let sum_mod_poly = mod_poly_5.sub(&mod_poly_6).expect("");
    assert_eq!(sum_mod_poly.apply(F64(2.0)), F64(3.0));
}

#[test]
fn neg_mod_polynomial() {
    let mono_5 = Polynomial::new_monomial(F64(1.0), 5);

    let mod_poly_5 = ModularArithmeticPolynomial::new(&mono_5, 3);
    let mod_poly_6 = mod_poly_5.neg();

    assert_eq!(mod_poly_6.apply(F64(2.0)), mod_poly_5.apply(F64(2.0)).negated());
}

#[test]
fn subassign_mod_polynomial() {
    let mono_5 = Polynomial::new_monomial(F64(1.0), 5);
    let mono_6 = Polynomial::new_monomial(F64(1.0), 6);

    let mut mod_poly_5 = ModularArithmeticPolynomial::new(&mono_5, 3);
    let mod_poly_6 = ModularArithmeticPolynomial::new(&mono_6, 3);

    mod_poly_5.sub_assign(&mod_poly_6);
    assert_eq!(mod_poly_5.apply(F64(2.0)), F64(3.0));
}

#[test]
fn add_mod_polynomial_error() {
    let mono_5 = Polynomial::new_monomial(F64(1.0), 5);
    let mono_6 = Polynomial::new_monomial(F64(1.0), 6);

    let mod_poly_5 = ModularArithmeticPolynomial::new(&mono_5, 3);
    let mod_poly_6 = ModularArithmeticPolynomial::new(&mono_6, 2);

    match mod_poly_5.add(&mod_poly_6) {
        Err(ModularArithmeticError::ModulusMismatch(_, _)) => (),
        _ => panic!("Wrong error type"),
    };
}

#[test]
fn add_assign_mod_polynomial() {
    let mono_5 = Polynomial::new_monomial(F64(1.0), 5);
    let mono_6 = Polynomial::new_monomial(F64(1.0), 6);

    let mod_poly_5 = ModularArithmeticPolynomial::new(&mono_5, 3);
    let mod_poly_6 = ModularArithmeticPolynomial::new(&mono_6, 3);

    let mut sum_mod_poly = mod_poly_5.clone();
    sum_mod_poly.add_assign(&mod_poly_6);
    assert_eq!(sum_mod_poly.apply(F64(2.0)), F64(5.0));
}

#[test]
fn mult_mod_polynomial() {
    let a = c32(1.0, 0.0);
    let b = i_f32().times(c32(2.0, 0.0));
    let c = c32(1.0, 1.0);

    let mod_poly_1 = ModularArithmeticPolynomial::new(&Polynomial::new(&[a, b, c]), 3);
    let mod_poly_2 = ModularArithmeticPolynomial::new(&Polynomial::new(&[c, a, b]), 3);

    assert_eq!(mod_poly_1.apply(c32(1.0, 0.0)), c32(2.0, 3.0));
    assert_eq!(mod_poly_2.apply(c32(1.0, 0.0)), c32(2.0, 3.0));

    let prod = mod_poly_1.mul(&mod_poly_2).expect("");
    let coefs = prod.coefs();
    assert_eq!(coefs.len(), 3);
    assert!(nearly_equal_f32(coefs[0].real_part().0, -2.0));
    assert!(nearly_equal_f32(coefs[1].real_part().0, -3.0));
    assert!(nearly_equal_f32(coefs[2].real_part().0, 0.0));
    assert!(nearly_equal_f32(coefs[0].imag_part().0, 2.0));
    assert!(nearly_equal_f32(coefs[1].imag_part().0, 4.0));
    assert!(nearly_equal_f32(coefs[2].imag_part().0, 6.0));
}

#[test]
fn mult_mod_polynomial_f64() {
    let mod_poly_1 = ModularArithmeticPolynomial::<F64>::new(&Polynomial::new(&[F64(1.0), F64(2.0), F64(1.0)]), 3);
    let mod_poly_2 = ModularArithmeticPolynomial::<F64>::new(&Polynomial::new(&[F64(1.0), F64(1.0), F64(2.0)]), 3);

    assert_eq!(mod_poly_1.apply(F64(1.0)), F64(4.0));
    assert_eq!(mod_poly_2.apply(F64(1.0)), F64(4.0));

    let prod = mod_poly_1.mul(&mod_poly_2).expect("");
    let coefs = prod.coefs();
    assert_eq!(coefs.len(), 3);
    assert_eq!(coefs[0], F64(6.0));
    assert_eq!(coefs[1], F64(5.0));
    assert_eq!(coefs[2], F64(5.0));
}

#[test]
fn mult_mod_polynomial_f32() {
    let mod_poly_1 = ModularArithmeticPolynomial::<F32>::new(&Polynomial::new(&[F32(1.0), F32(2.0), F32(1.0)]), 3);
    let mod_poly_2 = ModularArithmeticPolynomial::<F32>::new(&Polynomial::new(&[F32(1.0), F32(1.0), F32(2.0)]), 3);

    assert_eq!(mod_poly_1.apply(F32(1.0)), F32(4.0));
    assert_eq!(mod_poly_2.apply(F32(1.0)), F32(4.0));

    let prod = mod_poly_1.mul(&mod_poly_2).expect("");
    let coefs = prod.coefs();
    assert_eq!(coefs.len(), 3);
    assert_eq!(coefs[0], F32(6.0));
    assert_eq!(coefs[1], F32(5.0));
    assert_eq!(coefs[2], F32(5.0));
}

#[test]
fn convolution_via_fft_test() {
    const N: usize = 100;

    let mut a = Vec::<F32>::with_capacity(N);
    let mut b = Vec::<F32>::with_capacity(N);

    for i in 0..N {
        a.push(F32(i as f32));
        b.push(F32((N - i) as f32));
    }

    let conv_classic = naive_convolution(&a, &b);
    let conv_fft = convolution_via_fft(&a, &b);

    assert_eq!(conv_classic.len(), conv_fft.len());

    for i in 0..conv_classic.len() {
        assert!(nearly_equal_f32(conv_fft[i].0, conv_classic[i].0));
    }
}

#[test]
fn fft_agrees_with_schoolbook_convolution() {
    for n in [1usize, 2, 3, 5, 8, 17, 64, 131] {
        let a: Vec<F64> = (0..n).map(|i| F64(((i * 7 + 3) % 11) as f64 - 5.0)).collect();
        let b: Vec<F64> = (0..n).map(|i| F64(((i * 5 + 1) % 13) as f64 * 0.5)).collect();
        let direct = naive_convolution(&a, &b);
        let fast = convolution_via_fft(&a, &b);
        assert_eq!(fast.len(), 2 * n - 1);
        assert_eq!(direct.len(), 2 * n - 1);
        for i in 0..direct.len() {
            assert!(close64(fast[i].0, direct[i].0, 1e-5), "n = {}, i = {}", n, i);
        }
    }
}

#[test]
fn forward_then_inverse_is_identity() {
    let a: Vec<Complex<F64>> = (0..16).map(|i| c64(i as f64 * 0.25 - 1.0, (i % 3) as f64)).collect();
    let spectrum = fft_forward(&a).unwrap();
    assert_eq!(spectrum.len(), 16);
    let back = fft_inverse(&spectrum).unwrap();
    assert_eq!(back.len(), 16);
    for i in 0..16 {
        assert!(close64(back[i].real_part().0, a[i].real_part().0, 1e-9));
        assert!(close64(back[i].imag_part().0, a[i].imag_part().0, 1e-9));
    }
}

#[test]
fn forward_of_small_inputs() {
    // With the roots e^{+i·2πk/n}, the transform of [1, 2, 3, 4] is
    // [10, -2 - 2i, -2, -2 + 2i].
    let a = vec![c64(1.0, 0.0), c64(2.0, 0.0), c64(3.0, 0.0), c64(4.0, 0.0)];
    let f = fft_forward(&a).unwrap();
    let expected = [(10.0, 0.0), (-2.0, -2.0), (-2.0, 0.0), (-2.0, 2.0)];
    for i in 0..4 {
        assert!(close64(f[i].real_part().0, expected[i].0, 1e-12), "{:?}", f);
        assert!(close64(f[i].imag_part().0, expected[i].1, 1e-12), "{:?}", f);
    }
    let one = fft_forward(&vec![c64(3.0, -1.0)]).unwrap();
    assert_eq!(one, vec![c64(3.0, -1.0)]);
}

#[test]
fn transform_rejects_bad_sizes() {
    let three = vec![c64(1.0, 0.0); 3];
    assert_eq!(fft_forward(&three), Err(FftError::InvalidTransformSize(3)));
    assert_eq!(fft_inverse(&three), Err(FftError::InvalidTransformSize(3)));
    let empty: Vec<Complex<F64>> = Vec::new();
    assert_eq!(fft_forward(&empty), Err(FftError::InvalidTransformSize(0)));
}

#[test]
fn both_multiplication_paths_agree_after_reduction() {
    for n in [3usize, 40, 131, 200] {
        let a: Vec<F64> = (0..n).map(|i| F64(((i * 3 + 1) % 7) as f64)).collect();
        let b: Vec<F64> = (0..n).map(|i| F64(((i * 2 + 5) % 9) as f64 - 4.0)).collect();
        let direct = convolution_for_polynomial_mult_in_modular_arithmetic(&a, &b).unwrap();
        let fast = convolution_via_fft(&a, &b);
        let reduced_direct = ModularArithmeticPolynomial::new(&Polynomial::new(&direct), n).coefs();
        let reduced_fast = ModularArithmeticPolynomial::new(&Polynomial::new(&fast), n).coefs();
        assert_eq!(reduced_direct.len(), n);
        assert_eq!(reduced_fast.len(), n);
        for i in 0..n {
            assert!(close64(reduced_direct[i].0, reduced_fast[i].0, 1e-9), "n = {}, i = {}", n, i);
            assert_eq!(reduced_direct[i].0, reduced_fast[i].0.round());
        }
        let dispatched = convolution(&a, &b);
        assert_eq!(dispatched.len(), if n > 130 { 2 * n - 1 } else { n });
        let ring_a = ModularArithmeticPolynomial::new(&Polynomial::new(&a), n);
        let ring_b = ModularArithmeticPolynomial::new(&Polynomial::new(&b), n);
        let product = ring_a.mul(&ring_b).unwrap();
        assert_eq!(product.modulus(), n);
        for i in 0..n {
            assert!(close64(product.coefs()[i].0, reduced_direct[i].0, 1e-9));
        }
    }
}

#[test]
fn large_ring_product_matches_known_value() {
    // (1 + x)^2 = 1 + 2x + x^2 in a ring large enough to take the transform path.
    let n = 256;
    let mut p = vec![F64(0.0); n];
    p[0] = F64(1.0);
    p[1] = F64(1.0);
    let ring = ModularArithmeticPolynomial::new(&Polynomial::new(&p), n);
    let square = ring.mul(&ring).unwrap();
    let coefs = square.coefs();
    assert_eq!(coefs.len(), n);
    assert!(close64(coefs[0].0, 1.0, 1e-9));
    assert!(close64(coefs[1].0, 2.0, 1e-9));
    assert!(close64(coefs[2].0, 1.0, 1e-9));
    for i in 3..n {
        assert!(close64(coefs[i].0, 0.0, 1e-9));
    }
    // x^255 · x = x^256 = 1 in the ring.
    let mut q = vec![F64(0.0); n];
    q[n - 1] = F64(1.0);
    let mut x = vec![F64(0.0); n];
    x[1] = F64(1.0);
    let wrapped = ModularArithmeticPolynomial::new(&Polynomial::new(&q), n)
        .mul(&ModularArithmeticPolynomial::new(&Polynomial::new(&x), n))
        .unwrap()
        .coefs();
    assert!(close64(wrapped[0].0, 1.0, 1e-9));
    for i in 1..n {
        assert!(close64(wrapped[i].0, 0.0, 1e-9));
    }
}

#[test]
fn cyclic_convolution_over_reals() {
    let a = reals64(&[1.0, 2.0, 1.0]);
    let b = reals64(&[1.0, 1.0, 2.0]);
    assert_eq!(
        convolution_for_polynomial_mult_in_modular_arithmetic(&a, &b).unwrap(),
        reals64(&[6.0, 5.0, 5.0])
    );
}

#[test]
fn multiplying_different_moduli_fails() {
    let a = ModularArithmeticPolynomial::new(&Polynomial::new(&reals64(&[1.0, 2.0, 3.0])), 3);
    let b = ModularArithmeticPolynomial::new(&Polynomial::new(&reals64(&[1.0, 2.0])), 2);
    assert!(matches!(a.mul(&b), Err(ModularArithmeticError::ModulusMismatch(3, 2))));
}

#[test]
fn product_in_the_empty_ring() {
    let z = ModularArithmeticPolynomial::<F64>::new_zero(0);
    let p = z.mul(&z).unwrap();
    assert_eq!(p.modulus(), 0);
    assert!(p.coefs().is_empty());
}

#[test]
fn product_in_the_one_coefficient_ring() {
    let a = ModularArithmeticPolynomial::new(&Polynomial::new(&reals64(&[2.0, 3.0])), 1);
    let b = ModularArithmeticPolynomial::new(&Polynomial::new(&reals64(&[4.0])), 1);
    assert_eq!(a.coefs(), reals64(&[5.0]));
    assert_eq!(a.mul(&b).unwrap().coefs(), reals64(&[20.0]));
}
