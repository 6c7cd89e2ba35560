//! Arithmetic in the polynomial ring S[x]/(x^n - 1), whose multiplication is a
//! cyclic convolution, generic over the scalar type S.

pub mod complex;
pub mod convolution;
pub mod fft;
pub mod polynomial;
pub mod viewer;
