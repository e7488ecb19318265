//! Integer and text logic of a continuous wavelet transform pipeline:
//! power-of-two sizing, padding, the choice between direct and spectral
//! convolution, trimming to the valid region, work scheduling across
//! workers, image resampling and command-line argument checks.
pub mod argument_validation;
pub mod signals;
pub mod utils;
pub mod visualization;
