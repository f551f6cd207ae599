//! The verified core of a Monte Carlo path tracer: the decisions of the
//! radiance estimator, the collection of rendered rows, and the encoding of
//! the finished image as ASCII PPM text.

pub mod materials;
pub mod ray;
pub mod scene;
pub mod utils;
