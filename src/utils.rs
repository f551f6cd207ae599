pub mod ppm;
pub mod text;
