pub mod mirror;
