//! Prime-field arithmetic and the polynomial transforms built on it.
pub mod certificates;
pub mod fft;
pub mod field128;
pub mod field64;
pub mod modular;
pub mod polynom;
pub mod primes;
