//! Spectral analysis and aggregation pipeline.
//!
//! The library decodes a time-domain signal into integer samples, computes
//! its one-sided frequency spectrum, persists and restores spectra in a
//! compact binary record, and averages a batch of spectra bin by bin.
//! Frequencies are carried in millihertz and magnitudes in whole units, so
//! every value the contracts speak of is an integer.

pub mod aggregate;
pub mod codec;
pub mod source;
pub mod spectrum;
pub mod transform;
