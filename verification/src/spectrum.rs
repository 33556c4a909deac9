//! The shared data model: spectra, raw signals, and the error taxonomy.

use vstd::prelude::*;

verus! {

/// Everything a pipeline operation can fail with.
#[derive(Debug, Clone, Copy, PartialEq, Eq, Structural)]
pub enum SpectrumError {
    /// The audio container is malformed or its samples cannot be read.
    DecodeError,
    /// The input's extension matches neither supported format.
    UnsupportedFormat,
    /// A cached spectrum record is truncated or malformed.
    CorruptRecord,
    /// A zero-length sample sequence reached the transform.
    EmptySignal,
    /// Zero spectra reached the aggregator.
    EmptyInput,
}

/// A decoded time-domain signal: integer amplitude samples at a sampling rate.
pub struct RawSignal {
    pub samples: Vec<i16>,
    pub sample_rate: u32,
}

/// One frequency spectrum: bin frequencies in millihertz, one magnitude per
/// bin, and a display label.
pub struct Spectrum {
    pub frequencies: Vec<u64>,
    pub magnitudes: Vec<u64>,
    pub label: String,
}

impl Spectrum {
    /// The data-model invariant: one magnitude per frequency bin, and bin
    /// frequencies that never decrease.
    pub open spec fn wf(self) -> bool {
        &&& self.frequencies@.len() == self.magnitudes@.len()
        &&& forall|i: int, j: int|
            0 <= i <= j < self.frequencies@.len() ==> self.frequencies@[i] <= self.frequencies@[j]
    }

    pub fn new(frequencies: Vec<u64>, magnitudes: Vec<u64>, label: String) -> (s: Spectrum)
        ensures
            s.frequencies@ == frequencies@,
            s.magnitudes@ == magnitudes@,
            s.label@ == label@,
    {
        Spectrum { frequencies, magnitudes, label }
    }

    /// An empty spectrum: no bins, no label.
    pub fn empty() -> (s: Spectrum)
        ensures
            s.wf(),
            s.frequencies@.len() == 0,
            s.magnitudes@.len() == 0,
            s.label@.len() == 0,
    {
        Spectrum { frequencies: Vec::new(), magnitudes: Vec::new(), label: String::new() }
    }

    /// How many bins the spectrum has.
    pub fn bin_count(&self) -> (n: usize)
        ensures
            n == self.magnitudes@.len(),
    {
        self.magnitudes.len()
    }

    /// Index-aligned read access for the rendering collaborator: the pair of
    /// bin frequency (millihertz) and magnitude at one bin.
    pub fn pair_at(&self, i: usize) -> (p: (u64, u64))
        requires
            i < self.frequencies@.len(),
            i < self.magnitudes@.len(),
        ensures
            p.0 == self.frequencies@[i as int],
            p.1 == self.magnitudes@[i as int],
    {
        (self.frequencies[i], self.magnitudes[i])
    }
}

} // verus!
