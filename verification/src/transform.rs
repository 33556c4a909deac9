//! The spectral transform: from a time-domain signal to a one-sided spectrum.

use vstd::prelude::*;
use crate::spectrum::{RawSignal, Spectrum, SpectrumError};
use vstd::arithmetic::div_mod::{lemma_div_is_ordered, lemma_multiply_divide_lt};

verus! {

/// The frequency, in millihertz, of bin `i` of an `n`-sample signal recorded
/// at `sample_rate` samples per second: `i * sample_rate / n` hertz, scaled
/// by 1000 and rounded down.
pub open spec fn bin_freq_millis(i: int, sample_rate: u32, n: int) -> int
    recommends
        n > 0,
{
    i * sample_rate * 1000 / n
}

/// Relies on rustfft's `FftPlanner`, `Fft::process` and num-complex's
/// `Complex::norm`: computes the forward discrete Fourier transform of the
/// samples (taken as real values with zero imaginary part) and hands back the
/// modulus of each output coefficient, rounded down to a whole number. One
/// output value per input sample.
#[verifier::external_body]
fn fft_magnitudes(samples: &Vec<i16>) -> (r: Vec<u64>)
    requires
        samples@.len() >= 1,
    ensures
        r@.len() == samples@.len(),
{
    let mut planner = rustfft::FftPlanner::new();
    let fft = planner.plan_fft_forward(samples.len());
    let mut buffer: Vec<rustfft::num_complex::Complex32> = samples
        .iter()
        .map(|&s| rustfft::num_complex::Complex32::new(s.into(), 0u8.into()))
        .collect();
    fft.process(&mut buffer);
    buffer.iter().map(|c| c.norm() as u64).collect()
}

/// Computes the frequency of one bin without overflowing: the product is
/// formed in 128 bits and the quotient is shown to fit in 64.
fn bin_freq(i: usize, sample_rate: u32, n: usize) -> (f: u64)
    requires
        0 < n,
        i < n,
    ensures
        f == bin_freq_millis(i as int, sample_rate, n as int),
{
    proof {
        assert((i as int) * (sample_rate as int) <= u128::MAX && (i as int) * (sample_rate as int)
            * 1000 <= u128::MAX) by (nonlinear_arith)
            requires
                0 <= (i as int) <= u64::MAX as int,
                0 <= (sample_rate as int) <= u32::MAX as int,
        ;
    }
    let num: u128 = (i as u128) * (sample_rate as u128) * 1000;
    let q: u128 = num / (n as u128);
    proof {
        assert(i * sample_rate * 1000 < n * ((sample_rate as int) * 1000 + 1)) by (nonlinear_arith)
            requires
                0 <= i < n,
                0 <= sample_rate,
        ;
        lemma_multiply_divide_lt(i * sample_rate * 1000, n as int, (sample_rate as int) * 1000 + 1);
        assert(q <= u64::MAX);
    }
    q as u64
}

/// Builds the one-sided spectrum out of the transform's magnitudes: the first
/// `floor(n / 2)` of the `n` magnitudes are kept, and bin `i` is placed at
/// frequency `i * sample_rate / n` hertz (held in millihertz).
pub fn spectrum_from_magnitudes(magnitudes: Vec<u64>, sample_rate: u32, label: String) -> (s:
    Spectrum)
    requires
        magnitudes@.len() >= 1,
    ensures
        s.wf(),
        s.magnitudes@ == magnitudes@.take(magnitudes@.len() as int / 2),
        s.frequencies@.len() == magnitudes@.len() / 2,
        forall|i: int|
            0 <= i < s.frequencies@.len() ==> s.frequencies@[i] == bin_freq_millis(
                i,
                sample_rate,
                magnitudes@.len() as int,
            ),
        s.label@ == label@,
{
    let n = magnitudes.len();
    let bins = n / 2;
    let mut freqs: Vec<u64> = Vec::new();
    let mut mags: Vec<u64> = Vec::new();
    for i in 0..bins
        invariant
            bins == n / 2,
            n == magnitudes@.len(),
            n >= 1,
            freqs@.len() == i,
            mags@.len() == i,
            forall|k: int| 0 <= k < i ==> freqs@[k] == bin_freq_millis(k, sample_rate, n as int),
            forall|k: int| 0 <= k < i ==> mags@[k] == magnitudes@[k],
    {
        freqs.push(bin_freq(i, sample_rate, n));
        mags.push(magnitudes[i]);
    }
    proof {
        assert(mags@ =~= magnitudes@.take(n as int / 2));
        assert forall|i: int, j: int| 0 <= i <= j < freqs@.len() implies freqs@[i] <= freqs@[j] by {
            assert(i * sample_rate * 1000 <= j * sample_rate * 1000) by (nonlinear_arith)
                requires
                    0 <= i <= j,
                    0 <= sample_rate,
            ;
            lemma_div_is_ordered(i * sample_rate * 1000, j * sample_rate * 1000, n as int);
        }
    }
    Spectrum { frequencies: freqs, magnitudes: mags, label }
}

/// Turns a decoded signal into its one-sided frequency spectrum. An empty
/// signal is rejected; otherwise the spectrum has `floor(N / 2)` bins for an
/// `N`-sample signal, bin `i` at frequency `i * sample_rate / N` hertz. The
/// magnitude of each kept bin is the modulus of the transform's coefficient
/// there, rounded down to a whole number.
pub fn analyze(signal: &RawSignal, label: String) -> (r: Result<Spectrum, SpectrumError>)
    ensures
        r is Err <==> signal.samples@.len() == 0,
        r is Err ==> r == Err::<Spectrum, SpectrumError>(SpectrumError::EmptySignal),
        r matches Ok(s) ==> {
            &&& s.wf()
            &&& s.magnitudes@.len() == signal.samples@.len() / 2
            &&& s.frequencies@.len() == signal.samples@.len() / 2
            &&& forall|i: int|
                0 <= i < s.frequencies@.len() ==> s.frequencies@[i] == bin_freq_millis(
                    i,
                    signal.sample_rate,
                    signal.samples@.len() as int,
                )
            &&& s.label@ == label@
        },
{
    if signal.samples.len() == 0 {
        return Err(SpectrumError::EmptySignal);
    }
    let mags = fft_magnitudes(&signal.samples);
    Ok(spectrum_from_magnitudes(mags, signal.sample_rate, label))
}

} // verus!
