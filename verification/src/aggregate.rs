//! Aggregation: the per-bin arithmetic mean over a batch of spectra.

use vstd::prelude::*;
use crate::spectrum::{Spectrum, SpectrumError};
use vstd::arithmetic::div_mod::{lemma_div_multiples_vanish, lemma_multiply_divide_le};
use vstd::string::StringExecFns;

verus! {

/// The longest bin count across the batch.
pub open spec fn max_bins(spectra: Seq<Spectrum>) -> int
    decreases spectra.len(),
{
    if spectra.len() == 0 {
        0
    } else {
        let rest: int = max_bins(spectra.drop_last());
        if spectra.last().magnitudes@.len() > rest {
            spectra.last().magnitudes@.len() as int
        } else {
            rest
        }
    }
}

/// The magnitude sum at bin `i`: every spectrum long enough to have bin `i`
/// contributes its magnitude there, shorter spectra contribute nothing.
pub open spec fn mag_sum_at(spectra: Seq<Spectrum>, i: int) -> int
    decreases spectra.len(),
{
    if spectra.len() == 0 {
        0
    } else {
        mag_sum_at(spectra.drop_last(), i) + if i < spectra.last().magnitudes@.len() {
            spectra.last().magnitudes@[i] as int
        } else {
            0
        }
    }
}

proof fn lemma_mag_sum_at_bounds(spectra: Seq<Spectrum>, i: int)
    ensures
        0 <= mag_sum_at(spectra, i) <= spectra.len() * (u64::MAX as int),
    decreases spectra.len(),
{
    if spectra.len() == 0 {
    } else {
        lemma_mag_sum_at_bounds(spectra.drop_last(), i);
    }
}

/// Copies a value vector; the result holds the same values in the same order.
fn copy_values(v: &Vec<u64>) -> (out: Vec<u64>)
    ensures
        out@ == v@,
{
    let mut out: Vec<u64> = Vec::new();
    for k in 0..v.len()
        invariant
            out@ == v@.take(k as int),
    {
        out.push(v[k]);
        proof {
            assert(out@ =~= v@.take(k as int + 1));
        }
    }
    proof {
        assert(v@.take(v@.len() as int) =~= v@);
    }
    out
}

/// Averages a non-empty batch of spectra into one spectrum. The result takes
/// its frequency axis from the first spectrum, grows to the longest bin count
/// in the batch, and holds at each bin the sum of the magnitudes of the
/// spectra that have that bin, divided (rounding down) by the batch size.
/// Its label is fixed to "average". An empty batch is rejected.
pub fn average(spectra: &Vec<Spectrum>) -> (r: Result<Spectrum, SpectrumError>)
    ensures
        r is Err <==> spectra@.len() == 0,
        r is Err ==> r == Err::<Spectrum, SpectrumError>(SpectrumError::EmptyInput),
        r matches Ok(avg) ==> {
            &&& avg.frequencies@ == spectra@[0].frequencies@
            &&& avg.label@ == "average"@
            &&& avg.magnitudes@.len() == max_bins(spectra@)
            &&& forall|i: int|
                0 <= i < avg.magnitudes@.len() ==> avg.magnitudes@[i] == mag_sum_at(spectra@, i)
                    / (spectra@.len() as int)
        },
{
    let count = spectra.len();
    if count == 0 {
        return Err(SpectrumError::EmptyInput);
    }
    let mut maxlen: usize = 0;
    for j in 0..count
        invariant
            count == spectra@.len(),
            maxlen == max_bins(spectra@.take(j as int)),
    {
        let l = spectra[j].magnitudes.len();
        if l > maxlen {
            maxlen = l;
        }
        proof {
            assert(spectra@.take(j as int + 1).drop_last() =~= spectra@.take(j as int));
        }
    }
    proof {
        assert(spectra@.take(count as int) =~= spectra@);
    }
    let mut mags: Vec<u64> = Vec::new();
    for i in 0..maxlen
        invariant
            count == spectra@.len(),
            count > 0,
            maxlen == max_bins(spectra@),
            mags@.len() == i,
            forall|b: int|
                0 <= b < i ==> mags@[b] == mag_sum_at(spectra@, b) / (count as int),
    {
        let mut total: u128 = 0;
        for j in 0..count
            invariant
                count == spectra@.len(),
                total == mag_sum_at(spectra@.take(j as int), i as int),
                total <= (j as int) * (u64::MAX as int),
        {
            let s = &spectra[j];
            if i < s.magnitudes.len() {
                total = total + (s.magnitudes[i] as u128);
            }
            proof {
                assert(spectra@.take(j as int + 1).drop_last() =~= spectra@.take(j as int));
            }
        }
        proof {
            assert(spectra@.take(count as int) =~= spectra@);
            lemma_mag_sum_at_bounds(spectra@, i as int);
            lemma_multiply_divide_le(mag_sum_at(spectra@, i as int), count as int, u64::MAX as int);
        }
        let avg_val: u128 = total / (count as u128);
        mags.push(avg_val as u64);
    }
    let freqs = copy_values(&spectra[0].frequencies);
    let label = String::from_str("average");
    Ok(Spectrum { frequencies: freqs, magnitudes: mags, label })
}

proof fn lemma_mag_sum_at_identical(spectra: Seq<Spectrum>, s: Spectrum, i: int)
    requires
        forall|j: int| 0 <= j < spectra.len() ==> spectra[j] == s,
        0 <= i < s.magnitudes@.len(),
    ensures
        mag_sum_at(spectra, i) == spectra.len() * (s.magnitudes@[i] as int),
    decreases spectra.len(),
{
    if spectra.len() == 0 {
    } else {
        lemma_mag_sum_at_identical(spectra.drop_last(), s, i);
        assert((spectra.len() - 1) * (s.magnitudes@[i] as int) + s.magnitudes@[i] == spectra.len()
            * (s.magnitudes@[i] as int)) by (nonlinear_arith);
    }
}

proof fn lemma_max_bins_identical(spectra: Seq<Spectrum>, s: Spectrum)
    requires
        spectra.len() > 0,
        forall|j: int| 0 <= j < spectra.len() ==> spectra[j] == s,
    ensures
        max_bins(spectra) == s.magnitudes@.len(),
    decreases spectra.len(),
{
    if spectra.len() == 1 {
        assert(spectra.last() == s);
        assert(spectra.drop_last().len() == 0);
        assert(max_bins(spectra.drop_last()) == 0);
    } else {
        assert forall|j: int| 0 <= j < spectra.drop_last().len() implies spectra.drop_last()[j]
            == s by {
            assert(spectra[j] == s);
        }
        lemma_max_bins_identical(spectra.drop_last(), s);
        assert(spectra.last() == s);
    }
}

proof fn lemma_max_bins_of_aligned(spectra: Seq<Spectrum>, n: int)
    requires
        spectra.len() > 0,
        forall|j: int| 0 <= j < spectra.len() ==> spectra[j].magnitudes@.len() == n,
    ensures
        max_bins(spectra) == n,
    decreases spectra.len(),
{
    if spectra.len() == 1 {
        assert(spectra.last().magnitudes@.len() == n);
        assert(spectra.drop_last().len() == 0);
        assert(max_bins(spectra.drop_last()) == 0);
    } else {
        assert forall|j: int|
            0 <= j < spectra.drop_last().len() implies spectra.drop_last()[j].magnitudes@.len()
            == n by {
            assert(spectra[j].magnitudes@.len() == n);
        }
        lemma_max_bins_of_aligned(spectra.drop_last(), n);
        assert(spectra.last().magnitudes@.len() == n);
    }
}

/// When every spectrum of a non-empty batch is well formed and they all
/// share one bin count — the alignment the averaging of frequency axes
/// assumes — a result with the first spectrum's frequencies and the batch's
/// longest bin count is well formed itself.
pub proof fn lemma_average_wf(spectra: Seq<Spectrum>, avg: Spectrum)
    requires
        spectra.len() > 0,
        forall|j: int| 0 <= j < spectra.len() ==> spectra[j].wf(),
        forall|j: int|
            0 <= j < spectra.len() ==> (#[trigger] spectra[j]).magnitudes@.len()
                == spectra[0].magnitudes@.len(),
        avg.frequencies@ == spectra[0].frequencies@,
        avg.magnitudes@.len() == max_bins(spectra),
    ensures
        avg.wf(),
{
    lemma_max_bins_of_aligned(spectra, spectra[0].magnitudes@.len() as int);
    assert(spectra[0].wf());
}

/// The aggregation identity: averaging a non-empty batch in which every
/// spectrum is the same one gives back that spectrum's bin count and, at
/// every bin, exactly its magnitude.
pub proof fn lemma_average_of_identical(spectra: Seq<Spectrum>, s: Spectrum)
    requires
        spectra.len() > 0,
        forall|j: int| 0 <= j < spectra.len() ==> spectra[j] == s,
    ensures
        max_bins(spectra) == s.magnitudes@.len(),
        forall|i: int|
            0 <= i < s.magnitudes@.len() ==> mag_sum_at(spectra, i) / (spectra.len() as int)
                == s.magnitudes@[i],
{
    lemma_max_bins_identical(spectra, s);
    assert forall|i: int| 0 <= i < s.magnitudes@.len() implies mag_sum_at(spectra, i) / (
    spectra.len() as int) == s.magnitudes@[i] by {
        lemma_mag_sum_at_identical(spectra, s, i);
        lemma_div_multiples_vanish(s.magnitudes@[i] as int, spectra.len() as int);
    }
}

} // verus!
