//! The signal source and per-file routing: WAV container decoding and the
//! dispatch of a named input to its decoder.

use vstd::prelude::*;
use crate::codec;
use crate::codec::decode_record;
use crate::spectrum::{RawSignal, Spectrum, SpectrumError};
use crate::transform::{analyze, bin_freq_millis};

verus! {

/// What a parse of WAV container bytes yields: the 16-bit samples (with any
/// corrupt sample frame skipped) and the sampling rate, or nothing when the
/// container is unreadable. The result is a function of the bytes alone.
pub uninterp spec fn wav_parse(b: Seq<u8>) -> Option<(Seq<i16>, u32)>;

/// The samples of a readable WAV byte string.
pub open spec fn wav_samples(b: Seq<u8>) -> Seq<i16>
    recommends
        wav_parse(b) is Some,
{
    (wav_parse(b)->0).0
}

/// The sampling rate of a readable WAV byte string.
pub open spec fn wav_rate(b: Seq<u8>) -> u32
    recommends
        wav_parse(b) is Some,
{
    (wav_parse(b)->0).1
}

/// Relies on hound's `WavReader`: parses the WAV container held in the
/// bytes, hands out the sampling rate from its header and the samples read
/// as 16-bit integers, skipping any sample frame the reader rejects.
#[verifier::external_body]
fn parse_wav(bytes: &Vec<u8>) -> (r: Option<(Vec<i16>, u32)>)
    ensures
        r is Some <==> wav_parse(bytes@) is Some,
        r matches Some(p) ==> wav_parse(bytes@) == Some((p.0@, p.1)),
{
    match hound::WavReader::new(std::io::Cursor::new(bytes.as_slice())) {
        Ok(reader) => {
            let rate = reader.spec().sample_rate;
            let samples: Vec<i16> = reader.into_samples::<i16>().filter_map(Result::ok).collect();
            Some((samples, rate))
        },
        Err(_) => None,
    }
}

/// Decodes a WAV container into a raw signal, failing with `DecodeError` on
/// exactly the byte strings that do not parse as one.
pub fn decode(bytes: &Vec<u8>) -> (r: Result<RawSignal, SpectrumError>)
    ensures
        match r {
            Ok(sig) => {
                &&& wav_parse(bytes@) is Some
                &&& sig.samples@ == wav_samples(bytes@)
                &&& sig.sample_rate == wav_rate(bytes@)
            },
            Err(e) => e == SpectrumError::DecodeError && wav_parse(bytes@) is None,
        },
{
    match parse_wav(bytes) {
        Some(p) => {
            let (samples, sample_rate) = p;
            Ok(RawSignal { samples, sample_rate })
        },
        None => Err(SpectrumError::DecodeError),
    }
}

/// The kind of input a file name resolves to, decided once per file.
#[derive(Debug, Clone, Copy, PartialEq, Eq, Structural)]
pub enum InputKind {
    /// A WAV container, to be decoded and transformed.
    Audio,
    /// A cached spectrum record, to be restored by the codec.
    CachedSpectrum,
    /// Anything else; no decoder accepts it.
    Unsupported,
}

/// The ASCII bytes of ".wav".
pub open spec fn wav_suffix() -> Seq<u8> {
    seq![46u8, 119u8, 97u8, 118u8]
}

/// The ASCII bytes of ".f".
pub open spec fn cached_suffix() -> Seq<u8> {
    seq![46u8, 102u8]
}

pub open spec fn has_suffix(b: Seq<u8>, sfx: Seq<u8>) -> bool {
    b.len() >= sfx.len() && b.subrange(b.len() - sfx.len(), b.len() as int) == sfx
}

/// How a file name is routed: ".wav" names are audio, ".f" names cached
/// spectra, every other name is unsupported.
pub open spec fn classify_name(b: Seq<u8>) -> InputKind {
    if has_suffix(b, wav_suffix()) {
        InputKind::Audio
    } else if has_suffix(b, cached_suffix()) {
        InputKind::CachedSpectrum
    } else {
        InputKind::Unsupported
    }
}

/// Resolves the input kind from the file name's bytes.
pub fn classify(name: &Vec<u8>) -> (k: InputKind)
    ensures
        k == classify_name(name@),
{
    let n = name.len();
    if n >= 4 && name[n - 4] == 46 && name[n - 3] == 119 && name[n - 2] == 97 && name[n - 1]
        == 118 {
        proof {
            assert(name@.subrange(n - 4, n as int) =~= wav_suffix());
        }
        InputKind::Audio
    } else if n >= 2 && name[n - 2] == 46 && name[n - 1] == 102 {
        proof {
            if has_suffix(name@, wav_suffix()) {
                assert(name@.subrange(n - 4, n as int)[3] == wav_suffix()[3]);
                assert(false);
            }
            assert(name@.subrange(n - 2, n as int) =~= cached_suffix());
        }
        InputKind::CachedSpectrum
    } else {
        proof {
            if has_suffix(name@, wav_suffix()) {
                assert(name@.subrange(n - 4, n as int)[0] == wav_suffix()[0]);
                assert(name@.subrange(n - 4, n as int)[1] == wav_suffix()[1]);
                assert(name@.subrange(n - 4, n as int)[2] == wav_suffix()[2]);
                assert(name@.subrange(n - 4, n as int)[3] == wav_suffix()[3]);
                assert(false);
            }
            if has_suffix(name@, cached_suffix()) {
                assert(name@.subrange(n - 2, n as int)[0] == cached_suffix()[0]);
                assert(name@.subrange(n - 2, n as int)[1] == cached_suffix()[1]);
                assert(false);
            }
        }
        InputKind::Unsupported
    }
}

/// Routes one resolved input to its decoder. Audio bytes run through the
/// signal source and the transform, labelled with `label`; cached-spectrum
/// bytes run through the codec, which restores the label stored in the
/// record; an unsupported input fails with `UnsupportedFormat`, and no
/// supported one does.
pub fn decode_input(kind: InputKind, bytes: &Vec<u8>, label: String) -> (r: Result<
    Spectrum,
    SpectrumError,
>)
    ensures
        r == Err::<Spectrum, SpectrumError>(SpectrumError::UnsupportedFormat) <==> kind
            == InputKind::Unsupported,
        kind == InputKind::Audio ==> match r {
            Ok(s) => {
                &&& wav_parse(bytes@) is Some
                &&& wav_samples(bytes@).len() > 0
                &&& s.wf()
                &&& s.magnitudes@.len() == wav_samples(bytes@).len() / 2
                &&& s.frequencies@.len() == wav_samples(bytes@).len() / 2
                &&& forall|i: int|
                    0 <= i < s.frequencies@.len() ==> s.frequencies@[i] == bin_freq_millis(
                        i,
                        wav_rate(bytes@),
                        wav_samples(bytes@).len() as int,
                    )
                &&& s.label@ == label@
            },
            Err(e) => {
                ||| (e == SpectrumError::DecodeError && wav_parse(bytes@) is None)
                ||| (e == SpectrumError::EmptySignal && wav_parse(bytes@) is Some && wav_samples(
                    bytes@,
                ).len() == 0)
            },
        },
        kind == InputKind::CachedSpectrum ==> match r {
            Ok(s) => decode_record(bytes@) == Some((s.frequencies@, s.magnitudes@, s.label@)),
            Err(e) => e == SpectrumError::CorruptRecord && decode_record(bytes@) is None,
        },
{
    match kind {
        InputKind::Audio => match decode(bytes) {
            Ok(sig) => analyze(&sig, label),
            Err(e) => Err(e),
        },
        InputKind::CachedSpectrum => codec::load(bytes),
        InputKind::Unsupported => Err(SpectrumError::UnsupportedFormat),
    }
}

} // verus!
