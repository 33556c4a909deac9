//! The cached-spectrum record: a fixed binary layout with length-prefixed
//! value sequences and a length-prefixed UTF-8 label, and its exact
//! round-trip guarantee.

use vstd::prelude::*;
use vstd::bytes::{
    lemma_auto_spec_u64_to_from_le_bytes, spec_u64_from_le_bytes, spec_u64_to_le_bytes,
    u64_from_le_bytes, u64_to_le_bytes,
};
use vstd::slice::{slice_subrange, slice_to_vec};
use vstd::string::StrSliceExecFns;
use vstd::utf8::{
    decode_utf8, encode_utf8, encode_utf8_decode_utf8, encode_utf8_valid_utf8, valid_utf8,
};
use crate::spectrum::{Spectrum, SpectrumError};

verus! {

/// The little-endian bytes of each value in turn: eight bytes per value.
pub open spec fn encode_values(s: Seq<u64>) -> Seq<u8>
    decreases s.len(),
{
    if s.len() == 0 {
        Seq::empty()
    } else {
        encode_values(s.drop_last()) + spec_u64_to_le_bytes(s.last())
    }
}

/// The values held in a run of little-endian eight-byte groups.
pub open spec fn decode_values(b: Seq<u8>, n: nat) -> Seq<u64>
    recommends
        b.len() == 8 * n,
{
    Seq::new(n, |i: int| spec_u64_from_le_bytes(b.subrange(8 * i, 8 * i + 8)))
}

/// The whole record: the frequency values, the magnitude values and the
/// label's UTF-8 bytes, each behind an eight-byte little-endian count.
pub open spec fn encode_record(freqs: Seq<u64>, mags: Seq<u64>, label: Seq<char>) -> Seq<u8> {
    spec_u64_to_le_bytes(freqs.len() as u64) + encode_values(freqs) + spec_u64_to_le_bytes(
        mags.len() as u64,
    ) + encode_values(mags) + spec_u64_to_le_bytes(encode_utf8(label).len() as u64) + encode_utf8(
        label,
    )
}

/// What a byte string holds when read as a record: `None` exactly on
/// truncated or malformed input (a count that overruns the bytes, trailing
/// bytes after the label, or a label that is not UTF-8).
pub open spec fn decode_record(b: Seq<u8>) -> Option<(Seq<u64>, Seq<u64>, Seq<char>)> {
    if b.len() < 8 {
        None
    } else {
        let nf: int = spec_u64_from_le_bytes(b.subrange(0, 8)) as int;
        if b.len() < 16 + 8 * nf {
            None
        } else {
            let freqs: Seq<u64> = decode_values(b.subrange(8, 8 + 8 * nf), nf as nat);
            let off1: int = 8 + 8 * nf;
            let nm: int = spec_u64_from_le_bytes(b.subrange(off1, off1 + 8)) as int;
            if b.len() < off1 + 16 + 8 * nm {
                None
            } else {
                let mags: Seq<u64> = decode_values(
                    b.subrange(off1 + 8, off1 + 8 + 8 * nm),
                    nm as nat,
                );
                let off2: int = off1 + 8 + 8 * nm;
                let nl: int = spec_u64_from_le_bytes(b.subrange(off2, off2 + 8)) as int;
                if b.len() != off2 + 8 + nl {
                    None
                } else {
                    let lbytes: Seq<u8> = b.subrange(off2 + 8, b.len() as int);
                    if valid_utf8(lbytes) {
                        Some((freqs, mags, decode_utf8(lbytes)))
                    } else {
                        None
                    }
                }
            }
        }
    }
}

proof fn lemma_encode_values_len(s: Seq<u64>)
    ensures
        encode_values(s).len() == 8 * s.len(),
    decreases s.len(),
{
    lemma_auto_spec_u64_to_from_le_bytes();
    if s.len() == 0 {
    } else {
        lemma_encode_values_len(s.drop_last());
    }
}

proof fn lemma_encode_values_index(s: Seq<u64>, i: int)
    requires
        0 <= i < s.len(),
    ensures
        encode_values(s).subrange(8 * i, 8 * i + 8) == spec_u64_to_le_bytes(s[i]),
    decreases s.len(),
{
    lemma_auto_spec_u64_to_from_le_bytes();
    lemma_encode_values_len(s);
    lemma_encode_values_len(s.drop_last());
    if i == s.len() - 1 {
        assert(encode_values(s).subrange(8 * i, 8 * i + 8) =~= spec_u64_to_le_bytes(s[i]));
    } else {
        lemma_encode_values_index(s.drop_last(), i);
        assert(encode_values(s).subrange(8 * i, 8 * i + 8) =~= encode_values(
            s.drop_last(),
        ).subrange(8 * i, 8 * i + 8));
    }
}

proof fn lemma_decode_values_of_encode(s: Seq<u64>)
    ensures
        decode_values(encode_values(s), s.len()) == s,
{
    lemma_auto_spec_u64_to_from_le_bytes();
    lemma_encode_values_len(s);
    assert forall|i: int| 0 <= i < s.len() implies decode_values(encode_values(s), s.len())[i]
        == s[i] by {
        lemma_encode_values_index(s, i);
    }
    assert(decode_values(encode_values(s), s.len()) =~= s);
}

/// The round-trip law: a record written for any frequency values, magnitude
/// values and label reads back as exactly those three fields.
pub proof fn lemma_record_round_trip(freqs: Seq<u64>, mags: Seq<u64>, label: Seq<char>)
    requires
        freqs.len() <= u64::MAX,
        mags.len() <= u64::MAX,
        encode_utf8(label).len() <= u64::MAX,
    ensures
        decode_record(encode_record(freqs, mags, label)) == Some((freqs, mags, label)),
{
    lemma_auto_spec_u64_to_from_le_bytes();
    lemma_encode_values_len(freqs);
    lemma_encode_values_len(mags);
    broadcast use encode_utf8_valid_utf8, encode_utf8_decode_utf8;

    let b = encode_record(freqs, mags, label);
    let lb = encode_utf8(label);
    let nf: int = freqs.len() as int;
    let nm: int = mags.len() as int;
    let nl: int = lb.len() as int;
    let off1: int = 8 + 8 * nf;
    let off2: int = off1 + 8 + 8 * nm;

    assert(b.len() == off2 + 8 + nl);

    assert(b.subrange(0, 8) =~= spec_u64_to_le_bytes(freqs.len() as u64));
    assert(spec_u64_from_le_bytes(b.subrange(0, 8)) == nf);

    assert(b.subrange(8, 8 + 8 * nf) =~= encode_values(freqs));
    lemma_decode_values_of_encode(freqs);

    assert(b.subrange(off1, off1 + 8) =~= spec_u64_to_le_bytes(mags.len() as u64));
    assert(spec_u64_from_le_bytes(b.subrange(off1, off1 + 8)) == nm);

    assert(b.subrange(off1 + 8, off1 + 8 + 8 * nm) =~= encode_values(mags));
    lemma_decode_values_of_encode(mags);

    assert(b.subrange(off2, off2 + 8) =~= spec_u64_to_le_bytes(lb.len() as u64));
    assert(spec_u64_from_le_bytes(b.subrange(off2, off2 + 8)) == nl);

    assert(b.subrange(off2 + 8, b.len() as int) =~= lb);
}

/// Appends the eight little-endian bytes of one value.
fn push_u64(out: &mut Vec<u8>, v: u64)
    ensures
        final(out)@ == old(out)@ + spec_u64_to_le_bytes(v),
{
    let mut b = u64_to_le_bytes(v);
    out.append(&mut b);
}

/// Appends the little-endian bytes of every value in turn.
fn push_values(out: &mut Vec<u8>, vals: &Vec<u64>)
    ensures
        final(out)@ == old(out)@ + encode_values(vals@),
{
    for k in 0..vals.len()
        invariant
            out@ == old(out)@ + encode_values(vals@.take(k as int)),
    {
        push_u64(out, vals[k]);
        proof {
            assert(vals@.take(k as int + 1).drop_last() =~= vals@.take(k as int));
            assert(vals@.take(k as int + 1).last() == vals@[k as int]);
            assert(out@ =~= old(out)@ + encode_values(vals@.take(k as int + 1)));
        }
    }
    proof {
        assert(vals@.take(vals@.len() as int) =~= vals@);
    }
}

/// Serializes a spectrum into the record layout. No file is touched: the
/// caller owns the byte buffer.
pub fn save(s: &Spectrum) -> (out: Vec<u8>)
    ensures
        out@ == encode_record(s.frequencies@, s.magnitudes@, s.label@),
{
    let mut out: Vec<u8> = Vec::new();
    push_u64(&mut out, s.frequencies.len() as u64);
    push_values(&mut out, &s.frequencies);
    push_u64(&mut out, s.magnitudes.len() as u64);
    push_values(&mut out, &s.magnitudes);
    let mut lbytes = s.label.as_str().as_bytes_vec();
    push_u64(&mut out, lbytes.len() as u64);
    out.append(&mut lbytes);
    out
}

/// Relies on `String::from_utf8`: it succeeds exactly on valid UTF-8 and
/// yields the characters that the bytes encode.
#[verifier::external_body]
fn string_from_utf8(bytes: Vec<u8>) -> (r: Option<String>)
    ensures
        r is Some <==> valid_utf8(bytes@),
        r matches Some(s) ==> s@ == decode_utf8(bytes@),
{
    match String::from_utf8(bytes) {
        Ok(s) => Some(s),
        Err(_) => None,
    }
}

/// Reads the eight-byte little-endian value at `off`.
fn read_u64(bytes: &Vec<u8>, off: usize) -> (v: u64)
    requires
        off + 8 <= bytes@.len(),
    ensures
        v == spec_u64_from_le_bytes(bytes@.subrange(off as int, off as int + 8)),
{
    proof {
        vstd::std_specs::vec::axiom_spec_len(bytes);
    }
    let s = slice_subrange(bytes.as_slice(), off, off + 8);
    u64_from_le_bytes(s)
}

/// Reads `n` eight-byte little-endian values starting at `off`.
fn read_values(bytes: &Vec<u8>, off: usize, n: usize) -> (vals: Vec<u64>)
    requires
        off + 8 * n <= bytes@.len(),
    ensures
        vals@ == decode_values(bytes@.subrange(off as int, off as int + 8 * n), n as nat),
{
    proof {
        vstd::std_specs::vec::axiom_spec_len(bytes);
    }
    let mut vals: Vec<u64> = Vec::new();
    for k in 0..n
        invariant
            off + 8 * n <= bytes@.len(),
            bytes@.len() <= usize::MAX,
            vals@.len() == k,
            forall|j: int|
                0 <= j < k ==> vals@[j] == spec_u64_from_le_bytes(
                    bytes@.subrange(off + 8 * j, off + 8 * j + 8),
                ),
    {
        vals.push(read_u64(bytes, off + 8 * k));
    }
    proof {
        let sub = bytes@.subrange(off as int, off as int + 8 * n);
        assert forall|j: int| 0 <= j < n implies decode_values(sub, n as nat)[j] == vals@[j] by {
            assert(sub.subrange(8 * j, 8 * j + 8) =~= bytes@.subrange(
                off + 8 * j,
                off + 8 * j + 8,
            ));
        }
        assert(vals@ =~= decode_values(sub, n as nat));
    }
    vals
}

/// Restores a spectrum from record bytes, failing with `CorruptRecord` on
/// exactly the byte strings that are no record. No file is touched: the
/// caller supplies the byte buffer.
pub fn load(bytes: &Vec<u8>) -> (r: Result<Spectrum, SpectrumError>)
    ensures
        match r {
            Ok(s) => decode_record(bytes@) == Some((s.frequencies@, s.magnitudes@, s.label@)),
            Err(e) => e == SpectrumError::CorruptRecord && decode_record(bytes@) is None,
        },
{
    let len = bytes.len();
    if len < 8 {
        return Err(SpectrumError::CorruptRecord);
    }
    let nf64 = read_u64(bytes, 0);
    if (nf64 as u128) * 8 + 16 > (len as u128) {
        return Err(SpectrumError::CorruptRecord);
    }
    let nf = nf64 as usize;
    let freqs = read_values(bytes, 8, nf);
    let off1 = 8 + 8 * nf;
    let nm64 = read_u64(bytes, off1);
    if (off1 as u128) + 16 + (nm64 as u128) * 8 > (len as u128) {
        return Err(SpectrumError::CorruptRecord);
    }
    let nm = nm64 as usize;
    let mags = read_values(bytes, off1 + 8, nm);
    let off2 = off1 + 8 + 8 * nm;
    let nl64 = read_u64(bytes, off2);
    if nl64 != ((len - off2) - 8) as u64 {
        return Err(SpectrumError::CorruptRecord);
    }
    let lslice = slice_subrange(bytes.as_slice(), off2 + 8, len);
    let lbytes = slice_to_vec(lslice);
    match string_from_utf8(lbytes) {
        Some(label) => Ok(Spectrum { frequencies: freqs, magnitudes: mags, label }),
        None => Err(SpectrumError::CorruptRecord),
    }
}

} // verus!
