use vstd::prelude::*;
use crate::structs::PhotonicVoxel;
use crate::codec::{
    decode_data, decode_seq_spec, encode_seq_spec, lemma_classify_intensity_recovers,
    lemma_classify_phase_recovers, lemma_classify_polarization_recovers,
    lemma_classify_wavelength_recovers,
};

verus! {

/// A copy of a voxel with its polarization forced to the zero level.
pub open spec fn zero_polarization(v: PhotonicVoxel) -> PhotonicVoxel {
    PhotonicVoxel { intensity: v.intensity, polarization: 0, phase: v.phase, wavelength: v.wavelength }
}

/// The bytes recovered by a reader that discards the polarization channel:
/// every voxel's polarization is forced to its zero level before noiseless
/// decoding.
pub open spec fn obscured_read_spec(voxels: Seq<PhotonicVoxel>) -> Seq<u8> {
    decode_seq_spec(voxels.map_values(|v: PhotonicVoxel| zero_polarization(v)))
}

/// Simulates an unauthorized reader that ignores the polarization channel.
///
/// Every voxel's polarization is forced to the zero level; the tampered copy
/// is then decoded without noise. Deterministic; demonstrates the
/// information loss when one channel is discarded.
pub fn read_ignoring_polarization(voxels: &[PhotonicVoxel]) -> (data: Vec<u8>)
    ensures
        data@.len() == voxels@.len(),
        data@ == obscured_read_spec(voxels@),
{
    let mut mutated: Vec<PhotonicVoxel> = Vec::with_capacity(voxels.len());
    for i in 0..voxels.len()
        invariant
            mutated@.len() == i,
            forall|j: int| 0 <= j < i ==> mutated@[j] == zero_polarization(voxels@[j]),
    {
        let v = voxels[i];
        mutated.push(PhotonicVoxel::new(v.intensity, 0, v.phase, v.wavelength));
    }
    proof {
        assert(mutated@ =~= voxels@.map_values(|v: PhotonicVoxel| zero_polarization(v)));
    }
    decode_data(mutated.as_slice(), false)
}

/// Reports whether the polarization-ignoring read fails to reproduce the
/// original bytes: true iff the unauthorized read differs anywhere.
pub fn verify_obfuscation(original: &[u8], voxels: &[PhotonicVoxel]) -> (obfuscated: bool)
    ensures
        obfuscated == (original@ != obscured_read_spec(voxels@)),
{
    let unauthorized = read_ignoring_polarization(voxels);
    if original.len() != unauthorized.len() {
        return true;
    }
    for i in 0..original.len()
        invariant
            original@.len() == unauthorized@.len(),
            unauthorized@ == obscured_read_spec(voxels@),
            forall|j: int| 0 <= j < i ==> original@[j] == unauthorized@[j],
    {
        if original[i] != unauthorized[i] {
            return true;
        }
    }
    proof {
        assert(original@ =~= unauthorized@);
    }
    false
}

/// Steganography non-leak: whenever a byte sequence's encoding uses more
/// than one distinct polarization level (witnessed by two positions whose
/// polarization bits differ), the polarization-ignoring read of the encoded
/// sequence differs from the original bytes.
pub proof fn lemma_obfuscation_differs(data: Seq<u8>, i: int, j: int)
    requires
        0 <= i < data.len(),
        0 <= j < data.len(),
        (data[i] >> 2) & 3 != (data[j] >> 2) & 3,
    ensures
        obscured_read_spec(encode_seq_spec(data)) != data,
{
    let enc = encode_seq_spec(data);
    let obs = obscured_read_spec(enc);
    let k = if (data[i] >> 2) & 3 != 0 { i } else { j };
    let b = data[k];
    assert((b >> 2) & 3 != 0);
    let iv = (b & 3) as int;
    let hv = ((b >> 4) & 3) as int;
    let wv = ((b >> 6) & 3) as int;
    assert((b & 3) < 4 && ((b >> 4) & 3) < 4 && ((b >> 6) & 3) < 4) by (bit_vector);
    lemma_classify_intensity_recovers(iv, 0);
    lemma_classify_polarization_recovers(0, 0);
    lemma_classify_phase_recovers(hv, 0);
    lemma_classify_wavelength_recovers(wv, 0);
    assert(obs[k] == ((wv * 64 + hv * 16 + iv) as u8));
    assert(((b >> 6) & 3) * 64 + ((b >> 4) & 3) * 16 + (b & 3) != b) by (bit_vector)
        requires
            (b >> 2) & 3 != 0u8,
    ;
    assert(obs[k] != b);
}

} // verus!
