use vstd::prelude::*;
use vstd::arithmetic::div_mod::{lemma_basic_div, lemma_div_is_ordered, lemma_div_multiples_vanish, lemma_div_pos_is_pos};
use vstd::arithmetic::mul::{lemma_mul_inequality, lemma_mul_is_commutative, lemma_mul_nonnegative};
use crate::structs::{NOISE_AMPLITUDE_LIMIT, PhotonicVoxel};
use crate::codec::{
    abs_int, decode_data, encode_byte_spec, encode_data, encode_seq_spec,
    lemma_noiseless_round_trip, sample_noise,
};

verus! {

/// One record of a bit-error-rate sweep: the noise amplitude applied (in
/// millionths of a unit), how many bits were transmitted, and how many of
/// them were read back wrong.
#[derive(Debug, Clone, Copy, PartialEq, Eq, Structural)]
pub struct SimulationResult {
    pub noise_level: i64,
    pub total_bits: usize,
    pub error_bits: usize,
}

/// Number of set bits in a byte.
pub open spec fn popcount8(x: u8) -> int {
    ((x >> 7) & 1) + ((x >> 6) & 1) + ((x >> 5) & 1) + ((x >> 4) & 1) + ((x >> 3) & 1) + ((x >> 2)
        & 1) + ((x >> 1) & 1) + (x & 1)
}

/// Differing bits over the first `n` positions of two byte sequences.
pub open spec fn prefix_bit_errors(a: Seq<u8>, b: Seq<u8>, n: int) -> int
    decreases n,
{
    if n <= 0 {
        0
    } else {
        prefix_bit_errors(a, b, n - 1) + popcount8(a[n - 1] ^ b[n - 1])
    }
}

/// Differing bits between two byte sequences: XOR popcount over the common
/// prefix, plus eight per byte of length difference.
pub open spec fn bit_errors_spec(a: Seq<u8>, b: Seq<u8>) -> int {
    let common = if a.len() <= b.len() {
        a.len() as int
    } else {
        b.len() as int
    };
    prefix_bit_errors(a, b, common) + 8 * abs_int(a.len() - b.len())
}

/// The prefix bit-error count is between zero and eight bits per byte.
pub proof fn lemma_prefix_bit_errors_bound(a: Seq<u8>, b: Seq<u8>, n: int)
    requires
        0 <= n,
        n <= a.len(),
        n <= b.len(),
    ensures
        0 <= prefix_bit_errors(a, b, n) <= 8 * n,
    decreases n,
{
    if n > 0 {
        lemma_prefix_bit_errors_bound(a, b, n - 1);
        let x = a[n - 1] ^ b[n - 1];
        assert(0 <= ((x >> 7) & 1) + ((x >> 6) & 1) + ((x >> 5) & 1) + ((x >> 4) & 1) + ((x >> 3)
            & 1) + ((x >> 2) & 1) + ((x >> 1) & 1) + (x & 1) <= 8) by (bit_vector);
    }
}

/// A sequence compared with itself has no differing bits.
pub proof fn lemma_bit_errors_self(a: Seq<u8>)
    ensures
        bit_errors_spec(a, a) == 0,
{
    lemma_prefix_bit_errors_self(a, a.len() as int);
}

proof fn lemma_prefix_bit_errors_self(a: Seq<u8>, n: int)
    requires
        n <= a.len(),
    ensures
        prefix_bit_errors(a, a, n) == 0,
    decreases n,
{
    if n > 0 {
        lemma_prefix_bit_errors_self(a, n - 1);
        let v = a[n - 1];
        assert(((v ^ v) >> 7) & 1 == 0 && ((v ^ v) >> 6) & 1 == 0 && ((v ^ v) >> 5) & 1 == 0 && ((v
            ^ v) >> 4) & 1 == 0 && ((v ^ v) >> 3) & 1 == 0 && ((v ^ v) >> 2) & 1 == 0 && ((v ^ v)
            >> 1) & 1 == 0 && (v ^ v) & 1 == 0) by (bit_vector);
    }
}

/// Counts the number of differing bits between two byte slices: XOR popcount
/// position by position, plus eight bits for every byte of length difference.
pub fn count_bit_errors(original: &[u8], decoded: &[u8]) -> (errors: usize)
    requires
        original@.len() * 8 <= usize::MAX,
        decoded@.len() * 8 <= usize::MAX,
    ensures
        errors as int == bit_errors_spec(original@, decoded@),
{
    let common: usize = if original.len() < decoded.len() {
        original.len()
    } else {
        decoded.len()
    };
    let mut errors: usize = 0;
    for i in 0..common
        invariant
            common <= original@.len(),
            common <= decoded@.len(),
            original@.len() * 8 <= usize::MAX,
            decoded@.len() * 8 <= usize::MAX,
            errors as int == prefix_bit_errors(original@, decoded@, i as int),
            errors <= 8 * i,
    {
        let x: u8 = original[i] ^ decoded[i];
        proof {
            assert(((x >> 7) & 1) + ((x >> 6) & 1) + ((x >> 5) & 1) + ((x >> 4) & 1) + ((x >> 3)
                & 1) + ((x >> 2) & 1) + ((x >> 1) & 1) + (x & 1) <= 8) by (bit_vector);
        }
        let pc: u8 = ((x >> 7) & 1) + ((x >> 6) & 1) + ((x >> 5) & 1) + ((x >> 4) & 1) + ((x >> 3)
            & 1) + ((x >> 2) & 1) + ((x >> 1) & 1) + (x & 1);
        errors = errors + pc as usize;
    }
    if original.len() != decoded.len() {
        let delta: usize = if original.len() > decoded.len() {
            original.len() - decoded.len()
        } else {
            decoded.len() - original.len()
        };
        errors = errors + delta * 8;
    }
    errors
}

/// The per-channel noise vector the noise model may draw at a given
/// amplitude: uniform within the amplitude for intensity, polarization and
/// phase, and within a hundredfold of it for wavelength, whose level spacing
/// is about a hundred times larger.
pub open spec fn channel_noise_ok(amplitude: int, ei: int, ep: int, eh: int, ew: int) -> bool {
    &&& -amplitude <= ei <= amplitude
    &&& -amplitude <= ep <= amplitude
    &&& -amplitude <= eh <= amplitude
    &&& -100 * amplitude <= ew <= 100 * amplitude
}

/// A copy of a voxel with its four fields shifted by a noise vector.
pub open spec fn perturbed_voxel(v: PhotonicVoxel, ei: int, ep: int, eh: int, ew: int) -> PhotonicVoxel {
    PhotonicVoxel {
        intensity: (v.intensity + ei) as i64,
        polarization: (v.polarization + ep) as i64,
        phase: (v.phase + eh) as i64,
        wavelength: (v.wavelength + ew) as i64,
    }
}

/// `b` is `a` perturbed by some noise vector drawn at `amplitude`.
pub open spec fn noise_applied_ok(a: PhotonicVoxel, b: PhotonicVoxel, amplitude: int) -> bool {
    exists|ei: int, ep: int, eh: int, ew: int|
        channel_noise_ok(amplitude, ei, ep, eh, ew) && b == perturbed_voxel(a, ei, ep, eh, ew)
}

/// Applies independent additive readout noise at a given amplitude (in
/// millionths of a unit) to every voxel, producing a new sequence; a
/// non-positive amplitude yields an unperturbed copy.
pub fn apply_noise(voxels: &[PhotonicVoxel], amplitude: i64) -> (out: Vec<PhotonicVoxel>)
    requires
        amplitude <= NOISE_AMPLITUDE_LIMIT,
        forall|k: int| 0 <= k < voxels@.len() ==> (#[trigger] voxels@[k]).fields_bounded(),
    ensures
        out@.len() == voxels@.len(),
        amplitude <= 0 ==> out@ == voxels@,
        amplitude > 0 ==> forall|k: int|
            0 <= k < voxels@.len() ==> noise_applied_ok(voxels@[k], out@[k], amplitude as int),
{
    let mut out: Vec<PhotonicVoxel> = Vec::with_capacity(voxels.len());
    if amplitude <= 0 {
        for i in 0..voxels.len()
            invariant
                out@.len() == i,
                forall|j: int| 0 <= j < i ==> out@[j] == voxels@[j],
        {
            out.push(voxels[i]);
        }
        proof {
            assert(out@ =~= voxels@);
        }
        return out;
    }
    for i in 0..voxels.len()
        invariant
            0 < amplitude <= NOISE_AMPLITUDE_LIMIT,
            forall|k: int| 0 <= k < voxels@.len() ==> (#[trigger] voxels@[k]).fields_bounded(),
            out@.len() == i,
            forall|j: int| 0 <= j < i ==> noise_applied_ok(voxels@[j], out@[j], amplitude as int),
    {
        let v = voxels[i];
        let ei: i64 = sample_noise(-amplitude, amplitude + 1);
        let ep: i64 = sample_noise(-amplitude, amplitude + 1);
        let eh: i64 = sample_noise(-amplitude, amplitude + 1);
        let ew: i64 = sample_noise(-100 * amplitude, 100 * amplitude + 1);
        let nv = PhotonicVoxel::new(
            v.intensity + ei,
            v.polarization + ep,
            v.phase + eh,
            v.wavelength + ew,
        );
        out.push(nv);
        proof {
            assert(channel_noise_ok(amplitude as int, ei as int, ep as int, eh as int, ew as int));
            assert(nv == perturbed_voxel(voxels@[i as int], ei as int, ep as int, eh as int, ew as int));
            assert(noise_applied_ok(voxels@[i as int], out@[i as int], amplitude as int));
        }
    }
    out
}

/// Relies on rand's `random`: one uniformly drawn byte from the thread-local
/// generator. Nothing can be promised of the value.
#[verifier::external_body]
fn random_byte() -> u8 {
    rand::random()
}

/// An encoded voxel's fields all sit at nominal levels, far inside the
/// bounds the channel models require.
pub proof fn lemma_encoded_fields_bounded(b: u8)
    ensures
        encode_byte_spec(b).fields_bounded(),
{
    assert((b & 3) < 4 && ((b >> 2) & 3) < 4 && ((b >> 4) & 3) < 4 && ((b >> 6) & 3) < 4)
        by (bit_vector);
}

/// Runs a bit-error-rate sweep: `data_size` random bytes are generated and
/// encoded once, then for each step `i` in `0..=steps` the noise model is
/// applied to the same base voxel sequence at amplitude
/// `max_noise * i / steps` and the result decoded without additional readout
/// noise; each record reports the differing bits against the original data.
///
/// The first record (noise level zero) always reports zero error bits: the
/// noiseless round trip is exact.
pub fn run_ber_simulation(data_size: usize, steps: usize, max_noise: i64) -> (results: Vec<
    SimulationResult,
>)
    requires
        1 <= steps <= 1_000_000,
        0 <= max_noise <= NOISE_AMPLITUDE_LIMIT,
        data_size * 8 <= usize::MAX,
    ensures
        results@.len() == steps + 1,
        forall|k: int|
            0 <= k <= steps ==> (#[trigger] results@[k]).noise_level == max_noise * k / (
            steps as int),
        forall|k: int| 0 <= k <= steps ==> (#[trigger] results@[k]).total_bits == data_size * 8,
        forall|k: int|
            0 <= k <= steps ==> (#[trigger] results@[k]).error_bits <= results@[k].total_bits,
        results@[0].error_bits == 0,
{
    let mut data: Vec<u8> = Vec::with_capacity(data_size);
    for i in 0..data_size
        invariant
            data@.len() == i,
    {
        data.push(random_byte());
    }
    let voxels = encode_data(data.as_slice());
    proof {
        assert forall|k: int| 0 <= k < voxels@.len() implies (#[trigger] voxels@[k]).fields_bounded() by {
            lemma_encoded_fields_bounded(data@[k]);
        }
    }
    let total_bits: usize = data_size * 8;
    let mut results: Vec<SimulationResult> = Vec::with_capacity(steps + 1);
    for i in 0..steps + 1
        invariant
            1 <= steps <= 1_000_000,
            0 <= max_noise <= NOISE_AMPLITUDE_LIMIT,
            data_size * 8 <= usize::MAX,
            total_bits == data_size * 8,
            data@.len() == data_size,
            voxels@ == encode_seq_spec(data@),
            forall|k: int| 0 <= k < voxels@.len() ==> (#[trigger] voxels@[k]).fields_bounded(),
            results@.len() == i,
            forall|k: int|
                0 <= k < i ==> (#[trigger] results@[k]).noise_level == max_noise * k / (
                steps as int),
            forall|k: int| 0 <= k < i ==> (#[trigger] results@[k]).total_bits == data_size * 8,
            forall|k: int|
                0 <= k < i ==> (#[trigger] results@[k]).error_bits <= results@[k].total_bits,
            i >= 1 ==> results@[0].error_bits == 0,
    {
        proof {
            let m = max_noise as int;
            let s = steps as int;
            let ii = i as int;
            lemma_mul_is_commutative(m, ii);
            lemma_mul_is_commutative(m, s);
            lemma_mul_nonnegative(m, ii);
            lemma_mul_inequality(ii, s, m);
            assert(m * ii <= m * s);
            lemma_div_is_ordered(m * ii, m * s, s);
            lemma_div_multiples_vanish(m, s);
            lemma_div_pos_is_pos(m * ii, s);
            assert(m * ii <= 2_000_000_000_000_000) by (nonlinear_arith)
                requires
                    0 <= m <= 1_000_000_000,
                    0 <= ii <= 1_000_001,
            ;
            assert(0 <= m * ii / s <= m);
        }
        let noise_level_wide: u64 = (max_noise as u64) * (i as u64) / (steps as u64);
        let noise_level: i64 = noise_level_wide as i64;
        let noisy = apply_noise(voxels.as_slice(), noise_level);
        let decoded = decode_data(noisy.as_slice(), false);
        let error_bits = count_bit_errors(data.as_slice(), decoded.as_slice());
        proof {
            lemma_prefix_bit_errors_bound(data@, decoded@, data_size as int);
            if i == 0 {
                lemma_basic_div(0, steps as int);
                assert(noisy@ == voxels@);
                lemma_noiseless_round_trip(data@);
                assert(decoded@ == data@);
                lemma_bit_errors_self(data@);
            }
        }
        results.push(SimulationResult { noise_level, total_bits, error_bits });
    }
    results
}

} // verus!
