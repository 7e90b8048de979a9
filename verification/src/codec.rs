use vstd::prelude::*;
use crate::structs::{
    PhotonicVoxel, QUARTER_PI_MICRO, HALF_PI_MICRO, PI_MICRO, TWO_PI_MICRO,
};

verus! {

/// Spacing of the nominal intensity levels: 0.25 units.
pub const INTENSITY_STEP: i64 = 250_000;

/// Wavelength palette in millionths of a nanometer, by 2-bit index:
/// green, red, blue, infrared.
pub const WAVELENGTH_GREEN: i64 = 532_000_000;
pub const WAVELENGTH_RED: i64 = 650_000_000;
pub const WAVELENGTH_BLUE: i64 = 450_000_000;
pub const WAVELENGTH_INFRARED: i64 = 800_000_000;

/// Amplitude of the simulated readout noise per channel.
pub const READOUT_NOISE_INTENSITY: i64 = 50_000;
pub const READOUT_NOISE_POLARIZATION: i64 = 80_000;
pub const READOUT_NOISE_PHASE: i64 = 100_000;
pub const READOUT_NOISE_WAVELENGTH: i64 = 10_000_000;

/// Classification accepts any perturbed field value whose magnitude fits in
/// this bound, which comfortably covers an `i64` field plus readout noise.
pub const CLASSIFY_INPUT_LIMIT: i128 = 9_300_000_000_000_000_000;

/// Largest perturbation (exclusive) that classification is guaranteed to
/// absorb, per channel: half the spacing between adjacent nominal levels
/// (for wavelength, half the smallest palette gap, the 82 nm between blue
/// and green).
pub const INTENSITY_TOLERANCE: i64 = 125_000;
pub const POLARIZATION_TOLERANCE: i64 = 392_699;
pub const PHASE_TOLERANCE: i64 = 785_398;
pub const WAVELENGTH_TOLERANCE: i64 = 41_000_000;

pub open spec fn abs_int(x: int) -> int {
    if x < 0 { -x } else { x }
}

/// Nominal intensity level of a 2-bit value: 0.25, 0.50, 0.75, 1.00 units.
pub open spec fn intensity_level(v: int) -> int {
    (v + 1) * (INTENSITY_STEP as int)
}

/// Nominal polarization angle of a 2-bit value: 0, pi/4, pi/2, 3pi/4.
pub open spec fn polarization_level(v: int) -> int {
    v * (QUARTER_PI_MICRO as int)
}

/// Nominal phase angle of a 2-bit value: 0, pi/2, pi, 3pi/2.
pub open spec fn phase_level(v: int) -> int {
    v * (HALF_PI_MICRO as int)
}

/// Nominal wavelength of a 2-bit value, from the palette.
pub open spec fn wavelength_level(v: int) -> int {
    if v == 0 {
        WAVELENGTH_GREEN as int
    } else if v == 1 {
        WAVELENGTH_RED as int
    } else if v == 2 {
        WAVELENGTH_BLUE as int
    } else {
        WAVELENGTH_INFRARED as int
    }
}

/// Absolute distance from a field value to an intensity level.
pub open spec fn intensity_distance(x: int, v: int) -> int {
    abs_int(x - intensity_level(v))
}

/// Circular (modulo pi) distance from a field value to a polarization level.
pub open spec fn polarization_distance(x: int, v: int) -> int {
    let raw = abs_int(x - polarization_level(v));
    if raw > HALF_PI_MICRO as int {
        PI_MICRO as int - raw
    } else {
        raw
    }
}

/// Circular (modulo 2*pi) distance from a field value to a phase level.
pub open spec fn phase_distance(x: int, v: int) -> int {
    let raw = abs_int(x - phase_level(v));
    if raw > PI_MICRO as int {
        TWO_PI_MICRO as int - raw
    } else {
        raw
    }
}

/// Absolute distance from a field value to a wavelength level.
pub open spec fn wavelength_distance(x: int, v: int) -> int {
    abs_int(x - wavelength_level(v))
}

/// Index of the smallest of four distances, scanned in index order with a
/// strictly-smaller test, so an exact tie keeps the lowest index.
pub open spec fn nearest_of_four(d0: int, d1: int, d2: int, d3: int) -> int {
    if d1 < d0 {
        if d2 < d1 {
            if d3 < d2 { 3 } else { 2 }
        } else if d3 < d1 {
            3
        } else {
            1
        }
    } else {
        if d2 < d0 {
            if d3 < d2 { 3 } else { 2 }
        } else if d3 < d0 {
            3
        } else {
            0
        }
    }
}

/// Nearest-level classification of a perturbed intensity value.
pub open spec fn classify_intensity(x: int) -> int {
    nearest_of_four(
        intensity_distance(x, 0),
        intensity_distance(x, 1),
        intensity_distance(x, 2),
        intensity_distance(x, 3),
    )
}

/// Nearest-level classification of a perturbed polarization value.
pub open spec fn classify_polarization(x: int) -> int {
    nearest_of_four(
        polarization_distance(x, 0),
        polarization_distance(x, 1),
        polarization_distance(x, 2),
        polarization_distance(x, 3),
    )
}

/// Nearest-level classification of a perturbed phase value.
pub open spec fn classify_phase(x: int) -> int {
    nearest_of_four(
        phase_distance(x, 0),
        phase_distance(x, 1),
        phase_distance(x, 2),
        phase_distance(x, 3),
    )
}

/// Nearest-level classification of a perturbed wavelength value.
pub open spec fn classify_wavelength(x: int) -> int {
    nearest_of_four(
        wavelength_distance(x, 0),
        wavelength_distance(x, 1),
        wavelength_distance(x, 2),
        wavelength_distance(x, 3),
    )
}

/// The byte read back from four (possibly perturbed) field values:
/// wavelength index in bits 6-7, phase in 4-5, polarization in 2-3,
/// intensity in 0-1.
pub open spec fn decode_fields(xi: int, xp: int, xh: int, xw: int) -> u8 {
    (classify_wavelength(xw) * 64 + classify_phase(xh) * 16 + classify_polarization(xp) * 4
        + classify_intensity(xi)) as u8
}

/// Noiseless decoding of one voxel.
pub open spec fn decode_voxel_spec(v: PhotonicVoxel) -> u8 {
    decode_fields(v.intensity as int, v.polarization as int, v.phase as int, v.wavelength as int)
}

/// Encoding of one byte: each 2-bit field mapped to its nominal level.
/// Bits 0-1 intensity, 2-3 polarization, 4-5 phase, 6-7 wavelength.
pub open spec fn encode_byte_spec(b: u8) -> PhotonicVoxel {
    PhotonicVoxel {
        intensity: intensity_level((b & 3) as int) as i64,
        polarization: polarization_level(((b >> 2) & 3) as int) as i64,
        phase: phase_level(((b >> 4) & 3) as int) as i64,
        wavelength: wavelength_level(((b >> 6) & 3) as int) as i64,
    }
}

/// Element-wise encoding of a byte sequence.
pub open spec fn encode_seq_spec(data: Seq<u8>) -> Seq<PhotonicVoxel> {
    data.map_values(|b: u8| encode_byte_spec(b))
}

/// Element-wise noiseless decoding of a voxel sequence.
pub open spec fn decode_seq_spec(voxels: Seq<PhotonicVoxel>) -> Seq<u8> {
    voxels.map_values(|v: PhotonicVoxel| decode_voxel_spec(v))
}

/// The noise vector a single readout may add to the four fields.
pub open spec fn readout_noise_ok(ei: int, ep: int, eh: int, ew: int) -> bool {
    &&& -READOUT_NOISE_INTENSITY <= ei <= READOUT_NOISE_INTENSITY
    &&& -READOUT_NOISE_POLARIZATION <= ep <= READOUT_NOISE_POLARIZATION
    &&& -READOUT_NOISE_PHASE <= eh <= READOUT_NOISE_PHASE
    &&& -READOUT_NOISE_WAVELENGTH <= ew <= READOUT_NOISE_WAVELENGTH
}

/// The byte is what noiseless decoding yields for the voxel after some
/// readout-noise perturbation of its fields.
pub open spec fn noisy_decode_ok(v: PhotonicVoxel, b: u8) -> bool {
    exists|ei: int, ep: int, eh: int, ew: int|
        readout_noise_ok(ei, ep, eh, ew) && b == decode_fields(
            v.intensity + ei,
            v.polarization + ep,
            v.phase + eh,
            v.wavelength + ew,
        )
}

/// Relies on rand's `random_range` over `lo..hi`: a uniform sample in the
/// half-open range; it panics only when the range is empty.
#[verifier::external_body]
pub(crate) fn sample_noise(lo: i64, hi: i64) -> (r: i64)
    requires
        lo < hi,
    ensures
        lo <= r < hi,
{
    rand::random_range(lo..hi)
}

/// Encodes a byte slice into a voxel sequence, one voxel per byte.
///
/// Each byte is split into four 2-bit fields and each field mapped to its
/// nominal physical level; the output length equals the input length.
pub fn encode_data(data: &[u8]) -> (voxels: Vec<PhotonicVoxel>)
    ensures
        voxels@.len() == data@.len(),
        voxels@ == encode_seq_spec(data@),
{
    let mut voxels: Vec<PhotonicVoxel> = Vec::with_capacity(data.len());
    for i in 0..data.len()
        invariant
            voxels@.len() == i,
            forall|j: int| 0 <= j < i ==> voxels@[j] == encode_byte_spec(data@[j]),
    {
        voxels.push(encode_byte_to_voxel(data[i]));
    }
    proof {
        assert(voxels@ =~= encode_seq_spec(data@));
    }
    voxels
}

/// Encodes a full byte into a single voxel.
fn encode_byte_to_voxel(byte: u8) -> (v: PhotonicVoxel)
    ensures
        v == encode_byte_spec(byte),
{
    let intensity_bits = byte & 0b0011;
    let polarization_bits = (byte >> 2) & 0b0011;
    let phase_bits = (byte >> 4) & 0b0011;
    let wavelength_bits = (byte >> 6) & 0b0011;

    let intensity: i64 = (intensity_bits as i64 + 1) * INTENSITY_STEP;
    let polarization: i64 = polarization_bits as i64 * QUARTER_PI_MICRO;
    let phase: i64 = phase_bits as i64 * HALF_PI_MICRO;
    let wavelength: i64 = if wavelength_bits == 0 {
        WAVELENGTH_GREEN
    } else if wavelength_bits == 1 {
        WAVELENGTH_RED
    } else if wavelength_bits == 2 {
        WAVELENGTH_BLUE
    } else {
        WAVELENGTH_INFRARED
    };

    PhotonicVoxel::new(intensity, polarization, phase, wavelength)
}

/// Decodes a voxel sequence back into bytes, one byte per voxel.
///
/// With `simulate_noise` every voxel is first perturbed by an independent
/// uniform readout-noise draw per channel; each field is then classified to
/// the nearest nominal level of its channel.
pub fn decode_data(voxels: &[PhotonicVoxel], simulate_noise: bool) -> (data: Vec<u8>)
    ensures
        data@.len() == voxels@.len(),
        !simulate_noise ==> data@ == decode_seq_spec(voxels@),
        forall|i: int| 0 <= i < voxels@.len() ==> noisy_decode_ok(voxels@[i], data@[i]),
{
    let mut data: Vec<u8> = Vec::with_capacity(voxels.len());
    for i in 0..voxels.len()
        invariant
            data@.len() == i,
            simulate_noise || (forall|j: int|
                0 <= j < i ==> data@[j] == decode_voxel_spec(voxels@[j])),
            forall|j: int| 0 <= j < i ==> noisy_decode_ok(voxels@[j], data@[j]),
    {
        data.push(decode_voxel(voxels[i], simulate_noise));
    }
    proof {
        if !simulate_noise {
            assert(data@ =~= decode_seq_spec(voxels@));
        }
    }
    data
}

/// Decodes a single voxel into a byte by nearest-level classification.
fn decode_voxel(voxel: PhotonicVoxel, simulate_noise: bool) -> (byte: u8)
    ensures
        !simulate_noise ==> byte == decode_voxel_spec(voxel),
        noisy_decode_ok(voxel, byte),
{
    let mut ei: i64 = 0;
    let mut ep: i64 = 0;
    let mut eh: i64 = 0;
    let mut ew: i64 = 0;
    if simulate_noise {
        ei = sample_noise(-READOUT_NOISE_INTENSITY, READOUT_NOISE_INTENSITY + 1);
        ep = sample_noise(-READOUT_NOISE_POLARIZATION, READOUT_NOISE_POLARIZATION + 1);
        eh = sample_noise(-READOUT_NOISE_PHASE, READOUT_NOISE_PHASE + 1);
        ew = sample_noise(-READOUT_NOISE_WAVELENGTH, READOUT_NOISE_WAVELENGTH + 1);
    }

    let xi: i128 = voxel.intensity as i128 + ei as i128;
    let xp: i128 = voxel.polarization as i128 + ep as i128;
    let xh: i128 = voxel.phase as i128 + eh as i128;
    let xw: i128 = voxel.wavelength as i128 + ew as i128;

    let intensity_idx = classify_intensity_exec(xi);
    let polarization_idx = classify_polarization_exec(xp);
    let phase_idx = classify_phase_exec(xh);
    let wavelength_idx = classify_wavelength_exec(xw);

    let byte: u8 = wavelength_idx * 64 + phase_idx * 16 + polarization_idx * 4 + intensity_idx;

    proof {
        assert(readout_noise_ok(ei as int, ep as int, eh as int, ew as int));
        assert(byte == decode_fields(
            voxel.intensity + ei as int,
            voxel.polarization + ep as int,
            voxel.phase + eh as int,
            voxel.wavelength + ew as int,
        ));
    }
    byte
}

/// Index of the smallest of four distances; exact ties keep the lowest index.
fn nearest_index(d0: i128, d1: i128, d2: i128, d3: i128) -> (idx: u8)
    ensures
        idx <= 3,
        idx as int == nearest_of_four(d0 as int, d1 as int, d2 as int, d3 as int),
{
    let mut idx: u8 = 0;
    let mut best: i128 = d0;
    if d1 < best {
        idx = 1;
        best = d1;
    }
    if d2 < best {
        idx = 2;
        best = d2;
    }
    if d3 < best {
        idx = 3;
        best = d3;
    }
    idx
}

fn classify_intensity_exec(x: i128) -> (idx: u8)
    requires
        -CLASSIFY_INPUT_LIMIT <= x <= CLASSIFY_INPUT_LIMIT,
    ensures
        idx <= 3,
        idx as int == classify_intensity(x as int),
{
    let t0: i128 = x - INTENSITY_STEP as i128;
    let t1: i128 = x - 2 * INTENSITY_STEP as i128;
    let t2: i128 = x - 3 * INTENSITY_STEP as i128;
    let t3: i128 = x - 4 * INTENSITY_STEP as i128;
    let d0: i128 = if t0 < 0 { -t0 } else { t0 };
    let d1: i128 = if t1 < 0 { -t1 } else { t1 };
    let d2: i128 = if t2 < 0 { -t2 } else { t2 };
    let d3: i128 = if t3 < 0 { -t3 } else { t3 };
    nearest_index(d0, d1, d2, d3)
}

fn classify_polarization_exec(x: i128) -> (idx: u8)
    requires
        -CLASSIFY_INPUT_LIMIT <= x <= CLASSIFY_INPUT_LIMIT,
    ensures
        idx <= 3,
        idx as int == classify_polarization(x as int),
{
    let d0: i128 = circular_distance(x, 0, HALF_PI_MICRO as i128, PI_MICRO as i128);
    let d1: i128 = circular_distance(
        x,
        QUARTER_PI_MICRO as i128,
        HALF_PI_MICRO as i128,
        PI_MICRO as i128,
    );
    let d2: i128 = circular_distance(
        x,
        2 * QUARTER_PI_MICRO as i128,
        HALF_PI_MICRO as i128,
        PI_MICRO as i128,
    );
    let d3: i128 = circular_distance(
        x,
        3 * QUARTER_PI_MICRO as i128,
        HALF_PI_MICRO as i128,
        PI_MICRO as i128,
    );
    nearest_index(d0, d1, d2, d3)
}

fn classify_phase_exec(x: i128) -> (idx: u8)
    requires
        -CLASSIFY_INPUT_LIMIT <= x <= CLASSIFY_INPUT_LIMIT,
    ensures
        idx <= 3,
        idx as int == classify_phase(x as int),
{
    let d0: i128 = circular_distance(x, 0, PI_MICRO as i128, TWO_PI_MICRO as i128);
    let d1: i128 = circular_distance(
        x,
        HALF_PI_MICRO as i128,
        PI_MICRO as i128,
        TWO_PI_MICRO as i128,
    );
    let d2: i128 = circular_distance(
        x,
        2 * HALF_PI_MICRO as i128,
        PI_MICRO as i128,
        TWO_PI_MICRO as i128,
    );
    let d3: i128 = circular_distance(
        x,
        3 * HALF_PI_MICRO as i128,
        PI_MICRO as i128,
        TWO_PI_MICRO as i128,
    );
    nearest_index(d0, d1, d2, d3)
}

fn classify_wavelength_exec(x: i128) -> (idx: u8)
    requires
        -CLASSIFY_INPUT_LIMIT <= x <= CLASSIFY_INPUT_LIMIT,
    ensures
        idx <= 3,
        idx as int == classify_wavelength(x as int),
{
    let t0: i128 = x - WAVELENGTH_GREEN as i128;
    let t1: i128 = x - WAVELENGTH_RED as i128;
    let t2: i128 = x - WAVELENGTH_BLUE as i128;
    let t3: i128 = x - WAVELENGTH_INFRARED as i128;
    let d0: i128 = if t0 < 0 { -t0 } else { t0 };
    let d1: i128 = if t1 < 0 { -t1 } else { t1 };
    let d2: i128 = if t2 < 0 { -t2 } else { t2 };
    let d3: i128 = if t3 < 0 { -t3 } else { t3 };
    nearest_index(d0, d1, d2, d3)
}

/// A perturbed intensity still classifies to its level while the
/// perturbation stays strictly below half the level spacing.
pub proof fn lemma_classify_intensity_recovers(v: int, e: int)
    requires
        0 <= v < 4,
        -INTENSITY_TOLERANCE < e < INTENSITY_TOLERANCE,
    ensures
        classify_intensity(intensity_level(v) + e) == v,
{
}

/// A perturbed polarization still classifies to its level while the
/// perturbation stays strictly below half the level spacing.
pub proof fn lemma_classify_polarization_recovers(v: int, e: int)
    requires
        0 <= v < 4,
        -POLARIZATION_TOLERANCE < e < POLARIZATION_TOLERANCE,
    ensures
        classify_polarization(polarization_level(v) + e) == v,
{
}

/// A perturbed phase still classifies to its level while the perturbation
/// stays strictly below half the level spacing.
pub proof fn lemma_classify_phase_recovers(v: int, e: int)
    requires
        0 <= v < 4,
        -PHASE_TOLERANCE < e < PHASE_TOLERANCE,
    ensures
        classify_phase(phase_level(v) + e) == v,
{
}

/// A perturbed wavelength still classifies to its palette entry while the
/// perturbation stays strictly below half the smallest palette gap.
pub proof fn lemma_classify_wavelength_recovers(v: int, e: int)
    requires
        0 <= v < 4,
        -WAVELENGTH_TOLERANCE < e < WAVELENGTH_TOLERANCE,
    ensures
        classify_wavelength(wavelength_level(v) + e) == v,
{
}

/// Noisy round-trip tolerance: decoding an encoded byte recovers it exactly
/// whenever each field's perturbation stays strictly below half the level
/// spacing of its channel.
pub proof fn lemma_tolerant_round_trip(b: u8, ei: int, ep: int, eh: int, ew: int)
    requires
        -INTENSITY_TOLERANCE < ei < INTENSITY_TOLERANCE,
        -POLARIZATION_TOLERANCE < ep < POLARIZATION_TOLERANCE,
        -PHASE_TOLERANCE < eh < PHASE_TOLERANCE,
        -WAVELENGTH_TOLERANCE < ew < WAVELENGTH_TOLERANCE,
    ensures
        decode_fields(
            encode_byte_spec(b).intensity + ei,
            encode_byte_spec(b).polarization + ep,
            encode_byte_spec(b).phase + eh,
            encode_byte_spec(b).wavelength + ew,
        ) == b,
{
    let iv = (b & 3) as int;
    let pv = ((b >> 2) & 3) as int;
    let hv = ((b >> 4) & 3) as int;
    let wv = ((b >> 6) & 3) as int;
    assert((b & 3) < 4 && ((b >> 2) & 3) < 4 && ((b >> 4) & 3) < 4 && ((b >> 6) & 3) < 4)
        by (bit_vector);
    lemma_classify_intensity_recovers(iv, ei);
    lemma_classify_polarization_recovers(pv, ep);
    lemma_classify_phase_recovers(hv, eh);
    lemma_classify_wavelength_recovers(wv, ew);
    assert(((b >> 6) & 3) * 64 + ((b >> 4) & 3) * 16 + ((b >> 2) & 3) * 4 + (b & 3) == b)
        by (bit_vector);
}

/// Noiseless decoding of an encoded byte is exact.
pub proof fn lemma_decode_encode_byte(b: u8)
    ensures
        decode_voxel_spec(encode_byte_spec(b)) == b,
{
    lemma_tolerant_round_trip(b, 0, 0, 0, 0);
}

/// Noiseless round-trip exactness: decoding an encoded byte sequence yields
/// the original sequence, for every byte sequence including the empty one.
pub proof fn lemma_noiseless_round_trip(data: Seq<u8>)
    ensures
        decode_seq_spec(encode_seq_spec(data)) == data,
{
    let enc = encode_seq_spec(data);
    assert forall|i: int| 0 <= i < data.len() implies decode_seq_spec(enc)[i] == data[i] by {
        lemma_decode_encode_byte(data[i]);
    }
    assert(decode_seq_spec(enc) =~= data);
}

/// Every byte that a noisy readout of a freshly encoded voxel can produce is
/// the encoded byte itself: the readout noise amplitudes sit strictly below
/// the classification tolerances.
pub proof fn lemma_noisy_readout_recovers(b: u8, r: u8)
    requires
        noisy_decode_ok(encode_byte_spec(b), r),
    ensures
        r == b,
{
    let (ei, ep, eh, ew): (int, int, int, int) = choose|ei: int, ep: int, eh: int, ew: int|
        readout_noise_ok(ei, ep, eh, ew) && r == decode_fields(
            encode_byte_spec(b).intensity + ei,
            encode_byte_spec(b).polarization + ep,
            encode_byte_spec(b).phase + eh,
            encode_byte_spec(b).wavelength + ew,
        );
    lemma_tolerant_round_trip(b, ei, ep, eh, ew);
}

/// Sequence form of the readout-noise guarantee: any byte sequence read back
/// from a freshly encoded voxel sequence under per-voxel readout noise is the
/// encoded sequence itself.
pub proof fn lemma_noisy_read_of_encoding_recovers(data: Seq<u8>, read: Seq<u8>)
    requires
        read.len() == data.len(),
        forall|i: int|
            0 <= i < data.len() ==> noisy_decode_ok(encode_seq_spec(data)[i], #[trigger] read[i]),
    ensures
        read == data,
{
    assert forall|i: int| 0 <= i < data.len() implies read[i] == data[i] by {
        lemma_noisy_readout_recovers(data[i], read[i]);
    }
    assert(read =~= data);
}

/// Distance from `x` to `level` on a circle of circumference `whole`, as the
/// raw absolute difference folded back once it exceeds `half`.
fn circular_distance(x: i128, level: i128, half: i128, whole: i128) -> (d: i128)
    requires
        -CLASSIFY_INPUT_LIMIT <= x <= CLASSIFY_INPUT_LIMIT,
        0 <= level <= CLASSIFY_INPUT_LIMIT,
        0 < half <= CLASSIFY_INPUT_LIMIT,
        0 < whole <= CLASSIFY_INPUT_LIMIT,
    ensures
        d as int == (if abs_int(x - level) > half { whole - abs_int(x - level) } else {
            abs_int(x - level)
        }),
{
    let t: i128 = x - level;
    let raw: i128 = if t < 0 { -t } else { t };
    if raw > half {
        whole - raw
    } else {
        raw
    }
}

} // verus!
