use vstd::prelude::*;
use vstd::arithmetic::div_mod::{
    lemma_div_is_ordered, lemma_div_pos_is_pos, lemma_fundamental_div_mod, lemma_mod_bound,
    lemma_small_mod,
};
use vstd::arithmetic::mul::lemma_mul_inequality;
use crate::structs::{FIELD_MAGNITUDE_LIMIT, MICRO_SCALE, PhotonicVoxel, SATURATION_INTENSITY};

verus! {

/// Truncated (round-toward-zero) division by the fixed-point scale: the
/// scaling step that follows a fixed-point multiplication.
pub open spec fn scale_down(x: int) -> int {
    if x >= 0 {
        x / (MICRO_SCALE as int)
    } else {
        -((-x) / (MICRO_SCALE as int))
    }
}

/// Leakage that one neighbor at position `n` contributes, if it exists: a
/// `factor`-fraction (in millionths) of its intensity.
pub open spec fn leak_term(s: Seq<PhotonicVoxel>, n: int, present: bool, factor: int) -> int {
    if present {
        scale_down(s[n].intensity * factor)
    } else {
        0
    }
}

/// Total leakage received by the cell at `idx` of a `w x h x depth` row-major
/// lattice from its up-to-six axis-aligned neighbors that exist within bounds
/// and within the populated length.
pub open spec fn crosstalk_sum(s: Seq<PhotonicVoxel>, w: int, h: int, factor: int, idx: int) -> int {
    let layer = w * h;
    let x = idx % w;
    let y = (idx / w) % h;
    let len = s.len() as int;
    leak_term(s, idx - 1, x > 0, factor) + leak_term(s, idx + 1, x + 1 < w && idx + 1 < len, factor)
        + leak_term(s, idx - w, y > 0, factor) + leak_term(
        s,
        idx + w,
        y + 1 < h && idx + w < len,
        factor,
    ) + leak_term(s, idx - layer, idx - layer >= 0, factor) + leak_term(
        s,
        idx + layer,
        idx + layer < len,
        factor,
    )
}

/// The cell at `idx` after one synchronous crosstalk pass: its own intensity
/// plus the neighbor leakage, clamped at the detector saturation ceiling.
/// Only intensity leaks; the other channels are unaffected.
pub open spec fn crosstalk_voxel(s: Seq<PhotonicVoxel>, w: int, h: int, factor: int, idx: int) -> PhotonicVoxel {
    let raw = s[idx].intensity + crosstalk_sum(s, w, h, factor, idx);
    let clamped = if raw > SATURATION_INTENSITY as int {
        SATURATION_INTENSITY as int
    } else {
        raw
    };
    PhotonicVoxel {
        intensity: clamped as i64,
        polarization: s[idx].polarization,
        phase: s[idx].phase,
        wavelength: s[idx].wavelength,
    }
}

/// A `factor`-fraction (in millionths) of a neighbor's intensity.
fn leak(neighbor_intensity: i64, factor: i64) -> (t: i64)
    requires
        -FIELD_MAGNITUDE_LIMIT <= neighbor_intensity <= FIELD_MAGNITUDE_LIMIT,
        0 <= factor <= MICRO_SCALE,
    ensures
        t as int == scale_down(neighbor_intensity as int * factor as int),
        -FIELD_MAGNITUDE_LIMIT <= t <= FIELD_MAGNITUDE_LIMIT,
{
    proof {
        assert(-4_000_000_000_000_000 <= neighbor_intensity as int * factor as int
            <= 4_000_000_000_000_000) by (nonlinear_arith)
            requires
                -FIELD_MAGNITUDE_LIMIT <= neighbor_intensity <= FIELD_MAGNITUDE_LIMIT,
                0 <= factor <= MICRO_SCALE,
        ;
    }
    let product: i64 = neighbor_intensity * factor;
    if product >= 0 {
        let q: u64 = product as u64 / 1_000_000;
        proof {
            lemma_div_is_ordered(product as int, 4_000_000_000_000_000, 1_000_000);
        }
        q as i64
    } else {
        let q: u64 = (-product) as u64 / 1_000_000;
        proof {
            lemma_div_is_ordered(-product as int, 4_000_000_000_000_000, 1_000_000);
        }
        -(q as i64)
    }
}

/// Simulates inter-voxel crosstalk on a 3-D crystal lattice.
///
/// The flat sequence is treated as a `width x height x depth` lattice in
/// row-major order, with `depth` inferred from the length. Every cell gains
/// a `crosstalk_factor`-fraction (in millionths) of each existing axis-aligned
/// neighbor's intensity, computed in a single synchronous pass that reads
/// only the original values; the result is clamped at the saturation
/// ceiling. Degenerate geometry (zero width or height) yields an unperturbed
/// copy.
pub fn simulate_crosstalk(
    voxels: &[PhotonicVoxel],
    width: usize,
    height: usize,
    crosstalk_factor: i64,
) -> (out: Vec<PhotonicVoxel>)
    requires
        0 <= crosstalk_factor <= MICRO_SCALE,
        width * height <= usize::MAX,
        forall|k: int| 0 <= k < voxels@.len() ==> (#[trigger] voxels@[k]).fields_bounded(),
    ensures
        out@.len() == voxels@.len(),
        (width == 0 || height == 0) ==> out@ == voxels@,
        (width != 0 && height != 0) ==> forall|k: int|
            0 <= k < voxels@.len() ==> out@[k] == crosstalk_voxel(
                voxels@,
                width as int,
                height as int,
                crosstalk_factor as int,
                k,
            ),
        (width != 0 && height != 0) ==> forall|k: int|
            0 <= k < voxels@.len() ==> (#[trigger] out@[k]).intensity <= SATURATION_INTENSITY,
{
    let len: usize = voxels.len();
    let mut out: Vec<PhotonicVoxel> = Vec::with_capacity(len);
    if width == 0 || height == 0 {
        for i in 0..len
            invariant
                len == voxels@.len(),
                out@.len() == i,
                forall|j: int| 0 <= j < i ==> out@[j] == voxels@[j],
        {
            out.push(voxels[i]);
        }
        proof {
            assert(out@ =~= voxels@);
        }
        return out;
    }

    let layer: usize = width * height;
    for idx in 0..len
        invariant
            len == voxels@.len(),
            width >= 1,
            height >= 1,
            layer == width * height,
            0 <= crosstalk_factor <= MICRO_SCALE,
            forall|k: int| 0 <= k < voxels@.len() ==> (#[trigger] voxels@[k]).fields_bounded(),
            out@.len() == idx,
            forall|k: int| 0 <= k < idx ==> out@[k] == crosstalk_voxel(
                voxels@,
                width as int,
                height as int,
                crosstalk_factor as int,
                k,
            ),
            forall|k: int| 0 <= k < idx ==> (#[trigger] out@[k]).intensity
                <= SATURATION_INTENSITY,
    {
        let x: usize = idx % width;
        let y: usize = (idx / width) % height;
        let v = voxels[idx];

        proof {
            let q = (idx as int) / (width as int);
            lemma_mod_bound(idx as int, width as int);
            lemma_mod_bound(q, height as int);
            lemma_div_pos_is_pos(idx as int, width as int);
            lemma_fundamental_div_mod(idx as int, width as int);
            if q % (height as int) > 0 {
                // a positive row coordinate forces at least one full row below
                lemma_small_mod(0, height as nat);
                lemma_mul_inequality(1, q, width as int);
                assert(idx as int >= width as int);
            }
        }

        let mut acc: i64 = v.intensity;
        if x > 0 {
            acc = acc + leak(voxels[idx - 1].intensity, crosstalk_factor);
        }
        if x + 1 < width && idx + 1 < len {
            acc = acc + leak(voxels[idx + 1].intensity, crosstalk_factor);
        }
        if y > 0 {
            acc = acc + leak(voxels[idx - width].intensity, crosstalk_factor);
        }
        if y + 1 < height && width < len - idx {
            acc = acc + leak(voxels[idx + width].intensity, crosstalk_factor);
        }
        if idx >= layer {
            acc = acc + leak(voxels[idx - layer].intensity, crosstalk_factor);
        }
        if layer < len - idx {
            acc = acc + leak(voxels[idx + layer].intensity, crosstalk_factor);
        }

        let intensity: i64 = if acc > SATURATION_INTENSITY {
            SATURATION_INTENSITY
        } else {
            acc
        };
        out.push(PhotonicVoxel::new(intensity, v.polarization, v.phase, v.wavelength));
        proof {
            assert(out@[idx as int] == crosstalk_voxel(
                voxels@,
                width as int,
                height as int,
                crosstalk_factor as int,
                idx as int,
            ));
        }
    }
    out
}

} // verus!
