use vstd::prelude::*;

verus! {

/// Fixed-point scale: every physical quantity in this crate is stored as an
/// `i64` count of millionths of its base unit (intensity units, radians,
/// nanometers).  One whole base unit is `MICRO_SCALE` steps.
pub const MICRO_SCALE: i64 = 1_000_000;

/// A quarter turn of polarization (pi/4 radians) in millionths of a radian.
/// The value is chosen so that pi is exactly four quarter turns, keeping the
/// nominal angle levels and their wrap-around arithmetic exact in fixed point.
pub const QUARTER_PI_MICRO: i64 = 785_398;

/// pi/2 in millionths of a radian.
pub const HALF_PI_MICRO: i64 = 1_570_796;

/// pi in millionths of a radian (the polarization wrap-around period).
pub const PI_MICRO: i64 = 3_141_592;

/// 2*pi in millionths of a radian (the phase wrap-around period).
pub const TWO_PI_MICRO: i64 = 6_283_184;

/// Detector saturation ceiling for intensity: 1.5 units.
pub const SATURATION_INTENSITY: i64 = 1_500_000;

/// Largest field magnitude the noise and crosstalk transforms accept.
/// Generous compared to the nominal levels; it exists only so that every
/// intermediate fixed-point sum and product stays inside `i64`.
pub const FIELD_MAGNITUDE_LIMIT: i64 = 4_000_000_000;

/// Largest noise amplitude the noise model accepts, for the same reason.
pub const NOISE_AMPLITUDE_LIMIT: i64 = 1_000_000_000;

/// A single unit of data storage in the optical memory model: the physical
/// properties of the laser pulse that writes or reads one voxel (volumetric
/// pixel) of the crystal lattice.
///
/// Four dimensions are modeled, each as a fixed-point `i64` in millionths of
/// its base unit:
/// 1. Intensity (amplitude), nominal discrete levels 0.25, 0.50, 0.75, 1.00.
/// 2. Polarization angle in radians, nominal levels 0, pi/4, pi/2, 3pi/4.
/// 3. Phase angle in radians, nominal levels 0, pi/2, pi, 3pi/2.
/// 4. Wavelength in nanometers, nominal palette 532, 650, 450, 800.
///
/// A freshly encoded voxel has each field at exactly one nominal level; the
/// noise and crosstalk transforms produce perturbed copies, which decoding
/// tolerates by nearest-level classification.
#[derive(Debug, Clone, Copy, PartialEq, Eq, Structural)]
pub struct PhotonicVoxel {
    /// Optical intensity in millionths of the normalized unit.
    pub intensity: i64,

    /// Polarization angle in millionths of a radian; wraps modulo pi.
    pub polarization: i64,

    /// Optical phase shift in millionths of a radian; wraps modulo 2*pi.
    pub phase: i64,

    /// Wavelength in millionths of a nanometer.
    pub wavelength: i64,
}

impl PhotonicVoxel {
    /// Creates a new voxel with the given physical properties.
    pub fn new(intensity: i64, polarization: i64, phase: i64, wavelength: i64) -> (v: Self)
        ensures
            v == (PhotonicVoxel { intensity, polarization, phase, wavelength }),
    {
        Self { intensity, polarization, phase, wavelength }
    }

    /// All four fields are small enough for the noise and crosstalk
    /// transforms to work on them without leaving `i64`.
    pub open spec fn fields_bounded(self) -> bool {
        &&& -FIELD_MAGNITUDE_LIMIT <= self.intensity <= FIELD_MAGNITUDE_LIMIT
        &&& -FIELD_MAGNITUDE_LIMIT <= self.polarization <= FIELD_MAGNITUDE_LIMIT
        &&& -FIELD_MAGNITUDE_LIMIT <= self.phase <= FIELD_MAGNITUDE_LIMIT
        &&& -FIELD_MAGNITUDE_LIMIT <= self.wavelength <= FIELD_MAGNITUDE_LIMIT
    }
}

} // verus!
