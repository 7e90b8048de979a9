//! Research simulator for encoding byte streams into a synthetic
//! four-dimensional physical representation ("photonic voxels"), pushing them
//! through noise and crosstalk channel models, and recovering the original
//! bytes, with an erasure-coding layer on top.
//!
//! All quantities are fixed-point `i64` values in millionths of their base
//! unit, so that the codec, the channel models and their properties can be
//! stated and verified exactly.

pub mod structs;
pub mod codec;
pub mod security;
pub mod ecc;
pub mod analysis;
pub mod physics;

pub use structs::PhotonicVoxel;
pub use codec::{encode_data, decode_data};
pub use security::{read_ignoring_polarization, verify_obfuscation};
pub use ecc::{add_error_correction, recover_error_correction};
pub use analysis::{run_ber_simulation, SimulationResult};
pub use physics::simulate_crosstalk;
