use photon_core::analysis::{apply_noise, count_bit_errors, run_ber_simulation};
use photon_core::codec::{
    INTENSITY_STEP, WAVELENGTH_BLUE, WAVELENGTH_GREEN,
};
use photon_core::structs::{HALF_PI_MICRO, PI_MICRO, QUARTER_PI_MICRO, SATURATION_INTENSITY};
use photon_core::{decode_data, encode_data, simulate_crosstalk, PhotonicVoxel};

#[test]
fn test_concrete_scenario_three_bytes() {
    let data = [0x00u8, 0xFF, 0xAB];
    let voxels = encode_data(&data);
    assert_eq!(voxels.len(), 3);

    // 0x00: every channel at its zero-index level
    assert_eq!(voxels[0].intensity, INTENSITY_STEP);
    assert_eq!(voxels[0].polarization, 0);
    assert_eq!(voxels[0].phase, 0);
    assert_eq!(voxels[0].wavelength, WAVELENGTH_GREEN);

    // 0xAB = 0b10101011: intensity 3, polarization 2, phase 2, wavelength 2
    assert_eq!(voxels[2].intensity, 4 * INTENSITY_STEP);
    assert_eq!(voxels[2].polarization, 2 * QUARTER_PI_MICRO);
    assert_eq!(voxels[2].phase, 2 * HALF_PI_MICRO);
    assert_eq!(voxels[2].wavelength, WAVELENGTH_BLUE);

    let decoded = decode_data(&voxels, false);
    assert_eq!(decoded, vec![0x00, 0xFF, 0xAB]);
    assert_eq!(decoded[2], 0xAB);
}

#[test]
fn test_every_byte_round_trips() {
    for b in 0..=255u8 {
        let voxels = encode_data(&[b]);
        let decoded = decode_data(&voxels, false);
        assert_eq!(decoded, vec![b], "byte {:#04x} did not round-trip", b);
    }
}

#[test]
fn test_decode_classifies_perturbed_fields() {
    // byte 0b01100110: intensity 2, polarization 1, phase 2, wavelength 1
    let byte = 0b0110_0110u8;
    let clean = encode_data(&[byte]);
    let perturbed = PhotonicVoxel::new(
        clean[0].intensity + 40_000,
        clean[0].polarization - 70_000,
        clean[0].phase + 90_000,
        clean[0].wavelength - 9_000_000,
    );
    let decoded = decode_data(&[perturbed], false);
    assert_eq!(decoded, vec![byte]);
}

#[test]
fn test_decode_misreads_gross_perturbation() {
    // a full level step up in intensity flips the low two bits
    let byte = 0b0000_0000u8;
    let clean = encode_data(&[byte]);
    let perturbed = PhotonicVoxel::new(
        clean[0].intensity + INTENSITY_STEP,
        clean[0].polarization,
        clean[0].phase,
        clean[0].wavelength,
    );
    let decoded = decode_data(&[perturbed], false);
    assert_eq!(decoded, vec![0b0000_0001]);
}

#[test]
fn test_apply_noise_zero_amplitude_is_identity() {
    let voxels = encode_data(b"abc");
    let out = apply_noise(&voxels, 0);
    assert_eq!(out, voxels);
}

#[test]
fn test_apply_noise_stays_within_amplitude() {
    let voxels = encode_data(b"noisy");
    let amplitude = 30_000i64;
    let out = apply_noise(&voxels, amplitude);
    assert_eq!(out.len(), voxels.len());
    for (a, b) in voxels.iter().zip(out.iter()) {
        assert!((b.intensity - a.intensity).abs() <= amplitude);
        assert!((b.polarization - a.polarization).abs() <= amplitude);
        assert!((b.phase - a.phase).abs() <= amplitude);
        assert!((b.wavelength - a.wavelength).abs() <= 100 * amplitude);
    }
}

#[test]
fn test_count_bit_errors_exact_values() {
    assert_eq!(count_bit_errors(&[0xFF], &[0x00]), 8);
    assert_eq!(count_bit_errors(&[0b1010_1010], &[0b0101_0101]), 8);
    assert_eq!(count_bit_errors(&[0b1010], &[0b0101]), 4);
    assert_eq!(count_bit_errors(&[1, 2, 3], &[1, 2, 3]), 0);
    // two missing bytes count as sixteen bit errors
    assert_eq!(count_bit_errors(&[1, 2, 3], &[1]), 16);
}

#[test]
fn test_run_ber_simulation_records() {
    let results = run_ber_simulation(100, 5, 100_000);
    assert_eq!(results.len(), 6);
    assert_eq!(results[0].noise_level, 0);
    assert_eq!(results[0].error_bits, 0);
    assert_eq!(results[5].noise_level, 100_000);
    for r in &results {
        assert_eq!(r.total_bits, 800);
        assert!(r.error_bits <= r.total_bits);
    }
}

#[test]
fn test_crosstalk_degenerate_geometry_is_identity() {
    let voxels = encode_data(b"xyz");
    let out = simulate_crosstalk(&voxels, 0, 3, 10_000);
    assert_eq!(out, voxels);
    let out = simulate_crosstalk(&voxels, 3, 0, 10_000);
    assert_eq!(out, voxels);
}

#[test]
fn test_crosstalk_neighbor_leakage_exact() {
    // a 2 x 1 row: each cell's only neighbor is the other cell
    let a = PhotonicVoxel::new(1_000_000, 0, 0, WAVELENGTH_GREEN);
    let b = PhotonicVoxel::new(500_000, QUARTER_PI_MICRO, PI_MICRO, WAVELENGTH_BLUE);
    let out = simulate_crosstalk(&[a, b], 2, 1, 10_000);
    // one percent of the neighbor's intensity leaks in
    assert_eq!(out[0].intensity, 1_000_000 + 5_000);
    assert_eq!(out[1].intensity, 500_000 + 10_000);
    // the other channels are untouched
    assert_eq!(out[1].polarization, QUARTER_PI_MICRO);
    assert_eq!(out[1].phase, PI_MICRO);
    assert_eq!(out[1].wavelength, WAVELENGTH_BLUE);
}

#[test]
fn test_crosstalk_saturates_at_ceiling() {
    // full leakage between two bright cells exceeds the ceiling
    let bright = PhotonicVoxel::new(1_000_000, 0, 0, WAVELENGTH_GREEN);
    let out = simulate_crosstalk(&[bright, bright], 2, 1, 1_000_000);
    assert_eq!(out[0].intensity, SATURATION_INTENSITY);
    assert_eq!(out[1].intensity, SATURATION_INTENSITY);
}

#[test]
fn test_crosstalk_three_dimensional_neighbors() {
    // a 1 x 1 x 3 column: the middle cell has neighbors above and below
    let dim = PhotonicVoxel::new(100_000, 0, 0, WAVELENGTH_GREEN);
    let mid = PhotonicVoxel::new(200_000, 0, 0, WAVELENGTH_GREEN);
    let out = simulate_crosstalk(&[dim, mid, dim], 1, 1, 500_000);
    assert_eq!(out[0].intensity, 100_000 + 100_000);
    assert_eq!(out[1].intensity, 200_000 + 50_000 + 50_000);
    assert_eq!(out[2].intensity, 100_000 + 100_000);
}
