use photon_core::{decode_data, encode_data, read_ignoring_polarization, verify_obfuscation};

#[test]
fn test_round_trip_noiseless() {
    let data = b"Hello World";
    let voxels = encode_data(data);
    let decoded = decode_data(&voxels, false);
    assert!(
        decoded.starts_with(data),
        "Noiseless round trip failed: Decoded {:?} vs Original {:?}",
        decoded,
        data
    );
}

#[test]
fn test_round_trip_with_noise() {
    let data = b"Testing Noise";
    let voxels = encode_data(data);
    let decoded = decode_data(&voxels, true);
    assert!(
        decoded.starts_with(data),
        "Noisy round trip failed: Decoded {:?} vs Original {:?}",
        decoded,
        data
    );
}

#[test]
fn test_steganography_effectiveness() {
    let data = b"Secret Data";
    let voxels = encode_data(data);

    let stolen = read_ignoring_polarization(&voxels);

    assert_ne!(data.as_slice(), stolen.as_slice(), "Steganography failed: data leaked");

    assert!(verify_obfuscation(data, &voxels));
}

#[test]
fn test_empty_input() {
    let data = b"";
    let voxels = encode_data(data);
    assert!(voxels.is_empty());
    let decoded = decode_data(&voxels, false);
    assert!(decoded.is_empty());
}
