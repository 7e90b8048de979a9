use photon_core::ecc::{strip_error_correction, EccError, TOTAL_SHARDS};
use photon_core::{add_error_correction, recover_error_correction};

#[test]
fn test_add_ecc_ten_bytes_gives_fourteen() {
    let data: Vec<u8> = (1..=10).collect();
    let protected = add_error_correction(&data);
    assert_eq!(protected.len(), 14);
    assert_eq!(&protected[..10], data.as_slice());
}

#[test]
fn test_ecc_round_trip_exact_multiple() {
    let data: Vec<u8> = (1..=10).collect();
    let protected = add_error_correction(&data);
    let recovered = recover_error_correction(&protected).expect("round trip must verify");
    assert_eq!(recovered, data);
}

#[test]
fn test_ecc_round_trip_with_padding() {
    let data = b"hello optical";
    let protected = add_error_correction(data);
    assert_eq!(protected.len() % TOTAL_SHARDS, 0);
    assert_eq!(protected.len(), 28);
    let recovered = recover_error_correction(&protected).expect("round trip must verify");
    // padded to the next multiple of ten with trailing zeros
    assert_eq!(recovered.len(), 20);
    assert_eq!(&recovered[..data.len()], data);
    assert!(recovered[data.len()..].iter().all(|&b| b == 0));
}

#[test]
fn test_ecc_parity_is_nontrivial() {
    let data: Vec<u8> = (1..=10).collect();
    let protected = add_error_correction(&data);
    // replacing the real parity with zeros must fail the integrity check
    let mut zeroed = protected.clone();
    for b in zeroed[10..].iter_mut() {
        *b = 0;
    }
    assert_ne!(protected, zeroed, "parity of nonzero data must not be all zero");
    assert_eq!(recover_error_correction(&zeroed), Err(EccError::IntegrityCheckFailed));
}

#[test]
fn test_ecc_length_mismatch() {
    let data = [0u8; 13];
    assert_eq!(recover_error_correction(&data), Err(EccError::LengthMismatch));
}

#[test]
fn test_ecc_detects_corruption() {
    let data = b"precious payload bytes";
    let mut protected = add_error_correction(data);
    protected[0] ^= 0xFF;
    assert_eq!(recover_error_correction(&protected), Err(EccError::IntegrityCheckFailed));
}

#[test]
fn test_strip_error_correction_ignores_corruption() {
    let data: Vec<u8> = (1..=10).collect();
    let mut protected = add_error_correction(&data);
    protected[0] ^= 0xFF;
    let stripped = strip_error_correction(&protected).expect("length is valid");
    assert_eq!(stripped.len(), 10);
    assert_eq!(stripped[0], data[0] ^ 0xFF);
    assert_eq!(&stripped[1..], &data[1..]);
}

#[test]
fn test_strip_error_correction_length_mismatch() {
    let data = [0u8; 15];
    assert_eq!(strip_error_correction(&data), Err(EccError::LengthMismatch));
}
