use wasm_observe::signing::{check_signature, sign_data, verify_data, VerifyFailure, PUBLIC_KEY_BYTES, SIGNATURE_BYTES};

#[test]
fn signature_and_key_have_fixed_lengths() {
    let signed = sign_data(b"module bytes");
    assert_eq!(signed.signature.len(), SIGNATURE_BYTES);
    assert_eq!(signed.public_key.len(), PUBLIC_KEY_BYTES);
    assert_eq!(signed.signature.len(), 3293);
    assert_eq!(signed.public_key.len(), 1952);
}

#[test]
fn own_signature_verifies() {
    let data = b"hello".to_vec();
    let signed = sign_data(&data);
    assert_eq!(verify_data(&data, &signed.signature, &signed.public_key), 1);
}

#[test]
fn tampered_data_or_signature_fails() {
    let data = b"hello".to_vec();
    let signed = sign_data(&data);
    assert_eq!(verify_data(b"hellp", &signed.signature, &signed.public_key), 0);
    let mut sig = signed.signature.clone();
    sig[10] ^= 0x01;
    assert_eq!(verify_data(&data, &sig, &signed.public_key), 0);
}

#[test]
fn wrong_lengths_fail_without_panicking() {
    let data = b"x".to_vec();
    let signed = sign_data(&data);
    assert_eq!(verify_data(&data, &signed.signature[..100], &signed.public_key), 0);
    assert_eq!(verify_data(&data, &signed.signature, &signed.public_key[..10]), 0);
    assert_eq!(verify_data(&data, &[], &[]), 0);
}

#[test]
fn other_key_does_not_verify() {
    let data = b"payload".to_vec();
    let first = sign_data(&data);
    let second = sign_data(&data);
    assert_eq!(verify_data(&data, &first.signature, &second.public_key), 0);
}

#[test]
fn check_signature_tells_failures_apart() {
    let data = b"abc".to_vec();
    let signed = sign_data(&data);
    assert_eq!(check_signature(&data, &signed.signature, &signed.public_key), Ok(()));
    assert_eq!(check_signature(&data, &signed.signature[..5], &signed.public_key), Err(VerifyFailure::Input));
    assert_eq!(check_signature(&data, &signed.signature, &signed.public_key[..5]), Err(VerifyFailure::Input));
    assert_eq!(check_signature(b"abd", &signed.signature, &signed.public_key), Err(VerifyFailure::Verify));
}
