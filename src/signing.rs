use vstd::prelude::*;

verus! {

#[verifier::external_type_specification]
#[verifier::external_body]
pub struct ExKeypair(pqc_dilithium::Keypair);

#[verifier::external_type_specification]
pub struct ExSignError(pqc_dilithium::SignError);

/// Length of a public key (Dilithium3, the crate's default mode).
pub const PUBLIC_KEY_BYTES: usize = 1952;

/// Length of a signature (Dilithium3, the crate's default mode).
pub const SIGNATURE_BYTES: usize = 3293;

/// Does Dilithium accept `sig` as a signature of `msg` under `pk`?
pub uninterp spec fn dilithium_accepts(sig: Seq<u8>, msg: Seq<u8>, pk: Seq<u8>) -> bool;

/// Does Dilithium refuse `sig` on `msg` under `pk` as malformed input
/// rather than as a failed verification?
pub uninterp spec fn dilithium_input_error(sig: Seq<u8>, msg: Seq<u8>, pk: Seq<u8>) -> bool;

/// The public key of a key pair.
pub uninterp spec fn public_key_bytes(k: pqc_dilithium::Keypair) -> Seq<u8>;

/// Relies on `pqc_dilithium::Keypair::generate`: a fresh random key pair.
#[verifier::external_body]
fn generate_keypair() -> pqc_dilithium::Keypair {
    pqc_dilithium::Keypair::generate()
}

/// Relies on the `public` field of `pqc_dilithium::Keypair`, an array of
/// `PUBLICKEYBYTES` bytes.
#[verifier::external_body]
fn public_key_of(k: &pqc_dilithium::Keypair) -> (r: Vec<u8>)
    ensures
        r@ == public_key_bytes(*k),
        r@.len() == PUBLIC_KEY_BYTES,
{
    k.public.to_vec()
}

/// Relies on `pqc_dilithium::Keypair::sign`, which returns an array of
/// `SIGNBYTES` bytes that `verify` accepts under the pair's public key (the
/// crate's documented example of `verify`).
#[verifier::external_body]
fn sign_with(k: &pqc_dilithium::Keypair, msg: &[u8]) -> (r: Vec<u8>)
    ensures
        r@.len() == SIGNATURE_BYTES,
        dilithium_accepts(r@, msg@, public_key_bytes(*k)),
{
    k.sign(msg).to_vec()
}

/// Relies on `pqc_dilithium::verify`: its verdict depends on its arguments
/// alone, and so does whether a refusal is `Input` or `Verify`; a signature
/// of the wrong length is refused as `Input`. It slices the first
/// `PUBLICKEYBYTES` bytes of the key, hence the `requires`.
#[verifier::external_body]
fn dilithium_verify(sig: &[u8], msg: &[u8], pk: &[u8]) -> (r: Result<(), pqc_dilithium::SignError>)
    requires
        pk@.len() >= PUBLIC_KEY_BYTES,
    ensures
        r is Ok <==> dilithium_accepts(sig@, msg@, pk@),
        r matches Err(pqc_dilithium::SignError::Input) <==> (!dilithium_accepts(sig@, msg@, pk@) && dilithium_input_error(sig@, msg@, pk@)),
        sig@.len() != SIGNATURE_BYTES ==> r matches Err(pqc_dilithium::SignError::Input),
{
    pqc_dilithium::verify(sig, msg, pk)
}

/// A signature together with the public key that checks it.
pub struct SignedData {
    pub signature: Vec<u8>,
    pub public_key: Vec<u8>,
}

/// Signs `data` with a freshly generated key pair, and hands back the
/// signature and the public key, under which the signature is valid.
pub fn sign_data(data: &[u8]) -> (r: SignedData)
    ensures
        r.signature@.len() == SIGNATURE_BYTES,
        r.public_key@.len() == PUBLIC_KEY_BYTES,
        dilithium_accepts(r.signature@, data@, r.public_key@),
{
    let keys = generate_keypair();
    let public_key = public_key_of(&keys);
    let signature = sign_with(&keys, data);
    SignedData { signature, public_key }
}

/// Why a signature was refused.
#[derive(Clone, Copy, Debug, PartialEq, Eq, Structural)]
pub enum VerifyFailure {
    /// The signature or the key is malformed (wrong length, bad encoding).
    Input,
    /// The signature does not match the data and the key.
    Verify,
}

/// Checks `signature` on `data` under `public_key`: `Ok` exactly when it is
/// valid; a key shorter than a public key, or a signature of the wrong
/// length, is an input failure.
pub fn check_signature(data: &[u8], signature: &[u8], public_key: &[u8]) -> (r: Result<(), VerifyFailure>)
    ensures
        r is Ok <==> public_key@.len() >= PUBLIC_KEY_BYTES && dilithium_accepts(signature@, data@, public_key@),
        public_key@.len() < PUBLIC_KEY_BYTES ==> r == Err::<(), VerifyFailure>(VerifyFailure::Input),
        signature@.len() != SIGNATURE_BYTES ==> r == Err::<(), VerifyFailure>(VerifyFailure::Input),
        r == Err::<(), VerifyFailure>(VerifyFailure::Input) <==> public_key@.len() < PUBLIC_KEY_BYTES || (!dilithium_accepts(
            signature@,
            data@,
            public_key@,
        ) && dilithium_input_error(signature@, data@, public_key@)),
        r == Err::<(), VerifyFailure>(VerifyFailure::Verify) <==> public_key@.len() >= PUBLIC_KEY_BYTES && !dilithium_accepts(
            signature@,
            data@,
            public_key@,
        ) && !dilithium_input_error(signature@, data@, public_key@),
{
    if public_key.len() < PUBLIC_KEY_BYTES {
        return Err(VerifyFailure::Input);
    }
    match dilithium_verify(signature, data, public_key) {
        Ok(()) => Ok(()),
        Err(pqc_dilithium::SignError::Input) => Err(VerifyFailure::Input),
        Err(pqc_dilithium::SignError::Verify) => Err(VerifyFailure::Verify),
    }
}

/// 1 when `signature` is a valid signature of `data` under `public_key`,
/// 0 otherwise; a key shorter than a public key is never valid.
pub fn verify_data(data: &[u8], signature: &[u8], public_key: &[u8]) -> (r: i32)
    ensures
        r == (if public_key@.len() >= PUBLIC_KEY_BYTES && dilithium_accepts(signature@, data@, public_key@) {
            1i32
        } else {
            0i32
        }),
        signature@.len() != SIGNATURE_BYTES ==> r == 0,
{
    match check_signature(data, signature, public_key) {
        Ok(()) => 1,
        Err(_) => 0,
    }
}

} // verus!
