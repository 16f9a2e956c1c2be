//! Hashing, SCALE encoding and ML-DSA-65 signature checking, each a call
//! into the crate that provides it.
use vstd::prelude::*;

verus! {

/// Name for the BLAKE2b-256 digest of a byte string.
pub uninterp spec fn blake2_256_of(data: Seq<u8>) -> [u8; 32];

/// BLAKE2b with a 256-bit output: `sp_crypto_hashing::blake2_256`, the
/// function that Substrate's `sp_io::hashing::blake2_256` and
/// `sp_core::blake2_256` compute. The contract names the digest and claims
/// only that it is a function of the input bytes.
#[verifier::external_body]
pub(crate) fn blake2_256(data: &[u8]) -> (r: [u8; 32])
    ensures
        r == blake2_256_of(data@),
{
    sp_crypto_hashing::blake2_256(data)
}

/// Little-endian bytes of a `u64`, which is its SCALE encoding.
pub open spec fn le_bytes_u64(x: u64) -> Seq<u8> {
    seq![
        (x % 0x100) as u8,
        ((x / 0x100) % 0x100) as u8,
        ((x / 0x1_0000) % 0x100) as u8,
        ((x / 0x100_0000) % 0x100) as u8,
        ((x / 0x1_0000_0000) % 0x100) as u8,
        ((x / 0x100_0000_0000) % 0x100) as u8,
        ((x / 0x1_0000_0000_0000) % 0x100) as u8,
        ((x / 0x100_0000_0000_0000) % 0x100) as u8,
    ]
}

/// SCALE encoding of a `u64` through `parity_scale_codec::Encode::encode`.
/// The codec documents fixed-width integers as encoded little-endian, so
/// the contract states the eight bytes.
#[verifier::external_body]
pub(crate) fn scale_encode_u64(x: u64) -> (r: Vec<u8>)
    ensures
        r@ == le_bytes_u64(x),
{
    parity_scale_codec::Encode::encode(&x)
}

/// SCALE encoding of the tuple `(a, b, c, d, e)`: byte arrays are encoded
/// as their bytes, `u64`s little-endian, one after the other.
pub open spec fn scale_tuple_spec(a: [u8; 32], b: [u8; 32], c: u64, d: u64, e: [u8; 32]) -> Seq<
    u8,
> {
    a@ + b@ + le_bytes_u64(c) + le_bytes_u64(d) + e@
}

/// SCALE encoding of a five-tuple of two hashes, two `u64`s and a hash,
/// through `parity_scale_codec::Encode::encode`. The contract states the
/// codec's documented layout: fixed-size arrays are written without a
/// length prefix, integers little-endian, tuple fields in order.
#[verifier::external_body]
pub(crate) fn scale_encode_tuple(a: [u8; 32], b: [u8; 32], c: u64, d: u64, e: [u8; 32]) -> (r: Vec<u8>)
    ensures
        r@ == scale_tuple_spec(a, b, c, d, e),
{
    parity_scale_codec::Encode::encode(&(a, b, c, d, e))
}

/// Length of an encoded ML-DSA-65 verifying key.
pub const MLDSA65_PUBKEY_LEN: usize = 1952;

/// Length of an encoded ML-DSA-65 signature.
pub const MLDSA65_SIG_LEN: usize = 3309;

/// Outcome of checking an ML-DSA-65 proof of key possession.
#[derive(Clone, Copy, Debug, PartialEq, Eq, Structural)]
pub enum ProofCheck {
    /// The verifying key is not 1,952 bytes long.
    MalformedKey,
    /// The signature is not a well-formed 3,309-byte encoding.
    MalformedSignature,
    /// Both decode, but the signature does not verify.
    Rejected,
    /// The signature verifies over the message under the key.
    Accepted,
}

/// Name for whether `ml_dsa::Signature::<MlDsa65>::try_from` decodes the
/// given bytes.
pub uninterp spec fn mldsa65_signature_decodes(sig: Seq<u8>) -> bool;

/// Name for whether `ml_dsa::VerifyingKey::<MlDsa65>::verify` accepts the
/// decoded signature over the message under the decoded key.
pub uninterp spec fn mldsa65_accepts(pubkey: Seq<u8>, msg: Seq<u8>, sig: Seq<u8>) -> bool;

/// What checking a proof of possession yields, by the steps taken: parse
/// the key, parse the signature, verify.
pub open spec fn mldsa65_outcome(pubkey: Seq<u8>, msg: Seq<u8>, sig: Seq<u8>) -> ProofCheck {
    if pubkey.len() != MLDSA65_PUBKEY_LEN {
        ProofCheck::MalformedKey
    } else if sig.len() != MLDSA65_SIG_LEN || !mldsa65_signature_decodes(sig) {
        ProofCheck::MalformedSignature
    } else if mldsa65_accepts(pubkey, msg, sig) {
        ProofCheck::Accepted
    } else {
        ProofCheck::Rejected
    }
}

/// Checks an ML-DSA-65 (FIPS 204) signature with the `ml-dsa` crate:
/// `VerifyingKey::<MlDsa65>::new_from_slice` (which, as `KeyInit` in
/// `crypto-common` shows, fails exactly on a slice of the wrong length and
/// otherwise decodes any bytes), `Signature::<MlDsa65>::try_from` (which
/// fails on a wrong length and on an encoding that does not decode), and
/// `Verifier::verify`. The three calls share one wrapper because the key
/// and signature types are bounded by a trait that the crate keeps
/// private, so they cannot be declared to Verus and carried between
/// wrappers. The contract states the length rules that the source shows
/// and names the two results that take FIPS 204 to state.
#[verifier::external_body]
pub(crate) fn mldsa65_check(pubkey: &[u8], message: &[u8], signature: &[u8]) -> (r: ProofCheck)
    ensures
        pubkey@.len() != MLDSA65_PUBKEY_LEN ==> r == ProofCheck::MalformedKey,
        pubkey@.len() == MLDSA65_PUBKEY_LEN && (signature@.len() != MLDSA65_SIG_LEN
            || !mldsa65_signature_decodes(signature@)) ==> r == ProofCheck::MalformedSignature,
        pubkey@.len() == MLDSA65_PUBKEY_LEN && signature@.len() == MLDSA65_SIG_LEN
            && mldsa65_signature_decodes(signature@) ==> r == (if mldsa65_accepts(
            pubkey@,
            message@,
            signature@,
        ) {
            ProofCheck::Accepted
        } else {
            ProofCheck::Rejected
        }),
{
    let vk = match <ml_dsa::VerifyingKey<ml_dsa::MlDsa65> as ml_dsa::KeyInit>::new_from_slice(
        pubkey,
    ) {
        Ok(vk) => vk,
        Err(_) => return ProofCheck::MalformedKey,
    };
    let sig = match ml_dsa::Signature::<ml_dsa::MlDsa65>::try_from(signature) {
        Ok(sig) => sig,
        Err(_) => return ProofCheck::MalformedSignature,
    };
    match ml_dsa::Verifier::verify(&vk, message, &sig) {
        Ok(()) => ProofCheck::Accepted,
        Err(_) => ProofCheck::Rejected,
    }
}

} // verus!
