//! Signature verification: the sr25519 check behind the registry's
//! authorization decisions.

use vstd::prelude::*;

use crate::types::{AccountKey, Error, SignatureBytes};

verus! {

/// Whether `sig` is a valid sr25519 signature by the key `key` over `msg`
/// (under the substrate signing context). The outcome is a function of the
/// three byte strings alone; what it is on given bytes only the cryptographic
/// library can say.
pub uninterp spec fn sr25519_verifies(sig: Seq<u8>, msg: Seq<u8>, key: Seq<u8>) -> bool;

/// Relies on sp_core::sr25519::Pair::verify: schnorrkel verification of a
/// signature over a message under a public key, deterministic in its three
/// arguments.
#[verifier::external_body]
fn sr25519_verify(sig: &SignatureBytes, msg: &Vec<u8>, key: &AccountKey) -> (r: bool)
    ensures
        r == sr25519_verifies(sig@, msg@, key@),
{
    let signature = sp_core::sr25519::Signature::from_raw(sig.bytes);
    let public = sp_core::sr25519::Public::from_raw(key.bytes);
    <sp_core::sr25519::Pair as sp_core::Pair>::verify(&signature, msg.as_slice(), &public)
}

/// Signature-only check, with no authorization scope: succeeds exactly when
/// `signer` cryptographically signed `message` with `signature`.
pub fn check_signature(signature: &SignatureBytes, message: &Vec<u8>, signer: &AccountKey) -> (r:
    Result<(), Error>)
    ensures
        r is Ok <==> sr25519_verifies(signature@, message@, signer@),
        r is Err ==> r == Err::<(), Error>(Error::BadSignature),
{
    if sr25519_verify(signature, message, signer) {
        Ok(())
    } else {
        Err(Error::BadSignature)
    }
}

} // verus!
