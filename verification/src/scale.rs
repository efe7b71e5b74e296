//! The canonical byte encoding of a signed attribute instruction. A signer
//! commits to `(name, value, validity, identity)` through the SCALE codec:
//! each byte string is encoded with its compact length prefix, the validity
//! as a fixed-width little-endian word, and the identity key as its raw
//! bytes.

use vstd::prelude::*;

use crate::types::AccountKey;

verus! {

/// The SCALE encoding of a byte string: its compact-encoded length followed
/// by the bytes themselves.
pub uninterp spec fn scale_bytes(s: Seq<u8>) -> Seq<u8>;

/// The four little-endian bytes of a 32-bit word, the SCALE encoding of a
/// fixed-width integer.
pub open spec fn u32_le(x: u32) -> Seq<u8> {
    seq![
        (x & 0xff) as u8,
        ((x >> 8) & 0xff) as u8,
        ((x >> 16) & 0xff) as u8,
        ((x >> 24) & 0xff) as u8,
    ]
}

/// The canonical payload a signer commits to for an attribute mutation on
/// `identity`: name and value SCALE-encoded, then the validity, then the
/// identity's raw key bytes.
pub open spec fn signed_payload(
    name: Seq<u8>,
    value: Seq<u8>,
    validity: u32,
    identity: Seq<u8>,
) -> Seq<u8> {
    scale_bytes(name) + scale_bytes(value) + u32_le(validity) + identity
}

/// Relies on parity_scale_codec::Encode::encode for Vec<u8>: the compact
/// length prefix followed by the bytes, a function of the input alone. The
/// codec panics on a byte string whose length no 32-bit compact prefix can
/// carry, so such inputs are left out.
#[verifier::external_body]
fn scale_encode_bytes(v: &Vec<u8>) -> (r: Vec<u8>)
    requires
        v@.len() <= u32::MAX,
    ensures
        r@ == scale_bytes(v@),
{
    parity_scale_codec::Encode::encode(v)
}

/// The SCALE encoding of a 32-bit word: its four little-endian bytes.
fn scale_encode_u32(x: u32) -> (r: Vec<u8>)
    ensures
        r@ == u32_le(x),
{
    let mut r: Vec<u8> = Vec::new();
    r.push((x & 0xff) as u8);
    r.push(((x >> 8) & 0xff) as u8);
    r.push(((x >> 16) & 0xff) as u8);
    r.push(((x >> 24) & 0xff) as u8);
    proof {
        assert(r@ =~= u32_le(x));
    }
    r
}

/// Builds the canonical payload for an attribute mutation, the exact byte
/// string a valid signature must cover.
pub fn encode_payload(name: &Vec<u8>, value: &Vec<u8>, validity: u32, identity: &AccountKey) -> (r:
    Vec<u8>)
    requires
        name@.len() <= u32::MAX,
        value@.len() <= u32::MAX,
    ensures
        r@ == signed_payload(name@, value@, validity, identity@),
{
    let mut out = scale_encode_bytes(name);
    let mut encoded_value = scale_encode_bytes(value);
    out.append(&mut encoded_value);
    let mut encoded_validity = scale_encode_u32(validity);
    out.append(&mut encoded_validity);
    let ghost before_key = out@;
    let mut i: usize = 0;
    while i < 32
        invariant
            0 <= i <= 32,
            out@ == before_key + identity.bytes@.take(i as int),
        decreases 32 - i,
    {
        out.push(identity.bytes[i]);
        proof {
            assert(before_key + identity.bytes@.take(i as int + 1) =~= out@);
        }
        i += 1;
    }
    proof {
        assert(identity.bytes@.take(32) =~= identity@);
        assert(out@ =~= signed_payload(name@, value@, validity, identity@));
    }
    out
}

} // verus!
