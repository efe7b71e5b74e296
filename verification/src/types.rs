//! Core data types of the identity registry: account keys, signatures,
//! attribute records, signed attribute transactions, and the error kinds
//! that operations report.

use vstd::prelude::*;

verus! {

/// A public key. It serves both as the subject of ownership, delegation and
/// attributes (an identity) and as the key that acts on an identity.
#[derive(Clone, Copy, PartialEq, Eq, Debug)]
pub struct AccountKey {
    pub bytes: [u8; 32],
}

impl View for AccountKey {
    type V = Seq<u8>;

    open spec fn view(&self) -> Seq<u8> {
        self.bytes@
    }
}

impl AccountKey {
    pub fn new(bytes: [u8; 32]) -> (r: AccountKey)
        ensures
            r@ == bytes@,
    {
        AccountKey { bytes }
    }
}

/// A detached sr25519 signature, carried as its 64 raw bytes.
#[derive(Clone, Copy, PartialEq, Eq, Debug)]
pub struct SignatureBytes {
    pub bytes: [u8; 64],
}

impl View for SignatureBytes {
    type V = Seq<u8>;

    open spec fn view(&self) -> Seq<u8> {
        self.bytes@
    }
}

impl SignatureBytes {
    pub fn new(bytes: [u8; 64]) -> (r: SignatureBytes)
        ensures
            r@ == bytes@,
    {
        SignatureBytes { bytes }
    }
}

/// The terminal validation failures a registry operation can report.
#[derive(Clone, Copy, PartialEq, Eq, Debug)]
pub enum Error {
    /// The caller lacks ownership authority for the requested mutation.
    NotOwner,
    /// No currently valid delegate record matches the presented triple.
    InvalidDelegate,
    /// Cryptographic verification failed for the presented message.
    BadSignature,
    /// No matching, unexpired, value-equal attribute record exists.
    InvalidAttribute,
    /// The transaction's target nonce does not match the stored nonce.
    StaleTransaction,
}

/// A stored attribute record: a value, the block height until which it is
/// valid (exclusive), and the slot's monotonic mutation counter.
pub struct Attribute {
    pub value: Vec<u8>,
    pub valid_until: u64,
    pub nonce: u64,
}

/// The mathematical image of an attribute record.
pub ghost struct AttrView {
    pub value: Seq<u8>,
    pub valid_until: u64,
    pub nonce: u64,
}

impl View for Attribute {
    type V = AttrView;

    open spec fn view(&self) -> AttrView {
        AttrView { value: self.value@, valid_until: self.valid_until, nonce: self.nonce }
    }
}

/// An off-chain-signed attribute mutation, relayed by an arbitrary caller.
/// The signature covers the canonical encoding of
/// `(name, value, validity, identity)`; the nonce is checked against the
/// stored slot before the mutation is applied.
pub struct AttributeTransaction {
    pub signature: SignatureBytes,
    pub name: Vec<u8>,
    pub value: Vec<u8>,
    pub validity: u32,
    pub nonce: u64,
    pub signer: AccountKey,
    pub identity: AccountKey,
}

/// A timestamp observer for a host harness: it records the last moment the
/// host reported, standing in for the runtime's timestamp-set callback.
pub struct MockOnTimestampSet {
    pub captured: Option<u64>,
}

impl MockOnTimestampSet {
    /// An observer that has seen no moment yet.
    pub fn new() -> (r: MockOnTimestampSet)
        ensures
            r.captured is None,
    {
        MockOnTimestampSet { captured: None }
    }

    /// Records the moment the host reports.
    pub fn on_timestamp_set(&mut self, moment: u64)
        ensures
            final(self).captured == Some(moment),
    {
        self.captured = Some(moment);
    }
}

/// Compares two account keys byte for byte.
pub(crate) fn key_eq(a: &AccountKey, b: &AccountKey) -> (r: bool)
    ensures
        r == (a@ == b@),
{
    let mut i: usize = 0;
    while i < 32
        invariant
            0 <= i <= 32,
            forall|j: int| 0 <= j < i ==> a.bytes@[j] == b.bytes@[j],
        decreases 32 - i,
    {
        if a.bytes[i] != b.bytes[i] {
            assert(a@ != b@);
            return false;
        }
        i += 1;
    }
    proof {
        assert(a.bytes@ =~= b.bytes@);
    }
    true
}

/// Compares two byte strings.
pub(crate) fn bytes_eq(a: &Vec<u8>, b: &Vec<u8>) -> (r: bool)
    ensures
        r == (a@ == b@),
{
    if a.len() != b.len() {
        return false;
    }
    let mut i: usize = 0;
    while i < a.len()
        invariant
            0 <= i <= a@.len(),
            a@.len() == b@.len(),
            forall|j: int| 0 <= j < i ==> a@[j] == b@[j],
        decreases a@.len() - i,
    {
        if a[i] != b[i] {
            assert(a@ != b@);
            return false;
        }
        i += 1;
    }
    proof {
        assert(a@ =~= b@);
    }
    true
}

/// Copies a byte string.
pub(crate) fn bytes_copy(a: &Vec<u8>) -> (r: Vec<u8>)
    ensures
        r@ == a@,
{
    let mut r: Vec<u8> = Vec::new();
    let mut i: usize = 0;
    while i < a.len()
        invariant
            0 <= i <= a@.len(),
            r@ == a@.take(i as int),
        decreases a@.len() - i,
    {
        r.push(a[i]);
        proof {
            assert(r@ =~= a@.take(i as int + 1));
        }
        i += 1;
    }
    proof {
        assert(a@.take(a@.len() as int) =~= a@);
    }
    r
}

} // verus!
