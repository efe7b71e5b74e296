//! Tests for the registry's stated properties: default ownership, transfer,
//! delegate expiry, signer authorization, nonce bookkeeping, revocation and
//! replay protection.

use did_registry::{AccountKey, AttributeTransaction, Error, MockOnTimestampSet, Registry, SignatureBytes};
use parity_scale_codec::Encode;
use sp_core::sr25519;
use sp_core::Pair;

fn account_pair(s: &str) -> sr25519::Pair {
    sr25519::Pair::from_string(&format!("//{}", s), None).expect("static values are valid; qed")
}

fn account_key(s: &str) -> AccountKey {
    AccountKey::new(account_pair(s).public().0)
}

fn signature_of(pair: &sr25519::Pair, message: &[u8]) -> SignatureBytes {
    SignatureBytes::new(pair.sign(message).0)
}

/// The canonical payload a signer commits to for an attribute mutation.
fn payload(name: &[u8], value: &[u8], validity: u32, identity: &AccountKey) -> Vec<u8> {
    let mut encoded = name.to_vec().encode();
    encoded.extend(value.to_vec().encode());
    encoded.extend(validity.encode());
    encoded.extend(sr25519::Public::from_raw(identity.bytes).encode());
    encoded
}

#[test]
fn timestamp_observer_records_last_moment() {
    let mut observer = MockOnTimestampSet::new();
    assert_eq!(observer.captured, None);
    observer.on_timestamp_set(42);
    observer.on_timestamp_set(43);
    assert_eq!(observer.captured, Some(43));
}

#[test]
fn fresh_identity_is_self_owned() {
    let registry = Registry::new();
    for s in ["Alice", "Bob", "Carol"] {
        let id = account_key(s);
        assert_eq!(registry.owner_of(&id), id);
        assert_eq!(registry.is_owner(&id, &id), Ok(()));
    }
}

#[test]
fn transfer_locks_out_previous_owner() {
    let mut registry = Registry::new();
    let alice = account_key("Alice");
    let bob = account_key("Bob");

    assert_eq!(registry.transfer_owner(&alice, &alice, &bob), Ok(()));
    assert_eq!(registry.owner_of(&alice), bob);

    // The previous owner can no longer transfer.
    assert_eq!(registry.transfer_owner(&alice, &alice, &alice), Err(Error::NotOwner));
    assert_eq!(registry.owner_of(&alice), bob);

    // The new owner can.
    assert_eq!(registry.transfer_owner(&bob, &alice, &alice), Ok(()));
    assert_eq!(registry.owner_of(&alice), alice);
}

#[test]
fn delegate_expires_at_exact_block() {
    let mut registry = Registry::new();
    let alice = account_key("Alice");
    let dave = account_key("Dave");
    let dtype = b"x25519VerificationKey2018".to_vec();

    // Granted at block 10 for 5 blocks: valid strictly before block 15.
    assert_eq!(registry.add_delegate(&alice, &alice, &dave, &dtype, Some(5), 10), Ok(()));
    assert_eq!(registry.valid_delegate(&alice, &dtype, &dave, 10), Ok(()));
    assert_eq!(registry.valid_delegate(&alice, &dtype, &dave, 14), Ok(()));
    assert_eq!(registry.valid_delegate(&alice, &dtype, &dave, 15), Err(Error::InvalidDelegate));
    assert_eq!(registry.valid_delegate(&alice, &dtype, &dave, 16), Err(Error::InvalidDelegate));

    // A delegate for one purpose is not a delegate for another.
    assert_eq!(
        registry.valid_delegate(&alice, &b"otherPurpose".to_vec(), &dave, 12),
        Err(Error::InvalidDelegate)
    );
}

#[test]
fn default_delegate_period_is_a_thousand_blocks() {
    let mut registry = Registry::new();
    let alice = account_key("Alice");
    let dave = account_key("Dave");
    let dtype = b"x25519VerificationKey2018".to_vec();

    assert_eq!(registry.add_delegate(&alice, &alice, &dave, &dtype, None, 0), Ok(()));
    assert_eq!(registry.valid_delegate(&alice, &dtype, &dave, 999), Ok(()));
    assert_eq!(registry.valid_delegate(&alice, &dtype, &dave, 1000), Err(Error::InvalidDelegate));
}

#[test]
fn revoked_delegate_is_immediately_invalid() {
    let mut registry = Registry::new();
    let alice = account_key("Alice");
    let dave = account_key("Dave");
    let dtype = b"x25519VerificationKey2018".to_vec();

    assert_eq!(registry.add_delegate(&alice, &alice, &dave, &dtype, Some(100), 5), Ok(()));
    assert_eq!(registry.valid_delegate(&alice, &dtype, &dave, 50), Ok(()));
    assert_eq!(registry.revoke_delegate(&alice, &alice, &dave, &dtype, 50), Ok(()));
    assert_eq!(registry.valid_delegate(&alice, &dtype, &dave, 50), Err(Error::InvalidDelegate));
    assert_eq!(registry.valid_delegate(&alice, &dtype, &dave, 51), Err(Error::InvalidDelegate));
}

#[test]
fn signature_is_checked_before_authorization_scope() {
    let mut registry = Registry::new();
    let alice_pair = account_pair("Alice");
    let alice = AccountKey::new(alice_pair.public().0);
    let carol_pair = account_pair("Carol");
    let carol = AccountKey::new(carol_pair.public().0);
    let dave_pair = account_pair("Dave");
    let dave = AccountKey::new(dave_pair.public().0);

    let message = b"a signed claim".to_vec();
    let alice_sig = signature_of(&alice_pair, &message);

    // The owner's own good signature is accepted.
    assert_eq!(registry.valid_signer(&alice, &alice_sig, &message, &alice, 0), Ok(()));

    // The same signature against a different claimed signer is a bad signature.
    assert_eq!(
        did_registry::check_signature(&alice_sig, &message, &carol),
        Err(Error::BadSignature)
    );

    // A badly signed message from a valid delegate still reports the
    // signature, not the delegation.
    let dtype = b"x25519VerificationKey2018".to_vec();
    assert_eq!(registry.add_delegate(&alice, &alice, &carol, &dtype, Some(10), 0), Ok(()));
    let dave_sig = signature_of(&dave_pair, &message);
    assert_eq!(
        registry.valid_signer(&alice, &dave_sig, &message, &carol, 1),
        Err(Error::BadSignature)
    );

    // A well-signed message from a key with no authority reports the scope.
    let carol_sig = signature_of(&carol_pair, &message);
    assert_eq!(registry.valid_signer(&alice, &carol_sig, &message, &carol, 1), Ok(()));
    assert_eq!(
        registry.valid_signer(&alice, &dave_sig, &message, &dave, 1),
        Err(Error::InvalidDelegate)
    );
}

#[test]
fn nonce_advances_by_one_on_every_write() {
    let mut registry = Registry::new();
    let alice = account_key("Alice");
    let name = b"profile".to_vec();
    let value = b"v".to_vec();

    assert_eq!(registry.nonce_of(&alice, &name), 0);
    assert_eq!(registry.add_attribute(&alice, &alice, &name, &value, None, 0), Ok(()));
    assert_eq!(registry.nonce_of(&alice, &name), 1);
    assert_eq!(registry.delete_attribute(&alice, &alice, &name, 0), Ok(()));
    assert_eq!(registry.nonce_of(&alice, &name), 2);
    assert_eq!(registry.add_attribute(&alice, &alice, &name, &value, None, 0), Ok(()));
    assert_eq!(registry.nonce_of(&alice, &name), 3);
    assert_eq!(registry.delete_attribute(&alice, &alice, &name, 0), Ok(()));
    assert_eq!(registry.nonce_of(&alice, &name), 4);
}

#[test]
fn attribute_expires_at_exact_block() {
    let mut registry = Registry::new();
    let alice = account_key("Alice");
    let name = b"n".to_vec();
    let value = b"v".to_vec();

    // Written at block 10 for 5 blocks: valid strictly before block 15.
    assert_eq!(registry.add_attribute(&alice, &alice, &name, &value, Some(5), 10), Ok(()));
    assert_eq!(registry.valid_attribute(&alice, &name, &value, 10), Ok(()));
    assert_eq!(registry.valid_attribute(&alice, &name, &value, 14), Ok(()));
    assert_eq!(registry.valid_attribute(&alice, &name, &value, 15), Err(Error::InvalidAttribute));

    // A wrong value is rejected even inside the window.
    assert_eq!(
        registry.valid_attribute(&alice, &name, &b"w".to_vec(), 12),
        Err(Error::InvalidAttribute)
    );
}

#[test]
fn deleted_attribute_never_validates_again() {
    let mut registry = Registry::new();
    let alice = account_key("Alice");
    let name = b"n".to_vec();
    let value = b"v".to_vec();

    assert_eq!(registry.add_attribute(&alice, &alice, &name, &value, Some(1000), 3), Ok(()));
    assert_eq!(registry.valid_attribute(&alice, &name, &value, 3), Ok(()));
    assert_eq!(registry.delete_attribute(&alice, &alice, &name, 3), Ok(()));

    // The slot still exists (its nonce advanced), but no value validates.
    assert_eq!(registry.nonce_of(&alice, &name), 2);
    assert_eq!(registry.valid_attribute(&alice, &name, &value, 3), Err(Error::InvalidAttribute));
    assert_eq!(
        registry.valid_attribute(&alice, &name, &Vec::new(), 3),
        Err(Error::InvalidAttribute)
    );

    // Deleting an absent slot is refused.
    assert_eq!(
        registry.delete_attribute(&alice, &alice, &b"absent".to_vec(), 3),
        Err(Error::InvalidAttribute)
    );
}

#[test]
fn attacker_without_authority_changes_nothing() {
    let mut registry = Registry::new();
    let alice = account_key("Alice");
    let eve = account_key("Eve");
    let name = b"n".to_vec();
    let value = b"v".to_vec();
    let dtype = b"x25519VerificationKey2018".to_vec();

    assert_eq!(registry.add_attribute(&eve, &alice, &name, &value, None, 0), Err(Error::NotOwner));
    assert_eq!(registry.delete_attribute(&eve, &alice, &name, 0), Err(Error::NotOwner));
    assert_eq!(registry.revoke_delegate(&eve, &alice, &eve, &dtype, 0), Err(Error::NotOwner));

    // Nothing changed.
    assert_eq!(registry.owner_of(&alice), alice);
    assert_eq!(registry.nonce_of(&alice, &name), 0);
    assert_eq!(registry.valid_attribute(&alice, &name, &value, 0), Err(Error::InvalidAttribute));
    assert_eq!(registry.valid_delegate(&alice, &dtype, &eve, 0), Err(Error::InvalidDelegate));
}

#[test]
fn executed_transaction_cannot_be_replayed() {
    let mut registry = Registry::new();
    let alice_pair = account_pair("Alice");
    let alice = AccountKey::new(alice_pair.public().0);
    let relayer = account_key("Relayer");
    let name = b"n".to_vec();
    let value = vec![4, 5];
    let validity: u32 = 100;

    let signature = signature_of(&alice_pair, &payload(&name, &value, validity, &alice));
    let tx = AttributeTransaction {
        signature,
        name: name.clone(),
        value: value.clone(),
        validity,
        nonce: 0,
        signer: alice,
        identity: alice,
    };

    // Anyone may relay a validly signed instruction.
    assert_eq!(registry.execute(&relayer, &tx, 7), Ok(()));
    assert_eq!(registry.valid_attribute(&alice, &name, &value, 7), Ok(()));
    assert_eq!(registry.valid_attribute(&alice, &name, &value, 106), Ok(()));
    assert_eq!(registry.valid_attribute(&alice, &name, &value, 107), Err(Error::InvalidAttribute));
    assert_eq!(registry.nonce_of(&alice, &name), 1);

    // The same instruction presented again is stale.
    assert_eq!(registry.execute(&relayer, &tx, 7), Err(Error::StaleTransaction));
    assert_eq!(registry.nonce_of(&alice, &name), 1);
}

#[test]
fn execute_refuses_unauthorized_or_malformed_instructions() {
    let mut registry = Registry::new();
    let alice = account_key("Alice");
    let eve_pair = account_pair("Eve");
    let eve = AccountKey::new(eve_pair.public().0);
    let name = b"n".to_vec();
    let value = vec![1];

    // Signed by a key with no authority over the identity.
    let eve_sig = signature_of(&eve_pair, &payload(&name, &value, 10, &alice));
    let tx = AttributeTransaction {
        signature: eve_sig,
        name: name.clone(),
        value: value.clone(),
        validity: 10,
        nonce: 0,
        signer: eve,
        identity: alice,
    };
    assert_eq!(registry.execute(&eve, &tx, 0), Err(Error::InvalidDelegate));

    // A signature over different bytes than the transaction carries.
    let bad_sig = signature_of(&eve_pair, b"something else");
    let tx = AttributeTransaction {
        signature: bad_sig,
        name: name.clone(),
        value: value.clone(),
        validity: 10,
        nonce: 0,
        signer: eve,
        identity: eve,
    };
    assert_eq!(registry.execute(&eve, &tx, 0), Err(Error::BadSignature));

    // A revoke instruction for a slot that was never written.
    let revoke_sig = signature_of(&eve_pair, &payload(&name, &value, 0, &eve));
    let tx = AttributeTransaction {
        signature: revoke_sig,
        name: name.clone(),
        value: value.clone(),
        validity: 0,
        nonce: 0,
        signer: eve,
        identity: eve,
    };
    assert_eq!(registry.execute(&eve, &tx, 0), Err(Error::InvalidAttribute));

    // Nothing was written along the way.
    assert_eq!(registry.nonce_of(&alice, &name), 0);
    assert_eq!(registry.nonce_of(&eve, &name), 0);
}
