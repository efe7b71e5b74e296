//! The identity registry: ownership, delegation and attribute records, and
//! the operations that read and mutate them.

use vstd::prelude::*;

use crate::crypto::sr25519_verifies;
use crate::scale::signed_payload;
use crate::types::{AccountKey, AttrView, Attribute, AttributeTransaction, Error, SignatureBytes};
use crate::types::{bytes_copy, bytes_eq, key_eq};

verus! {

/// The period, in blocks, for which a delegate or an attribute stays valid
/// when the caller names none.
pub const DEFAULT_VALIDITY: u32 = 1000;

/// The delegate purpose consulted when deciding whether a key may sign for
/// an identity: the byte string "x25519VerificationKey2018".
pub open spec fn signer_delegate_type() -> Seq<u8> {
    seq![
        120u8, 50, 53, 53, 49, 57, 86, 101, 114, 105, 102, 105, 99, 97, 116, 105, 111, 110, 75,
        101, 121, 50, 48, 49, 56,
    ]
}

/// The signer delegate purpose as a byte vector.
pub fn signer_delegate_type_bytes() -> (r: Vec<u8>)
    ensures
        r@ == signer_delegate_type(),
{
    let mut v: Vec<u8> = Vec::new();
    v.push(120);
    v.push(50);
    v.push(53);
    v.push(53);
    v.push(49);
    v.push(57);
    v.push(86);
    v.push(101);
    v.push(114);
    v.push(105);
    v.push(102);
    v.push(105);
    v.push(99);
    v.push(97);
    v.push(116);
    v.push(105);
    v.push(111);
    v.push(110);
    v.push(75);
    v.push(101);
    v.push(121);
    v.push(50);
    v.push(48);
    v.push(49);
    v.push(56);
    proof {
        assert(v@ =~= signer_delegate_type());
    }
    v
}

/// The store of the registry. Records are kept as append-only logs; the
/// most recent entry for a key is the current one, and older entries remain
/// as a permanent history.
pub struct Registry {
    owners: Vec<(AccountKey, AccountKey)>,
    delegates: Vec<(AccountKey, Vec<u8>, AccountKey, u64)>,
    attributes: Vec<(AccountKey, Vec<u8>, Attribute)>,
}

/// The validity period a caller asked for, or the default period when the
/// caller named none.
pub open spec fn validity_blocks(valid_for: Option<u32>) -> u32 {
    match valid_for {
        Some(v) => v,
        None => DEFAULT_VALIDITY,
    }
}

/// The most recent owner recorded for `id`, if any.
spec fn find_owner(s: Seq<(AccountKey, AccountKey)>, id: Seq<u8>) -> Option<Seq<u8>>
    decreases s.len(),
{
    if s.len() == 0 {
        None
    } else if s.last().0@ == id {
        Some(s.last().1@)
    } else {
        find_owner(s.drop_last(), id)
    }
}

/// The most recent expiry recorded for the delegation triple, if any.
spec fn find_delegate(
    s: Seq<(AccountKey, Vec<u8>, AccountKey, u64)>,
    id: Seq<u8>,
    dtype: Seq<u8>,
    d: Seq<u8>,
) -> Option<u64>
    decreases s.len(),
{
    if s.len() == 0 {
        None
    } else if s.last().0@ == id && s.last().1@ == dtype && s.last().2@ == d {
        Some(s.last().3)
    } else {
        find_delegate(s.drop_last(), id, dtype, d)
    }
}

/// The most recent attribute record for `(id, name)`, if any.
spec fn find_attr(
    s: Seq<(AccountKey, Vec<u8>, Attribute)>,
    id: Seq<u8>,
    name: Seq<u8>,
) -> Option<AttrView>
    decreases s.len(),
{
    if s.len() == 0 {
        None
    } else if s.last().0@ == id && s.last().1@ == name {
        Some(s.last().2@)
    } else {
        find_attr(s.drop_last(), id, name)
    }
}

proof fn lemma_find_owner_push(
    s: Seq<(AccountKey, AccountKey)>,
    e: (AccountKey, AccountKey),
    id: Seq<u8>,
)
    ensures
        find_owner(s.push(e), id) == if e.0@ == id {
            Some(e.1@)
        } else {
            find_owner(s, id)
        },
{
    assert(s.push(e).drop_last() =~= s);
    assert(s.push(e).last() == e);
}

proof fn lemma_find_delegate_push(
    s: Seq<(AccountKey, Vec<u8>, AccountKey, u64)>,
    e: (AccountKey, Vec<u8>, AccountKey, u64),
    id: Seq<u8>,
    dtype: Seq<u8>,
    d: Seq<u8>,
)
    ensures
        find_delegate(s.push(e), id, dtype, d) == if e.0@ == id && e.1@ == dtype && e.2@ == d {
            Some(e.3)
        } else {
            find_delegate(s, id, dtype, d)
        },
{
    assert(s.push(e).drop_last() =~= s);
    assert(s.push(e).last() == e);
}

proof fn lemma_find_attr_push(
    s: Seq<(AccountKey, Vec<u8>, Attribute)>,
    e: (AccountKey, Vec<u8>, Attribute),
    id: Seq<u8>,
    name: Seq<u8>,
)
    ensures
        find_attr(s.push(e), id, name) == if e.0@ == id && e.1@ == name {
            Some(e.2@)
        } else {
            find_attr(s, id, name)
        },
{
    assert(s.push(e).drop_last() =~= s);
    assert(s.push(e).last() == e);
}

impl Registry {
    /// Whether an ownership record has ever been written for `id`.
    pub closed spec fn has_owner_record(self, id: Seq<u8>) -> bool {
        find_owner(self.owners@, id) is Some
    }

    /// The current owner of `id`: the recorded owner, or `id` itself when
    /// no record exists.
    pub closed spec fn owner_of_spec(self, id: Seq<u8>) -> Seq<u8> {
        match find_owner(self.owners@, id) {
            Some(o) => o,
            None => id,
        }
    }

    /// A fresh registry: no records of any kind, every identity owned by
    /// itself, and every nonce at zero.
    pub fn new() -> (r: Registry)
        ensures
            forall|id: Seq<u8>| !(#[trigger] r.has_owner_record(id)),
            forall|id: Seq<u8>| #[trigger] r.owner_of_spec(id) == id,
            forall|i: Seq<u8>, t: Seq<u8>, d: Seq<u8>|
                #[trigger] r.delegate_until(i, t, d) is None,
            forall|i: Seq<u8>, n: Seq<u8>| #[trigger] r.attr_spec(i, n) is None,
            forall|i: Seq<u8>, n: Seq<u8>| #[trigger] r.nonce_spec(i, n) == 0,
    {
        Registry { owners: Vec::new(), delegates: Vec::new(), attributes: Vec::new() }
    }

    /// Returns the current owner of `identity`: the recorded owner, or
    /// `identity` itself if no transfer was ever recorded. Never fails.
    pub fn owner_of(&self, identity: &AccountKey) -> (r: AccountKey)
        ensures
            r@ == self.owner_of_spec(identity@),
    {
        let mut i: usize = self.owners.len();
        proof {
            assert(self.owners@.take(self.owners@.len() as int) =~= self.owners@);
        }
        while i > 0
            invariant
                0 <= i <= self.owners@.len(),
                find_owner(self.owners@.take(i as int), identity@) == find_owner(
                    self.owners@,
                    identity@,
                ),
            decreases i,
        {
            i -= 1;
            proof {
                assert(self.owners@.take(i as int + 1).drop_last() =~= self.owners@.take(i as int));
                assert(self.owners@.take(i as int + 1).last() == self.owners@[i as int]);
            }
            if crate::types::key_eq(&self.owners[i].0, identity) {
                return self.owners[i].1;
            }
        }
        proof {
            assert(self.owners@.take(0) =~= Seq::<(AccountKey, AccountKey)>::empty());
        }
        *identity
    }

    /// The expiry block recorded for the delegation triple, if it was ever
    /// granted; `None` means never delegated.
    pub closed spec fn delegate_until(self, id: Seq<u8>, dtype: Seq<u8>, d: Seq<u8>) -> Option<
        u64,
    > {
        find_delegate(self.delegates@, id, dtype, d)
    }

    /// Whether `d` is a currently valid delegate of `id` for the purpose
    /// `dtype` at block `now`: a record exists and has not yet expired.
    pub open spec fn delegate_valid(self, id: Seq<u8>, dtype: Seq<u8>, d: Seq<u8>, now: u64) -> bool {
        match self.delegate_until(id, dtype, d) {
            Some(until) => now < until,
            None => false,
        }
    }

    /// The current attribute record of `(id, name)`, if one was ever
    /// written. A deleted slot still carries a record; only its validity
    /// window is closed.
    pub closed spec fn attr_spec(self, id: Seq<u8>, name: Seq<u8>) -> Option<AttrView> {
        find_attr(self.attributes@, id, name)
    }

    /// The anti-replay counter of the slot `(id, name)`: 0 before any write,
    /// and advanced by one on every successful write.
    pub open spec fn nonce_spec(self, id: Seq<u8>, name: Seq<u8>) -> u64 {
        match self.attr_spec(id, name) {
            Some(a) => a.nonce,
            None => 0,
        }
    }

    /// Whether the slot `(id, name)` currently holds exactly `value`: a
    /// record exists, it has not expired, and its stored value is `value`.
    pub open spec fn attr_valid(self, id: Seq<u8>, name: Seq<u8>, value: Seq<u8>, now: u64) -> bool {
        match self.attr_spec(id, name) {
            Some(a) => now < a.valid_until && a.value == value,
            None => false,
        }
    }

    /// Whether `key` may currently act for `id`: it is the owner, or a
    /// currently valid signer delegate.
    pub open spec fn authorized_signer(self, id: Seq<u8>, key: Seq<u8>, now: u64) -> bool {
        key == self.owner_of_spec(id) || self.delegate_valid(id, signer_delegate_type(), key, now)
    }

    /// Succeeds exactly when `actual` is the current owner of `identity`.
    pub fn is_owner(&self, identity: &AccountKey, actual: &AccountKey) -> (r: Result<(), Error>)
        ensures
            r is Ok <==> actual@ == self.owner_of_spec(identity@),
            r is Err ==> r == Err::<(), Error>(Error::NotOwner),
    {
        let owner = self.owner_of(identity);
        if key_eq(actual, &owner) {
            Ok(())
        } else {
            Err(Error::NotOwner)
        }
    }

    /// Transfers ownership of `identity` to `new_owner`. Only the current
    /// owner may do so; a failed attempt leaves every record unchanged.
    pub fn transfer_owner(
        &mut self,
        caller: &AccountKey,
        identity: &AccountKey,
        new_owner: &AccountKey,
    ) -> (r: Result<(), Error>)
        ensures
            r is Ok <==> caller@ == old(self).owner_of_spec(identity@),
            r is Err ==> r == Err::<(), Error>(Error::NotOwner),
            forall|k: Seq<u8>|
                #[trigger] final(self).owner_of_spec(k) == if r is Ok && k == identity@ {
                    new_owner@
                } else {
                    old(self).owner_of_spec(k)
                },
            forall|i: Seq<u8>, t: Seq<u8>, d: Seq<u8>|
                #[trigger] final(self).delegate_until(i, t, d) == old(self).delegate_until(i, t, d),
            forall|i: Seq<u8>, n: Seq<u8>|
                #[trigger] final(self).attr_spec(i, n) == old(self).attr_spec(i, n),
    {
        let owner = self.owner_of(identity);
        if !key_eq(caller, &owner) {
            return Err(Error::NotOwner);
        }
        let ghost prior = self.owners@;
        self.owners.push((*identity, *new_owner));
        proof {
            assert forall|k: Seq<u8>|
                #[trigger] self.owner_of_spec(k) == if k == identity@ {
                    new_owner@
                } else {
                    old(self).owner_of_spec(k)
                } by {
                lemma_find_owner_push(prior, (*identity, *new_owner), k);
            }
        }
        Ok(())
    }

    /// The recorded expiry of the delegation triple, if any.
    fn delegate_until_of(
        &self,
        identity: &AccountKey,
        delegate_type: &Vec<u8>,
        delegate: &AccountKey,
    ) -> (r: Option<u64>)
        ensures
            r == self.delegate_until(identity@, delegate_type@, delegate@),
    {
        let mut i: usize = self.delegates.len();
        proof {
            assert(self.delegates@.take(self.delegates@.len() as int) =~= self.delegates@);
        }
        while i > 0
            invariant
                0 <= i <= self.delegates@.len(),
                find_delegate(
                    self.delegates@.take(i as int),
                    identity@,
                    delegate_type@,
                    delegate@,
                ) == find_delegate(self.delegates@, identity@, delegate_type@, delegate@),
            decreases i,
        {
            i -= 1;
            proof {
                assert(self.delegates@.take(i as int + 1).drop_last() =~= self.delegates@.take(
                    i as int,
                ));
                assert(self.delegates@.take(i as int + 1).last() == self.delegates@[i as int]);
            }
            let entry = &self.delegates[i];
            if key_eq(&entry.0, identity) && bytes_eq(&entry.1, delegate_type) && key_eq(
                &entry.2,
                delegate,
            ) {
                return Some(entry.3);
            }
        }
        proof {
            assert(self.delegates@.take(0) =~= Seq::<
                (AccountKey, Vec<u8>, AccountKey, u64),
            >::empty());
        }
        None
    }

    /// Succeeds exactly when `delegate` is a currently valid delegate of
    /// `identity` for the exact purpose `delegate_type` at block `now`.
    pub fn valid_delegate(
        &self,
        identity: &AccountKey,
        delegate_type: &Vec<u8>,
        delegate: &AccountKey,
        now: u64,
    ) -> (r: Result<(), Error>)
        ensures
            r is Ok <==> self.delegate_valid(identity@, delegate_type@, delegate@, now),
            r is Err ==> r == Err::<(), Error>(Error::InvalidDelegate),
    {
        match self.delegate_until_of(identity, delegate_type, delegate) {
            Some(until) => if now < until {
                Ok(())
            } else {
                Err(Error::InvalidDelegate)
            },
            None => Err(Error::InvalidDelegate),
        }
    }

    /// Records a new delegation, or moves the expiry of the triple.
    fn write_delegate(
        &mut self,
        identity: &AccountKey,
        delegate: &AccountKey,
        delegate_type: &Vec<u8>,
        until: u64,
    )
        ensures
            forall|i: Seq<u8>, t: Seq<u8>, d: Seq<u8>|
                #[trigger] final(self).delegate_until(i, t, d) == if i == identity@ && t
                    == delegate_type@ && d == delegate@ {
                    Some(until)
                } else {
                    old(self).delegate_until(i, t, d)
                },
            forall|k: Seq<u8>|
                #[trigger] final(self).owner_of_spec(k) == old(self).owner_of_spec(k),
            forall|i: Seq<u8>, n: Seq<u8>|
                #[trigger] final(self).attr_spec(i, n) == old(self).attr_spec(i, n),
    {
        let ghost prior = self.delegates@;
        let entry = (*identity, bytes_copy(delegate_type), *delegate, until);
        let ghost entry_g = entry;
        self.delegates.push(entry);
        proof {
            assert forall|i: Seq<u8>, t: Seq<u8>, d: Seq<u8>|
                #[trigger] self.delegate_until(i, t, d) == if i == identity@ && t == delegate_type@
                    && d == delegate@ {
                    Some(until)
                } else {
                    old(self).delegate_until(i, t, d)
                } by {
                lemma_find_delegate_push(prior, entry_g, i, t, d);
            }
        }
    }

    /// Grants `delegate` the purpose `delegate_type` on `identity` until
    /// block `now + valid_for` (or the default period). Only the current
    /// owner may grant; a failed attempt leaves every record unchanged.
    pub fn add_delegate(
        &mut self,
        caller: &AccountKey,
        identity: &AccountKey,
        delegate: &AccountKey,
        delegate_type: &Vec<u8>,
        valid_for: Option<u32>,
        now: u64,
    ) -> (r: Result<(), Error>)
        requires
            now + validity_blocks(valid_for) <= u64::MAX,
        ensures
            r is Ok <==> caller@ == old(self).owner_of_spec(identity@),
            r is Err ==> r == Err::<(), Error>(Error::NotOwner),
            forall|i: Seq<u8>, t: Seq<u8>, d: Seq<u8>|
                #[trigger] final(self).delegate_until(i, t, d) == if r is Ok && i == identity@ && t
                    == delegate_type@ && d == delegate@ {
                    Some((now + validity_blocks(valid_for)) as u64)
                } else {
                    old(self).delegate_until(i, t, d)
                },
            forall|k: Seq<u8>|
                #[trigger] final(self).owner_of_spec(k) == old(self).owner_of_spec(k),
            forall|i: Seq<u8>, n: Seq<u8>|
                #[trigger] final(self).attr_spec(i, n) == old(self).attr_spec(i, n),
    {
        let owner = self.owner_of(identity);
        if !key_eq(caller, &owner) {
            return Err(Error::NotOwner);
        }
        let blocks: u32 = match valid_for {
            Some(v) => v,
            None => DEFAULT_VALIDITY,
        };
        let until: u64 = now + blocks as u64;
        self.write_delegate(identity, delegate, delegate_type, until);
        Ok(())
    }

    /// Forces the delegation triple to expire at the current block. Only
    /// the current owner may revoke; a failed attempt leaves every record
    /// unchanged.
    pub fn revoke_delegate(
        &mut self,
        caller: &AccountKey,
        identity: &AccountKey,
        delegate: &AccountKey,
        delegate_type: &Vec<u8>,
        now: u64,
    ) -> (r: Result<(), Error>)
        ensures
            r is Ok <==> caller@ == old(self).owner_of_spec(identity@),
            r is Err ==> r == Err::<(), Error>(Error::NotOwner),
            forall|i: Seq<u8>, t: Seq<u8>, d: Seq<u8>|
                #[trigger] final(self).delegate_until(i, t, d) == if r is Ok && i == identity@ && t
                    == delegate_type@ && d == delegate@ {
                    Some(now)
                } else {
                    old(self).delegate_until(i, t, d)
                },
            forall|k: Seq<u8>|
                #[trigger] final(self).owner_of_spec(k) == old(self).owner_of_spec(k),
            forall|i: Seq<u8>, n: Seq<u8>|
                #[trigger] final(self).attr_spec(i, n) == old(self).attr_spec(i, n),
    {
        let owner = self.owner_of(identity);
        if !key_eq(caller, &owner) {
            return Err(Error::NotOwner);
        }
        self.write_delegate(identity, delegate, delegate_type, now);
        Ok(())
    }

    /// The current attribute record of `(identity, name)`, if any.
    fn attr_of(&self, identity: &AccountKey, name: &Vec<u8>) -> (r: Option<&Attribute>)
        ensures
            match r {
                Some(a) => self.attr_spec(identity@, name@) == Some(a@),
                None => self.attr_spec(identity@, name@) is None,
            },
    {
        let mut i: usize = self.attributes.len();
        proof {
            assert(self.attributes@.take(self.attributes@.len() as int) =~= self.attributes@);
        }
        while i > 0
            invariant
                0 <= i <= self.attributes@.len(),
                find_attr(self.attributes@.take(i as int), identity@, name@) == find_attr(
                    self.attributes@,
                    identity@,
                    name@,
                ),
            decreases i,
        {
            i -= 1;
            proof {
                assert(self.attributes@.take(i as int + 1).drop_last() =~= self.attributes@.take(
                    i as int,
                ));
                assert(self.attributes@.take(i as int + 1).last() == self.attributes@[i as int]);
            }
            let entry = &self.attributes[i];
            if key_eq(&entry.0, identity) && bytes_eq(&entry.1, name) {
                return Some(&entry.2);
            }
        }
        proof {
            assert(self.attributes@.take(0) =~= Seq::<(AccountKey, Vec<u8>, Attribute)>::empty());
        }
        None
    }

    /// Returns the anti-replay counter of the slot `(identity, name)`:
    /// 0 before any write. Pure read; never fails.
    pub fn nonce_of(&self, identity: &AccountKey, name: &Vec<u8>) -> (r: u64)
        ensures
            r == self.nonce_spec(identity@, name@),
    {
        match self.attr_of(identity, name) {
            Some(a) => a.nonce,
            None => 0,
        }
    }

    /// Succeeds exactly when the slot `(identity, name)` holds `value` and
    /// has not expired. An absent record, an expired one and a value
    /// mismatch are all reported alike.
    pub fn valid_attribute(
        &self,
        identity: &AccountKey,
        name: &Vec<u8>,
        value: &Vec<u8>,
        now: u64,
    ) -> (r: Result<(), Error>)
        ensures
            r is Ok <==> self.attr_valid(identity@, name@, value@, now),
            r is Err ==> r == Err::<(), Error>(Error::InvalidAttribute),
    {
        match self.attr_of(identity, name) {
            Some(a) => if now < a.valid_until && bytes_eq(&a.value, value) {
                Ok(())
            } else {
                Err(Error::InvalidAttribute)
            },
            None => Err(Error::InvalidAttribute),
        }
    }

    /// Writes the slot `(identity, name)`, advancing its nonce by one.
    fn write_attribute(
        &mut self,
        identity: &AccountKey,
        name: &Vec<u8>,
        value: Vec<u8>,
        valid_until: u64,
    )
        requires
            old(self).nonce_spec(identity@, name@) < u64::MAX,
        ensures
            forall|i: Seq<u8>, n: Seq<u8>|
                #[trigger] final(self).attr_spec(i, n) == if i == identity@ && n == name@ {
                    Some(
                        AttrView {
                            value: value@,
                            valid_until,
                            nonce: (old(self).nonce_spec(identity@, name@) + 1) as u64,
                        },
                    )
                } else {
                    old(self).attr_spec(i, n)
                },
            forall|k: Seq<u8>|
                #[trigger] final(self).owner_of_spec(k) == old(self).owner_of_spec(k),
            forall|i: Seq<u8>, t: Seq<u8>, d: Seq<u8>|
                #[trigger] final(self).delegate_until(i, t, d) == old(self).delegate_until(i, t, d),
    {
        let nonce = self.nonce_of(identity, name);
        let ghost prior = self.attributes@;
        let entry = (*identity, bytes_copy(name), Attribute { value, valid_until, nonce: nonce + 1 });
        let ghost entry_g = entry;
        self.attributes.push(entry);
        proof {
            assert forall|i: Seq<u8>, n: Seq<u8>|
                #[trigger] self.attr_spec(i, n) == if i == identity@ && n == name@ {
                    Some(
                        AttrView {
                            value: value@,
                            valid_until,
                            nonce: (old(self).nonce_spec(identity@, name@) + 1) as u64,
                        },
                    )
                } else {
                    old(self).attr_spec(i, n)
                } by {
                lemma_find_attr_push(prior, entry_g, i, n);
            }
        }
    }

    /// Whether `key` may currently act for `identity`: it is the owner, or
    /// a currently valid signer delegate.
    fn is_authorized(&self, identity: &AccountKey, key: &AccountKey, now: u64) -> (r: bool)
        ensures
            r == self.authorized_signer(identity@, key@, now),
    {
        let owner = self.owner_of(identity);
        if key_eq(key, &owner) {
            return true;
        }
        let dtype = signer_delegate_type_bytes();
        match self.delegate_until_of(identity, &dtype, key) {
            Some(until) => now < until,
            None => false,
        }
    }

    /// Writes the attribute `name = value` on `identity`, valid for
    /// `valid_for` blocks (or the default period), advancing the slot's
    /// nonce by one. The caller must be the owner or a currently valid
    /// signer delegate; a failed attempt leaves every record unchanged.
    pub fn add_attribute(
        &mut self,
        caller: &AccountKey,
        identity: &AccountKey,
        name: &Vec<u8>,
        value: &Vec<u8>,
        valid_for: Option<u32>,
        now: u64,
    ) -> (r: Result<(), Error>)
        requires
            now + validity_blocks(valid_for) <= u64::MAX,
            old(self).nonce_spec(identity@, name@) < u64::MAX,
        ensures
            r is Ok <==> old(self).authorized_signer(identity@, caller@, now),
            r is Err ==> r == Err::<(), Error>(Error::NotOwner),
            forall|i: Seq<u8>, n: Seq<u8>|
                #[trigger] final(self).attr_spec(i, n) == if r is Ok && i == identity@ && n
                    == name@ {
                    Some(
                        AttrView {
                            value: value@,
                            valid_until: (now + validity_blocks(valid_for)) as u64,
                            nonce: (old(self).nonce_spec(identity@, name@) + 1) as u64,
                        },
                    )
                } else {
                    old(self).attr_spec(i, n)
                },
            forall|k: Seq<u8>|
                #[trigger] final(self).owner_of_spec(k) == old(self).owner_of_spec(k),
            forall|i: Seq<u8>, t: Seq<u8>, d: Seq<u8>|
                #[trigger] final(self).delegate_until(i, t, d) == old(self).delegate_until(i, t, d),
    {
        if !self.is_authorized(identity, caller, now) {
            return Err(Error::NotOwner);
        }
        let blocks: u32 = match valid_for {
            Some(v) => v,
            None => DEFAULT_VALIDITY,
        };
        let until: u64 = now + blocks as u64;
        self.write_attribute(identity, name, bytes_copy(value), until);
        Ok(())
    }

    /// Logically deletes the attribute `name` on `identity`: the stored
    /// value is cleared, the validity window is closed at the current
    /// block, and the slot's nonce advances by one. The caller must be the
    /// owner or a currently valid signer delegate, and the slot must hold a
    /// record; a failed attempt leaves every record unchanged.
    pub fn delete_attribute(
        &mut self,
        caller: &AccountKey,
        identity: &AccountKey,
        name: &Vec<u8>,
        now: u64,
    ) -> (r: Result<(), Error>)
        requires
            old(self).nonce_spec(identity@, name@) < u64::MAX,
        ensures
            r is Ok <==> old(self).authorized_signer(identity@, caller@, now) && old(self).attr_spec(
                identity@,
                name@,
            ) is Some,
            !old(self).authorized_signer(identity@, caller@, now) ==> r == Err::<(), Error>(
                Error::NotOwner,
            ),
            old(self).authorized_signer(identity@, caller@, now) && old(self).attr_spec(
                identity@,
                name@,
            ) is None ==> r == Err::<(), Error>(Error::InvalidAttribute),
            forall|i: Seq<u8>, n: Seq<u8>|
                #[trigger] final(self).attr_spec(i, n) == if r is Ok && i == identity@ && n
                    == name@ {
                    Some(
                        AttrView {
                            value: Seq::<u8>::empty(),
                            valid_until: now,
                            nonce: (old(self).nonce_spec(identity@, name@) + 1) as u64,
                        },
                    )
                } else {
                    old(self).attr_spec(i, n)
                },
            forall|k: Seq<u8>|
                #[trigger] final(self).owner_of_spec(k) == old(self).owner_of_spec(k),
            forall|i: Seq<u8>, t: Seq<u8>, d: Seq<u8>|
                #[trigger] final(self).delegate_until(i, t, d) == old(self).delegate_until(i, t, d),
    {
        if !self.is_authorized(identity, caller, now) {
            return Err(Error::NotOwner);
        }
        if self.attr_of(identity, name).is_none() {
            return Err(Error::InvalidAttribute);
        }
        self.write_attribute(identity, name, Vec::new(), now);
        Ok(())
    }

    /// Decides whether `claimed` both cryptographically signed `message`
    /// with `signature` and may currently act for `identity`. Signature
    /// correctness is checked before authorization scope, so a badly signed
    /// message from a valid delegate still reports a bad signature.
    pub fn valid_signer(
        &self,
        identity: &AccountKey,
        signature: &SignatureBytes,
        message: &Vec<u8>,
        claimed: &AccountKey,
        now: u64,
    ) -> (r: Result<(), Error>)
        ensures
            r is Ok <==> sr25519_verifies(signature@, message@, claimed@)
                && self.authorized_signer(identity@, claimed@, now),
            !sr25519_verifies(signature@, message@, claimed@) ==> r == Err::<(), Error>(
                Error::BadSignature,
            ),
            sr25519_verifies(signature@, message@, claimed@) && !self.authorized_signer(
                identity@,
                claimed@,
                now,
            ) ==> r == Err::<(), Error>(Error::InvalidDelegate),
    {
        match crate::crypto::check_signature(signature, message, claimed) {
            Ok(()) => {
                if self.is_authorized(identity, claimed, now) {
                    Ok(())
                } else {
                    Err(Error::InvalidDelegate)
                }
            },
            Err(_) => Err(Error::BadSignature),
        }
    }

    /// Applies an off-chain-signed attribute mutation relayed by `caller`.
    /// Authorization comes from the embedded signature over the canonical
    /// payload, never from the relayer: the embedded signer must have
    /// signed `(name, value, validity, identity)` and be entitled to act
    /// for the identity, and the transaction's nonce must equal the slot's
    /// stored nonce, so that an already applied instruction cannot be
    /// replayed. A validity of zero applies the deletion semantics,
    /// anything else the write semantics; a failed attempt leaves every
    /// record unchanged.
    pub fn execute(&mut self, caller: &AccountKey, tx: &AttributeTransaction, now: u64) -> (r:
        Result<(), Error>)
        requires
            tx.name@.len() <= u32::MAX,
            tx.value@.len() <= u32::MAX,
            now + tx.validity <= u64::MAX,
            old(self).nonce_spec(tx.identity@, tx.name@) < u64::MAX,
        ensures
            ({
                let verifies = sr25519_verifies(
                    tx.signature@,
                    signed_payload(tx.name@, tx.value@, tx.validity, tx.identity@),
                    tx.signer@,
                );
                let authorized = old(self).authorized_signer(tx.identity@, tx.signer@, now);
                let fresh = tx.nonce == old(self).nonce_spec(tx.identity@, tx.name@);
                let present = old(self).attr_spec(tx.identity@, tx.name@) is Some;
                &&& (r is Ok <==> verifies && authorized && fresh && (tx.validity > 0 || present))
                &&& (!verifies ==> r == Err::<(), Error>(Error::BadSignature))
                &&& (verifies && !authorized ==> r == Err::<(), Error>(Error::InvalidDelegate))
                &&& (verifies && authorized && !fresh ==> r == Err::<(), Error>(
                    Error::StaleTransaction,
                ))
                &&& (verifies && authorized && fresh && tx.validity == 0 && !present ==> r
                    == Err::<(), Error>(Error::InvalidAttribute))
            }),
            forall|i: Seq<u8>, n: Seq<u8>|
                #[trigger] final(self).attr_spec(i, n) == if r is Ok && i == tx.identity@ && n
                    == tx.name@ {
                    Some(
                        AttrView {
                            value: if tx.validity == 0 {
                                Seq::<u8>::empty()
                            } else {
                                tx.value@
                            },
                            valid_until: if tx.validity == 0 {
                                now
                            } else {
                                (now + tx.validity) as u64
                            },
                            nonce: (old(self).nonce_spec(tx.identity@, tx.name@) + 1) as u64,
                        },
                    )
                } else {
                    old(self).attr_spec(i, n)
                },
            forall|k: Seq<u8>|
                #[trigger] final(self).owner_of_spec(k) == old(self).owner_of_spec(k),
            forall|i: Seq<u8>, t: Seq<u8>, d: Seq<u8>|
                #[trigger] final(self).delegate_until(i, t, d) == old(self).delegate_until(i, t, d),
    {
        let message = crate::scale::encode_payload(&tx.name, &tx.value, tx.validity, &tx.identity);
        match self.valid_signer(&tx.identity, &tx.signature, &message, &tx.signer, now) {
            Ok(()) => {},
            Err(e) => {
                return Err(e);
            },
        }
        let nonce = self.nonce_of(&tx.identity, &tx.name);
        if tx.nonce != nonce {
            return Err(Error::StaleTransaction);
        }
        if tx.validity == 0 {
            if self.attr_of(&tx.identity, &tx.name).is_none() {
                return Err(Error::InvalidAttribute);
            }
            self.write_attribute(&tx.identity, &tx.name, Vec::new(), now);
        } else {
            let until: u64 = now + tx.validity as u64;
            self.write_attribute(&tx.identity, &tx.name, bytes_copy(&tx.value), until);
        }
        Ok(())
    }
}

/// An identity for which no ownership record was ever written is owned by
/// itself.
pub proof fn lemma_unrecorded_identity_self_owned(r: Registry, id: Seq<u8>)
    requires
        !r.has_owner_record(id),
    ensures
        r.owner_of_spec(id) == id,
{
}

/// After a successful ownership transfer of `id` to `new` — whose effect on
/// the owner records `transfer_owner` ensures — the new owner is the
/// recorded owner, and the previous owner no longer passes the ownership
/// check that gates any further transfer, unless ownership came back to it.
pub proof fn lemma_transfer_locks_out_previous_owner(
    pre: Registry,
    post: Registry,
    prev: Seq<u8>,
    id: Seq<u8>,
    new: Seq<u8>,
)
    requires
        prev == pre.owner_of_spec(id),
        forall|k: Seq<u8>|
            #[trigger] post.owner_of_spec(k) == if k == id {
                new
            } else {
                pre.owner_of_spec(k)
            },
    ensures
        post.owner_of_spec(id) == new,
        prev != new ==> prev != post.owner_of_spec(id),
{
}

/// A delegation recorded to expire at block `granted + blocks` is accepted
/// at exactly the blocks before that height, and refused from it on.
pub proof fn lemma_delegate_expiry(
    r: Registry,
    id: Seq<u8>,
    dtype: Seq<u8>,
    d: Seq<u8>,
    granted: u64,
    blocks: u32,
    now: u64,
)
    requires
        granted + blocks <= u64::MAX,
        r.delegate_until(id, dtype, d) == Some((granted + blocks) as u64),
    ensures
        r.delegate_valid(id, dtype, d, now) <==> now < granted + blocks,
{
}

/// The current owner of an identity is always entitled to sign for it.
pub proof fn lemma_owner_may_sign(r: Registry, id: Seq<u8>, now: u64)
    ensures
        r.authorized_signer(id, r.owner_of_spec(id), now),
{
}

/// Once a slot's validity window has closed — in particular right after a
/// deletion, which closes it at the current block — no value whatever
/// passes the validity check, although the record itself remains.
pub proof fn lemma_closed_slot_rejects_all(
    r: Registry,
    id: Seq<u8>,
    name: Seq<u8>,
    value: Seq<u8>,
    now: u64,
)
    requires
        match r.attr_spec(id, name) {
            Some(a) => a.valid_until <= now,
            None => true,
        },
    ensures
        !r.attr_valid(id, name, value, now),
{
}

/// A successful write advances the slot's nonce past the nonce it was
/// applied with: presenting the same signed instruction again afterwards
/// must fail the freshness check.
pub proof fn lemma_write_prevents_replay(
    pre: Registry,
    post: Registry,
    id: Seq<u8>,
    name: Seq<u8>,
    tx_nonce: u64,
)
    requires
        tx_nonce == pre.nonce_spec(id, name),
        pre.nonce_spec(id, name) < u64::MAX,
        post.nonce_spec(id, name) == pre.nonce_spec(id, name) + 1,
    ensures
        tx_nonce != post.nonce_spec(id, name),
{
}

} // verus!
