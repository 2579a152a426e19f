//! Core data types: the configuration record, the escrow record, and the
//! order on escrow keys.
//!
//! An escrow pairs a deposited item with a price, a recipient and an
//! expiry, and is keyed by `(collection, token_id)`. Contracts speak of
//! these types through mathematical views whose fields are sequences of
//! characters and unbounded integers.

use vstd::prelude::*;
use crate::strorder::{str_lt, str_is_lt, lemma_str_lt_trichotomy, lemma_str_lt_transitive};

verus! {

/// Mathematical view of a [`State`] record.
#[verifier::ext_equal]
pub struct StateV {
    pub admin: Seq<char>,
    pub denom: Seq<char>,
}

/// The singleton configuration record: the administrator identity and the
/// accepted settlement denomination.
#[derive(Debug, PartialEq)]
pub struct State {
    pub admin: String,
    pub denom: String,
}

impl View for State {
    type V = StateV;

    open spec fn view(&self) -> StateV {
        StateV { admin: self.admin@, denom: self.denom@ }
    }
}

impl Clone for State {
    fn clone(&self) -> (r: Self)
        ensures
            r@ == self@,
    {
        State { admin: self.admin.clone(), denom: self.denom.clone() }
    }
}

/// Mathematical view of an [`Escrow`] record.
#[verifier::ext_equal]
pub struct EscrowV {
    pub source: Seq<char>,
    pub recipient: Seq<char>,
    pub price: int,
    pub expires_at: int,
    pub collection: Seq<char>,
    pub token_id: Seq<char>,
}

/// A live escrow: the deposited item `(collection, token_id)`, the party
/// that deposited it, the party that may buy it, the price owed, and the
/// deadline after which the source may take the item back.
#[derive(Debug, PartialEq)]
pub struct Escrow {
    pub source: String,
    pub recipient: String,
    pub price: u128,
    pub expires_at: u64,
    pub collection: String,
    pub token_id: String,
}

impl View for Escrow {
    type V = EscrowV;

    open spec fn view(&self) -> EscrowV {
        EscrowV {
            source: self.source@,
            recipient: self.recipient@,
            price: self.price as int,
            expires_at: self.expires_at as int,
            collection: self.collection@,
            token_id: self.token_id@,
        }
    }
}

impl DeepView for Escrow {
    type V = EscrowV;

    open spec fn deep_view(&self) -> EscrowV {
        self.view()
    }
}

impl Clone for Escrow {
    fn clone(&self) -> (r: Self)
        ensures
            r@ == self@,
    {
        Escrow {
            source: self.source.clone(),
            recipient: self.recipient.clone(),
            price: self.price,
            expires_at: self.expires_at,
            collection: self.collection.clone(),
            token_id: self.token_id.clone(),
        }
    }
}

/// Capability of a record that carries an expiry deadline.
pub trait Order {
    /// The deadline, as seen by contracts.
    spec fn spec_expires_at(&self) -> int;

    /// The deadline after which the record may be settled by withdrawal.
    fn expires_at(&self) -> (t: u64)
        ensures
            t as int == self.spec_expires_at(),
    ;

    /// A record counts as expired from its deadline on.
    fn is_expired(&self, block_time: u64) -> (b: bool)
        ensures
            b == (self.spec_expires_at() <= block_time as int),
    {
        self.expires_at() <= block_time
    }
}

impl Order for Escrow {
    open spec fn spec_expires_at(&self) -> int {
        self@.expires_at
    }

    fn expires_at(&self) -> (t: u64)
        ensures
            t as int == self.spec_expires_at(),
    {
        self.expires_at
    }
}

/// An escrow key at the level of views.
#[verifier::ext_equal]
pub struct KeyV {
    pub collection: Seq<char>,
    pub token_id: Seq<char>,
}

/// The key under which an escrow record is stored.
pub open spec fn key_of(e: EscrowV) -> KeyV {
    KeyV { collection: e.collection, token_id: e.token_id }
}

/// Strict lexicographic order on keys: by collection, then by token
/// identifier.
pub open spec fn key_lt(a: KeyV, b: KeyV) -> bool {
    str_lt(a.collection, b.collection)
        || (a.collection == b.collection && str_lt(a.token_id, b.token_id))
}

/// Trichotomy for the key order: of `key_lt(a, b)`, `a == b` and
/// `key_lt(b, a)`, exactly one holds.
pub proof fn lemma_key_lt_trichotomy(a: KeyV, b: KeyV)
    ensures
        key_lt(a, b) ==> !key_lt(b, a) && a != b,
        !key_lt(a, b) && !key_lt(b, a) ==> a == b,
        a == b ==> !key_lt(a, b),
{
    lemma_str_lt_trichotomy(a.collection, b.collection);
    lemma_str_lt_trichotomy(a.token_id, b.token_id);
}

/// Transitivity for the key order.
pub proof fn lemma_key_lt_transitive(a: KeyV, b: KeyV, c: KeyV)
    requires
        key_lt(a, b),
        key_lt(b, c),
    ensures
        key_lt(a, c),
{
    lemma_str_lt_trichotomy(a.collection, b.collection);
    lemma_str_lt_trichotomy(b.collection, c.collection);
    if str_lt(a.collection, b.collection) && str_lt(b.collection, c.collection) {
        lemma_str_lt_transitive(a.collection, b.collection, c.collection);
    } else if a.collection == b.collection && b.collection == c.collection {
        lemma_str_lt_transitive(a.token_id, b.token_id, c.token_id);
    }
}

/// Convenience escrow key constructor: copies of the two identifiers.
pub fn escrow_key(collection: &String, token_id: &String) -> (k: (String, String))
    ensures
        k.0@ == collection@,
        k.1@ == token_id@,
{
    (collection.clone(), token_id.clone())
}

/// Executable strict comparison of a record's key against a given key.
pub fn escrow_key_lt(e: &Escrow, collection: &String, token_id: &String) -> (r: bool)
    ensures
        r == key_lt(key_of(e@), KeyV { collection: collection@, token_id: token_id@ }),
{
    if str_is_lt(e.collection.as_str(), collection.as_str()) {
        true
    } else if e.collection == *collection {
        str_is_lt(e.token_id.as_str(), token_id.as_str())
    } else {
        proof {
            lemma_str_lt_trichotomy(e.collection@, collection@);
        }
        false
    }
}

/// Executable strict comparison of a given key against a record's key.
pub fn escrow_key_gt(e: &Escrow, collection: &String, token_id: &String) -> (r: bool)
    ensures
        r == key_lt(KeyV { collection: collection@, token_id: token_id@ }, key_of(e@)),
{
    if str_is_lt(collection.as_str(), e.collection.as_str()) {
        true
    } else if *collection == e.collection {
        str_is_lt(token_id.as_str(), e.token_id.as_str())
    } else {
        false
    }
}

/// Executable equality of a record's key with a given key.
pub fn escrow_key_eq(e: &Escrow, collection: &String, token_id: &String) -> (r: bool)
    ensures
        r == (key_of(e@) == KeyV { collection: collection@, token_id: token_id@ }),
{
    let r = e.collection == *collection && e.token_id == *token_id;
    proof {
        if r {
            assert(key_of(e@) =~= KeyV { collection: collection@, token_id: token_id@ });
        }
    }
    r
}

} // verus!
