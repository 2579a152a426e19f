//! The escrow store: a persistent keyed collection of escrow records.
//!
//! Records are held in ascending `(collection, token_id)` key order, with
//! at most one live record per key. The store supports point lookup,
//! insert-or-overwrite, delete, and — through [`EscrowStore::records`] —
//! the ordered scans of the query engine. Its behaviour is pinned by
//! three spec functions over the sequence of record views: [`spec_put`],
//! [`spec_delete`] and [`lookup`].

use vstd::prelude::*;
use crate::state::{
    Escrow, EscrowV, KeyV, key_of, key_lt, lemma_key_lt_trichotomy, lemma_key_lt_transitive,
    escrow_key_lt, escrow_key_eq,
};

verus! {

/// The records stand in strictly ascending key order; in particular each
/// key occurs at most once.
pub open spec fn sorted_by_key(s: Seq<EscrowV>) -> bool {
    forall|i: int, j: int|
        0 <= i < j < s.len() ==> key_lt(key_of(#[trigger] s[i]), key_of(#[trigger] s[j]))
}

/// Insertion of a record at its key position, overwriting any record with
/// the same key.
pub open spec fn spec_put(s: Seq<EscrowV>, e: EscrowV) -> Seq<EscrowV>
    decreases s.len(),
{
    if s.len() == 0 {
        seq![e]
    } else if key_lt(key_of(e), key_of(s[0])) {
        seq![e] + s
    } else if key_of(e) == key_of(s[0]) {
        seq![e] + s.drop_first()
    } else {
        seq![s[0]] + spec_put(s.drop_first(), e)
    }
}

/// Removal of the first record with the given key; without one, the
/// sequence is unchanged.
pub open spec fn spec_delete(s: Seq<EscrowV>, k: KeyV) -> Seq<EscrowV>
    decreases s.len(),
{
    if s.len() == 0 {
        s
    } else if key_of(s[0]) == k {
        s.drop_first()
    } else {
        seq![s[0]] + spec_delete(s.drop_first(), k)
    }
}

/// The first record with the given key, if any.
pub open spec fn lookup(s: Seq<EscrowV>, k: KeyV) -> Option<EscrowV>
    decreases s.len(),
{
    if s.len() == 0 {
        None
    } else if key_of(s[0]) == k {
        Some(s[0])
    } else {
        lookup(s.drop_first(), k)
    }
}

proof fn lemma_sorted_drop_first(s: Seq<EscrowV>)
    requires
        sorted_by_key(s),
        s.len() > 0,
    ensures
        sorted_by_key(s.drop_first()),
{
    let s1 = s.drop_first();
    assert forall|i: int, j: int| 0 <= i < j < s1.len() implies key_lt(
        key_of(#[trigger] s1[i]),
        key_of(#[trigger] s1[j]),
    ) by {
        assert(s1[i] == s[i + 1]);
        assert(s1[j] == s[j + 1]);
    }
}

/// `spec_put` keeps the records sorted and adds no record besides the new
/// one.
pub proof fn lemma_spec_put_sorted(s: Seq<EscrowV>, e: EscrowV)
    requires
        sorted_by_key(s),
    ensures
        sorted_by_key(spec_put(s, e)),
        forall|x: EscrowV| #[trigger] spec_put(s, e).contains(x) ==> x == e || s.contains(x),
    decreases s.len(),
{
    let r = spec_put(s, e);
    if s.len() == 0 {
        assert forall|x: EscrowV| #[trigger] r.contains(x) implies x == e || s.contains(x) by {
            let i = choose|i: int| 0 <= i < r.len() && r[i] == x;
            assert(r[0] == e);
        }
    } else if key_lt(key_of(e), key_of(s[0])) {
        assert forall|i: int, j: int| 0 <= i < j < r.len() implies key_lt(
            key_of(#[trigger] r[i]),
            key_of(#[trigger] r[j]),
        ) by {
            if i == 0 {
                assert(r[0] == e);
                assert(r[j] == s[j - 1]);
                if j > 1 {
                    lemma_key_lt_transitive(key_of(e), key_of(s[0]), key_of(s[j - 1]));
                }
            } else {
                assert(r[i] == s[i - 1]);
                assert(r[j] == s[j - 1]);
            }
        }
        assert forall|x: EscrowV| #[trigger] r.contains(x) implies x == e || s.contains(x) by {
            let i = choose|i: int| 0 <= i < r.len() && r[i] == x;
            if i > 0 {
                assert(s[i - 1] == x);
            }
        }
    } else if key_of(e) == key_of(s[0]) {
        lemma_sorted_drop_first(s);
        assert forall|i: int, j: int| 0 <= i < j < r.len() implies key_lt(
            key_of(#[trigger] r[i]),
            key_of(#[trigger] r[j]),
        ) by {
            if i == 0 {
                assert(r[0] == e);
                assert(r[j] == s.drop_first()[j - 1]);
                assert(s.drop_first()[j - 1] == s[j]);
            } else {
                assert(r[i] == s[i]);
                assert(r[j] == s[j]);
            }
        }
        assert forall|x: EscrowV| #[trigger] r.contains(x) implies x == e || s.contains(x) by {
            let i = choose|i: int| 0 <= i < r.len() && r[i] == x;
            if i > 0 {
                assert(s[i] == x);
            }
        }
    } else {
        lemma_key_lt_trichotomy(key_of(e), key_of(s[0]));
        assert(key_lt(key_of(s[0]), key_of(e)));
        lemma_sorted_drop_first(s);
        lemma_spec_put_sorted(s.drop_first(), e);
        let r1 = spec_put(s.drop_first(), e);
        assert(r == seq![s[0]] + r1);
        assert forall|i: int, j: int| 0 <= i < j < r.len() implies key_lt(
            key_of(#[trigger] r[i]),
            key_of(#[trigger] r[j]),
        ) by {
            if i == 0 {
                assert(r[j] == r1[j - 1]);
                assert(r1.contains(r1[j - 1]));
                if r1[j - 1] == e {
                    assert(key_lt(key_of(s[0]), key_of(e)));
                } else {
                    assert(s.drop_first().contains(r1[j - 1]));
                    let m = choose|m: int|
                        0 <= m < s.drop_first().len() && s.drop_first()[m] == r1[j - 1];
                    assert(s[m + 1] == r1[j - 1]);
                }
            } else {
                assert(r[i] == r1[i - 1]);
                assert(r[j] == r1[j - 1]);
            }
        }
        assert forall|x: EscrowV| #[trigger] r.contains(x) implies x == e || s.contains(x) by {
            let i = choose|i: int| 0 <= i < r.len() && r[i] == x;
            if i == 0 {
                assert(s[0] == x);
                assert(s.contains(x));
            } else {
                assert(r1[i - 1] == x);
                assert(r1.contains(x));
                if x != e {
                    let m = choose|m: int|
                        0 <= m < s.drop_first().len() && s.drop_first()[m] == x;
                    assert(s[m + 1] == x);
                }
            }
        }
    }
}

/// After `spec_put`, the new record is found under its key and every
/// other key reads as before.
pub proof fn lemma_lookup_put(s: Seq<EscrowV>, e: EscrowV, k: KeyV)
    requires
        sorted_by_key(s),
    ensures
        lookup(spec_put(s, e), k) == if k == key_of(e) {
            Some(e)
        } else {
            lookup(s, k)
        },
    decreases s.len(),
{
    reveal_with_fuel(lookup, 3);
    let r = spec_put(s, e);
    if s.len() == 0 {
        assert(r.drop_first() =~= Seq::<EscrowV>::empty());
        assert(r[0] == e);
        if k == key_of(e) {
            assert(lookup(r, k) == Some(e));
        } else {
            assert(lookup(r, k) is None);
        }
    } else if key_lt(key_of(e), key_of(s[0])) {
        assert(r[0] == e);
        assert(r.drop_first() =~= s);
        lemma_key_lt_trichotomy(key_of(e), key_of(s[0]));
        if k == key_of(e) {
            assert(lookup(r, k) == Some(e));
        } else {
            assert(lookup(r, k) == lookup(s, k));
        }
    } else if key_of(e) == key_of(s[0]) {
        assert(r[0] == e);
        assert(r.drop_first() =~= s.drop_first());
        if k == key_of(e) {
            assert(lookup(r, k) == Some(e));
        } else {
            assert(lookup(r, k) == lookup(s, k));
        }
    } else {
        lemma_key_lt_trichotomy(key_of(e), key_of(s[0]));
        lemma_sorted_drop_first(s);
        lemma_lookup_put(s.drop_first(), e, k);
        assert(r == seq![s[0]] + spec_put(s.drop_first(), e));
        assert(r[0] == s[0]);
        assert(r.drop_first() =~= spec_put(s.drop_first(), e));
    }
}

/// `spec_delete` keeps the records sorted and adds no record.
pub proof fn lemma_spec_delete_sorted(s: Seq<EscrowV>, k: KeyV)
    requires
        sorted_by_key(s),
    ensures
        sorted_by_key(spec_delete(s, k)),
        forall|x: EscrowV| #[trigger] spec_delete(s, k).contains(x) ==> s.contains(x),
    decreases s.len(),
{
    let r = spec_delete(s, k);
    if s.len() == 0 {
    } else if key_of(s[0]) == k {
        lemma_sorted_drop_first(s);
        assert forall|x: EscrowV| #[trigger] r.contains(x) implies s.contains(x) by {
            let i = choose|i: int| 0 <= i < r.len() && r[i] == x;
            assert(s[i + 1] == x);
        }
    } else {
        lemma_sorted_drop_first(s);
        lemma_spec_delete_sorted(s.drop_first(), k);
        let r1 = spec_delete(s.drop_first(), k);
        assert(r == seq![s[0]] + r1);
        assert forall|i: int, j: int| 0 <= i < j < r.len() implies key_lt(
            key_of(#[trigger] r[i]),
            key_of(#[trigger] r[j]),
        ) by {
            if i == 0 {
                assert(r[j] == r1[j - 1]);
                assert(r1.contains(r1[j - 1]));
                assert(s.drop_first().contains(r1[j - 1]));
                let m = choose|m: int|
                    0 <= m < s.drop_first().len() && s.drop_first()[m] == r1[j - 1];
                assert(s[m + 1] == r1[j - 1]);
            } else {
                assert(r[i] == r1[i - 1]);
                assert(r[j] == r1[j - 1]);
            }
        }
        assert forall|x: EscrowV| #[trigger] r.contains(x) implies s.contains(x) by {
            let i = choose|i: int| 0 <= i < r.len() && r[i] == x;
            if i == 0 {
                assert(s[0] == x);
            } else {
                assert(r1[i - 1] == x);
                assert(r1.contains(x));
                assert(s.drop_first().contains(x));
                let m = choose|m: int| 0 <= m < s.drop_first().len() && s.drop_first()[m] == x;
                assert(s[m + 1] == x);
            }
        }
    }
}

/// After `spec_delete`, the deleted key reads as absent and every other
/// key reads as before.
pub proof fn lemma_lookup_delete(s: Seq<EscrowV>, k: KeyV, k2: KeyV)
    requires
        sorted_by_key(s),
    ensures
        lookup(spec_delete(s, k), k2) == if k2 == k {
            None::<EscrowV>
        } else {
            lookup(s, k2)
        },
    decreases s.len(),
{
    let r = spec_delete(s, k);
    if s.len() == 0 {
    } else if key_of(s[0]) == k {
        if k2 == k {
            assert forall|i: int| 0 <= i < s.drop_first().len() implies key_of(
                #[trigger] s.drop_first()[i],
            ) != k by {
                assert(s.drop_first()[i] == s[i + 1]);
                assert(key_lt(key_of(s[0]), key_of(s[i + 1])));
                lemma_key_lt_trichotomy(key_of(s[0]), key_of(s[i + 1]));
            }
            lemma_lookup_absent(s.drop_first(), k);
        }
    } else {
        lemma_sorted_drop_first(s);
        lemma_lookup_delete(s.drop_first(), k, k2);
        assert(r == seq![s[0]] + spec_delete(s.drop_first(), k));
        assert(r[0] == s[0]);
        assert(r.drop_first() =~= spec_delete(s.drop_first(), k));
    }
}

/// A key held by no record is not found.
pub proof fn lemma_lookup_absent(s: Seq<EscrowV>, k: KeyV)
    requires
        forall|i: int| 0 <= i < s.len() ==> key_of(#[trigger] s[i]) != k,
    ensures
        lookup(s, k) is None,
    decreases s.len(),
{
    if s.len() > 0 {
        assert forall|i: int| 0 <= i < s.drop_first().len() implies key_of(
            #[trigger] s.drop_first()[i],
        ) != k by {
            assert(s.drop_first()[i] == s[i + 1]);
        }
        lemma_lookup_absent(s.drop_first(), k);
    }
}

/// A record that is held is found: `lookup` returns the record at the
/// (unique) index whose key matches.
pub proof fn lemma_lookup_index(s: Seq<EscrowV>, k: KeyV, i: int)
    requires
        sorted_by_key(s),
        0 <= i < s.len(),
        key_of(s[i]) == k,
    ensures
        lookup(s, k) == Some(s[i]),
    decreases s.len(),
{
    if i == 0 {
    } else {
        lemma_key_lt_trichotomy(key_of(s[0]), k);
        assert(key_lt(key_of(s[0]), key_of(s[i])));
        lemma_sorted_drop_first(s);
        assert(s.drop_first()[i - 1] == s[i]);
        lemma_lookup_index(s.drop_first(), k, i - 1);
    }
}

/// Where the scan for the insertion point of `e` stops at `i`, `spec_put`
/// is an update (same key at `i`) or an insertion at `i`.
proof fn lemma_spec_put_at(s: Seq<EscrowV>, e: EscrowV, i: int)
    requires
        sorted_by_key(s),
        0 <= i <= s.len(),
        forall|j: int| 0 <= j < i ==> key_lt(key_of(#[trigger] s[j]), key_of(e)),
        i < s.len() ==> !key_lt(key_of(s[i]), key_of(e)),
    ensures
        i < s.len() && key_of(s[i]) == key_of(e) ==> spec_put(s, e) == s.update(i, e),
        !(i < s.len() && key_of(s[i]) == key_of(e)) ==> spec_put(s, e) == s.insert(i, e),
    decreases i,
{
    if i == 0 {
        if s.len() == 0 {
            assert(spec_put(s, e) =~= s.insert(0, e));
        } else if key_of(s[0]) == key_of(e) {
            assert(spec_put(s, e) == seq![e] + s.drop_first());
            assert(spec_put(s, e) =~= s.update(0, e));
        } else {
            lemma_key_lt_trichotomy(key_of(e), key_of(s[0]));
            assert(key_lt(key_of(e), key_of(s[0])));
            assert(spec_put(s, e) == seq![e] + s);
            assert(spec_put(s, e) =~= s.insert(0, e));
        }
    } else {
        assert(key_lt(key_of(s[0]), key_of(e)));
        lemma_key_lt_trichotomy(key_of(s[0]), key_of(e));
        lemma_sorted_drop_first(s);
        assert forall|j: int| 0 <= j < i - 1 implies key_lt(
            key_of(#[trigger] s.drop_first()[j]),
            key_of(e),
        ) by {
            assert(s.drop_first()[j] == s[j + 1]);
        }
        if i < s.len() {
            assert(s.drop_first()[i - 1] == s[i]);
        }
        lemma_spec_put_at(s.drop_first(), e, i - 1);
        assert(spec_put(s, e) == seq![s[0]] + spec_put(s.drop_first(), e));
        if i < s.len() && key_of(s[i]) == key_of(e) {
            assert(spec_put(s.drop_first(), e) == s.drop_first().update(i - 1, e));
            assert(seq![s[0]] + s.drop_first().update(i - 1, e) =~= s.update(i, e));
        } else {
            assert(spec_put(s.drop_first(), e) == s.drop_first().insert(i - 1, e));
            assert(seq![s[0]] + s.drop_first().insert(i - 1, e) =~= s.insert(i, e));
        }
    }
}

/// Where the scan for key `k` stops at the first match `i`, `spec_delete`
/// removes exactly the record at `i`; without a match it changes nothing.
proof fn lemma_spec_delete_at(s: Seq<EscrowV>, k: KeyV, i: int)
    requires
        0 <= i <= s.len(),
        forall|j: int| 0 <= j < i ==> key_of(#[trigger] s[j]) != k,
        i < s.len() ==> key_of(s[i]) == k,
    ensures
        i < s.len() ==> spec_delete(s, k) == s.remove(i),
        i == s.len() ==> spec_delete(s, k) == s,
    decreases i,
{
    if i == 0 {
        if s.len() > 0 {
            assert(spec_delete(s, k) == s.drop_first());
            assert(s.drop_first() =~= s.remove(0));
        }
    } else {
        assert(key_of(s[0]) != k);
        assert forall|j: int| 0 <= j < i - 1 implies key_of(#[trigger] s.drop_first()[j]) != k by {
            assert(s.drop_first()[j] == s[j + 1]);
        }
        if i < s.len() {
            assert(s.drop_first()[i - 1] == s[i]);
        }
        lemma_spec_delete_at(s.drop_first(), k, i - 1);
        assert(spec_delete(s, k) == seq![s[0]] + spec_delete(s.drop_first(), k));
        if i < s.len() {
            assert(seq![s[0]] + s.drop_first().remove(i - 1) =~= s.remove(i));
        } else {
            assert(seq![s[0]] + s.drop_first() =~= s);
        }
    }
}

/// The escrow store. The sequence of live records, in ascending key
/// order, is its view.
pub struct EscrowStore {
    records: Vec<Escrow>,
}

impl View for EscrowStore {
    type V = Seq<EscrowV>;

    closed spec fn view(&self) -> Seq<EscrowV> {
        self.records.deep_view()
    }
}

impl EscrowStore {
    /// Well-formedness: strictly ascending key order.
    pub open spec fn wf(&self) -> bool {
        sorted_by_key(self@)
    }

    /// A fresh store with no records.
    pub fn new() -> (s: Self)
        ensures
            s.wf(),
            s@ == Seq::<EscrowV>::empty(),
    {
        let s = EscrowStore { records: Vec::new() };
        proof {
            assert(s@ =~= Seq::<EscrowV>::empty());
        }
        s
    }

    /// The number of live records.
    pub fn len(&self) -> (n: usize)
        ensures
            n == self@.len(),
    {
        self.records.len()
    }

    /// The records, in ascending key order: the query engine scans them.
    pub fn records(&self) -> (v: &Vec<Escrow>)
        ensures
            v.deep_view() == self@,
    {
        &self.records
    }

    /// Point lookup by key.
    pub fn get(&self, collection: &String, token_id: &String) -> (r: Option<&Escrow>)
        requires
            self.wf(),
        ensures
            match r {
                Some(e) => lookup(self@, KeyV { collection: collection@, token_id: token_id@ })
                    == Some(e@),
                None => lookup(self@, KeyV { collection: collection@, token_id: token_id@ })
                    is None,
            },
    {
        let ghost k = KeyV { collection: collection@, token_id: token_id@ };
        let n = self.records.len();
        let mut i: usize = 0;
        loop
            invariant
                0 <= i <= n,
                n == self@.len(),
                self.wf(),
                self@ == self.records.deep_view(),
                forall|j: int| 0 <= j < i ==> key_of(#[trigger] self@[j]) != k,
                k == (KeyV { collection: collection@, token_id: token_id@ }),
            ensures
                i == n,
                forall|j: int| 0 <= j < n ==> key_of(#[trigger] self@[j]) != k,
            decreases n - i,
        {
            if i >= n {
                break;
            }
            if escrow_key_eq(&self.records[i], collection, token_id) {
                proof {
                    lemma_lookup_index(self@, k, i as int);
                }
                return Some(&self.records[i]);
            }
            i = i + 1;
        }
        proof {
            lemma_lookup_absent(self@, k);
        }
        None
    }

    /// Insert a record under its key, overwriting any record with the
    /// same key. All scans and lookups see the change at once.
    pub fn put(&mut self, e: Escrow)
        requires
            old(self).wf(),
        ensures
            final(self).wf(),
            final(self)@ == spec_put(old(self)@, e@),
    {
        let ghost s0 = self@;
        let n = self.records.len();
        let mut i: usize = 0;
        loop
            invariant
                0 <= i <= n,
                n == s0.len(),
                self@ == s0,
                sorted_by_key(s0),
                forall|j: int| 0 <= j < i ==> key_lt(key_of(#[trigger] s0[j]), key_of(e@)),
            ensures
                0 <= i <= n,
                self@ == s0,
                forall|j: int| 0 <= j < i ==> key_lt(key_of(#[trigger] s0[j]), key_of(e@)),
                i < n ==> !key_lt(key_of(s0[i as int]), key_of(e@)),
            decreases n - i,
        {
            if i >= n {
                break;
            }
            if !escrow_key_lt(&self.records[i], &e.collection, &e.token_id) {
                break;
            }
            i = i + 1;
        }
        proof {
            lemma_spec_put_at(s0, e@, i as int);
        }
        if i < n && escrow_key_eq(&self.records[i], &e.collection, &e.token_id) {
            self.records.remove(i);
            self.records.insert(i, e);
            proof {
                assert(self@ =~= s0.update(i as int, e@));
                lemma_spec_put_sorted(s0, e@);
            }
        } else {
            proof {
                if i < n {
                    lemma_key_lt_trichotomy(key_of(s0[i as int]), key_of(e@));
                }
            }
            self.records.insert(i, e);
            proof {
                assert(self@ =~= s0.insert(i as int, e@));
                lemma_spec_put_sorted(s0, e@);
            }
        }
    }

    /// Remove the record with the given key; without one, the store is
    /// unchanged.
    pub fn delete(&mut self, collection: &String, token_id: &String)
        requires
            old(self).wf(),
        ensures
            final(self).wf(),
            final(self)@ == spec_delete(
                old(self)@,
                KeyV { collection: collection@, token_id: token_id@ },
            ),
    {
        let ghost s0 = self@;
        let ghost k = KeyV { collection: collection@, token_id: token_id@ };
        let n = self.records.len();
        let mut i: usize = 0;
        loop
            invariant
                0 <= i <= n,
                n == s0.len(),
                self@ == s0,
                sorted_by_key(s0),
                forall|j: int| 0 <= j < i ==> key_of(#[trigger] s0[j]) != k,
                k == (KeyV { collection: collection@, token_id: token_id@ }),
            ensures
                0 <= i <= n,
                self@ == s0,
                forall|j: int| 0 <= j < i ==> key_of(#[trigger] s0[j]) != k,
                i < n ==> key_of(s0[i as int]) == k,
            decreases n - i,
        {
            if i >= n {
                break;
            }
            if escrow_key_eq(&self.records[i], collection, token_id) {
                break;
            }
            i = i + 1;
        }
        proof {
            lemma_spec_delete_at(s0, k, i as int);
            lemma_spec_delete_sorted(s0, k);
        }
        if i < n {
            self.records.remove(i);
            proof {
                assert(self@ =~= s0.remove(i as int));
            }
        }
    }
}

/// A fresh, empty escrow store.
pub fn escrows() -> (s: EscrowStore)
    ensures
        s.wf(),
        s@ == Seq::<EscrowV>::empty(),
{
    EscrowStore::new()
}

} // verus!
