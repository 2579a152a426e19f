//! Laws of the escrow engine, proved from the spec transition functions
//! and the store model.
//!
//! These public proof functions state the guarantees that span several
//! operations: a deposit is visible to lookup and disturbs no other key;
//! a settled escrow is gone and can be settled no second time; ascending
//! pages are ordered, and consecutive pages neither overlap nor leave a
//! gap; a descending scan is the exact reverse of the ascending one.

use vstd::prelude::*;
use crate::contract::{TransitionV, spec_approve, spec_receive_nft, spec_withdraw};
use crate::error::ContractErrorV;
use crate::msg::{MessageInfoV, ReceiveNftMsgV};
use crate::query::{coll_matches, fwd_matches, in_coll, in_coll_after, in_coll_before, by_source, by_recipient, recipient_matches, rev_matches, source_matches};
use crate::state::{EscrowV, KeyV, StateV, key_lt, key_of, lemma_key_lt_trichotomy};
use crate::store::{lookup, sorted_by_key, spec_put, lemma_lookup_put, lemma_lookup_delete};
use crate::strorder::{str_lt, lemma_str_lt_trichotomy, lemma_str_lt_transitive};

verus! {

/// A deposit the state machine accepts is afterwards returned, exactly
/// as stored, by a lookup of its key, and every other key reads as
/// before.
pub proof fn lemma_deposit_then_lookup(
    s: Seq<EscrowV>,
    now: int,
    collection: Seq<char>,
    rcv: ReceiveNftMsgV,
)
    requires
        sorted_by_key(s),
        rcv.msg.price > 0,
        rcv.msg.expiration > now,
    ensures
        ({
            let record = EscrowV {
                source: rcv.sender,
                recipient: rcv.msg.recipient,
                price: rcv.msg.price,
                expires_at: rcv.msg.expiration,
                collection: collection,
                token_id: rcv.token_id,
            };
            &&& spec_receive_nft(s, now, collection, rcv) matches Ok(t)
            &&& spec_receive_nft(s, now, collection, rcv)->Ok_0.records == spec_put(s, record)
            &&& lookup(spec_put(s, record), key_of(record)) == Some(record)
            &&& forall|k: KeyV|
                k != key_of(record) ==> lookup(spec_put(s, record), k) == lookup(s, k)
        }),
{
    let record = EscrowV {
        source: rcv.sender,
        recipient: rcv.msg.recipient,
        price: rcv.msg.price,
        expires_at: rcv.msg.expiration,
        collection: collection,
        token_id: rcv.token_id,
    };
    lemma_lookup_put(s, record, key_of(record));
    assert forall|k: KeyV| k != key_of(record) implies lookup(spec_put(s, record), k) == lookup(
        s,
        k,
    ) by {
        lemma_lookup_put(s, record, k);
    }
}

/// A withdrawal that succeeds settles the escrow for good: its key reads
/// as absent, and any further withdrawal or approval of the same key
/// fails with `NoEscrow`.
pub proof fn lemma_withdraw_settles_once(
    s: Seq<EscrowV>,
    now: int,
    info: MessageInfoV,
    collection: Seq<char>,
    token_id: Seq<char>,
    cfg: StateV,
    now2: int,
    info2: MessageInfoV,
)
    requires
        sorted_by_key(s),
        spec_withdraw(s, now, info, collection, token_id) is Ok,
        info2.funds.len() == 0,
    ensures
        ({
            let t = spec_withdraw(s, now, info, collection, token_id)->Ok_0;
            &&& lookup(t.records, KeyV { collection, token_id }) is None
            &&& spec_withdraw(t.records, now2, info2, collection, token_id) == Err::<
                TransitionV,
                ContractErrorV,
            >(ContractErrorV::NoEscrow)
            &&& spec_approve(t.records, cfg, now2, info2, collection, token_id) == Err::<
                TransitionV,
                ContractErrorV,
            >(ContractErrorV::NoEscrow)
        }),
{
    let k = KeyV { collection, token_id };
    lemma_lookup_delete(s, k, k);
}

/// An approval that succeeds settles the escrow for good: its key reads
/// as absent, and any further withdrawal or approval of the same key
/// fails with `NoEscrow`.
pub proof fn lemma_approve_settles_once(
    s: Seq<EscrowV>,
    cfg: StateV,
    now: int,
    info: MessageInfoV,
    collection: Seq<char>,
    token_id: Seq<char>,
    cfg2: StateV,
    now2: int,
    info2: MessageInfoV,
)
    requires
        sorted_by_key(s),
        spec_approve(s, cfg, now, info, collection, token_id) is Ok,
        info2.funds.len() == 0,
    ensures
        ({
            let t = spec_approve(s, cfg, now, info, collection, token_id)->Ok_0;
            &&& lookup(t.records, KeyV { collection, token_id }) is None
            &&& spec_withdraw(t.records, now2, info2, collection, token_id) == Err::<
                TransitionV,
                ContractErrorV,
            >(ContractErrorV::NoEscrow)
            &&& spec_approve(t.records, cfg2, now2, info2, collection, token_id) == Err::<
                TransitionV,
                ContractErrorV,
            >(ContractErrorV::NoEscrow)
        }),
{
    let k = KeyV { collection, token_id };
    lemma_lookup_delete(s, k, k);
}

/// Every live record is reachable through a point lookup of its key and
/// through each of the three scans — by collection, by source, by
/// recipient.
pub proof fn lemma_record_reachable(s: Seq<EscrowV>, i: int)
    requires
        sorted_by_key(s),
        0 <= i < s.len(),
    ensures
        lookup(s, key_of(s[i])) == Some(s[i]),
        coll_matches(s, s[i].collection).contains(s[i]),
        source_matches(s, s[i].source, None).contains(s[i]),
        recipient_matches(s, s[i].recipient, None).contains(s[i]),
{
    crate::store::lemma_lookup_index(s, key_of(s[i]), i);
    s.lemma_filter_contains(in_coll(s[i].collection), i);
    s.lemma_filter_contains(by_source(s[i].source, None), i);
    s.lemma_filter_contains(by_recipient(s[i].recipient, None), i);
}

/// No scan invents a record: whatever a scan by collection, source or
/// recipient passes is a live record of the store.
pub proof fn lemma_scan_hits_are_records(s: Seq<EscrowV>, c: Seq<char>, p: Seq<char>)
    ensures
        forall|x: EscrowV| #[trigger] coll_matches(s, c).contains(x) ==> s.contains(x),
        forall|x: EscrowV| #[trigger] source_matches(s, p, None).contains(x) ==> s.contains(x),
        forall|x: EscrowV| #[trigger] recipient_matches(s, p, None).contains(x) ==> s.contains(x),
{
    lemma_filter_subset(s, in_coll(c));
    lemma_filter_subset(s, by_source(p, None));
    lemma_filter_subset(s, by_recipient(p, None));
}

/// Every record a filter passes is a record of the scanned sequence.
proof fn lemma_filter_subset(s: Seq<EscrowV>, pred: spec_fn(EscrowV) -> bool)
    ensures
        forall|x: EscrowV| #[trigger] s.filter(pred).contains(x) ==> s.contains(x),
    decreases s.len(),
{
    reveal(Seq::filter);
    if s.len() > 0 {
        let u = s.drop_last();
        lemma_filter_subset(u, pred);
        assert forall|x: EscrowV| #[trigger] s.filter(pred).contains(x) implies s.contains(x) by {
            if pred(s.last()) {
                assert(s.filter(pred) == u.filter(pred).push(s.last()));
                if x == s.last() {
                    assert(s[s.len() - 1] == x);
                } else {
                    let i = choose|i: int|
                        0 <= i < s.filter(pred).len() && s.filter(pred)[i] == x;
                    assert(u.filter(pred)[i] == x);
                    assert(u.filter(pred).contains(x));
                    let m = choose|m: int| 0 <= m < u.len() && u[m] == x;
                    assert(s[m] == x);
                }
            } else {
                assert(s.filter(pred) == u.filter(pred));
                assert(u.filter(pred).contains(x));
                let m = choose|m: int| 0 <= m < u.len() && u[m] == x;
                assert(s[m] == x);
            }
        }
    }
}

/// A filter that rejects every record of a sequence returns the empty
/// sequence.
proof fn lemma_filter_all_false(s: Seq<EscrowV>, pred: spec_fn(EscrowV) -> bool)
    requires
        forall|i: int| 0 <= i < s.len() ==> !pred(#[trigger] s[i]),
    ensures
        s.filter(pred) == Seq::<EscrowV>::empty(),
    decreases s.len(),
{
    reveal(Seq::filter);
    if s.len() > 0 {
        let u = s.drop_last();
        assert forall|i: int| 0 <= i < u.len() implies !pred(#[trigger] u[i]) by {
            assert(u[i] == s[i]);
        }
        lemma_filter_all_false(u, pred);
        assert(!pred(s.last()));
    }
}

/// Two filters that agree on every record of a sequence return the same
/// result.
proof fn lemma_filter_congruent(
    s: Seq<EscrowV>,
    p: spec_fn(EscrowV) -> bool,
    q: spec_fn(EscrowV) -> bool,
)
    requires
        forall|i: int| 0 <= i < s.len() ==> p(#[trigger] s[i]) == q(s[i]),
    ensures
        s.filter(p) == s.filter(q),
    decreases s.len(),
{
    reveal(Seq::filter);
    if s.len() > 0 {
        let u = s.drop_last();
        assert forall|i: int| 0 <= i < u.len() implies p(#[trigger] u[i]) == q(u[i]) by {
            assert(u[i] == s[i]);
        }
        lemma_filter_congruent(u, p, q);
        assert(p(s.last()) == q(s.last()));
    }
}

/// Every record an ascending collection scan passes belongs to the
/// collection, has its token strictly after the cursor, and the scan
/// result stands in strictly ascending token order.
pub proof fn lemma_fwd_matches_ordered(s: Seq<EscrowV>, c: Seq<char>, a: Seq<char>)
    requires
        sorted_by_key(s),
    ensures
        ({
            let f = fwd_matches(s, c, a);
            &&& forall|i: int|
                0 <= i < f.len() ==> (#[trigger] f[i]).collection == c && str_lt(a, f[i].token_id)
            &&& forall|i: int, j: int|
                0 <= i < j < f.len() ==> str_lt((#[trigger] f[i]).token_id, (#[trigger] f[j]).token_id)
        }),
    decreases s.len(),
{
    reveal(Seq::filter);
    let f = fwd_matches(s, c, a);
    let pred = in_coll_after(c, a);
    if s.len() > 0 {
        let u = s.drop_last();
        let x = s.last();
        assert forall|i: int, j: int| 0 <= i < j < u.len() implies key_lt(
            key_of(#[trigger] u[i]),
            key_of(#[trigger] u[j]),
        ) by {
            assert(u[i] == s[i]);
            assert(u[j] == s[j]);
        }
        lemma_fwd_matches_ordered(u, c, a);
        let fu = fwd_matches(u, c, a);
        lemma_filter_subset(u, pred);
        if pred(x) {
            assert(f == fu.push(x));
            assert forall|i: int, j: int| 0 <= i < j < f.len() implies str_lt(
                (#[trigger] f[i]).token_id,
                (#[trigger] f[j]).token_id,
            ) by {
                if j < f.len() - 1 {
                    assert(f[i] == fu[i]);
                    assert(f[j] == fu[j]);
                } else {
                    assert(f[j] == x);
                    assert(f[i] == fu[i]);
                    assert(fu.contains(fu[i]));
                    assert(u.contains(fu[i]));
                    let m = choose|m: int| 0 <= m < u.len() && u[m] == fu[i];
                    assert(key_lt(key_of(s[m]), key_of(x)));
                    assert(fu[i].collection == c && x.collection == c);
                    lemma_str_lt_trichotomy(fu[i].collection, x.collection);
                }
            }
        } else {
            assert(f == fu);
        }
    }
}

/// Consecutive ascending pages neither overlap nor leave a gap: a scan
/// that starts after the last token of the previous page returns exactly
/// the remaining records, in order.
pub proof fn lemma_pages_no_gap(s: Seq<EscrowV>, c: Seq<char>, a: Seq<char>, l: int)
    requires
        sorted_by_key(s),
        0 < l <= fwd_matches(s, c, a).len(),
    ensures
        fwd_matches(s, c, fwd_matches(s, c, a)[l - 1].token_id) == fwd_matches(s, c, a).skip(l),
    decreases s.len(),
{
    reveal(Seq::filter);
    let f = fwd_matches(s, c, a);
    let t = f[l - 1].token_id;
    let pred_a = in_coll_after(c, a);
    let pred_t = in_coll_after(c, t);
    lemma_fwd_matches_ordered(s, c, a);
    assert(s.len() > 0);
    let u = s.drop_last();
    let x = s.last();
    assert forall|i: int, j: int| 0 <= i < j < u.len() implies key_lt(
        key_of(#[trigger] u[i]),
        key_of(#[trigger] u[j]),
    ) by {
        assert(u[i] == s[i]);
        assert(u[j] == s[j]);
    }
    let fu = fwd_matches(u, c, a);
    lemma_filter_subset(u, pred_a);
    lemma_fwd_matches_ordered(u, c, a);
    if pred_a(x) {
        assert(f == fu.push(x));
        if l <= fu.len() {
            assert(f[l - 1] == fu[l - 1]);
            lemma_pages_no_gap(u, c, a, l);
            // the last record of the store comes after the cursor record
            assert(fu.contains(fu[l - 1]));
            assert(u.contains(fu[l - 1]));
            let m = choose|m: int| 0 <= m < u.len() && u[m] == fu[l - 1];
            assert(key_lt(key_of(s[m]), key_of(x)));
            lemma_str_lt_trichotomy(fu[l - 1].collection, x.collection);
            assert(str_lt(t, x.token_id));
            assert(pred_t(x));
            assert(fwd_matches(s, c, t) == fwd_matches(u, c, t).push(x));
            assert(fwd_matches(u, c, t).push(x) =~= f.skip(l)) by {
                assert(fwd_matches(u, c, t) == fu.skip(l));
            }
        } else {
            assert(l == f.len());
            assert(f[l - 1] == x);
            lemma_str_lt_trichotomy(t, t);
            assert(!pred_t(x));
            assert(fwd_matches(s, c, t) == fwd_matches(u, c, t));
            assert forall|m: int| 0 <= m < u.len() implies !pred_t(#[trigger] u[m]) by {
                assert(u[m] == s[m]);
                if u[m].collection == c {
                    assert(key_lt(key_of(s[m]), key_of(x)));
                    lemma_str_lt_trichotomy(u[m].collection, x.collection);
                    assert(str_lt(u[m].token_id, t));
                    lemma_str_lt_trichotomy(t, u[m].token_id);
                }
            }
            lemma_filter_all_false(u, pred_t);
            assert(f.skip(l) =~= Seq::<EscrowV>::empty());
        }
    } else {
        assert(f == fu);
        lemma_pages_no_gap(u, c, a, l);
        assert(!pred_t(x)) by {
            if x.collection == c && str_lt(t, x.token_id) {
                assert(str_lt(a, t));
                lemma_str_lt_trichotomy(a, x.token_id);
                if a == x.token_id {
                    lemma_str_lt_trichotomy(t, a);
                } else {
                    assert(str_lt(x.token_id, a));
                    lemma_str_lt_transitive(t, x.token_id, a);
                    lemma_str_lt_trichotomy(t, a);
                }
            }
        }
        assert(fwd_matches(s, c, t) == fwd_matches(u, c, t));
    }
}

/// A descending scan whose bound — if it has one — lies above every
/// token of the collection passes exactly the records the ascending
/// scan passes, so its page is the exact reverse of the ascending
/// sequence.
pub proof fn lemma_reverse_is_reverse(
    s: Seq<EscrowV>,
    c: Seq<char>,
    a: Seq<char>,
    before: Option<Seq<char>>,
)
    requires
        forall|i: int|
            0 <= i < s.len() && (#[trigger] s[i]).collection == c ==> str_lt(a, s[i].token_id)
                && (match before {
                Some(b) => str_lt(s[i].token_id, b),
                None => true,
            }),
    ensures
        rev_matches(s, c, before) == fwd_matches(s, c, a),
{
    lemma_filter_congruent(s, in_coll_before(c, before), in_coll_after(c, a));
}

/// Without a cursor the descending scan has no upper bound: it passes
/// every record of the collection, in store order.
pub proof fn lemma_cursorless_reverse_scans_all(s: Seq<EscrowV>, c: Seq<char>)
    ensures
        rev_matches(s, c, None) == coll_matches(s, c),
{
    lemma_filter_congruent(s, in_coll_before(c, None), in_coll(c));
}

/// The payment checks of an approval, in their stated order, against a
/// live, unexpired escrow: a payment that is not exactly one coin is
/// refused whatever it holds; one coin in the wrong denomination is
/// refused naming the denomination sent; one coin of the right
/// denomination but the wrong amount — above or below the price — is
/// refused.
pub proof fn lemma_approve_payment_rejections(
    s: Seq<EscrowV>,
    cfg: StateV,
    now: int,
    info: MessageInfoV,
    e: EscrowV,
)
    requires
        sorted_by_key(s),
        lookup(s, key_of(e)) == Some(e),
        e.expires_at > now,
    ensures
        info.funds.len() != 1 ==> spec_approve(s, cfg, now, info, e.collection, e.token_id)
            == Err::<TransitionV, ContractErrorV>(ContractErrorV::OnlyOneCoinAvailable),
        info.funds.len() == 1 && info.funds[0].denom != cfg.denom ==> spec_approve(
            s,
            cfg,
            now,
            info,
            e.collection,
            e.token_id,
        ) == Err::<TransitionV, ContractErrorV>(
            ContractErrorV::NotExpectedDenom { denom: info.funds[0].denom },
        ),
        info.funds.len() == 1 && info.funds[0].denom == cfg.denom && info.funds[0].amount
            != e.price ==> spec_approve(s, cfg, now, info, e.collection, e.token_id) == Err::<
            TransitionV,
            ContractErrorV,
        >(ContractErrorV::NotEnoughFunds),
{
    assert(KeyV { collection: e.collection, token_id: e.token_id } == key_of(e));
}

} // verus!
