//! The query engine: read-only paginated access over the escrow store.
//!
//! Every scan walks the store's records — which stand in ascending
//! `(collection, token_id)` order — keeps those a filter admits, and
//! returns at most one page. The page size defaults to
//! [`DEFAULT_QUERY_LIMIT`] and is silently clamped to
//! [`MAX_QUERY_LIMIT`].

use vstd::prelude::*;
use crate::msg::{
    CollectionOffset, EscrowResponse, EscrowsCountResponse, EscrowsResponse, QueryAnswer, QueryMsg,
};
use crate::state::{
    Escrow, EscrowV, KeyV, State, escrow_key_gt, key_lt, key_of,
};
use crate::store::{EscrowStore, lookup};
use crate::strorder::{str_is_lt, str_lt};

verus! {

/// Page size used when a query names none.
pub const DEFAULT_QUERY_LIMIT: u32 = 10;

/// Hard cap on the page size; larger requests are clamped, not rejected.
pub const MAX_QUERY_LIMIT: u32 = 30;

/// The page size a query's `limit` field resolves to.
pub open spec fn page_limit(limit: Option<u32>) -> int {
    let l = match limit {
        Some(v) => v as int,
        None => DEFAULT_QUERY_LIMIT as int,
    };
    if l <= MAX_QUERY_LIMIT as int {
        l
    } else {
        MAX_QUERY_LIMIT as int
    }
}

/// The first `lim` records of a scan result (all of them when fewer).
pub open spec fn page_of(s: Seq<EscrowV>, lim: int) -> Seq<EscrowV> {
    if s.len() <= lim {
        s
    } else {
        s.take(lim)
    }
}

/// The token an ascending scan starts strictly after: the given one, or
/// the empty string.
pub open spec fn after_of(o: Option<String>) -> Seq<char> {
    match o {
        Some(s) => s@,
        None => Seq::empty(),
    }
}

/// The token a descending scan starts strictly before: the given one,
/// or no upper bound at all.
pub open spec fn before_of(o: Option<String>) -> Option<Seq<char>> {
    match o {
        Some(s) => Some(s@),
        None => None,
    }
}

/// The key a source or recipient scan starts strictly after, if any.
pub open spec fn offset_of(o: Option<CollectionOffset>) -> Option<KeyV> {
    match o {
        Some(c) => Some(KeyV { collection: c.collection@, token_id: c.token_id@ }),
        None => None,
    }
}

/// Membership in a collection with a token strictly after `after`.
pub open spec fn in_coll_after(c: Seq<char>, after: Seq<char>) -> spec_fn(EscrowV) -> bool {
    |e: EscrowV| e.collection == c && str_lt(after, e.token_id)
}

/// Membership in a collection with a token strictly before the bound,
/// where one is given.
pub open spec fn in_coll_before(c: Seq<char>, before: Option<Seq<char>>) -> spec_fn(
    EscrowV,
) -> bool {
    |e: EscrowV| e.collection == c && (match before {
        Some(b) => str_lt(e.token_id, b),
        None => true,
    })
}

/// Membership in a collection.
pub open spec fn in_coll(c: Seq<char>) -> spec_fn(EscrowV) -> bool {
    |e: EscrowV| e.collection == c
}

/// Deposited by `src`, with a key strictly after `start` where one is
/// given.
pub open spec fn by_source(src: Seq<char>, start: Option<KeyV>) -> spec_fn(EscrowV) -> bool {
    |e: EscrowV| e.source == src && (match start {
        Some(k) => key_lt(k, key_of(e)),
        None => true,
    })
}

/// Payable by `rcpt`, with a key strictly after `start` where one is
/// given.
pub open spec fn by_recipient(rcpt: Seq<char>, start: Option<KeyV>) -> spec_fn(EscrowV) -> bool {
    |e: EscrowV| e.recipient == rcpt && (match start {
        Some(k) => key_lt(k, key_of(e)),
        None => true,
    })
}

/// The records an ascending collection scan passes, in store order.
pub open spec fn fwd_matches(s: Seq<EscrowV>, c: Seq<char>, after: Seq<char>) -> Seq<EscrowV> {
    s.filter(in_coll_after(c, after))
}

/// The records a descending collection scan passes, in store order:
/// the collection's records below the bound, or all of them when the
/// scan has no bound.
pub open spec fn rev_matches(
    s: Seq<EscrowV>,
    c: Seq<char>,
    before: Option<Seq<char>>,
) -> Seq<EscrowV> {
    s.filter(in_coll_before(c, before))
}

/// All records of a collection, in store order.
pub open spec fn coll_matches(s: Seq<EscrowV>, c: Seq<char>) -> Seq<EscrowV> {
    s.filter(in_coll(c))
}

/// The records a source scan passes, in store order.
pub open spec fn source_matches(
    s: Seq<EscrowV>,
    src: Seq<char>,
    start: Option<KeyV>,
) -> Seq<EscrowV> {
    s.filter(by_source(src, start))
}

/// The records a recipient scan passes, in store order.
pub open spec fn recipient_matches(
    s: Seq<EscrowV>,
    rcpt: Seq<char>,
    start: Option<KeyV>,
) -> Seq<EscrowV> {
    s.filter(by_recipient(rcpt, start))
}

/// One scan step: filtering one more record keeps the result and
/// appends the record exactly when the filter admits it.
proof fn lemma_filter_step(s: Seq<EscrowV>, pred: spec_fn(EscrowV) -> bool, i: int)
    requires
        0 <= i < s.len(),
    ensures
        s.take(i + 1).filter(pred) == if pred(s[i]) {
            s.take(i).filter(pred).push(s[i])
        } else {
            s.take(i).filter(pred)
        },
{
    reveal(Seq::filter);
    assert(s.take(i + 1).drop_last() =~= s.take(i));
    assert(s.take(i + 1).last() == s[i]);
}

/// The current configuration record.
pub fn query_state_info(config: &State) -> (r: State)
    ensures
        r@ == config@,
{
    config.clone()
}

/// The escrow stored for one item, if any.
pub fn query_escrow(store: &EscrowStore, collection: String, token_id: String) -> (r:
    EscrowResponse)
    requires
        store.wf(),
    ensures
        r.escrow.deep_view() == lookup(
            store@,
            KeyV { collection: collection@, token_id: token_id@ },
        ),
{
    match store.get(&collection, &token_id) {
        Some(e) => EscrowResponse { escrow: Some(e.clone()) },
        None => EscrowResponse { escrow: None },
    }
}

/// The requested page size, clamped to the hard cap.
fn effective_limit(limit: Option<u32>) -> (l: usize)
    ensures
        l as int == page_limit(limit),
{
    let l: u32 = match limit {
        Some(v) => v,
        None => DEFAULT_QUERY_LIMIT,
    };
    let l: u32 = if l > MAX_QUERY_LIMIT {
        MAX_QUERY_LIMIT
    } else {
        l
    };
    l as usize
}

/// One page of a collection's escrows in ascending token order, strictly
/// after `start_after` (treated as the empty token when absent).
pub fn query_escrows(
    store: &EscrowStore,
    collection: String,
    start_after: Option<String>,
    limit: Option<u32>,
) -> (r: EscrowsResponse)
    requires
        store.wf(),
    ensures
        r.escrows.deep_view() == page_of(
            fwd_matches(store@, collection@, after_of(start_after)),
            page_limit(limit),
        ),
{
    let lim = effective_limit(limit);
    let after: String = match start_after {
        Some(s) => s,
        None => String::new(),
    };
    let ghost pred = in_coll_after(collection@, after@);
    let recs = store.records();
    let n = recs.len();
    let mut out: Vec<Escrow> = Vec::new();
    let mut i: usize = 0;
    while i < n
        invariant
            0 <= i <= n,
            n == recs.deep_view().len(),
            recs.deep_view() == store@,
            pred == in_coll_after(collection@, after@),
            out.deep_view() == recs.deep_view().take(i as int).filter(pred),
        decreases n - i,
    {
        let e = &recs[i];
        let ghost out0 = out.deep_view();
        proof {
            let dv = recs.deep_view();
            assert(e.deep_view() == dv[i as int]);
            lemma_filter_step(dv, pred, i as int);
        }
        if e.collection == collection && str_is_lt(after.as_str(), e.token_id.as_str()) {
            out.push(e.clone());
            proof {
                assert(out.deep_view() =~= out0.push(e.deep_view()));
            }
        }
        i = i + 1;
    }
    proof {
        assert(recs.deep_view().take(n as int) =~= recs.deep_view());
    }
    if out.len() > lim {
        let ghost full = out.deep_view();
        out.truncate(lim);
        proof {
            assert(out.deep_view() =~= full.take(lim as int));
        }
    }
    EscrowsResponse { escrows: out }
}

/// One page of a collection's escrows in descending token order,
/// strictly before `start_before`; without a cursor the scan has no
/// upper bound, so it yields the exact reverse of the ascending
/// enumeration.
pub fn reverse_query_escrows(
    store: &EscrowStore,
    collection: String,
    start_before: Option<String>,
    limit: Option<u32>,
) -> (r: EscrowsResponse)
    requires
        store.wf(),
    ensures
        r.escrows.deep_view() == page_of(
            rev_matches(store@, collection@, before_of(start_before)).reverse(),
            page_limit(limit),
        ),
{
    let lim = effective_limit(limit);
    let ghost pred = in_coll_before(collection@, before_of(start_before));
    let recs = store.records();
    let n = recs.len();
    let mut tmp: Vec<Escrow> = Vec::new();
    let mut i: usize = 0;
    while i < n
        invariant
            0 <= i <= n,
            n == recs.deep_view().len(),
            recs.deep_view() == store@,
            pred == in_coll_before(collection@, before_of(start_before)),
            tmp.deep_view() == recs.deep_view().take(i as int).filter(pred),
        decreases n - i,
    {
        let e = &recs[i];
        let ghost tmp0 = tmp.deep_view();
        proof {
            let dv = recs.deep_view();
            assert(e.deep_view() == dv[i as int]);
            lemma_filter_step(dv, pred, i as int);
        }
        let below_bound = match &start_before {
            Some(b) => str_is_lt(e.token_id.as_str(), b.as_str()),
            None => true,
        };
        if e.collection == collection && below_bound {
            tmp.push(e.clone());
            proof {
                assert(tmp.deep_view() =~= tmp0.push(e.deep_view()));
            }
        }
        i = i + 1;
    }
    proof {
        assert(recs.deep_view().take(n as int) =~= recs.deep_view());
    }
    let ghost full = tmp.deep_view();
    let mut out: Vec<Escrow> = Vec::new();
    loop
        invariant
            tmp.deep_view() == full.take(tmp.deep_view().len() as int),
            out.deep_view() == full.skip(tmp.deep_view().len() as int).reverse(),
            tmp.deep_view().len() <= full.len(),
        ensures
            out.deep_view() == full.reverse(),
        decreases tmp.deep_view().len(),
    {
        let ghost old_dv = tmp.deep_view();
        let popped = tmp.pop();
        match popped {
            None => {
                proof {
                    assert(full.skip(0) =~= full);
                }
                break;
            },
            Some(e) => {
                proof {
                    let k = old_dv.len() - 1;
                    assert(tmp.deep_view() =~= old_dv.subrange(0, k));
                    assert(old_dv.subrange(0, k) =~= full.take(k));
                    assert(e.deep_view() == old_dv[k]);
                    assert(e.deep_view() == full[k]);
                }
                let ghost out0 = out.deep_view();
                out.push(e);
                proof {
                    let k = old_dv.len() - 1;
                    assert(out.deep_view() =~= out0.push(full[k]));
                    assert(out.deep_view() =~= full.skip(k).reverse());
                }
            },
        }
    }
    if out.len() > lim {
        let ghost rev_full = out.deep_view();
        out.truncate(lim);
        proof {
            assert(out.deep_view() =~= rev_full.take(lim as int));
        }
    }
    EscrowsResponse { escrows: out }
}

/// How many escrows a collection holds.
pub fn query_escrows_count(store: &EscrowStore, collection: String) -> (r: EscrowsCountResponse)
    requires
        store.wf(),
    ensures
        r.count as int == if coll_matches(store@, collection@).len() <= u32::MAX as int {
            coll_matches(store@, collection@).len() as int
        } else {
            u32::MAX as int
        },
{
    let ghost pred = in_coll(collection@);
    let recs = store.records();
    let n = recs.len();
    let mut count: usize = 0;
    let mut i: usize = 0;
    while i < n
        invariant
            0 <= i <= n,
            n == recs.deep_view().len(),
            recs.deep_view() == store@,
            pred == in_coll(collection@),
            count == recs.deep_view().take(i as int).filter(pred).len(),
            count <= i,
        decreases n - i,
    {
        let e = &recs[i];
        proof {
            let dv = recs.deep_view();
            assert(e.deep_view() == dv[i as int]);
            lemma_filter_step(dv, pred, i as int);
        }
        if e.collection == collection {
            count = count + 1;
        }
        i = i + 1;
    }
    proof {
        assert(recs.deep_view().take(n as int) =~= recs.deep_view());
    }
    let count32: u32 = if count > (u32::MAX as usize) {
        u32::MAX
    } else {
        count as u32
    };
    EscrowsCountResponse { count: count32 }
}

/// One page of a source's escrows in ascending key order, strictly after
/// the `start_after` key where one is given.
pub fn query_escrows_by_source(
    store: &EscrowStore,
    source: String,
    start_after: Option<CollectionOffset>,
    limit: Option<u32>,
) -> (r: EscrowsResponse)
    requires
        store.wf(),
    ensures
        r.escrows.deep_view() == page_of(
            source_matches(store@, source@, offset_of(start_after)),
            page_limit(limit),
        ),
{
    let lim = effective_limit(limit);
    let ghost start = offset_of(start_after);
    let ghost pred = by_source(source@, start);
    let recs = store.records();
    let n = recs.len();
    let mut out: Vec<Escrow> = Vec::new();
    let mut i: usize = 0;
    while i < n
        invariant
            0 <= i <= n,
            n == recs.deep_view().len(),
            recs.deep_view() == store@,
            pred == by_source(source@, start),
            start == offset_of(start_after),
            out.deep_view() == recs.deep_view().take(i as int).filter(pred),
        decreases n - i,
    {
        let e = &recs[i];
        let ghost out0 = out.deep_view();
        proof {
            let dv = recs.deep_view();
            assert(e.deep_view() == dv[i as int]);
            lemma_filter_step(dv, pred, i as int);
        }
        let after_start = match &start_after {
            None => true,
            Some(off) => escrow_key_gt(e, &off.collection, &off.token_id),
        };
        if e.source == source && after_start {
            out.push(e.clone());
            proof {
                assert(out.deep_view() =~= out0.push(e.deep_view()));
            }
        }
        i = i + 1;
    }
    proof {
        assert(recs.deep_view().take(n as int) =~= recs.deep_view());
    }
    if out.len() > lim {
        let ghost full = out.deep_view();
        out.truncate(lim);
        proof {
            assert(out.deep_view() =~= full.take(lim as int));
        }
    }
    EscrowsResponse { escrows: out }
}

/// One page of a recipient's escrows in ascending key order, strictly
/// after the `start_after` key where one is given.
pub fn query_escrows_by_recipient(
    store: &EscrowStore,
    recipient: String,
    start_after: Option<CollectionOffset>,
    limit: Option<u32>,
) -> (r: EscrowsResponse)
    requires
        store.wf(),
    ensures
        r.escrows.deep_view() == page_of(
            recipient_matches(store@, recipient@, offset_of(start_after)),
            page_limit(limit),
        ),
{
    let lim = effective_limit(limit);
    let ghost start = offset_of(start_after);
    let ghost pred = by_recipient(recipient@, start);
    let recs = store.records();
    let n = recs.len();
    let mut out: Vec<Escrow> = Vec::new();
    let mut i: usize = 0;
    while i < n
        invariant
            0 <= i <= n,
            n == recs.deep_view().len(),
            recs.deep_view() == store@,
            pred == by_recipient(recipient@, start),
            start == offset_of(start_after),
            out.deep_view() == recs.deep_view().take(i as int).filter(pred),
        decreases n - i,
    {
        let e = &recs[i];
        let ghost out0 = out.deep_view();
        proof {
            let dv = recs.deep_view();
            assert(e.deep_view() == dv[i as int]);
            lemma_filter_step(dv, pred, i as int);
        }
        let after_start = match &start_after {
            None => true,
            Some(off) => escrow_key_gt(e, &off.collection, &off.token_id),
        };
        if e.recipient == recipient && after_start {
            out.push(e.clone());
            proof {
                assert(out.deep_view() =~= out0.push(e.deep_view()));
            }
        }
        i = i + 1;
    }
    proof {
        assert(recs.deep_view().take(n as int) =~= recs.deep_view());
    }
    if out.len() > lim {
        let ghost full = out.deep_view();
        out.truncate(lim);
        proof {
            assert(out.deep_view() =~= full.take(lim as int));
        }
    }
    EscrowsResponse { escrows: out }
}

/// Dispatch of a read-only query to its engine function.
pub fn query(store: &EscrowStore, config: &State, msg: QueryMsg) -> (r: QueryAnswer)
    requires
        store.wf(),
    ensures
        match msg {
            QueryMsg::GetStateInfo {} => r matches QueryAnswer::StateInfo(s) && s@ == config@,
            QueryMsg::Escrow { collection, token_id } => r matches QueryAnswer::Escrow(resp)
                && resp.escrow.deep_view() == lookup(
                store@,
                KeyV { collection: collection@, token_id: token_id@ },
            ),
            QueryMsg::Escrows { collection, start_after, limit } => r matches QueryAnswer::Escrows(
                resp,
            ) && resp.escrows.deep_view() == page_of(
                fwd_matches(store@, collection@, after_of(start_after)),
                page_limit(limit),
            ),
            QueryMsg::ReverseEscrows { collection, start_before, limit } => r matches
                QueryAnswer::Escrows(resp) && resp.escrows.deep_view() == page_of(
                rev_matches(store@, collection@, before_of(start_before)).reverse(),
                page_limit(limit),
            ),
            QueryMsg::EscrowsCount { collection } => r matches QueryAnswer::Count(resp)
                && resp.count as int == (if coll_matches(store@, collection@).len() <= u32::MAX
                as int {
                coll_matches(store@, collection@).len() as int
            } else {
                u32::MAX as int
            }),
            QueryMsg::EscrowsBySource { source, start_after, limit } => r matches
                QueryAnswer::Escrows(resp) && resp.escrows.deep_view() == page_of(
                source_matches(store@, source@, offset_of(start_after)),
                page_limit(limit),
            ),
            QueryMsg::EscrowsByRecipient { recipient, start_after, limit } => r matches
                QueryAnswer::Escrows(resp) && resp.escrows.deep_view() == page_of(
                recipient_matches(store@, recipient@, offset_of(start_after)),
                page_limit(limit),
            ),
        },
{
    match msg {
        QueryMsg::GetStateInfo {} => QueryAnswer::StateInfo(query_state_info(config)),
        QueryMsg::Escrow { collection, token_id } => QueryAnswer::Escrow(
            query_escrow(store, collection, token_id),
        ),
        QueryMsg::Escrows { collection, start_after, limit } => QueryAnswer::Escrows(
            query_escrows(store, collection, start_after, limit),
        ),
        QueryMsg::ReverseEscrows { collection, start_before, limit } => QueryAnswer::Escrows(
            reverse_query_escrows(store, collection, start_before, limit),
        ),
        QueryMsg::EscrowsCount { collection } => QueryAnswer::Count(
            query_escrows_count(store, collection),
        ),
        QueryMsg::EscrowsBySource { source, start_after, limit } => QueryAnswer::Escrows(
            query_escrows_by_source(store, source, start_after, limit),
        ),
        QueryMsg::EscrowsByRecipient { recipient, start_after, limit } => QueryAnswer::Escrows(
            query_escrows_by_recipient(store, recipient, start_after, limit),
        ),
    }
}

} // verus!
