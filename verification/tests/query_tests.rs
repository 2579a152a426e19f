use nft_escrow::contract::execute_receive_nft;
use nft_escrow::msg::{
    CollectionOffset, Env, EscrowInfoMsg, MessageInfo, QueryAnswer, QueryMsg, ReceiveNftMsg,
};
use nft_escrow::query::{
    query, query_escrow, query_escrows, query_escrows_count, reverse_query_escrows,
};
use nft_escrow::state::{escrow_key, State};
use nft_escrow::store::{escrows, EscrowStore};

const NOW: u64 = 1_000_000;

fn env_now() -> Env {
    Env { block_time: NOW }
}

fn deposit(store: &mut EscrowStore, collection: &str, token_id: &str) {
    let info = MessageInfo {
        sender: collection.to_string(),
        funds: vec![],
    };
    execute_receive_nft(
        store,
        &env_now(),
        &info,
        ReceiveNftMsg {
            sender: "S1".to_string(),
            token_id: token_id.to_string(),
            msg: EscrowInfoMsg {
                recipient: "R1".to_string(),
                price: 10,
                expiration: NOW + 300,
            },
        },
    )
    .unwrap();
}

fn token_ids(r: &nft_escrow::msg::EscrowsResponse) -> Vec<String> {
    r.escrows.iter().map(|e| e.token_id.clone()).collect()
}

#[test]
fn escrow_key_copies_both_parts() {
    let k = escrow_key(&"C1".to_string(), &"T1".to_string());
    assert_eq!(k.0, "C1");
    assert_eq!(k.1, "T1");
}

#[test]
fn pagination_is_ordered_with_no_overlap_and_no_gap() {
    let mut store = escrows();
    // deposited out of order; scans come back in ascending token order
    deposit(&mut store, "coll", "t3");
    deposit(&mut store, "coll", "t1");
    deposit(&mut store, "coll", "t4");
    deposit(&mut store, "coll", "t2");
    deposit(&mut store, "other", "t0");

    let page1 = query_escrows(&store, "coll".to_string(), None, Some(2));
    assert_eq!(token_ids(&page1), vec!["t1".to_string(), "t2".to_string()]);

    let cursor = page1.escrows.last().unwrap().token_id.clone();
    let page2 = query_escrows(&store, "coll".to_string(), Some(cursor), Some(2));
    assert_eq!(token_ids(&page2), vec!["t3".to_string(), "t4".to_string()]);

    let page3 = query_escrows(&store, "coll".to_string(), Some("t4".to_string()), Some(2));
    assert!(page3.escrows.is_empty());
}

#[test]
fn reverse_scan_is_exact_reverse_of_forward_scan() {
    let mut store = escrows();
    deposit(&mut store, "coll", "t2");
    deposit(&mut store, "coll", "t1");
    deposit(&mut store, "coll", "t3");

    let forward = query_escrows(&store, "coll".to_string(), None, Some(30));
    assert_eq!(
        token_ids(&forward),
        vec!["t1".to_string(), "t2".to_string(), "t3".to_string()]
    );

    let backward =
        reverse_query_escrows(&store, "coll".to_string(), Some("zzz".to_string()), Some(30));
    assert_eq!(
        token_ids(&backward),
        vec!["t3".to_string(), "t2".to_string(), "t1".to_string()]
    );

    let bounded =
        reverse_query_escrows(&store, "coll".to_string(), Some("t3".to_string()), Some(30));
    assert_eq!(token_ids(&bounded), vec!["t2".to_string(), "t1".to_string()]);
}

#[test]
fn reverse_scan_without_cursor_returns_full_reverse() {
    let mut store = escrows();
    deposit(&mut store, "coll", "t2");
    deposit(&mut store, "coll", "t1");
    deposit(&mut store, "coll", "t3");
    deposit(&mut store, "other", "t9");

    let r = reverse_query_escrows(&store, "coll".to_string(), None, Some(30));
    assert_eq!(
        token_ids(&r),
        vec!["t3".to_string(), "t2".to_string(), "t1".to_string()]
    );
}

#[test]
fn limit_defaults_to_ten_and_is_clamped_to_thirty() {
    let mut store = escrows();
    for i in 0..35u32 {
        deposit(&mut store, "coll", &format!("t{:02}", i));
    }
    let default_page = query_escrows(&store, "coll".to_string(), None, None);
    assert_eq!(default_page.escrows.len(), 10);

    let clamped = query_escrows(&store, "coll".to_string(), None, Some(99));
    assert_eq!(clamped.escrows.len(), 30);
}

#[test]
fn count_counts_one_collection_only() {
    let mut store = escrows();
    deposit(&mut store, "coll", "t1");
    deposit(&mut store, "coll", "t2");
    deposit(&mut store, "other", "t3");

    let r = query_escrows_count(&store, "coll".to_string());
    assert_eq!(r.count, 2);
    let r = query_escrows_count(&store, "empty".to_string());
    assert_eq!(r.count, 0);
}

#[test]
fn query_dispatch_answers_each_variant() {
    let mut store = escrows();
    deposit(&mut store, "coll", "t1");
    let config = State {
        admin: "admin".to_string(),
        denom: "ujuno".to_string(),
    };

    match query(&store, &config, QueryMsg::GetStateInfo {}) {
        QueryAnswer::StateInfo(s) => assert_eq!(s.admin, "admin"),
        _ => panic!("wrong answer variant"),
    }
    match query(
        &store,
        &config,
        QueryMsg::Escrow {
            collection: "coll".to_string(),
            token_id: "t1".to_string(),
        },
    ) {
        QueryAnswer::Escrow(r) => assert!(r.escrow.is_some()),
        _ => panic!("wrong answer variant"),
    }
    match query(
        &store,
        &config,
        QueryMsg::Escrows {
            collection: "coll".to_string(),
            start_after: None,
            limit: None,
        },
    ) {
        QueryAnswer::Escrows(r) => assert_eq!(r.escrows.len(), 1),
        _ => panic!("wrong answer variant"),
    }
    match query(
        &store,
        &config,
        QueryMsg::EscrowsCount {
            collection: "coll".to_string(),
        },
    ) {
        QueryAnswer::Count(r) => assert_eq!(r.count, 1),
        _ => panic!("wrong answer variant"),
    }
    match query(
        &store,
        &config,
        QueryMsg::EscrowsBySource {
            source: "S1".to_string(),
            start_after: None,
            limit: None,
        },
    ) {
        QueryAnswer::Escrows(r) => assert_eq!(r.escrows.len(), 1),
        _ => panic!("wrong answer variant"),
    }
    match query(
        &store,
        &config,
        QueryMsg::EscrowsByRecipient {
            recipient: "R1".to_string(),
            start_after: Some(CollectionOffset {
                collection: "coll".to_string(),
                token_id: "t1".to_string(),
            }),
            limit: None,
        },
    ) {
        QueryAnswer::Escrows(r) => assert!(r.escrows.is_empty()),
        _ => panic!("wrong answer variant"),
    }
    match query(
        &store,
        &config,
        QueryMsg::ReverseEscrows {
            collection: "coll".to_string(),
            start_before: Some("zz".to_string()),
            limit: None,
        },
    ) {
        QueryAnswer::Escrows(r) => assert_eq!(r.escrows.len(), 1),
        _ => panic!("wrong answer variant"),
    }
}

#[test]
fn source_scan_orders_across_collections() {
    let mut store = escrows();
    deposit(&mut store, "b_coll", "t1");
    deposit(&mut store, "a_coll", "t9");

    let r = query(
        &store,
        &State {
            admin: "admin".to_string(),
            denom: "ujuno".to_string(),
        },
        QueryMsg::EscrowsBySource {
            source: "S1".to_string(),
            start_after: None,
            limit: None,
        },
    );
    match r {
        QueryAnswer::Escrows(r) => {
            assert_eq!(r.escrows.len(), 2);
            assert_eq!(r.escrows[0].collection, "a_coll");
            assert_eq!(r.escrows[1].collection, "b_coll");
        }
        _ => panic!("wrong answer variant"),
    }
}

#[test]
fn get_escrow_missing_is_none() {
    let store = escrows();
    let r = query_escrow(&store, "coll".to_string(), "t1".to_string());
    assert!(r.escrow.is_none());
}
