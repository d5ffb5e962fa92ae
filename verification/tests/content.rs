use zbx_chain::pool::content_api::{build_pool_content, inspect_line, pool_inspect, pool_status, TxSummary};

fn tx(from: &str, nonce: u64, value: &str) -> TxSummary {
    TxSummary {
        hash: format!("0x{nonce:064x}"),
        from: from.to_string(),
        to: Some("0xdead".to_string()),
        value: value.to_string(),
        gas: 21_000,
        max_fee_per_gas: "100".to_string(),
        max_priority_fee: "2".to_string(),
        nonce,
        data_size: 0,
        received_at: 1_700_000_000,
    }
}

#[test]
fn content_groups_by_sender_and_nonce() {
    let pending = vec![
        ("0xaa".to_string(), 0, tx("0xaa", 0, "1")),
        ("0xbb".to_string(), 5, tx("0xbb", 5, "2")),
        ("0xaa".to_string(), 1, tx("0xaa", 1, "3")),
        // A later entry for the same sender and nonce replaces the earlier one.
        ("0xaa".to_string(), 0, tx("0xaa", 0, "4")),
    ];
    let queued = vec![("0xcc".to_string(), 9, tx("0xcc", 9, "5"))];
    let c = build_pool_content(&pending, &queued);
    assert_eq!(c.pending.len(), 2);
    assert_eq!(c.pending[0].0, "0xaa");
    assert_eq!(c.pending[0].1.len(), 2);
    assert_eq!(c.pending[0].1.get(&0).unwrap().value, "4");
    assert_eq!(c.pending[0].1.get(&1).unwrap().value, "3");
    assert_eq!(c.pending[1].0, "0xbb");
    assert!(c.pending[1].1.get(&0).is_none());
    assert_eq!(c.queued.len(), 1);
    let s = pool_status(&c);
    assert_eq!(s.pending, 3);
    assert_eq!(s.queued, 1);
}

#[test]
fn content_of_an_empty_pool() {
    let c = build_pool_content(&[], &[]);
    assert!(c.pending.is_empty() && c.queued.is_empty());
    let s = pool_status(&c);
    assert_eq!((s.pending, s.queued), (0, 0));
}

#[test]
fn inspect_lines_describe_each_pending_tx() {
    let mut creation = tx("0xaa", 1, "0");
    creation.to = None;
    creation.gas = 1_234_567;
    let pending = vec![
        ("0xaa".to_string(), 0, tx("0xaa", 0, "1000")),
        ("0xaa".to_string(), 1, creation),
    ];
    let c = build_pool_content(&pending, &[]);
    let lines = pool_inspect(&c);
    assert_eq!(lines.len(), 1);
    assert_eq!(lines[0].0, "0xaa");
    assert_eq!(lines[0].1.get(&0).unwrap(), "0xdead: 1000 wei + 21000 gas * 100 wei/gas");
    assert_eq!(lines[0].1.get(&1).unwrap(), "contract_creation: 0 wei + 1234567 gas * 100 wei/gas");
    assert_eq!(inspect_line(&tx("0xbb", 3, "7")), "0xdead: 7 wei + 21000 gas * 100 wei/gas");
}
