use sha3::Digest;
use zbx_chain::common::Address;
use zbx_chain::payment::converter::{PriceFeed, PriceQuote, ONE_TOKEN};
use zbx_chain::payment::merchant::{Merchant, MerchantRegistry};
use zbx_chain::payment::webhook::WebhookDelivery;
use zbx_chain::table::Table;

fn addr(b: u8) -> Address {
    Address([b; 20])
}

fn quote(i: u8, o: u8, rate: u128) -> PriceQuote {
    PriceQuote { input_token: addr(i), output_token: addr(o), rate, timestamp: 1_700_000_000 }
}

#[test]
fn converter_estimates_both_ways() {
    let mut feed = PriceFeed::new();
    assert_eq!(feed.estimate_input(addr(1), addr(2), 100), None);
    // 1 input token buys 2.5 output tokens.
    feed.update(quote(1, 2, 2_500_000_000_000_000_000));
    assert_eq!(feed.estimate_output(addr(1), addr(2), ONE_TOKEN), Some(2_500_000_000_000_000_000));
    assert_eq!(feed.estimate_input(addr(1), addr(2), 5_000_000_000_000_000_000), Some(2 * ONE_TOKEN));
    // Rounds down.
    assert_eq!(feed.estimate_output(addr(1), addr(2), 3), Some(7));
    // Only the direction that was quoted.
    assert_eq!(feed.estimate_input(addr(2), addr(1), 100), None);
}

#[test]
fn converter_rejects_zero_rate_and_overflow() {
    let mut feed = PriceFeed::default();
    feed.update(quote(3, 4, 0));
    assert_eq!(feed.estimate_input(addr(3), addr(4), 10), None);
    assert_eq!(feed.estimate_output(addr(3), addr(4), 10), Some(0));
    feed.update(quote(3, 4, 2));
    assert_eq!(feed.estimate_input(addr(3), addr(4), u128::MAX), None);
    assert_eq!(feed.estimate_output(addr(3), addr(4), u128::MAX), None);
    // A later quote for the same pair replaces the earlier one.
    feed.update(quote(3, 4, ONE_TOKEN));
    assert_eq!(feed.estimate_input(addr(3), addr(4), 42), Some(42));
}

#[test]
fn converter_compute_fee() {
    assert_eq!(PriceFeed::compute_fee(1_000_000, 30), 3_000);
    assert_eq!(PriceFeed::compute_fee(333, 30), 0);
    assert_eq!(PriceFeed::compute_fee(10_000, 10_000), 10_000);
}

fn merchant(id: u8, owner: u8, name: &str) -> Merchant {
    Merchant {
        merchant_id: [id; 32],
        owner: addr(owner),
        name: name.to_string(),
        payout_address: addr(owner),
        active: true,
        lifetime_volume: Table::new(),
    }
}

#[test]
fn merchants_by_owner_in_insertion_order() {
    let mut reg = MerchantRegistry::new();
    reg.insert(merchant(1, 9, "tea"));
    reg.insert(merchant(2, 8, "books"));
    reg.insert(merchant(3, 9, "coffee"));
    let names: Vec<&str> = reg.by_owner(&addr(9)).iter().map(|m| m.name.as_str()).collect();
    assert_eq!(names, vec!["tea", "coffee"]);
    assert_eq!(reg.by_owner(&addr(8)).len(), 1);
    assert!(reg.by_owner(&addr(7)).is_empty());
    assert_eq!(reg.get(&[2; 32]).map(|m| m.name.as_str()), Some("books"));
    assert!(reg.get(&[4; 32]).is_none());
}

#[test]
fn merchants_reinsert_replaces_record() {
    let mut reg = MerchantRegistry::default();
    reg.insert(merchant(1, 9, "tea"));
    reg.insert(merchant(1, 9, "green tea"));
    // The owner's list holds the id twice; both resolve to the new record.
    let names: Vec<&str> = reg.by_owner(&addr(9)).iter().map(|m| m.name.as_str()).collect();
    assert_eq!(names, vec!["green tea", "green tea"]);
}

#[test]
fn merchants_record_payment_accumulates() {
    let mut reg = MerchantRegistry::new();
    reg.insert(merchant(1, 9, "tea"));
    reg.record_payment(&[1; 32], addr(50), 100);
    reg.record_payment(&[1; 32], addr(50), 25);
    reg.record_payment(&[1; 32], addr(51), 7);
    reg.record_payment(&[2; 32], addr(50), 1_000);
    let m = reg.get(&[1; 32]).unwrap();
    assert_eq!(m.lifetime_volume.get(&addr(50)), Some(&125));
    assert_eq!(m.lifetime_volume.get(&addr(51)), Some(&7));
    assert!(reg.get(&[2; 32]).is_none());
}

#[test]
fn merchants_get_mut_edits_in_place() {
    let mut reg = MerchantRegistry::new();
    reg.insert(merchant(1, 9, "tea"));
    if let Some(m) = reg.get_mut(&[1; 32]) {
        m.active = false;
    }
    assert!(!reg.get(&[1; 32]).unwrap().active);
    assert!(reg.get_mut(&[5; 32]).is_none());
}

fn keccak(data: &[u8]) -> Vec<u8> {
    sha3::Keccak256::digest(data).to_vec()
}

#[test]
fn webhook_signature_is_keccak_of_secret_and_body() {
    let d = WebhookDelivery::new("https://shop.example/hook".to_string(), b"s3cret".to_vec());
    let body = br#"{"chain_id":8989}"#;
    let sig = d.sign(body);
    let mut joined = b"s3cret".to_vec();
    joined.extend_from_slice(body);
    assert_eq!(sig, keccak(&joined));
    assert_eq!(sig.len(), 32);
    assert_ne!(sig, body.to_vec());
}

#[test]
fn webhook_request_carries_body_and_hex_signature() {
    let d = WebhookDelivery::new("https://shop.example/hook".to_string(), vec![1, 2, 3]);
    let body = b"payload".to_vec();
    let (out, sig) = d.build_request(body.clone());
    assert_eq!(out, body);
    assert_eq!(sig, hex::encode(d.sign(&body)));
    assert_eq!(sig.len(), 64);
    assert!(sig.chars().all(|c| c.is_ascii_hexdigit() && !c.is_ascii_uppercase()));
}
