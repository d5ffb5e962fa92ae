//! Webhook payloads for the payment gateway's on-chain events, and their
//! signing: the signature is keccak-256 over the secret followed by the
//! serialised body, sent as hex.

use vstd::prelude::*;
use crate::crypto::{keccak256, keccak256_spec, push_all};
use crate::pq::hex::{hex_encode, hex_spec};

verus! {

/// An event delivered to a merchant endpoint.
#[derive(Debug, Clone)]
pub struct WebhookEvent {
    pub event_type: WebhookEventType,
    /// 8989 on mainnet, 8990 on testnet.
    pub chain_id: u64,
    pub block_number: u64,
    pub tx_hash: String,
    pub payload: WebhookPayload,
    /// Unix time of the delivery attempt.
    pub delivered_at: u64,
}

/// The kind of on-chain event.
#[derive(Debug, Clone, Copy, PartialEq, Eq, Structural)]
pub enum WebhookEventType {
    InvoiceCreated,
    InvoicePaid,
    InvoiceCancelled,
    Refunded,
    MerchantRegistered,
    MerchantWithdrawal,
}

/// The payload of each kind of event.
#[derive(Debug, Clone)]
pub enum WebhookPayload {
    InvoiceCreated(InvoiceCreatedPayload),
    InvoicePaid(InvoicePaidPayload),
    InvoiceCancelled(InvoiceCancelledPayload),
    Refunded(RefundedPayload),
    MerchantRegistered(MerchantRegisteredPayload),
    MerchantWithdrawal(MerchantWithdrawalPayload),
}

#[derive(Debug, Clone)]
pub struct InvoiceCreatedPayload {
    pub invoice_id: String,
    pub merchant_id: String,
    pub order_id: String,
    pub token: String,
    pub amount: String,
    pub expires_at: u64,
}

#[derive(Debug, Clone)]
pub struct InvoicePaidPayload {
    pub invoice_id: String,
    pub merchant_id: String,
    pub payer: String,
    pub input_token: String,
    pub input_amount: String,
    pub amount_paid: String,
    pub fee: String,
    /// Whether the invoice is now fully paid.
    pub fully_paid: bool,
}

#[derive(Debug, Clone)]
pub struct InvoiceCancelledPayload {
    pub invoice_id: String,
    pub merchant_id: String,
}

#[derive(Debug, Clone)]
pub struct RefundedPayload {
    pub invoice_id: String,
    pub payer: String,
    pub amount: String,
}

#[derive(Debug, Clone)]
pub struct MerchantRegisteredPayload {
    pub merchant_id: String,
    pub owner: String,
    pub name: String,
    pub payout_address: String,
}

#[derive(Debug, Clone)]
pub struct MerchantWithdrawalPayload {
    pub merchant_id: String,
    pub token: String,
    pub amount: String,
    pub payout_to: String,
}

/// A merchant endpoint and the secret its webhooks are signed with.
#[derive(Debug)]
pub struct WebhookDelivery {
    pub url: String,
    pub secret: Vec<u8>,
}

/// The signature of `body` under `secret`.
pub open spec fn signature_of(secret: Seq<u8>, body: Seq<u8>) -> Seq<u8> {
    keccak256_spec(secret + body)
}

impl WebhookDelivery {
    pub fn new(url: String, secret: Vec<u8>) -> (r: Self)
        ensures
            r.url == url,
            r.secret == secret,
    {
        WebhookDelivery { url, secret }
    }

    /// keccak-256 of the secret followed by `body`.
    pub fn sign(&self, body: &[u8]) -> (r: Vec<u8>)
        ensures
            r@ == signature_of(self.secret@, body@),
    {
        let mut data: Vec<u8> = Vec::new();
        push_all(&mut data, self.secret.as_slice());
        push_all(&mut data, body);
        let digest = keccak256(data.as_slice());
        let mut out: Vec<u8> = Vec::new();
        push_all(&mut out, &digest);
        proof {
            assert(out@ =~= digest@);
        }
        out
    }

    /// The request for an event whose serialised JSON is `body`: the body
    /// itself and its signature in hex.
    pub fn build_request(&self, body: Vec<u8>) -> (r: (Vec<u8>, String))
        ensures
            r.0@ == body@,
            r.1@ == hex_spec(signature_of(self.secret@, body@)),
    {
        let sig = self.sign(body.as_slice());
        let text = hex_encode(sig.as_slice());
        (body, text)
    }
}

} // verus!
