//! Spontaneous ("keysend") payments: the sender picks the preimage, ships
//! it inside the payment, and commits to its digest as the payment hash.

use vstd::prelude::*;

verus! {

/// Custom record type under which a spontaneous payment carries its preimage.
pub const KEYSEND_RECORD_TYPE: u64 = 5482373484;

/// Seconds the sending node may spend trying to route the payment.
pub const PAYMENT_TIMEOUT_SECONDS: i32 = 10;

/// The SHA-256 digest of a byte string.
pub uninterp spec fn sha256_of(data: Seq<u8>) -> Seq<u8>;

/// Relies on hashes::sha2::sha256::hash (with `Digest::into_bytes`): the
/// 32-byte SHA-256 digest of the input, which depends on the input alone.
#[verifier::external_body]
fn sha256_digest(data: &[u8]) -> (r: [u8; 32])
    ensures
        r@ == sha256_of(data@),
{
    hashes::sha2::sha256::hash(data).into_bytes()
}

/// Relies on rand::random: 32 bytes from the thread-local generator, of
/// which nothing is promised.
#[verifier::external_body]
fn random_preimage() -> (r: [u8; 32]) {
    rand::random()
}

/// What the sending node is asked to pay.
#[derive(Debug)]
pub struct KeysendPayment {
    pub dest: Vec<u8>,
    pub amt: i64,
    /// Shipped to the destination under `record_type`.
    pub preimage: [u8; 32],
    pub payment_hash: [u8; 32],
    pub record_type: u64,
    pub timeout_seconds: i32,
    /// No ceiling: routing fees are not bounded.
    pub fee_limit_msat: i64,
}

/// The payment of `amt` to `dest` that commits to `preimage`.
pub open spec fn keysend_spec(dest: Seq<u8>, amt: i64, preimage: Seq<u8>, p: KeysendPayment) -> bool {
    &&& p.dest@ == dest
    &&& p.amt == amt
    &&& p.preimage@ == preimage
    &&& p.payment_hash@ == sha256_of(preimage)
    &&& p.payment_hash@.len() == 32
    &&& p.record_type == KEYSEND_RECORD_TYPE
    &&& p.timeout_seconds == PAYMENT_TIMEOUT_SECONDS
    &&& p.fee_limit_msat == i64::MAX
}

/// Builds the spontaneous payment of `amt` to `dest` around a chosen
/// preimage, its hash being the preimage's digest.
pub fn keysend_payment(dest: Vec<u8>, amt: i64, preimage: [u8; 32]) -> (r: KeysendPayment)
    ensures
        keysend_spec(dest@, amt, preimage@, r),
{
    let payment_hash = sha256_digest(&preimage);
    KeysendPayment {
        dest,
        amt,
        preimage,
        payment_hash,
        record_type: KEYSEND_RECORD_TYPE,
        timeout_seconds: PAYMENT_TIMEOUT_SECONDS,
        fee_limit_msat: i64::MAX,
    }
}

/// Builds the spontaneous payment of `amt` to `dest` around a fresh random
/// preimage.
pub fn new_keysend_payment(dest: Vec<u8>, amt: i64) -> (r: KeysendPayment)
    ensures
        keysend_spec(dest@, amt, r.preimage@, r),
{
    let preimage = random_preimage();
    keysend_payment(dest, amt, preimage)
}

} // verus!
