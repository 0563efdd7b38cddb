use channel_cycle::payment::{keysend_payment, new_keysend_payment, KEYSEND_RECORD_TYPE, PAYMENT_TIMEOUT_SECONDS};

fn hex32(s: &str) -> [u8; 32] {
    let mut out = [0u8; 32];
    for i in 0..32 {
        out[i] = u8::from_str_radix(&s[2 * i..2 * i + 2], 16).unwrap();
    }
    out
}

#[test]
fn hash_is_sha256_of_preimage() {
    let p = keysend_payment(vec![2, 3], 1000000, [0u8; 32]);
    assert_eq!(p.payment_hash, hex32("66687aadf862bd776c8fc18b8e9f8e20089714856ee233b3902a591d0d5f2925"));
    let p = keysend_payment(vec![2, 3], 1000000, [7u8; 32]);
    assert_eq!(p.payment_hash, hex32("4bb06f8e4e3a7715d201d573d0aa423762e55dabd61a2c02278fa56cc6d294e0"));
    assert_eq!(p.preimage, [7u8; 32]);
}

#[test]
fn payment_carries_fixed_terms() {
    let p = keysend_payment(vec![9, 9, 9], 1234, [1u8; 32]);
    assert_eq!(p.dest, vec![9, 9, 9]);
    assert_eq!(p.amt, 1234);
    assert_eq!(p.record_type, 5482373484);
    assert_eq!(p.record_type, KEYSEND_RECORD_TYPE);
    assert_eq!(p.timeout_seconds, 10);
    assert_eq!(p.timeout_seconds, PAYMENT_TIMEOUT_SECONDS);
    assert_eq!(p.fee_limit_msat, i64::MAX);
}

#[test]
fn fresh_preimage_hash_matches_digest() {
    let p = new_keysend_payment(vec![4], 500);
    let again = keysend_payment(vec![4], 500, p.preimage);
    assert_eq!(p.payment_hash, again.payment_hash);
    assert_eq!(p.payment_hash.len(), 32);
    assert_ne!(p.payment_hash, p.preimage);
    let q = new_keysend_payment(vec![4], 500);
    assert_ne!(p.preimage, q.preimage);
}
