//! Cryptography and timestamp tests.

use zorv::common::crypto::{
    gen_nonce, hmac_sha256, now_millis, verify_timestamp, verify_timestamp_at, TIMESTAMP_WINDOW_SECS,
};

#[test]
fn hmac_known_vector() {
    let key = [0x0bu8; 20];
    let msg = b"Hi There";
    let mac = hmac_sha256(&key, msg);
    assert_eq!(mac.len(), 32);
    let expected_first = 0xb0u8;
    assert_eq!(mac[0], expected_first);
}

#[test]
fn timestamp_window_accepts_now() {
    let now = now_millis();
    assert!(verify_timestamp(now, TIMESTAMP_WINDOW_SECS));
}

#[test]
fn timestamp_window_rejects_old() {
    let old = now_millis().saturating_sub(60_000);
    assert!(!verify_timestamp(old, TIMESTAMP_WINDOW_SECS));
}

#[test]
fn nonce_unique() {
    let a = gen_nonce();
    let b = gen_nonce();
    assert_ne!(a, b);
    assert_eq!(a.len(), 36);
}

#[test]
fn timestamp_window_edges() {
    let now = 1_000_000u64;
    assert!(verify_timestamp_at(now - 30_000, 30, now));
    assert!(verify_timestamp_at(now + 30_000, 30, now));
    assert!(!verify_timestamp_at(now - 30_001, 30, now));
    assert!(!verify_timestamp_at(now + 30_001, 30, now));
    assert!(verify_timestamp_at(0, u64::MAX, u64::MAX));
}

#[test]
fn hmac_full_known_vector() {
    let mac = hmac_sha256(&[0x0bu8; 20], b"Hi There");
    let expected: [u8; 32] = [
        0xb0, 0x34, 0x4c, 0x61, 0xd8, 0xdb, 0x38, 0x53, 0x5c, 0xa8, 0xaf, 0xce, 0xaf, 0x0b, 0xf1,
        0x2b, 0x88, 0x1d, 0xc2, 0x00, 0xc9, 0x83, 0x3d, 0xa7, 0x26, 0xe9, 0x37, 0x6c, 0x2e, 0x32,
        0xcf, 0xf7,
    ];
    assert_eq!(mac, expected.to_vec());
}

#[test]
fn nonce_is_a_lowercase_v4_uuid() {
    for _ in 0..50 {
        let n = gen_nonce();
        let c: Vec<char> = n.chars().collect();
        assert_eq!(c.len(), 36);
        for (i, ch) in c.iter().enumerate() {
            if [8, 13, 18, 23].contains(&i) {
                assert_eq!(*ch, '-');
            } else {
                assert!(ch.is_ascii_digit() || ('a'..='f').contains(ch), "{n}");
            }
        }
        assert_eq!(c[14], '4');
        assert!(['8', '9', 'a', 'b'].contains(&c[19]));
    }
}
