use server_scaffold::key::IdempotencyKey;

#[test]
fn accepts_lengths_one_through_forty_nine() {
    for len in 1..=49usize {
        let s = "a".repeat(len);
        assert!(IdempotencyKey::try_from(s).is_ok(), "length {} should be accepted", len);
    }
}

#[test]
fn rejects_empty_key() {
    assert!(IdempotencyKey::try_from(String::new()).is_err());
}

#[test]
fn rejects_keys_of_fifty_bytes_or_more() {
    assert!(IdempotencyKey::try_from("a".repeat(50)).is_err());
    assert!(IdempotencyKey::try_from("a".repeat(51)).is_err());
}

#[test]
fn length_is_counted_in_bytes_not_characters() {
    // 25 two-byte characters: 25 characters but 50 bytes, so rejected.
    let wide = "é".repeat(25);
    assert_eq!(wide.len(), 50);
    assert!(IdempotencyKey::try_from(wide).is_err());
    // 24 two-byte characters plus one ASCII byte: 49 bytes, accepted.
    let mut ok = "é".repeat(24);
    ok.push('x');
    assert_eq!(ok.len(), 49);
    assert!(IdempotencyKey::try_from(ok).is_ok());
}

#[test]
fn key_preserves_the_exact_string() {
    let key = IdempotencyKey::try_from("MiXeD cAsE  key".to_string()).unwrap();
    assert_eq!(key.as_ref(), "MiXeD cAsE  key");
    assert_eq!(key.into_string(), "MiXeD cAsE  key");
}
