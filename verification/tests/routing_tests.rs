use sharded_kv::hash;
use sharded_kv::route;

#[test]
fn hash_of_empty_key_is_offset_basis() {
    assert_eq!(hash(&Vec::new()), 0xcbf29ce484222325);
}

#[test]
fn hash_of_one_byte() {
    assert_eq!(hash(&b"a".to_vec()), 0xaf63dc4c8601ec8c);
}

#[test]
fn hash_of_hello() {
    assert_eq!(hash(&b"hello".to_vec()), 0xa430d84680aabd0b);
}

#[test]
fn route_is_deterministic() {
    let key = b"hello".to_vec();
    let first = route(&key, 10);
    for _ in 0..100 {
        assert_eq!(route(&key, 10), first);
    }
    let copy = b"hello".to_vec();
    assert_eq!(route(&copy, 10), first);
}

#[test]
fn route_expected_indices() {
    assert_eq!(route(&b"hello".to_vec(), 10), 1);
    assert_eq!(route(&b"foo".to_vec(), 10), 7);
}

#[test]
fn route_stays_in_range() {
    for n in 1..40usize {
        for key in [&b""[..], b"a", b"hello", b"foo", b"missing-key"] {
            assert!(route(&key.to_vec(), n) < n);
        }
    }
}
