use kvcache::in_memory::InMemoryCache;
use kvcache::value::CacheValue;
use kvcache::{Cache, CacheError, CacheTrait};

fn in_memory_cache() -> Cache {
    Cache::InMemory(InMemoryCache::new())
}

#[test]
fn round_trip_i64() {
    let mut c = in_memory_cache();
    c.insert::<i64>("answer", 42).unwrap();
    assert_eq!(c.get::<i64>("answer").unwrap(), Some(42));
}

#[test]
fn round_trip_string() {
    let mut c = in_memory_cache();
    c.insert::<String>("greeting", String::from("hello world")).unwrap();
    assert_eq!(
        c.get::<String>("greeting").unwrap(),
        Some(String::from("hello world"))
    );
}

#[test]
fn round_trip_bool() {
    let mut c = in_memory_cache();
    c.insert::<bool>("flag", true).unwrap();
    assert_eq!(c.get::<bool>("flag").unwrap(), Some(true));
    c.insert::<bool>("flag", false).unwrap();
    assert_eq!(c.get::<bool>("flag").unwrap(), Some(false));
}

#[test]
fn round_trip_edge_values() {
    let mut c = in_memory_cache();
    c.insert::<i64>("min", i64::MIN).unwrap();
    c.insert::<i64>("max", i64::MAX).unwrap();
    c.insert::<String>("empty", String::new()).unwrap();
    c.insert::<String>("", String::from("empty key")).unwrap();
    assert_eq!(c.get::<i64>("min").unwrap(), Some(i64::MIN));
    assert_eq!(c.get::<i64>("max").unwrap(), Some(i64::MAX));
    assert_eq!(c.get::<String>("empty").unwrap(), Some(String::new()));
    assert_eq!(c.get::<String>("").unwrap(), Some(String::from("empty key")));
}

#[test]
fn absent_key_is_none_not_error() {
    let mut c = in_memory_cache();
    assert_eq!(c.get::<i64>("never inserted").unwrap(), None);
}

#[test]
fn removed_key_is_none_not_error() {
    let mut c = in_memory_cache();
    c.insert::<i64>("k", 7).unwrap();
    c.remove("k").unwrap();
    assert_eq!(c.get::<i64>("k").unwrap(), None);
}

#[test]
fn removal_is_idempotent() {
    let mut c = in_memory_cache();
    c.insert::<i64>("k", 7).unwrap();
    assert!(c.remove("k").is_ok());
    assert!(c.remove("k").is_ok());
    assert!(c.remove("was never there").is_ok());
    assert!(c.remove("was never there").is_ok());
}

#[test]
fn overwrite_returns_second_value() {
    let mut c = in_memory_cache();
    c.insert::<i64>("k", 1).unwrap();
    c.insert::<i64>("k", 2).unwrap();
    assert_eq!(c.get::<i64>("k").unwrap(), Some(2));
}

#[test]
fn type_mismatch_i64_read_as_string() {
    let mut c = in_memory_cache();
    c.insert::<i64>("k", 42).unwrap();
    let r = c.get::<String>("k");
    assert!(matches!(r, Err(CacheError::SerDeError(_))));
}

#[test]
fn type_mismatch_string_read_as_i64() {
    let mut c = in_memory_cache();
    c.insert::<String>("k", String::from("forty-two")).unwrap();
    let r = c.get::<i64>("k");
    assert!(matches!(r, Err(CacheError::SerDeError(_))));
}

#[test]
fn type_mismatch_bool_read_as_i64() {
    let mut c = in_memory_cache();
    c.insert::<bool>("k", true).unwrap();
    let r = c.get::<i64>("k");
    assert!(matches!(r, Err(CacheError::SerDeError(_))));
}

#[test]
fn mismatch_is_not_reported_as_absent() {
    let mut c = in_memory_cache();
    c.insert::<bool>("k", false).unwrap();
    match c.get::<String>("k") {
        Ok(v) => panic!("a type mismatch must not yield {v:?}"),
        Err(CacheError::SerDeError(_)) => {}
        Err(CacheError::InternalError(m)) => panic!("wrong error category: {m}"),
    }
}

#[test]
fn distinct_keys_no_lost_writes() {
    let mut c = in_memory_cache();
    let keys: Vec<String> = (0..25).map(|i| format!("key-{i}")).collect();
    for (i, k) in keys.iter().enumerate() {
        c.insert::<i64>(k, i as i64).unwrap();
    }
    for (i, k) in keys.iter().enumerate() {
        assert_eq!(c.get::<i64>(k).unwrap(), Some(i as i64));
    }
}

#[test]
fn stored_bytes_are_json() {
    let mut im = InMemoryCache::new();
    let mut c = Cache::InMemory(im);
    c.insert::<i64>("n", 42).unwrap();
    c.insert::<String>("s", String::from("hi")).unwrap();
    c.insert::<bool>("b", true).unwrap();
    let Cache::InMemory(inner) = c else {
        panic!("variant changed")
    };
    im = inner;
    assert_eq!(im.get_bytes("n").cloned(), Some(b"42".to_vec()));
    assert_eq!(im.get_bytes("s").cloned(), Some(b"\"hi\"".to_vec()));
    assert_eq!(im.get_bytes("b").cloned(), Some(b"true".to_vec()));
    assert_eq!(im.get_bytes("missing"), None);
}

#[test]
fn byte_level_insert_and_remove() {
    let mut im = InMemoryCache::new();
    im.insert_bytes("k", vec![1, 2, 3]);
    assert_eq!(im.get_bytes("k").cloned(), Some(vec![1, 2, 3]));
    im.insert_bytes("k", vec![9]);
    assert_eq!(im.get_bytes("k").cloned(), Some(vec![9]));
    im.remove_bytes("k");
    assert_eq!(im.get_bytes("k"), None);
}

#[test]
fn encode_decode_direct() {
    let bytes = 7i64.encode().unwrap();
    assert_eq!(bytes, b"7".to_vec());
    assert_eq!(<i64 as CacheValue>::decode(&bytes).unwrap(), 7);
    let garbled = b"[1, 2]".to_vec();
    assert!(matches!(
        <i64 as CacheValue>::decode(&garbled),
        Err(CacheError::SerDeError(_))
    ));
}
