use kvcache::remote::interpret_reply;
use kvcache::{CacheError, RedisCache};

#[test]
fn reply_failure_is_internal_error() {
    let r = interpret_reply::<i64>(Err(String::from("connection reset")));
    match r {
        Err(CacheError::InternalError(m)) => assert_eq!(m, "connection reset"),
        other => panic!("expected an internal error, got {other:?}"),
    }
}

#[test]
fn reply_absence_is_none_not_error() {
    assert_eq!(interpret_reply::<i64>(Ok(None)).unwrap(), None);
    assert_eq!(interpret_reply::<String>(Ok(None)).unwrap(), None);
}

#[test]
fn reply_bytes_decode_at_requested_type() {
    let r = interpret_reply::<i64>(Ok(Some(b"42".to_vec())));
    assert_eq!(r.unwrap(), Some(42));
    let r = interpret_reply::<String>(Ok(Some(b"\"hi\"".to_vec())));
    assert_eq!(r.unwrap(), Some(String::from("hi")));
    let r = interpret_reply::<bool>(Ok(Some(b"true".to_vec())));
    assert_eq!(r.unwrap(), Some(true));
}

#[test]
fn reply_mismatch_is_serde_error_not_absence() {
    let r = interpret_reply::<bool>(Ok(Some(b"42".to_vec())));
    assert!(matches!(r, Err(CacheError::SerDeError(_))));
    let r = interpret_reply::<i64>(Ok(Some(b"\"hi\"".to_vec())));
    assert!(matches!(r, Err(CacheError::SerDeError(_))));
}

#[test]
fn malformed_url_is_internal_error() {
    let r = RedisCache::new("this is not a valid connection url");
    assert!(matches!(r, Err(CacheError::InternalError(_))));
}
