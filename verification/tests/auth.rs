use phm_worker::auth::{AuthInterceptor, AUTHENTICATION_KEY, METADATA_ROOM};
use tonic::metadata::{MetadataKey, MetadataMap, MetadataValue};

/// The most names that a map can hold.
const FULL: usize = 24_576;

fn sent(authentication: &str) -> Option<Vec<u8>> {
    let mut map = MetadataMap::new();
    map.insert("other", MetadataValue::from_static("kept"));
    assert!(AuthInterceptor::new(authentication.to_string()).call(&mut map));
    assert_eq!(map.get("other").unwrap().as_bytes(), b"kept");
    assert_eq!(map.keys_len(), if map.contains_key("authentication") { 2 } else { 1 });
    map.get("authentication").map(|value| value.as_bytes().to_vec())
}

fn filled(n: usize) -> MetadataMap {
    let mut map = MetadataMap::new();
    for i in 0..n {
        let key = MetadataKey::from_bytes(format!("k{i}").as_bytes()).unwrap();
        map.insert(key, MetadataValue::from_static("v"));
    }
    map
}

#[test]
fn authentication_is_put_into_the_headers() {
    assert_eq!(AUTHENTICATION_KEY, "authentication");
    assert_eq!(sent("token"), Some(b"token".to_vec()));
    assert_eq!(sent("a b\t~"), Some(b"a b\t~".to_vec()));
    assert_eq!(sent("é"), Some("é".as_bytes().to_vec()));
}

#[test]
fn empty_authentication_is_none() {
    assert_eq!(sent(""), None);
    let mut map = MetadataMap::new();
    assert!(AuthInterceptor::default().call(&mut map));
    assert_eq!(map.keys_len(), 0);
}

#[test]
fn authentication_that_is_no_header_value_is_left_out() {
    assert_eq!(sent("a\nb"), None);
    assert_eq!(sent("\u{7f}"), None);
    assert_eq!(sent("a\0"), None);
}

#[test]
fn authentication_replaces_all_earlier_ones() {
    let mut map = MetadataMap::new();
    map.append("authentication", MetadataValue::from_static("old"));
    map.append("authentication", MetadataValue::from_static("older"));
    let auth = AuthInterceptor::new("new".to_string());
    assert!(auth.call(&mut map));
    assert!(auth.call(&mut map));
    let values: Vec<&[u8]> = map
        .get_all("authentication")
        .iter()
        .map(|value| value.as_bytes())
        .collect();
    assert_eq!(values, vec![b"new".as_slice()]);
}

#[test]
fn headers_with_room_take_the_authentication() {
    let auth = AuthInterceptor::new("token".to_string());
    for n in [0, 1, METADATA_ROOM, METADATA_ROOM + 1, 20_000] {
        let mut map = filled(n);
        assert!(auth.call(&mut map), "{n}");
        assert_eq!(map.get("authentication").unwrap().as_bytes(), b"token");
        assert_eq!(map.keys_len(), n + 1);
    }
}

#[test]
fn headers_that_cannot_grow_are_left_alone() {
    let auth = AuthInterceptor::new("token".to_string());
    let mut map = filled(FULL);
    assert!(!auth.call(&mut map));
    assert!(!map.contains_key("authentication"));
    assert!(AuthInterceptor::default().call(&mut map));
    assert!(AuthInterceptor::new("\n".to_string()).call(&mut map));
    assert_eq!(map.keys_len(), FULL);
    assert_eq!(map.get("k7").unwrap().as_bytes(), b"v");
}
