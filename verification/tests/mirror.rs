use grpc_propagation::{can_mirror, mirror_headers, KEY_LIMIT};
use hyper::header::{HeaderName, HeaderValue};
use hyper::HeaderMap;

fn text(value: &'static str) -> HeaderValue {
    HeaderValue::from_static(value)
}

fn values(map: &HeaderMap, key: &str) -> Vec<Vec<u8>> {
    map.get_all(key).iter().map(|value| value.as_bytes().to_vec()).collect()
}

fn sorted_keys(map: &HeaderMap) -> Vec<String> {
    let mut keys: Vec<String> = map.keys().map(|key| key.as_str().to_string()).collect();
    keys.sort();
    keys
}

#[test]
fn ping_with_demo_header_is_mirrored() {
    let mut request = HeaderMap::new();
    request.insert("content-type", text("application/grpc"));
    request.insert("te", text("trailers"));
    request.insert("user-agent", text("tonic/0.9.2"));
    request.insert("x-demo", text("x-demo-value"));
    let mut response = HeaderMap::new();
    response.insert("content-type", text("application/grpc"));
    mirror_headers(&mut response, &request);
    assert_eq!(values(&response, "x-demo"), vec![b"x-demo-value".to_vec()]);
    assert_eq!(sorted_keys(&response), vec!["content-type".to_string(), "x-demo".to_string()]);
    assert!(!response.contains_key("te"));
    assert!(!response.contains_key("user-agent"));
}

#[test]
fn mirroring_overwrites_the_response() {
    let mut request = HeaderMap::new();
    request.insert("x-id", text("from-request"));
    let mut response = HeaderMap::new();
    response.insert("x-id", text("one"));
    response.append("x-id", text("two"));
    response.insert("grpc-status", text("0"));
    mirror_headers(&mut response, &request);
    assert_eq!(values(&response, "x-id"), vec![b"from-request".to_vec()]);
    assert_eq!(values(&response, "grpc-status"), vec![b"0".to_vec()]);
    assert_eq!(response.len(), 2);
}

#[test]
fn mirroring_takes_the_last_of_several_values() {
    let mut request = HeaderMap::new();
    request.insert("x-id", text("a"));
    request.append("x-id", text("b"));
    let mut response = HeaderMap::new();
    mirror_headers(&mut response, &request);
    assert_eq!(values(&response, "x-id"), vec![b"b".to_vec()]);
}

#[test]
fn mirroring_twice_is_mirroring_once() {
    let mut request = HeaderMap::new();
    request.insert("x-a", text("1"));
    request.append("x-a", text("2"));
    request.insert("x-b", text("3"));
    request.insert("accept", text("*/*"));
    let mut once = HeaderMap::new();
    once.insert("x-a", text("old"));
    once.insert("server", text("demo"));
    let mut twice = once.clone();
    mirror_headers(&mut once, &request);
    mirror_headers(&mut twice, &request);
    mirror_headers(&mut twice, &request);
    assert_eq!(once, twice);
    assert_eq!(once.len(), 3);
    assert_eq!(values(&once, "x-a"), vec![b"2".to_vec()]);
}

#[test]
fn mirroring_knows_no_binary_keys() {
    let mut request = HeaderMap::new();
    request.insert("x-trace-bin", text("AQI"));
    let mut response = HeaderMap::new();
    mirror_headers(&mut response, &request);
    assert_eq!(values(&response, "x-trace-bin"), vec![b"AQI".to_vec()]);
}

#[test]
fn mirroring_leaks_no_unprefixed_header() {
    let mut request = HeaderMap::new();
    request.insert("authorization", text("Bearer t"));
    request.insert("x", text("short"));
    request.insert("xx-y", text("near"));
    let mut response = HeaderMap::new();
    response.insert("date", text("today"));
    mirror_headers(&mut response, &request);
    assert_eq!(sorted_keys(&response), vec!["date".to_string()]);
    assert_eq!(values(&response, "date"), vec![b"today".to_vec()]);
}

#[test]
fn mirroring_keeps_the_sensitive_mark_and_opaque_bytes() {
    let mut request = HeaderMap::new();
    let mut token = HeaderValue::from_bytes(b"t\xffk").unwrap();
    token.set_sensitive(true);
    request.insert("x-token", token);
    let mut response = HeaderMap::new();
    mirror_headers(&mut response, &request);
    let mirrored = response.get("x-token").unwrap();
    assert_eq!(mirrored.as_bytes(), b"t\xffk");
    assert!(mirrored.is_sensitive());
}

#[test]
fn mirroring_an_empty_request_changes_nothing() {
    let mut response = HeaderMap::new();
    response.insert("x-a", text("1"));
    response.append("x-a", text("2"));
    mirror_headers(&mut response, &HeaderMap::new());
    assert_eq!(values(&response, "x-a"), vec![b"1".to_vec(), b"2".to_vec()]);
}

#[test]
fn mirroring_leaves_the_request_alone() {
    let mut request = HeaderMap::new();
    request.insert("x-a", text("1"));
    request.insert("b", text("2"));
    let before = request.clone();
    let mut response = HeaderMap::new();
    mirror_headers(&mut response, &request);
    assert_eq!(request, before);
}

fn headers_of(count: usize) -> HeaderMap {
    let mut map = HeaderMap::new();
    for i in 0..count {
        let name = HeaderName::from_bytes(format!("h{}", i).as_bytes()).unwrap();
        map.insert(name, text("v"));
    }
    map
}

#[test]
fn can_mirror_up_to_the_limit() {
    let mut request = HeaderMap::new();
    request.insert("x-one", text("1"));
    request.insert("x-two-bin", text("Mg"));
    request.insert("other", text("3"));
    assert!(can_mirror(&headers_of(0), &request));
    assert!(can_mirror(&headers_of(KEY_LIMIT - 2), &request));
    assert!(!can_mirror(&headers_of(KEY_LIMIT - 1), &request));
}

#[test]
fn can_mirror_what_writes_nothing() {
    let mut request = HeaderMap::new();
    request.insert("other", text("3"));
    assert!(can_mirror(&headers_of(KEY_LIMIT + 1), &request));
}

#[test]
fn mirroring_onto_a_response_just_under_the_limit() {
    let mut response = headers_of(KEY_LIMIT - 1);
    let mut request = HeaderMap::new();
    request.insert("x-one", text("1"));
    assert!(can_mirror(&response, &request));
    mirror_headers(&mut response, &request);
    assert_eq!(response.keys_len(), KEY_LIMIT);
    assert_eq!(values(&response, "x-one"), vec![b"1".to_vec()]);
}

#[test]
fn can_mirror_counts_the_keys_of_the_response() {
    let mut response = headers_of(KEY_LIMIT - 1);
    for _ in 0..50 {
        response.append("h0", text("again"));
    }
    assert_eq!(response.keys_len(), KEY_LIMIT - 1);
    assert_eq!(response.len(), KEY_LIMIT + 49);
    let mut request = HeaderMap::new();
    request.insert("x-one", text("1"));
    assert!(can_mirror(&response, &request));
    mirror_headers(&mut response, &request);
    assert_eq!(response.keys_len(), KEY_LIMIT);
    assert_eq!(values(&response, "x-one"), vec![b"1".to_vec()]);
    assert_eq!(response.get_all("h0").iter().count(), 51);
}
