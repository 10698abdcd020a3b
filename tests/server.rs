use kvwire::{
    at_end_of_stream, dispatch, encode_request, encode_response, frame_text, handle, take_frame,
    Incoming, Outgoing, Request, Response, ResponseType, Store, DELIMITER,
};
use rand::{distributions::Alphanumeric, Rng};

fn random_string(string_size: usize) -> String {
    rand::thread_rng()
        .sample_iter(&Alphanumeric)
        .take(string_size)
        .map(char::from)
        .collect()
}

fn frame(text: &str) -> Vec<u8> {
    let mut f = text.as_bytes().to_vec();
    f.push(DELIMITER);
    f
}

/// Sends one request frame through a connection step and reads the reply.
fn exchange(store: &mut Store, request: &Request) -> Response {
    let mut wire = encode_request(request);
    let body = take_frame(&mut wire).unwrap();
    assert!(wire.is_empty());
    match handle(store, Incoming::Frame(body)) {
        Outgoing::Reply(mut out) => {
            let text = take_frame(&mut out).unwrap();
            assert!(out.is_empty());
            Response::decode(&text).unwrap()
        }
        _ => panic!("a request must be answered"),
    }
}

fn check_response(response: &Response, should_be: Option<String>) -> bool {
    match should_be {
        None => response.is_ok(),
        Some(string) => match &response.requested_hash {
            None => false,
            Some(hash) => *hash == string,
        },
    }
}

#[test]
fn regular_map() {
    let mut store = Store::new();
    let mut data = Vec::new();
    for _ in 0..100 {
        data.push((random_string(20), random_string(20)));
    }
    for (key, hash) in &data {
        let r = exchange(&mut store, &Request::new_store(key, hash));
        assert!(check_response(&r, None));
    }
    for (key, hash) in &data {
        let r = exchange(&mut store, &Request::new_load(key));
        assert!(check_response(&r, Some(hash.to_string())));
    }
}

#[test]
fn response_test() {
    let mut store = Store::new();
    let r = exchange(&mut store, &Request::new_load(&random_string(20)));
    assert!(!check_response(&r, None));

    let (key, hash1, hash2) = (random_string(20), random_string(20), random_string(20));
    let r = exchange(&mut store, &Request::new_store(&key, &hash1));
    assert!(check_response(&r, None));
    let r = exchange(&mut store, &Request::new_store(&key, &hash2));
    assert!(check_response(&r, None));

    let r = exchange(&mut store, &Request::new_load(&key));
    assert!(check_response(&r, Some(hash2)));
}

#[test]
fn protocol_works() {
    let cases = [
        (
            r#"{
            "request_type": "store",
            "key": "key",
            "hash": "hash"
          }"#,
            r#"{"response_status":"success"}"#,
        ),
        (
            r#"{
            "request_type": "load",
            "key": "key"
          }"#,
            r#"{"response_status":"success","requested_key":"key","requested_hash":"hash"}"#,
        ),
        (
            r#"{
            "request_type": "load",
            "key": "key228"
          }"#,
            r#"{"response_status":"key not found"}"#,
        ),
    ];
    let mut store = Store::new();
    for (request, expected) in cases {
        match handle(&mut store, Incoming::Frame(request.as_bytes().to_vec())) {
            Outgoing::Reply(out) => assert_eq!(out, frame(expected)),
            _ => panic!("a request must be answered"),
        }
    }
}

#[test]
fn scenario_store_then_load() {
    let mut store = Store::new();
    let out = handle(&mut store, Incoming::Frame(br#"{"request_type":"store","key":"a","hash":"1"}"#.to_vec()));
    assert!(matches!(out, Outgoing::Reply(ref o) if *o == frame(r#"{"response_status":"success"}"#)));
    let out = handle(&mut store, Incoming::Frame(br#"{"request_type":"load","key":"a"}"#.to_vec()));
    assert!(matches!(out, Outgoing::Reply(ref o)
        if *o == frame(r#"{"response_status":"success","requested_key":"a","requested_hash":"1"}"#)));
}

#[test]
fn scenario_load_missing() {
    let mut store = Store::new();
    let out = handle(&mut store, Incoming::Frame(br#"{"request_type":"load","key":"missing"}"#.to_vec()));
    assert!(matches!(out, Outgoing::Reply(ref o) if *o == frame(r#"{"response_status":"key not found"}"#)));
}

#[test]
fn scenario_many_writers_each_read_their_own() {
    let mut store = Store::new();
    for id in 0..100 {
        let r = dispatch(&mut store, Request::new_store(&format!("key {id}"), &id.to_string()));
        assert_eq!(r, ResponseType::SuccessStore);
    }
    for id in (0..100).rev() {
        let r = dispatch(&mut store, Request::new_load(&format!("key {id}")));
        assert_eq!(r, ResponseType::SuccessLoad { key: format!("key {id}"), value: id.to_string() });
    }
    assert_eq!(store.len(), 100);
}

#[test]
fn scenario_garbage_gets_error_and_close() {
    let mut store = Store::new();
    store.put("a".to_string(), "1".to_string());
    let out = handle(&mut store, Incoming::Frame(vec![0xff, b'{', b'x', 0x00]));
    assert!(matches!(out, Outgoing::ReplyAndClose(ref o) if *o == frame(r#"{"response_status":"error"}"#)));
    let out = handle(&mut store, Incoming::Frame(br#"{"request_type":"rm -rf /"}"#.to_vec()));
    assert!(matches!(out, Outgoing::ReplyAndClose(_)));
    assert_eq!(store.get(&"a".to_string()), Some("1".to_string()));
}

#[test]
fn end_of_stream_closes() {
    let mut store = Store::new();
    assert!(matches!(at_end_of_stream(Vec::new()), Incoming::Eof));
    assert!(matches!(handle(&mut store, Incoming::Eof), Outgoing::Close));
    match at_end_of_stream(b"{}".to_vec()) {
        Incoming::Frame(f) => assert_eq!(f, b"{}".to_vec()),
        Incoming::Eof => panic!("pending bytes are a frame"),
    }
}

#[test]
fn overwrite_keeps_last_value() {
    let mut store = Store::new();
    assert_eq!(store.get(&"k".to_string()), None);
    store.put("k".to_string(), "v1".to_string());
    store.put("k".to_string(), "v2".to_string());
    assert_eq!(store.get(&"k".to_string()), Some("v2".to_string()));
    assert_eq!(store.len(), 1);
}

#[test]
fn miss_before_write() {
    let mut store = Store::new();
    store.put("x".to_string(), "1".to_string());
    assert_eq!(store.get(&"y".to_string()), None);
}

#[test]
fn frames_split_where_the_delimiter_is() {
    let r = Request::new_store(&"}".to_string(), &"\u{1}}{".to_string());
    let mut wire = encode_request(&r);
    let second = encode_response(&ResponseType::KeyNotFound);
    wire.extend_from_slice(&second);
    let body = take_frame(&mut wire).unwrap();
    assert_eq!(Request::decode(&body), Some(r));
    assert_eq!(wire, second);
    let body = take_frame(&mut wire).unwrap();
    assert_eq!(ResponseType::decode(&body), Some(ResponseType::KeyNotFound));
    assert!(wire.is_empty());
    assert_eq!(take_frame(&mut wire), None);

    let mut partial = b"{\"a\"".to_vec();
    assert_eq!(take_frame(&mut partial), None);
    assert_eq!(partial, b"{\"a\"".to_vec());
}

#[test]
fn frame_text_appends_delimiter() {
    assert_eq!(frame_text("ab"), vec![b'a', b'b', DELIMITER]);
    assert_eq!(frame_text("é"), vec![0xc3, 0xa9, DELIMITER]);
}
