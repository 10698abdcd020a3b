use kvwire::Request;

fn make_store_request(key: &str, hash: &str) -> String {
    format!(
        r#"
        {{
            "request_type": "store",
            "key": "{key}",
            "hash": "{hash}"
        }}
        "#
    )
}

fn make_load_request(key: &str) -> String {
    format!(
        r#"
        {{
            "request_type": "load",
            "key": "{key}"
        }}
        "#
    )
}

#[test]
fn request_store_works() {
    let request = Request::decode(make_store_request("key", "1234567890").as_bytes()).unwrap();
    assert_eq!(
        request,
        Request::Store {
            key: "key".into(),
            value: "1234567890".into()
        }
    );

    let request = Request::decode(make_store_request("😀", "😡😡").as_bytes()).unwrap();
    assert_eq!(
        request,
        Request::Store {
            key: "😀".into(),
            value: "😡😡".into()
        }
    );
}

#[test]
fn request_load_works() {
    let request = Request::decode(make_load_request("key").as_bytes()).unwrap();
    assert_eq!(request, Request::Load { key: "key".into() });
}

#[test]
#[should_panic]
fn incorrect_request1() {
    let request_str = r#"
        {
            "request_type": "aboba",
            "key": "key"
        }
        "#;

    let _: Request = Request::decode(request_str.as_bytes()).unwrap();
}

#[test]
#[should_panic]
fn incorrect_request2() {
    let request_str = r#"
        {
            "request_type": "load",
            "keys": "key",
        }
        "#;

    let _: Request = Request::decode(request_str.as_bytes()).unwrap();
}

#[test]
fn constructors_build_the_variants() {
    let k = "k".to_string();
    let v = "v".to_string();
    assert_eq!(Request::new_store(&k, &v), Request::Store { key: k.clone(), value: v.clone() });
    assert_eq!(Request::new_load(&k), Request::Load { key: k.clone() });
}

#[test]
fn request_text_is_compact_json() {
    let r = Request::new_store(&"a".to_string(), &"1".to_string());
    assert_eq!(r.to_json(), r#"{"request_type":"store","key":"a","hash":"1"}"#);
    let r = Request::new_load(&"a".to_string());
    assert_eq!(r.to_json(), r#"{"request_type":"load","key":"a"}"#);
}

#[test]
fn request_text_escapes_strings() {
    let r = Request::new_store(&"q\"b\\".to_string(), &"x\n\u{1}}".to_string());
    assert_eq!(
        r.to_json(),
        r#"{"request_type":"store","key":"q\"b\\","hash":"x\n\u0001}"}"#
    );
}

#[test]
fn request_round_trips_through_text() {
    let cases = vec![
        Request::new_store(&"key".to_string(), &"value".to_string()),
        Request::new_store(&"".to_string(), &"".to_string()),
        Request::new_store(&"}{\"\\".to_string(), &"\u{1}\t\r😀".to_string()),
        Request::new_load(&"k e y".to_string()),
    ];
    for r in cases {
        assert_eq!(Request::decode(r.to_json().as_bytes()), Some(r.clone()));
    }
}

#[test]
fn store_without_value_is_rejected() {
    let text = r#"{"request_type":"store","key":"a"}"#;
    assert_eq!(Request::decode(text.as_bytes()), None);
}

#[test]
fn non_string_fields_are_rejected() {
    assert_eq!(Request::decode(br#"{"request_type":"load","key":5}"#), None);
    assert_eq!(Request::decode(br#"{"request_type":7,"key":"a"}"#), None);
    assert_eq!(Request::decode(b"[1,2]"), None);
    assert_eq!(Request::decode(b"\xff\xfe"), None);
    assert_eq!(Request::decode(b""), None);
}

#[test]
fn extra_members_are_ignored() {
    let text = r#"{"request_type":"load","key":"a","extra":[1,2]}"#;
    assert_eq!(Request::decode(text.as_bytes()), Some(Request::Load { key: "a".into() }));
}
