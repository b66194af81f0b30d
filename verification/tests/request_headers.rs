use actix_web::http::header::{HeaderName, HeaderValue};
use actix_web::test::TestRequest;
use maprando_web::headers::{format_header_fields, format_http_headers};
use serde_json::Value;

fn text(s: &str) -> Option<Value> {
    Some(Value::String(s.to_string()))
}

#[test]
fn headers_of_a_request() {
    let req = TestRequest::default()
        .append_header(("User-Agent", "browser"))
        .append_header(("x-forwarded-for", "10.0.0.1"))
        .append_header(("X-Forwarded-For", "10.0.0.2"))
        .to_http_request();
    let object = format_http_headers(&req);
    assert_eq!(object.len(), 2);
    assert_eq!(object.get("user-agent").cloned(), text("browser"));
    assert_eq!(object.get("x-forwarded-for").cloned(), text("10.0.0.2"));
    assert_eq!(object.get("User-Agent"), None);
}

#[test]
fn a_request_without_headers() {
    let object = format_http_headers(&TestRequest::default().to_http_request());
    assert_eq!(object.len(), 0);
}

#[test]
fn a_value_that_is_no_text_is_recorded_as_empty() {
    let req = TestRequest::default()
        .append_header((
            HeaderName::from_static("x-name"),
            HeaderValue::from_bytes(b"caf\xe9").unwrap(),
        ))
        .append_header(("x-tab", "a\tb"))
        .to_http_request();
    let object = format_http_headers(&req);
    assert_eq!(object.get("x-name").cloned(), text(""));
    assert_eq!(object.get("x-tab").cloned(), text("a\tb"));
}

#[test]
fn fields_in_order() {
    let fields = vec![
        ("a".to_string(), b"1".to_vec()),
        ("b".to_string(), vec![0x20, 0x7e]),
        ("a".to_string(), b"2".to_vec()),
        ("c".to_string(), vec![0x7f]),
        ("d".to_string(), vec![0x41, 0x0a]),
        ("e".to_string(), vec![]),
    ];
    let object = format_header_fields(&fields);
    assert_eq!(object.len(), 5);
    assert_eq!(object.get("a").cloned(), text("2"));
    assert_eq!(object.get("b").cloned(), text(" ~"));
    assert_eq!(object.get("c").cloned(), text(""));
    assert_eq!(object.get("d").cloned(), text(""));
    assert_eq!(object.get("e").cloned(), text(""));
}

#[test]
fn a_later_value_that_is_no_text_hides_an_earlier_one() {
    let fields = vec![("a".to_string(), b"1".to_vec()), ("a".to_string(), vec![0xff])];
    assert_eq!(format_header_fields(&fields).get("a").cloned(), text(""));
}
