use rquest_helper::body::BodyDataMap;
use rquest_helper::request::{
    encode_body, form_encode, header_list, is_form_encoded, plan_get, plan_post, BodyError,
    HttpMethod,
};
use rquest_helper::text::cookie_header;

fn pairs(items: &[(&str, &str)]) -> Vec<(String, String)> {
    items.iter().map(|(k, v)| (k.to_string(), v.to_string())).collect()
}

fn text(s: &str) -> BodyDataMap {
    BodyDataMap::String(s.to_string())
}

fn number(text: &str, debug: &str) -> BodyDataMap {
    BodyDataMap::Number { text: text.to_string(), debug: debug.to_string() }
}

#[test]
fn form_body_encodes_and_joins_fields() {
    let headers = pairs(&[("Content-Type", "application/x-www-form-urlencoded")]);
    let body = vec![("a".to_string(), text("b c")), ("n".to_string(), number("1", "1.0"))];
    assert_eq!(encode_body(&headers, &body), Ok("a=b%20c&n=1".to_string()));
}

#[test]
fn json_body_without_content_type() {
    let body = vec![("x".to_string(), BodyDataMap::Boolean(true))];
    assert_eq!(encode_body(&Vec::new(), &body), Ok("{\"x\":true}".to_string()));
}

#[test]
fn json_body_with_other_content_type() {
    let headers = pairs(&[("Content-Type", "application/json")]);
    let body = vec![("x".to_string(), BodyDataMap::Boolean(true))];
    assert_eq!(encode_body(&headers, &body), Ok("{\"x\":true}".to_string()));
}

#[test]
fn content_type_match_is_exact() {
    assert!(is_form_encoded(&pairs(&[("Content-Type", "application/x-www-form-urlencoded")])));
    assert!(!is_form_encoded(&pairs(&[(
        "Content-Type",
        "application/x-www-form-urlencoded; charset=utf-8"
    )])));
    assert!(!is_form_encoded(&pairs(&[("content-type", "application/x-www-form-urlencoded")])));
    assert!(!is_form_encoded(&Vec::new()));
}

#[test]
fn empty_cookies_give_empty_header_value() {
    assert_eq!(cookie_header(&Vec::new()), "");
}

#[test]
fn cookies_joined_in_order() {
    let cookies = pairs(&[("a", "1"), ("sid", "xyz"), ("b", "")]);
    assert_eq!(cookie_header(&cookies), "a=1; sid=xyz; b=");
}

#[test]
fn single_cookie_has_no_separator() {
    assert_eq!(cookie_header(&pairs(&[("k", "v")])), "k=v");
}

#[test]
fn supplied_headers_kept_then_one_cookie_header() {
    let headers = pairs(&[("User-Agent", "x"), ("Accept", "*/*")]);
    let cookies = pairs(&[("a", "1"), ("b", "2")]);
    let h = header_list(&headers, &cookies);
    assert_eq!(h, pairs(&[("User-Agent", "x"), ("Accept", "*/*"), ("Cookie", "a=1; b=2")]));
    assert_eq!(h.iter().filter(|(k, _)| k == "Cookie").count(), 1);
}

#[test]
fn get_plan_carries_empty_cookie_header() {
    let plan = plan_get("http://example.com/".to_string(), &Vec::new(), &Vec::new());
    assert!(matches!(plan.method, HttpMethod::Get));
    assert_eq!(plan.url, "http://example.com/");
    assert_eq!(plan.headers, pairs(&[("Cookie", "")]));
    assert!(plan.body.is_none());
}

#[test]
fn post_plan_form_encoded() {
    let headers = pairs(&[("Content-Type", "application/x-www-form-urlencoded")]);
    let cookies = pairs(&[("s", "1")]);
    let body = vec![("q".to_string(), text("a&b=c/d")), ("ok".to_string(), BodyDataMap::Boolean(false))];
    let plan = plan_post("http://example.com/p".to_string(), &headers, &cookies, &body).unwrap();
    assert!(matches!(plan.method, HttpMethod::Post));
    assert_eq!(plan.url, "http://example.com/p");
    assert_eq!(
        plan.headers,
        pairs(&[("Content-Type", "application/x-www-form-urlencoded"), ("Cookie", "s=1")])
    );
    assert_eq!(plan.body.as_deref(), Some("q=a%26b%3Dc%2Fd&ok=false"));
}

#[test]
fn post_plan_json() {
    let headers = pairs(&[("Accept", "application/json")]);
    let body = vec![
        ("name".to_string(), text("say \"hi\"")),
        ("n".to_string(), number("2.5", "2.5")),
        ("list".to_string(), BodyDataMap::Array(vec![number("1", "1.0"), BodyDataMap::Boolean(false)])),
        ("obj".to_string(), BodyDataMap::Object(vec![("k".to_string(), text("v"))])),
    ];
    let plan = plan_post("http://example.com/j".to_string(), &headers, &Vec::new(), &body).unwrap();
    assert_eq!(
        plan.body.as_deref(),
        Some("{\"name\":\"say \\\"hi\\\"\",\"n\":2.5,\"list\":[1,false],\"obj\":{\"k\":\"v\"}}")
    );
    assert_eq!(plan.headers, pairs(&[("Accept", "application/json"), ("Cookie", "")]));
}

#[test]
fn empty_body_encodings() {
    assert_eq!(encode_body(&Vec::new(), &Vec::new()), Ok("{}".to_string()));
    assert_eq!(form_encode(&Vec::new()), "");
}

#[test]
fn non_finite_numbers_are_null_in_json() {
    assert_eq!(number("NaN", "NaN").to_json(), Some("null".to_string()));
    assert_eq!(number("inf", "inf").to_json(), Some("null".to_string()));
    assert_eq!(number("-inf", "-inf").to_json(), Some("null".to_string()));
    assert_eq!(number("-0.25", "-0.25").to_json(), Some("-0.25".to_string()));
}

#[test]
fn value_texts() {
    assert_eq!(text("a b").to_string(), "a b");
    assert_eq!(number("3", "3.0").to_string(), "3");
    assert_eq!(BodyDataMap::Boolean(true).to_string(), "true");
    assert_eq!(BodyDataMap::Boolean(false).to_string(), "false");
    assert_eq!(
        BodyDataMap::Array(vec![text("a"), number("1", "1.0"), BodyDataMap::Boolean(true)])
            .to_string(),
        "[String(\"a\"), Number(1.0), Boolean(true)]"
    );
    assert_eq!(
        BodyDataMap::Object(vec![("k".to_string(), BodyDataMap::Array(Vec::new()))]).to_string(),
        "{\"k\": Array([])}"
    );
}

#[test]
fn nested_dump() {
    let v = BodyDataMap::Array(vec![BodyDataMap::Object(vec![
        ("a".to_string(), text("x\"y")),
        ("b".to_string(), number("2", "2.0")),
    ])]);
    assert_eq!(v.dump(), "Array([Map({\"a\": String(\"x\\\"y\"), \"b\": Number(2.0)})])");
}

#[test]
fn form_field_of_array_is_encoded_dump() {
    let body = vec![("l".to_string(), BodyDataMap::Array(vec![number("1000000000000000000000", "1e21")]))];
    assert_eq!(form_encode(&body), "l=%5BNumber%281e21%29%5D");
}

#[test]
fn unicode_is_percent_encoded_by_bytes() {
    let body = vec![("k".to_string(), text("é~-._"))];
    assert_eq!(form_encode(&body), "k=%C3%A9~-._");
}

#[test]
fn array_with_empty_object_dump() {
    let v = BodyDataMap::Array(vec![BodyDataMap::Object(Vec::new())]);
    assert_eq!(v.to_string(), "[Map({})]");
}

#[test]
fn invalid_number_fails_json_only() {
    let body = vec![("n".to_string(), number("abc", "abc"))];
    assert_eq!(encode_body(&Vec::new(), &body), Err(BodyError::InvalidNumber));
    assert!(matches!(
        plan_post("http://example.com/".to_string(), &Vec::new(), &Vec::new(), &body),
        Err(BodyError::InvalidNumber)
    ));
    let form = pairs(&[("Content-Type", "application/x-www-form-urlencoded")]);
    assert_eq!(encode_body(&form, &body), Ok("n=abc".to_string()));
}

#[test]
fn number_text_rules() {
    for t in ["0", "-0", "12.5", "-3.25", "NaN", "inf", "-inf"] {
        assert!(number(t, t).to_json().is_some(), "{}", t);
    }
    for t in ["", "-", ".5", "5.", "1.2.3", "1e21", "--1", "+1", "nan"] {
        assert!(number(t, t).to_json().is_none(), "{}", t);
    }
}

#[test]
fn last_content_type_decides() {
    let form_last = pairs(&[
        ("Content-Type", "application/json"),
        ("Content-Type", "application/x-www-form-urlencoded"),
    ]);
    let json_last = pairs(&[
        ("Content-Type", "application/x-www-form-urlencoded"),
        ("Content-Type", "application/json"),
    ]);
    assert!(is_form_encoded(&form_last));
    assert!(!is_form_encoded(&json_last));
}

#[test]
fn json_string_escapes() {
    let v = text("q\"\\\n\t\u{1}é");
    assert_eq!(v.to_json(), Some("\"q\\\"\\\\\\n\\t\\u0001é\"".to_string()));
}
