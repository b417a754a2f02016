use openbanking::ApiError;
use openbanking::api::{HeaderField, build_request};
use openbanking::types::HttpMethod;
use openbanking::types::endpoint::{Endpoint, Host};
use openbanking::types::oauth::authorize;

fn one_header() -> Vec<HeaderField> {
    vec![HeaderField { name: String::from("Kftc-Bfop-AccessToken"), value: String::from("tok") }]
}

#[test]
fn post_with_header_and_body() {
    let plan = build_request(
        Endpoint::Token,
        Host::Production,
        HttpMethod::Post,
        Some(one_header()),
        Some(String::from("{}")),
    )
    .unwrap();
    assert_eq!(plan.header_fields.len(), 1);
    assert_eq!(plan.body.as_deref(), Some("{}"));
    assert_eq!(plan.url, "https://openapi.openbanking.or.kr/oauth/2.0/token");
}

#[test]
fn post_with_header_only() {
    let plan =
        build_request(Endpoint::Token, Host::Production, HttpMethod::Post, Some(one_header()), None)
            .unwrap();
    assert_eq!(plan.header_fields.len(), 1);
    assert!(plan.body.is_none());
}

#[test]
fn post_with_body_only() {
    let plan = build_request(
        Endpoint::Token,
        Host::Production,
        HttpMethod::Post,
        None,
        Some(String::from("{\"a\":1}")),
    )
    .unwrap();
    assert!(plan.header_fields.is_empty());
    assert_eq!(plan.body.as_deref(), Some("{\"a\":1}"));
}

#[test]
fn post_with_neither() {
    let plan =
        build_request(Endpoint::Token, Host::Production, HttpMethod::Post, None, None).unwrap();
    assert!(plan.header_fields.is_empty());
    assert!(plan.body.is_none());
}

#[test]
fn get_never_carries_a_body() {
    let plan = build_request(
        Endpoint::Authorize,
        Host::Production,
        HttpMethod::Get,
        None,
        Some(String::from("{\"ignored\":true}")),
    )
    .unwrap();
    assert!(plan.body.is_none());

    let with_header = build_request(
        Endpoint::Authorize,
        Host::Production,
        HttpMethod::Get,
        Some(one_header()),
        Some(String::from("{}")),
    )
    .unwrap();
    assert!(with_header.body.is_none());
    assert_eq!(with_header.header_fields.len(), 1);
}

#[test]
fn get_with_and_without_header() {
    let bare =
        build_request(Endpoint::UserMe, Host::Production, HttpMethod::Get, None, None).unwrap();
    assert!(bare.header_fields.is_empty());
    let with_header = build_request(
        Endpoint::UserMe,
        Host::Production,
        HttpMethod::Get,
        Some(one_header()),
        None,
    )
    .unwrap();
    assert_eq!(with_header.header_fields.len(), 1);
    assert_eq!(with_header.header_fields[0].value, "tok");
}

#[test]
fn invalid_header_value_is_refused_before_any_call() {
    let bad = vec![HeaderField {
        name: String::from("Kftc-Bfop-UserCI"),
        value: String::from("line\nbreak"),
    }];
    let r = build_request(Endpoint::Token, Host::Production, HttpMethod::Post, Some(bad), None);
    assert!(matches!(r, Err(ApiError::InvalidHeaderEncoding(_))));
}

#[test]
fn control_characters_in_header_value_are_refused() {
    for value in ["\u{0}", "ok\r", "\u{7f}", "a\u{1f}b"] {
        let bad =
            vec![HeaderField { name: String::from("X"), value: String::from(value) }];
        let r =
            build_request(Endpoint::Token, Host::Production, HttpMethod::Post, Some(bad), None);
        assert!(matches!(r, Err(ApiError::InvalidHeaderEncoding(_))));
    }
}

#[test]
fn tab_and_text_header_values_are_accepted() {
    let good = vec![
        HeaderField { name: String::from("A"), value: String::from("plain text") },
        HeaderField { name: String::from("B"), value: String::from("tab\there") },
    ];
    let r = build_request(Endpoint::Token, Host::Production, HttpMethod::Post, Some(good), None);
    assert!(r.is_ok());
}

#[test]
fn authorize_header_bag_uses_the_fixed_names() {
    let header = authorize::Header::new(
        String::from("1100000001"),
        String::from("ci-value"),
        String::from("token-value"),
    );
    let fields = header.fields();
    assert_eq!(fields.len(), 3);
    assert_eq!(fields[0].name, "Kftc-Bfop-UserSeqNo");
    assert_eq!(fields[0].value, "1100000001");
    assert_eq!(fields[1].name, "Kftc-Bfop-UserCI");
    assert_eq!(fields[1].value, "ci-value");
    assert_eq!(fields[2].name, "Kftc-Bfop-AccessToken");
    assert_eq!(fields[2].value, "token-value");
}

#[test]
fn error_messages_are_carried() {
    assert_eq!(ApiError::TransportError(String::from("down")).message(), "down");
    assert_eq!(ApiError::SerializationError(String::from("bad")).message(), "bad");
}
