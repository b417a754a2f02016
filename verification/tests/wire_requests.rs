use openbanking::json::{JsonScalar, JsonValue, get_field, parse_json};
use openbanking::types::oauth::{authorize, revoke, token};
use openbanking::types::{AuthType, ClientDeviceType, Lang, RegisterKind, Scope};

#[test]
fn token_request_injects_the_grant_type() {
    let body = token::RequestBody::new(
        String::from("abc"),
        String::from("id1"),
        String::from("secret1"),
        String::from("https://cb"),
    );
    assert_eq!(
        body.to_json(),
        "{\"code\":\"abc\",\"client_id\":\"id1\",\"client_secret\":\"secret1\",\
         \"redirect_uri\":\"https://cb\",\"grant_type\":\"authorization_code\"}"
    );
}

#[test]
fn revoke_request_json() {
    let body = revoke::RequestBody::new(
        String::from("id1"),
        String::from("secret1"),
        String::from("tok123"),
    );
    assert_eq!(
        body.to_json(),
        "{\"client_id\":\"id1\",\"client_secret\":\"secret1\",\"access_token\":\"tok123\"}"
    );
}

#[test]
fn string_escapes_on_the_wire() {
    let body = token::RequestBody::new(
        String::from("a\"b\\c\nd\te\u{1}"),
        String::from("id"),
        String::from("s"),
        String::from("u"),
    );
    assert_eq!(
        body.to_json(),
        "{\"code\":\"a\\\"b\\\\c\\nd\\te\\u0001\",\"client_id\":\"id\",\
         \"client_secret\":\"s\",\"redirect_uri\":\"u\",\"grant_type\":\"authorization_code\"}"
    );
}

#[test]
fn authorize_account_request_json() {
    let body = authorize::RequestBody::new_authorize_account(
        String::from("cid"),
        String::from("https://cb"),
        vec![Scope::Login],
        None,
        vec![1, 2],
        AuthType::First,
        None,
        None,
        None,
        None,
    );
    assert_eq!(
        body.to_json(),
        "{\"response_type\":\"code\",\"client_id\":\"cid\",\"redirect_uri\":\"https://cb\",\
         \"scope\":[\"login\"],\"client_info\":null,\"state\":[1,2],\"auth_type\":0,\
         \"lang\":null,\"cellphone_cert_yn\":null,\"authorized_cert_yn\":null,\
         \"account_hold_auth_yn\":null,\"register_info\":null,\"accountinfo_yn\":null,\
         \"accountinfo_api_tran_id\":null,\"accountinfo_list_num\":null,\
         \"client_device_type\":null,\"client_device_ip\":null,\"client_device_mac\":null,\
         \"client_device_id\":null,\"client_device_num\":null,\"client_device_version\":null}"
    );
}

#[test]
fn authorize_request_json_with_everything() {
    let body = authorize::RequestBody::new_authorize(
        String::from("cid"),
        String::from("https://cb"),
        vec![Scope::Login, Scope::Transfer],
        Some(vec![0, 255]),
        vec![10],
        AuthType::Ignore,
        Some(Lang::Eng),
        Some(true),
        Some(false),
        Some(true),
        Some(RegisterKind::Card),
        Some(true),
        Some(String::from("tran-1")),
        Some(vec![-1, 12]),
        Some(ClientDeviceType::Andriod),
        Some(String::from("10.0.0.1")),
        Some(String::from("00:11:22:33:44:55")),
        Some(String::from("device-1")),
        Some(String::from("01012345678")),
        Some(String::from("14")),
    );
    assert_eq!(
        body.to_json(),
        "{\"response_type\":\"code\",\"client_id\":\"cid\",\"redirect_uri\":\"https://cb\",\
         \"scope\":[\"login\",\"transfer\"],\"client_info\":[0,255],\"state\":[10],\
         \"auth_type\":2,\"lang\":\"eng\",\"cellphone_cert_yn\":true,\
         \"authorized_cert_yn\":false,\"account_hold_auth_yn\":true,\"register_info\":\"C\",\
         \"accountinfo_yn\":true,\"accountinfo_api_tran_id\":\"tran-1\",\
         \"accountinfo_list_num\":[-1,12],\"client_device_type\":\"AD\",\
         \"client_device_ip\":\"10.0.0.1\",\"client_device_mac\":\"00:11:22:33:44:55\",\
         \"client_device_id\":\"device-1\",\"client_device_num\":\"01012345678\",\
         \"client_device_version\":\"14\"}"
    );
}

#[test]
fn empty_scope_list_serializes_as_empty_array() {
    let body = authorize::RequestBody::new_authorize_account(
        String::from("c"),
        String::from("u"),
        vec![],
        None,
        vec![],
        AuthType::First,
        None,
        None,
        None,
        None,
    );
    let json = body.to_json();
    assert!(json.contains("\"scope\":[]"));
    assert!(json.contains("\"state\":[]"));
}

#[test]
fn request_wire_text_parses_back_as_an_object() {
    let body = token::RequestBody::new(
        String::from("abc"),
        String::from("id1"),
        String::from("secret1"),
        String::from("https://cb"),
    );
    let text = body.to_json();
    let obj = parse_json(&text).unwrap();
    match get_field(&obj, "grant_type").unwrap() {
        JsonValue::Scalar(JsonScalar::Str(s)) => assert_eq!(s, "authorization_code"),
        _ => panic!("grant_type is not a string"),
    }
    match get_field(&obj, "code").unwrap() {
        JsonValue::Scalar(JsonScalar::Str(s)) => assert_eq!(s, "abc"),
        _ => panic!("code is not a string"),
    }
    assert!(get_field(&obj, "missing").is_none());
}
