use openbanking::ApiError;
use openbanking::types::Scope;
use openbanking::types::oauth::ResponseCode;
use openbanking::types::oauth::{authorize, revoke, token};

#[test]
fn token_response_scenario() {
    let text = "{\"rsp_code\":\"O0000\",\"rsp_message\":\"ok\",\"access_token\":\"tok123\",\
                \"token_type\":\"Bearer\",\"expires_in\":3600}";
    let body = token::ResponseBody::parse_response(text).unwrap();
    assert_eq!(body.rsp_code, ResponseCode::Success);
    assert_eq!(body.rsp_message, "ok");
    assert_eq!(body.access_token.as_deref(), Some("tok123"));
    assert_eq!(body.token_type.as_deref(), Some("Bearer"));
    assert_eq!(body.expires_in, Some(3600));
    assert_eq!(body.refresh_token, None);
    assert_eq!(body.scope, None);
    assert_eq!(body.user_seq_no, None);
}

#[test]
fn token_response_full() {
    let text = "{ \"rsp_code\" : \"O0003\" , \"rsp_message\" : \"expired\" ,\n\
                \"access_token\" : null , \"refresh_token\" : \"r1\" ,\
                \"scope\" : \"inquiry\" , \"user_seq_no\" : \"1100000001\" }";
    let body = token::ResponseBody::parse_response(text).unwrap();
    assert_eq!(body.rsp_code, ResponseCode::AccessTokenExpired);
    assert_eq!(body.rsp_message, "expired");
    assert_eq!(body.access_token, None);
    assert_eq!(body.refresh_token.as_deref(), Some("r1"));
    assert_eq!(body.scope, Some(Scope::Inquiry));
    assert_eq!(body.user_seq_no.as_deref(), Some("1100000001"));
}

#[test]
fn malformed_text_is_a_deserialization_error() {
    for text in [
        "",
        "not json",
        "{",
        "{\"rsp_code\":\"O0000\"",
        "[1,2]",
        "\"just a string\"",
        "{\"rsp_code\":\"O0000\",\"rsp_message\":\"ok\"} trailing",
        "{\"rsp_code\":\"O0000\" \"rsp_message\":\"ok\"}",
        "{'rsp_code':'O0000'}",
    ] {
        let r = token::ResponseBody::parse_response(text);
        assert!(matches!(r, Err(ApiError::DeserializationError(_))), "accepted: {}", text);
    }
}

#[test]
fn missing_or_unknown_envelope_fields_are_errors() {
    let missing_code = "{\"rsp_message\":\"ok\"}";
    assert!(matches!(
        token::ResponseBody::parse_response(missing_code),
        Err(ApiError::DeserializationError(_))
    ));
    let missing_message = "{\"rsp_code\":\"O0000\"}";
    assert!(matches!(
        token::ResponseBody::parse_response(missing_message),
        Err(ApiError::DeserializationError(_))
    ));
    let unknown_code = "{\"rsp_code\":\"O9999\",\"rsp_message\":\"ok\"}";
    assert!(matches!(
        token::ResponseBody::parse_response(unknown_code),
        Err(ApiError::DeserializationError(_))
    ));
    let code_not_a_string = "{\"rsp_code\":0,\"rsp_message\":\"ok\"}";
    assert!(matches!(
        token::ResponseBody::parse_response(code_not_a_string),
        Err(ApiError::DeserializationError(_))
    ));
}

#[test]
fn unknown_fields_are_ignored() {
    let text = "{\"rsp_code\":\"O0000\",\"rsp_message\":\"ok\",\"extra\":12.5e3,\
                \"more\":[true,null,-7]}";
    let body = token::ResponseBody::parse_response(text).unwrap();
    assert_eq!(body.rsp_code, ResponseCode::Success);
}

#[test]
fn expires_in_bounds() {
    let max = "{\"rsp_code\":\"O0000\",\"rsp_message\":\"ok\",\
               \"expires_in\":18446744073709551615}";
    let body = token::ResponseBody::parse_response(max).unwrap();
    assert_eq!(body.expires_in, Some(u64::MAX));

    let too_big = "{\"rsp_code\":\"O0000\",\"rsp_message\":\"ok\",\
                   \"expires_in\":18446744073709551616}";
    assert!(matches!(
        token::ResponseBody::parse_response(too_big),
        Err(ApiError::DeserializationError(_))
    ));

    let fractional =
        "{\"rsp_code\":\"O0000\",\"rsp_message\":\"ok\",\"expires_in\":3600.5}";
    assert!(matches!(
        token::ResponseBody::parse_response(fractional),
        Err(ApiError::DeserializationError(_))
    ));

    let negative = "{\"rsp_code\":\"O0000\",\"rsp_message\":\"ok\",\"expires_in\":-1}";
    assert!(matches!(
        token::ResponseBody::parse_response(negative),
        Err(ApiError::DeserializationError(_))
    ));
}

#[test]
fn string_escapes_are_decoded() {
    let text = "{\"rsp_code\":\"O0000\",\"rsp_message\":\"a\\\"b\\\\c\\nd\\u0041\\uAC00\"}";
    let body = token::ResponseBody::parse_response(text).unwrap();
    assert_eq!(body.rsp_message, "a\"b\\c\ndA\u{AC00}");
}

#[test]
fn lone_surrogate_escape_is_an_error() {
    let text = "{\"rsp_code\":\"O0000\",\"rsp_message\":\"\\uD800\"}";
    assert!(matches!(
        token::ResponseBody::parse_response(text),
        Err(ApiError::DeserializationError(_))
    ));
}

#[test]
fn revoke_response_round() {
    let text = "{\"rsp_code\":\"O0000\",\"rsp_message\":\"done\",\"client_id\":\"id1\",\
                \"access_token\":\"tok\",\"refersh_token\":\"ref\"}";
    let body = revoke::ResponseBody::parse_response(text).unwrap();
    assert_eq!(body.rsp_code, ResponseCode::Success);
    assert_eq!(body.client_id.as_deref(), Some("id1"));
    assert_eq!(body.client_secret, None);
    assert_eq!(body.access_token.as_deref(), Some("tok"));
    assert_eq!(body.refersh_token.as_deref(), Some("ref"));
}

#[test]
fn authorize_response_with_scope_array() {
    let text = "{\"rsp_code\":\"O0000\",\"rsp_message\":\"m\",\"code\":\"c1\",\
                \"scope\":[\"login\",\"transfer\"],\"state\":\"s1\"}";
    let body = authorize::ResponseBody::parse_response(text).unwrap();
    assert_eq!(body.rsp_code, ResponseCode::Success);
    assert_eq!(body.code.as_deref(), Some("c1"));
    assert_eq!(body.scope, Some(vec![Scope::Login, Scope::Transfer]));
    assert_eq!(body.client_info, None);
    assert_eq!(body.state.as_deref(), Some("s1"));
}

#[test]
fn authorize_response_bad_scope_entries() {
    let unknown = "{\"rsp_code\":\"O0000\",\"rsp_message\":\"m\",\"scope\":[\"bogus\"]}";
    assert!(matches!(
        authorize::ResponseBody::parse_response(unknown),
        Err(ApiError::DeserializationError(_))
    ));
    let not_a_string = "{\"rsp_code\":\"O0000\",\"rsp_message\":\"m\",\"scope\":[\"login\",5]}";
    assert!(matches!(
        authorize::ResponseBody::parse_response(not_a_string),
        Err(ApiError::DeserializationError(_))
    ));
    let not_an_array = "{\"rsp_code\":\"O0000\",\"rsp_message\":\"m\",\"scope\":\"login\"}";
    assert!(matches!(
        authorize::ResponseBody::parse_response(not_an_array),
        Err(ApiError::DeserializationError(_))
    ));
}

#[test]
fn authorize_response_empty_scope_array() {
    let text = "{\"rsp_code\":\"O0001\",\"rsp_message\":\"m\",\"scope\":[]}";
    let body = authorize::ResponseBody::parse_response(text).unwrap();
    assert_eq!(body.rsp_code, ResponseCode::ParameterError);
    assert_eq!(body.scope, Some(vec![]));
}

#[test]
fn every_response_code_string_decodes_in_an_envelope() {
    for (idx, variant) in [
        ResponseCode::Success,
        ResponseCode::ParameterError,
        ResponseCode::AccessTokenDenied,
        ResponseCode::AccessTokenExpired,
        ResponseCode::AccessDenied,
        ResponseCode::NotFound,
        ResponseCode::IPDisallowed,
        ResponseCode::NoRoute,
        ResponseCode::AccountPlanLimitReached,
        ResponseCode::ApiPlanLimitReached,
        ResponseCode::WrongMethod,
        ResponseCode::WrongScope,
        ResponseCode::DenialOfService,
        ResponseCode::TooMuchCall,
        ResponseCode::RefreshTokenDenied,
        ResponseCode::RefreshTokenExpired,
    ]
    .into_iter()
    .enumerate()
    {
        let text = format!("{{\"rsp_code\":\"O{:04}\",\"rsp_message\":\"m\"}}", idx);
        let body = token::ResponseBody::parse_response(&text).unwrap();
        assert_eq!(body.rsp_code, variant);
        assert_eq!(body.rsp_code.code(), format!("O{:04}", idx));
    }
}

#[test]
fn own_request_wire_text_parses_back() {
    let text = "{\"rsp_code\":\"O0000\",\"rsp_message\":\"\\u0041 ok\",\"access_token\":\"t\"}";
    let body = token::ResponseBody::parse_response(text).unwrap();
    let echoed = format!(
        "{{\"rsp_code\":\"{}\",\"rsp_message\":\"{}\",\"access_token\":\"{}\"}}",
        body.rsp_code.code(),
        body.rsp_message,
        body.access_token.as_deref().unwrap()
    );
    assert_eq!(echoed, "{\"rsp_code\":\"O0000\",\"rsp_message\":\"A ok\",\"access_token\":\"t\"}");
}
