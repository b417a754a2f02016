use openbanking::types::oauth::ResponseCode;
use openbanking::types::{AuthType, ClientDeviceType, Lang, RegisterKind, Scope};

#[test]
fn response_code_round_trip_all() {
    let table: Vec<(ResponseCode, &str)> = vec![
        (ResponseCode::Success, "O0000"),
        (ResponseCode::ParameterError, "O0001"),
        (ResponseCode::AccessTokenDenied, "O0002"),
        (ResponseCode::AccessTokenExpired, "O0003"),
        (ResponseCode::AccessDenied, "O0004"),
        (ResponseCode::NotFound, "O0005"),
        (ResponseCode::IPDisallowed, "O0006"),
        (ResponseCode::NoRoute, "O0007"),
        (ResponseCode::AccountPlanLimitReached, "O0008"),
        (ResponseCode::ApiPlanLimitReached, "O0009"),
        (ResponseCode::WrongMethod, "O0010"),
        (ResponseCode::WrongScope, "O0011"),
        (ResponseCode::DenialOfService, "O0012"),
        (ResponseCode::TooMuchCall, "O0013"),
        (ResponseCode::RefreshTokenDenied, "O0014"),
        (ResponseCode::RefreshTokenExpired, "O0015"),
    ];
    for (variant, code) in table {
        assert_eq!(variant.code(), code);
        assert_eq!(ResponseCode::from_code(code), Some(variant));
        assert_eq!(ResponseCode::from_code(variant.code()), Some(variant));
    }
}

#[test]
fn response_code_unknown_strings() {
    assert_eq!(ResponseCode::from_code("O9999"), None);
    assert_eq!(ResponseCode::from_code("o0000"), None);
    assert_eq!(ResponseCode::from_code(""), None);
    assert_eq!(ResponseCode::from_code("O00000"), None);
}

#[test]
fn scope_round_trip_all() {
    let table: Vec<(Scope, &str)> = vec![
        (Scope::Login, "login"),
        (Scope::Inquiry, "inquiry"),
        (Scope::Transfer, "transfer"),
        (Scope::CardInfo, "cardinfo"),
        (Scope::FintechInfo, "fintechinfo"),
        (Scope::InsuInfo, "insuinfo"),
        (Scope::LoanInfo, "loaninfo"),
    ];
    for (variant, code) in table {
        assert_eq!(variant.code(), code);
        assert_eq!(Scope::from_code(code), Some(variant));
        assert_eq!(Scope::from_code(variant.code()), Some(variant));
    }
    assert_eq!(Scope::from_code("Login"), None);
    assert_eq!(Scope::from_code(""), None);
}

#[test]
fn register_kind_round_trip_all() {
    let table: Vec<(RegisterKind, &str)> = vec![
        (RegisterKind::Account, "A"),
        (RegisterKind::Card, "C"),
        (RegisterKind::Pays, "F"),
        (RegisterKind::Insurance, "I"),
        (RegisterKind::Loan, "L"),
    ];
    for (variant, code) in table {
        assert_eq!(variant.code(), code);
        assert_eq!(RegisterKind::from_code(code), Some(variant));
    }
    assert_eq!(RegisterKind::from_code("B"), None);
    assert_eq!(RegisterKind::from_code("a"), None);
}

#[test]
fn client_device_type_round_trip_all() {
    let table: Vec<(ClientDeviceType, &str)> = vec![
        (ClientDeviceType::PC, "PC"),
        (ClientDeviceType::Andriod, "AD"),
        (ClientDeviceType::Ios, "IO"),
    ];
    for (variant, code) in table {
        assert_eq!(variant.code(), code);
        assert_eq!(ClientDeviceType::from_code(code), Some(variant));
    }
    assert_eq!(ClientDeviceType::from_code("pc"), None);
}

#[test]
fn lang_round_trip_all() {
    assert_eq!(Lang::Kor.code(), "kor");
    assert_eq!(Lang::Eng.code(), "eng");
    assert_eq!(Lang::from_code("kor"), Some(Lang::Kor));
    assert_eq!(Lang::from_code("eng"), Some(Lang::Eng));
    assert_eq!(Lang::from_code("deu"), None);
}

#[test]
fn auth_type_round_trip_all() {
    assert_eq!(AuthType::First.code(), "0");
    assert_eq!(AuthType::Ignore.code(), "2");
    assert_eq!(AuthType::from_code("0"), Some(AuthType::First));
    assert_eq!(AuthType::from_code("2"), Some(AuthType::Ignore));
    assert_eq!(AuthType::from_code("1"), None);
}
