use openbanking::types::HttpMethod;
use openbanking::types::endpoint::{Endpoint, Host};

#[test]
fn production_token_url() {
    assert_eq!(
        Endpoint::Token.url(Host::Production),
        "https://openapi.openbanking.or.kr/oauth/2.0/token"
    );
}

#[test]
fn test_host_urls() {
    assert_eq!(
        Endpoint::Authorize.url(Host::Test),
        "https://testapi.openbanking.or.kr/oauth/2.0/authorize"
    );
    assert_eq!(
        Endpoint::AccountBalance.url(Host::Test),
        "https://testapi.openbanking.or.kr/v2.0/account/balance/fin_num"
    );
}

#[test]
fn production_paths() {
    let table: Vec<(Endpoint, &str)> = vec![
        (Endpoint::Authorize, "/oauth/2.0/authorize"),
        (Endpoint::Token, "/oauth/2.0/token"),
        (Endpoint::Revoke, "/oauth/2.0/revoke"),
        (Endpoint::AuthorizeAccount, "/oauth/2.0/authorize_account"),
        (Endpoint::UserMe, "/v2.0/user/me"),
        (Endpoint::UserUnlink, "/v2.0/user/unlink"),
        (Endpoint::AccountList, "/v2.0/account/list"),
        (Endpoint::AccountUpdateInfo, "/v2.0/account/update_info"),
        (Endpoint::AccountCancel, "/v2.0/account/cancel"),
        (Endpoint::CardsCancel, "/v2.0/cards/cancel"),
        (Endpoint::PaysCancel, "/v2.0/pays/cancel"),
        (Endpoint::InsurancesCancel, "/v2.0/insurances/cancel"),
        (Endpoint::LoansCancel, "/v2.0/loans/cancel"),
        (Endpoint::UserClose, "/v2.0/user/close"),
        (Endpoint::AccountBalance, "/v2.0/account/balance/fin_num"),
        (
            Endpoint::AccountTransactionList,
            "/v2.0/account/transaction_list/fin_num",
        ),
        (Endpoint::InquiryRealName, "/v2.0/inquiry/real_name"),
        (Endpoint::InquiryRemitList, "/v2.0/inquiry/remit_list"),
        (Endpoint::InquiryReceive, "/v2.0/inquiry/receive"),
    ];
    for (endpoint, path) in table {
        assert_eq!(endpoint.path(), path);
        let expected = format!("https://openapi.openbanking.or.kr{}", path);
        assert_eq!(endpoint.url(Host::Production), expected);
    }
}

#[test]
fn resolution_is_deterministic() {
    for endpoint in [Endpoint::Token, Endpoint::UserMe, Endpoint::InquiryReceive] {
        for host in [Host::Production, Host::Test] {
            assert_eq!(endpoint.url(host), endpoint.url(host));
        }
    }
}

#[test]
fn documented_methods() {
    assert_eq!(Endpoint::Authorize.method(), HttpMethod::Get);
    assert_eq!(Endpoint::UserMe.method(), HttpMethod::Get);
    assert_eq!(Endpoint::AccountList.method(), HttpMethod::Get);
    assert_eq!(Endpoint::AccountBalance.method(), HttpMethod::Get);
    assert_eq!(Endpoint::AccountTransactionList.method(), HttpMethod::Get);
    assert_eq!(Endpoint::Token.method(), HttpMethod::Post);
    assert_eq!(Endpoint::Revoke.method(), HttpMethod::Post);
    assert_eq!(Endpoint::AuthorizeAccount.method(), HttpMethod::Post);
    assert_eq!(Endpoint::UserUnlink.method(), HttpMethod::Post);
    assert_eq!(Endpoint::InquiryReceive.method(), HttpMethod::Post);
}
