//! The endpoints of the API and their resolution to absolute URLs.

use vstd::prelude::*;
use vstd::string::*;
use crate::types::HttpMethod;

verus! {

/// Which base host a process talks to: the production platform or the
/// test platform.  All resolution is relative to this one choice.
#[derive(Clone, Copy, Debug, PartialEq, Eq, Structural)]
pub enum Host {
    Production,
    Test,
}

impl Host {
    /// The fixed base URL of this host.
    pub open spec fn spec_base(self) -> Seq<char> {
        match self {
            Host::Production => "https://openapi.openbanking.or.kr"@,
            Host::Test => "https://testapi.openbanking.or.kr"@,
        }
    }

    pub fn base(self) -> (r: &'static str)
        ensures
            r@ == self.spec_base(),
    {
        match self {
            Host::Production => "https://openapi.openbanking.or.kr",
            Host::Test => "https://testapi.openbanking.or.kr",
        }
    }
}

/// One operation of the API: a symbolic name resolving to one absolute URL
/// on the chosen host.
#[derive(Clone, Copy, Debug, PartialEq, Eq, Structural)]
pub enum Endpoint {
    Authorize,
    Token,
    Revoke,
    AuthorizeAccount,
    UserMe,
    UserUnlink,
    AccountList,
    AccountUpdateInfo,
    AccountCancel,
    CardsCancel,
    PaysCancel,
    InsurancesCancel,
    LoansCancel,
    UserClose,
    AccountBalance,
    AccountTransactionList,
    InquiryRealName,
    InquiryRemitList,
    InquiryReceive,
}

impl Endpoint {
    /// The fixed path of this endpoint, exactly as the wire requires it.
    pub open spec fn spec_path(self) -> Seq<char> {
        match self {
            Endpoint::Authorize => "/oauth/2.0/authorize"@,
            Endpoint::Token => "/oauth/2.0/token"@,
            Endpoint::Revoke => "/oauth/2.0/revoke"@,
            Endpoint::AuthorizeAccount => "/oauth/2.0/authorize_account"@,
            Endpoint::UserMe => "/v2.0/user/me"@,
            Endpoint::UserUnlink => "/v2.0/user/unlink"@,
            Endpoint::AccountList => "/v2.0/account/list"@,
            Endpoint::AccountUpdateInfo => "/v2.0/account/update_info"@,
            Endpoint::AccountCancel => "/v2.0/account/cancel"@,
            Endpoint::CardsCancel => "/v2.0/cards/cancel"@,
            Endpoint::PaysCancel => "/v2.0/pays/cancel"@,
            Endpoint::InsurancesCancel => "/v2.0/insurances/cancel"@,
            Endpoint::LoansCancel => "/v2.0/loans/cancel"@,
            Endpoint::UserClose => "/v2.0/user/close"@,
            Endpoint::AccountBalance => "/v2.0/account/balance/fin_num"@,
            Endpoint::AccountTransactionList => "/v2.0/account/transaction_list/fin_num"@,
            Endpoint::InquiryRealName => "/v2.0/inquiry/real_name"@,
            Endpoint::InquiryRemitList => "/v2.0/inquiry/remit_list"@,
            Endpoint::InquiryReceive => "/v2.0/inquiry/receive"@,
        }
    }

    pub fn path(self) -> (r: &'static str)
        ensures
            r@ == self.spec_path(),
    {
        match self {
            Endpoint::Authorize => "/oauth/2.0/authorize",
            Endpoint::Token => "/oauth/2.0/token",
            Endpoint::Revoke => "/oauth/2.0/revoke",
            Endpoint::AuthorizeAccount => "/oauth/2.0/authorize_account",
            Endpoint::UserMe => "/v2.0/user/me",
            Endpoint::UserUnlink => "/v2.0/user/unlink",
            Endpoint::AccountList => "/v2.0/account/list",
            Endpoint::AccountUpdateInfo => "/v2.0/account/update_info",
            Endpoint::AccountCancel => "/v2.0/account/cancel",
            Endpoint::CardsCancel => "/v2.0/cards/cancel",
            Endpoint::PaysCancel => "/v2.0/pays/cancel",
            Endpoint::InsurancesCancel => "/v2.0/insurances/cancel",
            Endpoint::LoansCancel => "/v2.0/loans/cancel",
            Endpoint::UserClose => "/v2.0/user/close",
            Endpoint::AccountBalance => "/v2.0/account/balance/fin_num",
            Endpoint::AccountTransactionList => "/v2.0/account/transaction_list/fin_num",
            Endpoint::InquiryRealName => "/v2.0/inquiry/real_name",
            Endpoint::InquiryRemitList => "/v2.0/inquiry/remit_list",
            Endpoint::InquiryReceive => "/v2.0/inquiry/receive",
        }
    }

    /// The HTTP verb the API documents for this endpoint.
    pub open spec fn spec_method(self) -> HttpMethod {
        match self {
            Endpoint::Authorize => HttpMethod::Get,
            Endpoint::UserMe => HttpMethod::Get,
            Endpoint::AccountList => HttpMethod::Get,
            Endpoint::AccountBalance => HttpMethod::Get,
            Endpoint::AccountTransactionList => HttpMethod::Get,
            _ => HttpMethod::Post,
        }
    }

    pub fn method(self) -> (r: HttpMethod)
        ensures
            r == self.spec_method(),
    {
        match self {
            Endpoint::Authorize => HttpMethod::Get,
            Endpoint::UserMe => HttpMethod::Get,
            Endpoint::AccountList => HttpMethod::Get,
            Endpoint::AccountBalance => HttpMethod::Get,
            Endpoint::AccountTransactionList => HttpMethod::Get,
            _ => HttpMethod::Post,
        }
    }

    /// The absolute URL of this endpoint on the given host: the host's base
    /// followed by the endpoint's fixed path.
    pub open spec fn spec_url(self, host: Host) -> Seq<char> {
        host.spec_base() + self.spec_path()
    }

    /// Resolves this endpoint against a host.  The result is a function of
    /// the two arguments alone, so resolution is deterministic.
    pub fn url(self, host: Host) -> (r: String)
        ensures
            r@ == self.spec_url(host),
    {
        let mut s = String::from_str(host.base());
        s.append(self.path());
        s
    }
}

/// Law: resolution is deterministic.  Equal endpoint and host always give
/// the same URL text.
pub proof fn lemma_url_deterministic(e1: Endpoint, h1: Host, e2: Endpoint, h2: Host)
    requires
        e1 == e2,
        h1 == h2,
    ensures
        e1.spec_url(h1) == e2.spec_url(h2),
{
}

/// Law: on the production host the token endpoint resolves to exactly the
/// documented URL.
pub proof fn lemma_production_token_url()
    ensures
        Endpoint::Token.spec_url(Host::Production)
            == "https://openapi.openbanking.or.kr/oauth/2.0/token"@,
{
    reveal_strlit("https://openapi.openbanking.or.kr");
    reveal_strlit("/oauth/2.0/token");
    reveal_strlit("https://openapi.openbanking.or.kr/oauth/2.0/token");
    assert(Endpoint::Token.spec_url(Host::Production)
        =~= "https://openapi.openbanking.or.kr/oauth/2.0/token"@);
}

} // verus!
