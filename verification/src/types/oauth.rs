//! The response-code enumeration shared by all OAuth responses, and the
//! request and response bodies of the OAuth operations.

use vstd::prelude::*;
use crate::json::str_eq;

pub mod authorize;
pub mod revoke;
pub mod token;

verus! {

/// The semantic outcome of an API call, carried in every response envelope
/// as a fixed five-character code, independent of transport status.
#[derive(Clone, Copy, Debug, PartialEq, Eq, Structural)]
pub enum ResponseCode {
    Success,
    ParameterError,
    AccessTokenDenied,
    AccessTokenExpired,
    AccessDenied,
    NotFound,
    IPDisallowed,
    NoRoute,
    AccountPlanLimitReached,
    ApiPlanLimitReached,
    WrongMethod,
    WrongScope,
    DenialOfService,
    TooMuchCall,
    RefreshTokenDenied,
    RefreshTokenExpired,
}

impl ResponseCode {
    /// The fixed five-character wire code of this outcome.
    pub open spec fn spec_code(self) -> Seq<char> {
        match self {
            ResponseCode::Success => "O0000"@,
            ResponseCode::ParameterError => "O0001"@,
            ResponseCode::AccessTokenDenied => "O0002"@,
            ResponseCode::AccessTokenExpired => "O0003"@,
            ResponseCode::AccessDenied => "O0004"@,
            ResponseCode::NotFound => "O0005"@,
            ResponseCode::IPDisallowed => "O0006"@,
            ResponseCode::NoRoute => "O0007"@,
            ResponseCode::AccountPlanLimitReached => "O0008"@,
            ResponseCode::ApiPlanLimitReached => "O0009"@,
            ResponseCode::WrongMethod => "O0010"@,
            ResponseCode::WrongScope => "O0011"@,
            ResponseCode::DenialOfService => "O0012"@,
            ResponseCode::TooMuchCall => "O0013"@,
            ResponseCode::RefreshTokenDenied => "O0014"@,
            ResponseCode::RefreshTokenExpired => "O0015"@,
        }
    }

    /// The outcome a wire code names, if any.
    pub open spec fn spec_from_code(s: Seq<char>) -> Option<ResponseCode> {
        if s == "O0000"@ {
            Some(ResponseCode::Success)
        } else if s == "O0001"@ {
            Some(ResponseCode::ParameterError)
        } else if s == "O0002"@ {
            Some(ResponseCode::AccessTokenDenied)
        } else if s == "O0003"@ {
            Some(ResponseCode::AccessTokenExpired)
        } else if s == "O0004"@ {
            Some(ResponseCode::AccessDenied)
        } else if s == "O0005"@ {
            Some(ResponseCode::NotFound)
        } else if s == "O0006"@ {
            Some(ResponseCode::IPDisallowed)
        } else if s == "O0007"@ {
            Some(ResponseCode::NoRoute)
        } else if s == "O0008"@ {
            Some(ResponseCode::AccountPlanLimitReached)
        } else if s == "O0009"@ {
            Some(ResponseCode::ApiPlanLimitReached)
        } else if s == "O0010"@ {
            Some(ResponseCode::WrongMethod)
        } else if s == "O0011"@ {
            Some(ResponseCode::WrongScope)
        } else if s == "O0012"@ {
            Some(ResponseCode::DenialOfService)
        } else if s == "O0013"@ {
            Some(ResponseCode::TooMuchCall)
        } else if s == "O0014"@ {
            Some(ResponseCode::RefreshTokenDenied)
        } else if s == "O0015"@ {
            Some(ResponseCode::RefreshTokenExpired)
        } else {
            None
        }
    }

    pub fn code(self) -> (r: &'static str)
        ensures
            r@ == self.spec_code(),
    {
        match self {
            ResponseCode::Success => "O0000",
            ResponseCode::ParameterError => "O0001",
            ResponseCode::AccessTokenDenied => "O0002",
            ResponseCode::AccessTokenExpired => "O0003",
            ResponseCode::AccessDenied => "O0004",
            ResponseCode::NotFound => "O0005",
            ResponseCode::IPDisallowed => "O0006",
            ResponseCode::NoRoute => "O0007",
            ResponseCode::AccountPlanLimitReached => "O0008",
            ResponseCode::ApiPlanLimitReached => "O0009",
            ResponseCode::WrongMethod => "O0010",
            ResponseCode::WrongScope => "O0011",
            ResponseCode::DenialOfService => "O0012",
            ResponseCode::TooMuchCall => "O0013",
            ResponseCode::RefreshTokenDenied => "O0014",
            ResponseCode::RefreshTokenExpired => "O0015",
        }
    }

    pub fn from_code(s: &str) -> (r: Option<ResponseCode>)
        ensures
            r == Self::spec_from_code(s@),
    {
        if str_eq(s, "O0000") {
            Some(ResponseCode::Success)
        } else if str_eq(s, "O0001") {
            Some(ResponseCode::ParameterError)
        } else if str_eq(s, "O0002") {
            Some(ResponseCode::AccessTokenDenied)
        } else if str_eq(s, "O0003") {
            Some(ResponseCode::AccessTokenExpired)
        } else if str_eq(s, "O0004") {
            Some(ResponseCode::AccessDenied)
        } else if str_eq(s, "O0005") {
            Some(ResponseCode::NotFound)
        } else if str_eq(s, "O0006") {
            Some(ResponseCode::IPDisallowed)
        } else if str_eq(s, "O0007") {
            Some(ResponseCode::NoRoute)
        } else if str_eq(s, "O0008") {
            Some(ResponseCode::AccountPlanLimitReached)
        } else if str_eq(s, "O0009") {
            Some(ResponseCode::ApiPlanLimitReached)
        } else if str_eq(s, "O0010") {
            Some(ResponseCode::WrongMethod)
        } else if str_eq(s, "O0011") {
            Some(ResponseCode::WrongScope)
        } else if str_eq(s, "O0012") {
            Some(ResponseCode::DenialOfService)
        } else if str_eq(s, "O0013") {
            Some(ResponseCode::TooMuchCall)
        } else if str_eq(s, "O0014") {
            Some(ResponseCode::RefreshTokenDenied)
        } else if str_eq(s, "O0015") {
            Some(ResponseCode::RefreshTokenExpired)
        } else {
            None
        }
    }
}

/// Law: every declared response-code string names its outcome, and naming
/// an outcome and writing it back yields the identical string.
pub proof fn lemma_response_code_round_trip(x: ResponseCode, s: Seq<char>)
    ensures
        ResponseCode::spec_from_code(x.spec_code()) == Some(x),
        ResponseCode::spec_from_code(s) matches Some(y) ==> y.spec_code() == s,
{
    reveal_strlit("O0000");
    reveal_strlit("O0001");
    reveal_strlit("O0002");
    reveal_strlit("O0003");
    reveal_strlit("O0004");
    reveal_strlit("O0005");
    reveal_strlit("O0006");
    reveal_strlit("O0007");
    reveal_strlit("O0008");
    reveal_strlit("O0009");
    reveal_strlit("O0010");
    reveal_strlit("O0011");
    reveal_strlit("O0012");
    reveal_strlit("O0013");
    reveal_strlit("O0014");
    reveal_strlit("O0015");
    assert("O0000"@[3] == '0' && "O0000"@[4] == '0');
    assert("O0001"@[3] == '0' && "O0001"@[4] == '1');
    assert("O0002"@[3] == '0' && "O0002"@[4] == '2');
    assert("O0003"@[3] == '0' && "O0003"@[4] == '3');
    assert("O0004"@[3] == '0' && "O0004"@[4] == '4');
    assert("O0005"@[3] == '0' && "O0005"@[4] == '5');
    assert("O0006"@[3] == '0' && "O0006"@[4] == '6');
    assert("O0007"@[3] == '0' && "O0007"@[4] == '7');
    assert("O0008"@[3] == '0' && "O0008"@[4] == '8');
    assert("O0009"@[3] == '0' && "O0009"@[4] == '9');
    assert("O0010"@[3] == '1' && "O0010"@[4] == '0');
    assert("O0011"@[3] == '1' && "O0011"@[4] == '1');
    assert("O0012"@[3] == '1' && "O0012"@[4] == '2');
    assert("O0013"@[3] == '1' && "O0013"@[4] == '3');
    assert("O0014"@[3] == '1' && "O0014"@[4] == '4');
    assert("O0015"@[3] == '1' && "O0015"@[4] == '5');
}

} // verus!
