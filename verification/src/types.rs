//! The closed enumerations of the API and their fixed wire codes.

use vstd::prelude::*;
use crate::json::str_eq;

pub mod endpoint;
pub mod oauth;

verus! {

/// The HTTP verb of a call.  The API uses only these two.
#[derive(Clone, Copy, Debug, PartialEq, Eq, Structural)]
pub enum HttpMethod {
    Get,
    Post,
}

/// A named permission category requested during authorization.
#[derive(Clone, Copy, Debug, PartialEq, Eq, Structural)]
pub enum Scope {
    Login,
    Inquiry,
    Transfer,
    CardInfo,
    FintechInfo,
    InsuInfo,
    LoanInfo,
}

impl Scope {
    /// The fixed short-code string of this scope on the wire.
    pub open spec fn spec_code(self) -> Seq<char> {
        match self {
            Scope::Login => "login"@,
            Scope::Inquiry => "inquiry"@,
            Scope::Transfer => "transfer"@,
            Scope::CardInfo => "cardinfo"@,
            Scope::FintechInfo => "fintechinfo"@,
            Scope::InsuInfo => "insuinfo"@,
            Scope::LoanInfo => "loaninfo"@,
        }
    }

    /// The scope a short-code string names, if any.
    pub open spec fn spec_from_code(s: Seq<char>) -> Option<Scope> {
        if s == "login"@ {
            Some(Scope::Login)
        } else if s == "inquiry"@ {
            Some(Scope::Inquiry)
        } else if s == "transfer"@ {
            Some(Scope::Transfer)
        } else if s == "cardinfo"@ {
            Some(Scope::CardInfo)
        } else if s == "fintechinfo"@ {
            Some(Scope::FintechInfo)
        } else if s == "insuinfo"@ {
            Some(Scope::InsuInfo)
        } else if s == "loaninfo"@ {
            Some(Scope::LoanInfo)
        } else {
            None
        }
    }

    pub fn code(self) -> (r: &'static str)
        ensures
            r@ == self.spec_code(),
    {
        match self {
            Scope::Login => "login",
            Scope::Inquiry => "inquiry",
            Scope::Transfer => "transfer",
            Scope::CardInfo => "cardinfo",
            Scope::FintechInfo => "fintechinfo",
            Scope::InsuInfo => "insuinfo",
            Scope::LoanInfo => "loaninfo",
        }
    }

    pub fn from_code(s: &str) -> (r: Option<Scope>)
        ensures
            r == Self::spec_from_code(s@),
    {
        if str_eq(s, "login") {
            Some(Scope::Login)
        } else if str_eq(s, "inquiry") {
            Some(Scope::Inquiry)
        } else if str_eq(s, "transfer") {
            Some(Scope::Transfer)
        } else if str_eq(s, "cardinfo") {
            Some(Scope::CardInfo)
        } else if str_eq(s, "fintechinfo") {
            Some(Scope::FintechInfo)
        } else if str_eq(s, "insuinfo") {
            Some(Scope::InsuInfo)
        } else if str_eq(s, "loaninfo") {
            Some(Scope::LoanInfo)
        } else {
            None
        }
    }
}

/// Law: every scope's code names that scope again, and a string that names
/// a scope is that scope's code, letter for letter.
pub proof fn lemma_scope_code_round_trip(x: Scope, s: Seq<char>)
    ensures
        Scope::spec_from_code(x.spec_code()) == Some(x),
        Scope::spec_from_code(s) matches Some(y) ==> y.spec_code() == s,
{
    reveal_strlit("login");
    reveal_strlit("inquiry");
    reveal_strlit("transfer");
    reveal_strlit("cardinfo");
    reveal_strlit("fintechinfo");
    reveal_strlit("insuinfo");
    reveal_strlit("loaninfo");
    assert("login"@[0] == 'l' && "login"@[2] == 'g');
    assert("inquiry"@[0] == 'i' && "inquiry"@[2] == 'q');
    assert("transfer"@[0] == 't');
    assert("cardinfo"@[0] == 'c');
    assert("fintechinfo"@[0] == 'f');
    assert("insuinfo"@[0] == 'i' && "insuinfo"@[2] == 's');
    assert("loaninfo"@[0] == 'l' && "loaninfo"@[2] == 'a');
}

/// Which user-authentication flow a request asks for: the first-time flow,
/// or the flow that skips authentication for a known user.  On the wire it
/// is an integer: 0 for the first, 2 for the second.
#[derive(Clone, Copy, Debug, PartialEq, Eq, Structural)]
pub enum AuthType {
    First,
    Ignore,
}

impl AuthType {
    /// The digits of this discriminator's fixed wire integer.
    pub open spec fn spec_code(self) -> Seq<char> {
        match self {
            AuthType::First => "0"@,
            AuthType::Ignore => "2"@,
        }
    }

    pub open spec fn spec_from_code(s: Seq<char>) -> Option<AuthType> {
        if s == "0"@ {
            Some(AuthType::First)
        } else if s == "2"@ {
            Some(AuthType::Ignore)
        } else {
            None
        }
    }

    pub fn code(self) -> (r: &'static str)
        ensures
            r@ == self.spec_code(),
    {
        match self {
            AuthType::First => "0",
            AuthType::Ignore => "2",
        }
    }

    pub fn from_code(s: &str) -> (r: Option<AuthType>)
        ensures
            r == Self::spec_from_code(s@),
    {
        if str_eq(s, "0") {
            Some(AuthType::First)
        } else if str_eq(s, "2") {
            Some(AuthType::Ignore)
        } else {
            None
        }
    }
}

/// Law: the authentication-type wire integers round-trip.
pub proof fn lemma_auth_type_code_round_trip(x: AuthType, s: Seq<char>)
    ensures
        AuthType::spec_from_code(x.spec_code()) == Some(x),
        AuthType::spec_from_code(s) matches Some(y) ==> y.spec_code() == s,
{
    reveal_strlit("0");
    reveal_strlit("2");
    assert("0"@[0] == '0' && "2"@[0] == '2');
}

/// The language of user-facing screens.
#[derive(Clone, Copy, Debug, PartialEq, Eq, Structural)]
pub enum Lang {
    Kor,
    Eng,
}

impl Lang {
    pub open spec fn spec_code(self) -> Seq<char> {
        match self {
            Lang::Kor => "kor"@,
            Lang::Eng => "eng"@,
        }
    }

    pub open spec fn spec_from_code(s: Seq<char>) -> Option<Lang> {
        if s == "kor"@ {
            Some(Lang::Kor)
        } else if s == "eng"@ {
            Some(Lang::Eng)
        } else {
            None
        }
    }

    pub fn code(self) -> (r: &'static str)
        ensures
            r@ == self.spec_code(),
    {
        match self {
            Lang::Kor => "kor",
            Lang::Eng => "eng",
        }
    }

    pub fn from_code(s: &str) -> (r: Option<Lang>)
        ensures
            r == Self::spec_from_code(s@),
    {
        if str_eq(s, "kor") {
            Some(Lang::Kor)
        } else if str_eq(s, "eng") {
            Some(Lang::Eng)
        } else {
            None
        }
    }
}

/// Law: the language codes round-trip.
pub proof fn lemma_lang_code_round_trip(x: Lang, s: Seq<char>)
    ensures
        Lang::spec_from_code(x.spec_code()) == Some(x),
        Lang::spec_from_code(s) matches Some(y) ==> y.spec_code() == s,
{
    reveal_strlit("kor");
    reveal_strlit("eng");
    assert("kor"@[0] == 'k' && "eng"@[0] == 'e');
}

/// The category of financial product being registered or queried.
#[derive(Clone, Copy, Debug, PartialEq, Eq, Structural)]
pub enum RegisterKind {
    Account,
    Card,
    Pays,
    Insurance,
    Loan,
}

impl RegisterKind {
    /// The single wire letter of this kind.
    pub open spec fn spec_code(self) -> Seq<char> {
        match self {
            RegisterKind::Account => "A"@,
            RegisterKind::Card => "C"@,
            RegisterKind::Pays => "F"@,
            RegisterKind::Insurance => "I"@,
            RegisterKind::Loan => "L"@,
        }
    }

    pub open spec fn spec_from_code(s: Seq<char>) -> Option<RegisterKind> {
        if s == "A"@ {
            Some(RegisterKind::Account)
        } else if s == "C"@ {
            Some(RegisterKind::Card)
        } else if s == "F"@ {
            Some(RegisterKind::Pays)
        } else if s == "I"@ {
            Some(RegisterKind::Insurance)
        } else if s == "L"@ {
            Some(RegisterKind::Loan)
        } else {
            None
        }
    }

    pub fn code(self) -> (r: &'static str)
        ensures
            r@ == self.spec_code(),
    {
        match self {
            RegisterKind::Account => "A",
            RegisterKind::Card => "C",
            RegisterKind::Pays => "F",
            RegisterKind::Insurance => "I",
            RegisterKind::Loan => "L",
        }
    }

    pub fn from_code(s: &str) -> (r: Option<RegisterKind>)
        ensures
            r == Self::spec_from_code(s@),
    {
        if str_eq(s, "A") {
            Some(RegisterKind::Account)
        } else if str_eq(s, "C") {
            Some(RegisterKind::Card)
        } else if str_eq(s, "F") {
            Some(RegisterKind::Pays)
        } else if str_eq(s, "I") {
            Some(RegisterKind::Insurance)
        } else if str_eq(s, "L") {
            Some(RegisterKind::Loan)
        } else {
            None
        }
    }
}

/// Law: the register-kind letters round-trip.
pub proof fn lemma_register_kind_code_round_trip(x: RegisterKind, s: Seq<char>)
    ensures
        RegisterKind::spec_from_code(x.spec_code()) == Some(x),
        RegisterKind::spec_from_code(s) matches Some(y) ==> y.spec_code() == s,
{
    reveal_strlit("A");
    reveal_strlit("C");
    reveal_strlit("F");
    reveal_strlit("I");
    reveal_strlit("L");
    assert("A"@[0] == 'A' && "C"@[0] == 'C' && "F"@[0] == 'F' && "I"@[0] == 'I' && "L"@[0] == 'L');
}

/// The kind of device a user connects from.
#[derive(Clone, Copy, Debug, PartialEq, Eq, Structural)]
pub enum ClientDeviceType {
    PC,
    Andriod,
    Ios,
}

impl ClientDeviceType {
    pub open spec fn spec_code(self) -> Seq<char> {
        match self {
            ClientDeviceType::PC => "PC"@,
            ClientDeviceType::Andriod => "AD"@,
            ClientDeviceType::Ios => "IO"@,
        }
    }

    pub open spec fn spec_from_code(s: Seq<char>) -> Option<ClientDeviceType> {
        if s == "PC"@ {
            Some(ClientDeviceType::PC)
        } else if s == "AD"@ {
            Some(ClientDeviceType::Andriod)
        } else if s == "IO"@ {
            Some(ClientDeviceType::Ios)
        } else {
            None
        }
    }

    pub fn code(self) -> (r: &'static str)
        ensures
            r@ == self.spec_code(),
    {
        match self {
            ClientDeviceType::PC => "PC",
            ClientDeviceType::Andriod => "AD",
            ClientDeviceType::Ios => "IO",
        }
    }

    pub fn from_code(s: &str) -> (r: Option<ClientDeviceType>)
        ensures
            r == Self::spec_from_code(s@),
    {
        if str_eq(s, "PC") {
            Some(ClientDeviceType::PC)
        } else if str_eq(s, "AD") {
            Some(ClientDeviceType::Andriod)
        } else if str_eq(s, "IO") {
            Some(ClientDeviceType::Ios)
        } else {
            None
        }
    }
}

/// Law: the device-type codes round-trip.
pub proof fn lemma_client_device_type_code_round_trip(x: ClientDeviceType, s: Seq<char>)
    ensures
        ClientDeviceType::spec_from_code(x.spec_code()) == Some(x),
        ClientDeviceType::spec_from_code(s) matches Some(y) ==> y.spec_code() == s,
{
    reveal_strlit("PC");
    reveal_strlit("AD");
    reveal_strlit("IO");
    assert("PC"@[0] == 'P' && "AD"@[0] == 'A' && "IO"@[0] == 'I');
}

} // verus!
