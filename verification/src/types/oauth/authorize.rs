//! The user-authentication and service-registration operations: the header
//! bag of the skip-authentication flow, the shared request body of the two
//! operations, and their response body.

use vstd::prelude::*;
use vstd::string::*;
use crate::api::HeaderField;
use crate::json::{
    JsonField, JsonFieldV, JsonObject, JsonScalar, JsonScalarV, JsonValue, JsonValueV, dec_rep,
    field_opt_str, field_opt_str_array, field_str, lemma_field_views_props,
    lemma_scalar_views_push, lemma_string_views_props, opt_str_array_field, opt_str_field,
    opt_view, parse_json, parse_text, scalar_views, ser_object, serialize_object, str_field,
    string_views, u64_string,
};
use crate::types::{AuthType, ClientDeviceType, Lang, RegisterKind, Scope};
use crate::types::oauth::ResponseCode;
use crate::ApiError;

verus! {

/// The header bag of the skip-authentication flow: the known user's serial
/// number, the user's connection information, and an access token whose
/// scope covers login.
pub struct Header {
    user_seq_no: String,
    user_connection_info: String,
    access_token: String,
}

/// The model of a skip-authentication header bag.
pub struct HeaderV {
    pub user_seq_no: Seq<char>,
    pub user_connection_info: Seq<char>,
    pub access_token: Seq<char>,
}

impl View for Header {
    type V = HeaderV;

    closed spec fn view(&self) -> HeaderV {
        HeaderV {
            user_seq_no: self.user_seq_no@,
            user_connection_info: self.user_connection_info@,
            access_token: self.access_token@,
        }
    }
}

impl Header {
    pub fn new(user_seq_no: String, user_connection_info: String, access_token: String) -> (r:
        Self)
        ensures
            r@.user_seq_no == user_seq_no@,
            r@.user_connection_info == user_connection_info@,
            r@.access_token == access_token@,
    {
        Self { user_seq_no, user_connection_info, access_token }
    }

    /// The transport fields this bag attaches, under the API's fixed
    /// header names, in order.
    pub fn fields(&self) -> (r: Vec<HeaderField>)
        ensures
            r@.len() == 3,
            r@[0].name@ == "Kftc-Bfop-UserSeqNo"@,
            r@[0].value@ == self@.user_seq_no,
            r@[1].name@ == "Kftc-Bfop-UserCI"@,
            r@[1].value@ == self@.user_connection_info,
            r@[2].name@ == "Kftc-Bfop-AccessToken"@,
            r@[2].value@ == self@.access_token,
    {
        let mut v: Vec<HeaderField> = Vec::new();
        v.push(
            HeaderField {
                name: String::from_str("Kftc-Bfop-UserSeqNo"),
                value: self.user_seq_no.clone(),
            },
        );
        v.push(
            HeaderField {
                name: String::from_str("Kftc-Bfop-UserCI"),
                value: self.user_connection_info.clone(),
            },
        );
        v.push(
            HeaderField {
                name: String::from_str("Kftc-Bfop-AccessToken"),
                value: self.access_token.clone(),
            },
        );
        v
    }
}

/// Request body shared by the user-authentication and the
/// service-registration calls.  The response type is not chosen by the
/// caller: both constructors fix it to the code flow.
pub struct RequestBody {
    response_type: String,
    client_id: String,
    redirect_uri: String,
    scope: Vec<Scope>,
    client_info: Option<Vec<u8>>,
    state: Vec<u8>,
    auth_type: AuthType,
    lang: Option<Lang>,
    cellphone_cert_yn: Option<bool>,
    authorized_cert_yn: Option<bool>,
    account_hold_auth_yn: Option<bool>,
    register_info: Option<RegisterKind>,
    accountinfo_yn: Option<bool>,
    accountinfo_api_tran_id: Option<String>,
    accountinfo_list_num: Option<Vec<i32>>,
    client_device_type: Option<ClientDeviceType>,
    client_device_ip: Option<String>,
    client_device_mac: Option<String>,
    client_device_id: Option<String>,
    client_device_num: Option<String>,
    client_device_version: Option<String>,
}

/// The model of an authorization request body.
pub struct RequestBodyV {
    pub response_type: Seq<char>,
    pub client_id: Seq<char>,
    pub redirect_uri: Seq<char>,
    pub scope: Seq<Scope>,
    pub client_info: Option<Seq<u8>>,
    pub state: Seq<u8>,
    pub auth_type: AuthType,
    pub lang: Option<Lang>,
    pub cellphone_cert_yn: Option<bool>,
    pub authorized_cert_yn: Option<bool>,
    pub account_hold_auth_yn: Option<bool>,
    pub register_info: Option<RegisterKind>,
    pub accountinfo_yn: Option<bool>,
    pub accountinfo_api_tran_id: Option<Seq<char>>,
    pub accountinfo_list_num: Option<Seq<i32>>,
    pub client_device_type: Option<ClientDeviceType>,
    pub client_device_ip: Option<Seq<char>>,
    pub client_device_mac: Option<Seq<char>>,
    pub client_device_id: Option<Seq<char>>,
    pub client_device_num: Option<Seq<char>>,
    pub client_device_version: Option<Seq<char>>,
}

impl View for RequestBody {
    type V = RequestBodyV;

    closed spec fn view(&self) -> RequestBodyV {
        RequestBodyV {
            response_type: self.response_type@,
            client_id: self.client_id@,
            redirect_uri: self.redirect_uri@,
            scope: self.scope@,
            client_info: match self.client_info {
                Some(v) => Some(v@),
                None => None,
            },
            state: self.state@,
            auth_type: self.auth_type,
            lang: self.lang,
            cellphone_cert_yn: self.cellphone_cert_yn,
            authorized_cert_yn: self.authorized_cert_yn,
            account_hold_auth_yn: self.account_hold_auth_yn,
            register_info: self.register_info,
            accountinfo_yn: self.accountinfo_yn,
            accountinfo_api_tran_id: opt_view(self.accountinfo_api_tran_id),
            accountinfo_list_num: match self.accountinfo_list_num {
                Some(v) => Some(v@),
                None => None,
            },
            client_device_type: self.client_device_type,
            client_device_ip: opt_view(self.client_device_ip),
            client_device_mac: opt_view(self.client_device_mac),
            client_device_id: opt_view(self.client_device_id),
            client_device_num: opt_view(self.client_device_num),
            client_device_version: opt_view(self.client_device_version),
        }
    }
}

impl RequestBody {
    /// A user-authentication request.  The response type is set to the
    /// fixed wire value of the code flow.
    pub fn new_authorize(
        client_id: String,
        redirect_uri: String,
        scope: Vec<Scope>,
        client_info: Option<Vec<u8>>,
        state: Vec<u8>,
        auth_type: AuthType,
        lang: Option<Lang>,
        cellphone_cert_yn: Option<bool>,
        authorized_cert_yn: Option<bool>,
        account_hold_auth_yn: Option<bool>,
        register_info: Option<RegisterKind>,
        accountinfo_yn: Option<bool>,
        accountinfo_api_tran_id: Option<String>,
        accountinfo_list_num: Option<Vec<i32>>,
        client_device_type: Option<ClientDeviceType>,
        client_device_ip: Option<String>,
        client_device_mac: Option<String>,
        client_device_id: Option<String>,
        client_device_num: Option<String>,
        client_device_version: Option<String>,
    ) -> (r: Self)
        ensures
            r@.response_type == "code"@,
            r@.client_id == client_id@,
            r@.redirect_uri == redirect_uri@,
            r@.scope == scope@,
            r@.client_info == (match client_info {
                Some(v) => Some(v@),
                None => None::<Seq<u8>>,
            }),
            r@.state == state@,
            r@.auth_type == auth_type,
            r@.lang == lang,
            r@.cellphone_cert_yn == cellphone_cert_yn,
            r@.authorized_cert_yn == authorized_cert_yn,
            r@.account_hold_auth_yn == account_hold_auth_yn,
            r@.register_info == register_info,
            r@.accountinfo_yn == accountinfo_yn,
            r@.accountinfo_api_tran_id == opt_view(accountinfo_api_tran_id),
            r@.accountinfo_list_num == (match accountinfo_list_num {
                Some(v) => Some(v@),
                None => None::<Seq<i32>>,
            }),
            r@.client_device_type == client_device_type,
            r@.client_device_ip == opt_view(client_device_ip),
            r@.client_device_mac == opt_view(client_device_mac),
            r@.client_device_id == opt_view(client_device_id),
            r@.client_device_num == opt_view(client_device_num),
            r@.client_device_version == opt_view(client_device_version),
    {
        Self {
            response_type: String::from_str("code"),
            client_id,
            redirect_uri,
            scope,
            client_info,
            state,
            auth_type,
            lang,
            cellphone_cert_yn,
            authorized_cert_yn,
            account_hold_auth_yn,
            register_info,
            accountinfo_yn,
            accountinfo_api_tran_id,
            accountinfo_list_num,
            client_device_type,
            client_device_ip,
            client_device_mac,
            client_device_id,
            client_device_num,
            client_device_version,
        }
    }

    /// A service-registration request.  The response type is set to the
    /// fixed wire value of the code flow, and the fields the operation does
    /// not take are absent.
    pub fn new_authorize_account(
        client_id: String,
        redirect_uri: String,
        scope: Vec<Scope>,
        client_info: Option<Vec<u8>>,
        state: Vec<u8>,
        auth_type: AuthType,
        lang: Option<Lang>,
        cellphone_cert_yn: Option<bool>,
        authorized_cert_yn: Option<bool>,
        register_info: Option<RegisterKind>,
    ) -> (r: Self)
        ensures
            r@.response_type == "code"@,
            r@.client_id == client_id@,
            r@.redirect_uri == redirect_uri@,
            r@.scope == scope@,
            r@.client_info == (match client_info {
                Some(v) => Some(v@),
                None => None::<Seq<u8>>,
            }),
            r@.state == state@,
            r@.auth_type == auth_type,
            r@.lang == lang,
            r@.cellphone_cert_yn == cellphone_cert_yn,
            r@.authorized_cert_yn == authorized_cert_yn,
            r@.account_hold_auth_yn is None,
            r@.register_info == register_info,
            r@.accountinfo_yn is None,
            r@.accountinfo_api_tran_id is None,
            r@.accountinfo_list_num is None,
            r@.client_device_type is None,
            r@.client_device_ip is None,
            r@.client_device_mac is None,
            r@.client_device_id is None,
            r@.client_device_num is None,
            r@.client_device_version is None,
    {
        Self {
            response_type: String::from_str("code"),
            client_id,
            redirect_uri,
            scope,
            client_info,
            state,
            auth_type,
            lang,
            cellphone_cert_yn,
            authorized_cert_yn,
            account_hold_auth_yn: None,
            register_info,
            accountinfo_yn: None,
            accountinfo_api_tran_id: None,
            accountinfo_list_num: None,
            client_device_type: None,
            client_device_ip: None,
            client_device_mac: None,
            client_device_id: None,
            client_device_num: None,
            client_device_version: None,
        }
    }
}

/// The scopes a sequence of short-code strings names, when every one of
/// them names a scope.
pub open spec fn scopes_of(ss: Seq<Seq<char>>) -> Option<Seq<Scope>>
    decreases ss.len(),
{
    if ss.len() == 0 {
        Some(Seq::empty())
    } else {
        match Scope::spec_from_code(ss[0]) {
            None => None,
            Some(x) => match scopes_of(ss.drop_first()) {
                None => None,
                Some(rest) => Some(seq![x] + rest),
            },
        }
    }
}

proof fn lemma_scopes_of_props(ss: Seq<Seq<char>>)
    ensures
        (scopes_of(ss) is Some) <==> (forall|k: int|
            0 <= k < ss.len() ==> Scope::spec_from_code(#[trigger] ss[k]) is Some),
        scopes_of(ss) matches Some(xs) ==> xs.len() == ss.len() && (forall|k: int|
            0 <= k < ss.len() ==> #[trigger] xs[k] == Scope::spec_from_code(ss[k]).unwrap()),
    decreases ss.len(),
{
    if ss.len() > 0 {
        lemma_scopes_of_props(ss.drop_first());
        if Scope::spec_from_code(ss[0]) is Some && scopes_of(ss.drop_first()) is Some {
            let rest = scopes_of(ss.drop_first()).unwrap();
            assert forall|k: int|
                0 <= k < ss.len() implies Scope::spec_from_code(#[trigger] ss[k]) is Some by {
                if k > 0 {
                    assert(Scope::spec_from_code(ss.drop_first()[k - 1]) is Some);
                }
            }
            assert forall|k: int|
                0 <= k < ss.len() implies #[trigger] scopes_of(ss).unwrap()[k]
                == Scope::spec_from_code(ss[k]).unwrap() by {
                if k > 0 {
                    assert(rest[k - 1] == Scope::spec_from_code(ss.drop_first()[k - 1]).unwrap());
                }
            }
        } else {
            if Scope::spec_from_code(ss[0]) is Some {
                let j = choose|j: int|
                    0 <= j < ss.drop_first().len() && !(Scope::spec_from_code(
                        #[trigger] ss.drop_first()[j],
                    ) is Some);
                assert(ss[j + 1] == ss.drop_first()[j]);
            }
        }
    }
}

fn decode_scopes(v: &Vec<String>) -> (r: Option<Vec<Scope>>)
    ensures
        match scopes_of(string_views(v@)) {
            Some(xs) => r matches Some(rv) && rv@ == xs,
            None => r is None,
        },
{
    proof {
        lemma_string_views_props(v@);
        lemma_scopes_of_props(string_views(v@));
    }
    let mut out: Vec<Scope> = Vec::new();
    let n = v.len();
    let mut i: usize = 0;
    while i < n
        invariant
            n == v@.len(),
            string_views(v@).len() == n,
            forall|k: int| 0 <= k < n ==> string_views(v@)[k] == v@[k]@,
            i <= n,
            out@.len() == i,
            forall|k: int|
                0 <= k < i ==> Scope::spec_from_code(#[trigger] string_views(v@)[k]) is Some,
            forall|k: int|
                0 <= k < i ==> #[trigger] out@[k] == Scope::spec_from_code(
                    string_views(v@)[k],
                ).unwrap(),
        decreases n - i,
    {
        match Scope::from_code(v[i].as_str()) {
            Some(x) => {
                out.push(x);
            },
            None => {
                proof {
                    if scopes_of(string_views(v@)) is Some {
                        lemma_scopes_of_props(string_views(v@));
                        assert(Scope::spec_from_code(string_views(v@)[i as int]) is Some);
                    }
                }
                return None;
            },
        }
        i = i + 1;
    }
    proof {
        if scopes_of(string_views(v@)) is Some {
            lemma_scopes_of_props(string_views(v@));
            assert(out@ =~= scopes_of(string_views(v@)).unwrap());
        } else {
            lemma_scopes_of_props(string_views(v@));
            let j = choose|j: int|
                0 <= j < n && !(Scope::spec_from_code(#[trigger] string_views(v@)[j]) is Some);
            assert(Scope::spec_from_code(string_views(v@)[j]) is Some);
        }
    }
    Some(out)
}

/// Response body of the two authorization calls, as the platform delivers
/// it to the callback: the envelope's code and message, and on success the
/// authorization code and what the caller supplied.
pub struct ResponseBody {
    pub rsp_code: ResponseCode,
    pub rsp_message: String,
    pub code: Option<String>,
    pub scope: Option<Vec<Scope>>,
    pub client_info: Option<String>,
    pub state: Option<String>,
}

/// The model of an authorization response body.
pub struct ResponseBodyV {
    pub rsp_code: ResponseCode,
    pub rsp_message: Seq<char>,
    pub code: Option<Seq<char>>,
    pub scope: Option<Seq<Scope>>,
    pub client_info: Option<Seq<char>>,
    pub state: Option<Seq<char>>,
}

impl View for ResponseBody {
    type V = ResponseBodyV;

    open spec fn view(&self) -> ResponseBodyV {
        ResponseBodyV {
            rsp_code: self.rsp_code,
            rsp_message: self.rsp_message@,
            code: opt_view(self.code),
            scope: match self.scope {
                Some(v) => Some(v@),
                None => None,
            },
            client_info: opt_view(self.client_info),
            state: opt_view(self.state),
        }
    }
}

impl ResponseBodyV {
    /// What a parsed response object denotes as an authorization response.
    pub open spec fn spec_decode(fs: Seq<JsonFieldV>) -> Option<ResponseBodyV> {
        match str_field(fs, "rsp_code"@) {
            None => None,
            Some(code_s) => match ResponseCode::spec_from_code(code_s) {
                None => None,
                Some(rsp_code) => match str_field(fs, "rsp_message"@) {
                    None => None,
                    Some(rsp_message) => match opt_str_field(fs, "code"@) {
                        None => None,
                        Some(code) => match opt_str_array_field(fs, "scope"@) {
                            None => None,
                            Some(scope_ss) => {
                                let scope = match scope_ss {
                                    None => Some(None::<Seq<Scope>>),
                                    Some(ss) => match scopes_of(ss) {
                                        None => None,
                                        Some(xs) => Some(Some(xs)),
                                    },
                                };
                                match scope {
                                    None => None,
                                    Some(scope) => match opt_str_field(fs, "client_info"@) {
                                        None => None,
                                        Some(client_info) => match opt_str_field(fs, "state"@) {
                                            None => None,
                                            Some(state) => Some(
                                                ResponseBodyV {
                                                    rsp_code,
                                                    rsp_message,
                                                    code,
                                                    scope,
                                                    client_info,
                                                    state,
                                                },
                                            ),
                                        },
                                    },
                                }
                            },
                        },
                    },
                },
            },
        }
    }

    /// What a whole response text denotes as an authorization response.
    pub open spec fn spec_parse(s: Seq<char>) -> Option<ResponseBodyV> {
        match parse_text(s) {
            None => None,
            Some(fs) => Self::spec_decode(fs),
        }
    }
}

impl ResponseBody {
    /// Parses a response text into an authorization response.  Exactly the
    /// texts the model decodes are accepted; every other text is reported
    /// as a deserialization failure, never a panic and never a default.
    pub fn parse_response(s: &str) -> (r: Result<ResponseBody, ApiError>)
        ensures
            match ResponseBodyV::spec_parse(s@) {
                Some(v) => r matches Ok(b) && b@ == v,
                None => r matches Err(e) && e is DeserializationError,
            },
    {
        let obj = match parse_json(s) {
            Some(o) => o,
            None => {
                return Err(
                    ApiError::DeserializationError(
                        String::from_str("response text is not a JSON object"),
                    ),
                );
            },
        };
        let code_s = match field_str(&obj, "rsp_code") {
            Some(x) => x,
            None => {
                return Err(
                    ApiError::DeserializationError(String::from_str("rsp_code is missing")),
                );
            },
        };
        let rsp_code = match ResponseCode::from_code(code_s.as_str()) {
            Some(c) => c,
            None => {
                return Err(
                    ApiError::DeserializationError(String::from_str("rsp_code is unknown")),
                );
            },
        };
        let rsp_message = match field_str(&obj, "rsp_message") {
            Some(x) => x,
            None => {
                return Err(
                    ApiError::DeserializationError(String::from_str("rsp_message is missing")),
                );
            },
        };
        let code = match field_opt_str(&obj, "code") {
            Some(x) => x,
            None => {
                return Err(ApiError::DeserializationError(String::from_str("code is malformed")));
            },
        };
        let scope = match field_opt_str_array(&obj, "scope") {
            Some(None) => None,
            Some(Some(ss)) => match decode_scopes(&ss) {
                Some(xs) => Some(xs),
                None => {
                    return Err(
                        ApiError::DeserializationError(String::from_str("scope is unknown")),
                    );
                },
            },
            None => {
                return Err(
                    ApiError::DeserializationError(String::from_str("scope is malformed")),
                );
            },
        };
        let client_info = match field_opt_str(&obj, "client_info") {
            Some(x) => x,
            None => {
                return Err(
                    ApiError::DeserializationError(String::from_str("client_info is malformed")),
                );
            },
        };
        let state = match field_opt_str(&obj, "state") {
            Some(x) => x,
            None => {
                return Err(
                    ApiError::DeserializationError(String::from_str("state is malformed")),
                );
            },
        };
        Ok(ResponseBody { rsp_code, rsp_message, code, scope, client_info, state })
    }
}


/// The wire scalars of a scope list: each scope's short code as a string.
pub open spec fn scope_scalars(ss: Seq<Scope>) -> Seq<JsonScalarV>
    decreases ss.len(),
{
    if ss.len() == 0 {
        Seq::empty()
    } else {
        seq![JsonScalarV::Str(ss[0].spec_code())] + scope_scalars(ss.drop_first())
    }
}

/// The wire scalars of a byte list: each byte as an unsigned number.
pub open spec fn byte_scalars(bs: Seq<u8>) -> Seq<JsonScalarV>
    decreases bs.len(),
{
    if bs.len() == 0 {
        Seq::empty()
    } else {
        seq![JsonScalarV::Num { neg: false, digits: dec_rep(bs[0] as nat) }] + byte_scalars(
            bs.drop_first(),
        )
    }
}

/// The magnitude of a signed 32-bit integer.
pub open spec fn i32_abs(v: i32) -> nat {
    if v < 0 {
        (-(v as int)) as nat
    } else {
        v as nat
    }
}

/// The wire scalars of a signed integer list.
pub open spec fn i32_scalars(vs: Seq<i32>) -> Seq<JsonScalarV>
    decreases vs.len(),
{
    if vs.len() == 0 {
        Seq::empty()
    } else {
        seq![JsonScalarV::Num { neg: vs[0] < 0, digits: dec_rep(i32_abs(vs[0])) }] + i32_scalars(
            vs.drop_first(),
        )
    }
}

/// The wire scalar of an optional string: null when absent.
pub open spec fn opt_str_scalar(o: Option<Seq<char>>) -> JsonScalarV {
    match o {
        None => JsonScalarV::Null,
        Some(s) => JsonScalarV::Str(s),
    }
}

/// The wire scalar of an optional flag: null when absent.
pub open spec fn opt_bool_scalar(o: Option<bool>) -> JsonScalarV {
    match o {
        None => JsonScalarV::Null,
        Some(b) => JsonScalarV::Bool(b),
    }
}

proof fn lemma_scope_scalars_props(ss: Seq<Scope>)
    ensures
        scope_scalars(ss).len() == ss.len(),
        forall|k: int|
            0 <= k < ss.len() ==> scope_scalars(ss)[k] == JsonScalarV::Str(ss[k].spec_code()),
    decreases ss.len(),
{
    if ss.len() > 0 {
        lemma_scope_scalars_props(ss.drop_first());
    }
}

proof fn lemma_byte_scalars_props(bs: Seq<u8>)
    ensures
        byte_scalars(bs).len() == bs.len(),
        forall|k: int|
            0 <= k < bs.len() ==> byte_scalars(bs)[k] == (JsonScalarV::Num {
                neg: false,
                digits: dec_rep(bs[k] as nat),
            }),
    decreases bs.len(),
{
    if bs.len() > 0 {
        lemma_byte_scalars_props(bs.drop_first());
    }
}

proof fn lemma_i32_scalars_props(vs: Seq<i32>)
    ensures
        i32_scalars(vs).len() == vs.len(),
        forall|k: int|
            0 <= k < vs.len() ==> i32_scalars(vs)[k] == (JsonScalarV::Num {
                neg: vs[k] < 0,
                digits: dec_rep(i32_abs(vs[k])),
            }),
    decreases vs.len(),
{
    if vs.len() > 0 {
        lemma_i32_scalars_props(vs.drop_first());
    }
}

fn scope_array(ss: &Vec<Scope>) -> (r: JsonValue)
    ensures
        r@ == JsonValueV::Array(scope_scalars(ss@)),
{
    proof {
        lemma_scope_scalars_props(ss@);
    }
    let mut items: Vec<JsonScalar> = Vec::new();
    let n = ss.len();
    let mut i: usize = 0;
    while i < n
        invariant
            n == ss@.len(),
            i <= n,
            scope_scalars(ss@).len() == n,
            forall|k: int|
                0 <= k < n ==> scope_scalars(ss@)[k] == JsonScalarV::Str(ss@[k].spec_code()),
            scalar_views(items@) == scope_scalars(ss@).take(i as int),
        decreases n - i,
    {
        let ghost pre = items@;
        let v = JsonScalar::Str(String::from_str(ss[i].code()));
        items.push(v);
        proof {
            lemma_scalar_views_push(pre, v);
            assert(scalar_views(items@) =~= scope_scalars(ss@).take(i + 1));
        }
        i = i + 1;
    }
    proof {
        assert(scope_scalars(ss@).take(n as int) =~= scope_scalars(ss@));
    }
    JsonValue::Array(items)
}

fn byte_array(bs: &Vec<u8>) -> (r: JsonValue)
    ensures
        r@ == JsonValueV::Array(byte_scalars(bs@)),
{
    proof {
        lemma_byte_scalars_props(bs@);
    }
    let mut items: Vec<JsonScalar> = Vec::new();
    let n = bs.len();
    let mut i: usize = 0;
    while i < n
        invariant
            n == bs@.len(),
            i <= n,
            byte_scalars(bs@).len() == n,
            forall|k: int|
                0 <= k < n ==> byte_scalars(bs@)[k] == (JsonScalarV::Num {
                    neg: false,
                    digits: dec_rep(bs@[k] as nat),
                }),
            scalar_views(items@) == byte_scalars(bs@).take(i as int),
        decreases n - i,
    {
        let ghost pre = items@;
        let v = JsonScalar::Num(false, u64_string(bs[i] as u64));
        items.push(v);
        proof {
            lemma_scalar_views_push(pre, v);
            assert(scalar_views(items@) =~= byte_scalars(bs@).take(i + 1));
        }
        i = i + 1;
    }
    proof {
        assert(byte_scalars(bs@).take(n as int) =~= byte_scalars(bs@));
    }
    JsonValue::Array(items)
}

fn i32_array(vs: &Vec<i32>) -> (r: JsonValue)
    ensures
        r@ == JsonValueV::Array(i32_scalars(vs@)),
{
    proof {
        lemma_i32_scalars_props(vs@);
    }
    let mut items: Vec<JsonScalar> = Vec::new();
    let n = vs.len();
    let mut i: usize = 0;
    while i < n
        invariant
            n == vs@.len(),
            i <= n,
            i32_scalars(vs@).len() == n,
            forall|k: int|
                0 <= k < n ==> i32_scalars(vs@)[k] == (JsonScalarV::Num {
                    neg: vs@[k] < 0,
                    digits: dec_rep(i32_abs(vs@[k])),
                }),
            scalar_views(items@) == i32_scalars(vs@).take(i as int),
        decreases n - i,
    {
        let ghost pre = items@;
        let x = vs[i];
        let neg = x < 0;
        let mag: u64 = if x < 0 {
            (-(x as i64)) as u64
        } else {
            x as u64
        };
        proof {
            assert(mag as nat == i32_abs(vs@[i as int]));
        }
        let v = JsonScalar::Num(neg, u64_string(mag));
        items.push(v);
        proof {
            lemma_scalar_views_push(pre, v);
            assert(scalar_views(items@) =~= i32_scalars(vs@).take(i + 1));
        }
        i = i + 1;
    }
    proof {
        assert(i32_scalars(vs@).take(n as int) =~= i32_scalars(vs@));
    }
    JsonValue::Array(items)
}

fn opt_string_scalar(o: &Option<String>) -> (r: JsonScalar)
    ensures
        r@ == opt_str_scalar(opt_view(*o)),
{
    match o {
        None => JsonScalar::Null,
        Some(s) => JsonScalar::Str(s.clone()),
    }
}

fn opt_bool_scalar_exec(o: &Option<bool>) -> (r: JsonScalar)
    ensures
        r@ == opt_bool_scalar(*o),
{
    match o {
        None => JsonScalar::Null,
        Some(b) => JsonScalar::Bool(*b),
    }
}

impl RequestBodyV {
    /// The fields of this body on the wire, in order: every field of the
    /// schema, with null standing for each absent optional part.
    pub open spec fn json_fields(self) -> Seq<JsonFieldV> {
        seq![
            JsonFieldV {
                name: "response_type"@,
                value: JsonValueV::Scalar(JsonScalarV::Str(self.response_type)),
            },
            JsonFieldV {
                name: "client_id"@,
                value: JsonValueV::Scalar(JsonScalarV::Str(self.client_id)),
            },
            JsonFieldV {
                name: "redirect_uri"@,
                value: JsonValueV::Scalar(JsonScalarV::Str(self.redirect_uri)),
            },
            JsonFieldV { name: "scope"@, value: JsonValueV::Array(scope_scalars(self.scope)) },
            JsonFieldV {
                name: "client_info"@,
                value: match self.client_info {
                    None => JsonValueV::Scalar(JsonScalarV::Null),
                    Some(bs) => JsonValueV::Array(byte_scalars(bs)),
                },
            },
            JsonFieldV { name: "state"@, value: JsonValueV::Array(byte_scalars(self.state)) },
            JsonFieldV {
                name: "auth_type"@,
                value: JsonValueV::Scalar(
                    JsonScalarV::Num { neg: false, digits: self.auth_type.spec_code() },
                ),
            },
            JsonFieldV {
                name: "lang"@,
                value: JsonValueV::Scalar(
                    match self.lang {
                        None => JsonScalarV::Null,
                        Some(l) => JsonScalarV::Str(l.spec_code()),
                    },
                ),
            },
            JsonFieldV {
                name: "cellphone_cert_yn"@,
                value: JsonValueV::Scalar(opt_bool_scalar(self.cellphone_cert_yn)),
            },
            JsonFieldV {
                name: "authorized_cert_yn"@,
                value: JsonValueV::Scalar(opt_bool_scalar(self.authorized_cert_yn)),
            },
            JsonFieldV {
                name: "account_hold_auth_yn"@,
                value: JsonValueV::Scalar(opt_bool_scalar(self.account_hold_auth_yn)),
            },
            JsonFieldV {
                name: "register_info"@,
                value: JsonValueV::Scalar(
                    match self.register_info {
                        None => JsonScalarV::Null,
                        Some(k) => JsonScalarV::Str(k.spec_code()),
                    },
                ),
            },
            JsonFieldV {
                name: "accountinfo_yn"@,
                value: JsonValueV::Scalar(opt_bool_scalar(self.accountinfo_yn)),
            },
            JsonFieldV {
                name: "accountinfo_api_tran_id"@,
                value: JsonValueV::Scalar(opt_str_scalar(self.accountinfo_api_tran_id)),
            },
            JsonFieldV {
                name: "accountinfo_list_num"@,
                value: match self.accountinfo_list_num {
                    None => JsonValueV::Scalar(JsonScalarV::Null),
                    Some(vs) => JsonValueV::Array(i32_scalars(vs)),
                },
            },
            JsonFieldV {
                name: "client_device_type"@,
                value: JsonValueV::Scalar(
                    match self.client_device_type {
                        None => JsonScalarV::Null,
                        Some(t) => JsonScalarV::Str(t.spec_code()),
                    },
                ),
            },
            JsonFieldV {
                name: "client_device_ip"@,
                value: JsonValueV::Scalar(opt_str_scalar(self.client_device_ip)),
            },
            JsonFieldV {
                name: "client_device_mac"@,
                value: JsonValueV::Scalar(opt_str_scalar(self.client_device_mac)),
            },
            JsonFieldV {
                name: "client_device_id"@,
                value: JsonValueV::Scalar(opt_str_scalar(self.client_device_id)),
            },
            JsonFieldV {
                name: "client_device_num"@,
                value: JsonValueV::Scalar(opt_str_scalar(self.client_device_num)),
            },
            JsonFieldV {
                name: "client_device_version"@,
                value: JsonValueV::Scalar(opt_str_scalar(self.client_device_version)),
            },
        ]
    }

    /// The JSON text of this body.
    pub open spec fn spec_json(self) -> Seq<char> {
        ser_object(self.json_fields())
    }
}

impl RequestBody {
    /// Serializes this body to its wire text.
    #[verifier::rlimit(60)]
    pub fn to_json(&self) -> (r: String)
        ensures
            r@ == self@.spec_json(),
    {
        let mut fields: Vec<JsonField> = Vec::new();
        fields.push(
            JsonField {
                name: String::from_str("response_type"),
                value: JsonValue::Scalar(JsonScalar::Str(self.response_type.clone())),
            },
        );
        fields.push(
            JsonField {
                name: String::from_str("client_id"),
                value: JsonValue::Scalar(JsonScalar::Str(self.client_id.clone())),
            },
        );
        fields.push(
            JsonField {
                name: String::from_str("redirect_uri"),
                value: JsonValue::Scalar(JsonScalar::Str(self.redirect_uri.clone())),
            },
        );
        fields.push(
            JsonField { name: String::from_str("scope"), value: scope_array(&self.scope) },
        );
        fields.push(
            JsonField {
                name: String::from_str("client_info"),
                value: match &self.client_info {
                    None => JsonValue::Scalar(JsonScalar::Null),
                    Some(bs) => byte_array(bs),
                },
            },
        );
        fields.push(
            JsonField { name: String::from_str("state"), value: byte_array(&self.state) },
        );
        fields.push(
            JsonField {
                name: String::from_str("auth_type"),
                value: JsonValue::Scalar(
                    JsonScalar::Num(false, String::from_str(self.auth_type.code())),
                ),
            },
        );
        fields.push(
            JsonField {
                name: String::from_str("lang"),
                value: JsonValue::Scalar(
                    match self.lang {
                        None => JsonScalar::Null,
                        Some(l) => JsonScalar::Str(String::from_str(l.code())),
                    },
                ),
            },
        );
        fields.push(
            JsonField {
                name: String::from_str("cellphone_cert_yn"),
                value: JsonValue::Scalar(opt_bool_scalar_exec(&self.cellphone_cert_yn)),
            },
        );
        fields.push(
            JsonField {
                name: String::from_str("authorized_cert_yn"),
                value: JsonValue::Scalar(opt_bool_scalar_exec(&self.authorized_cert_yn)),
            },
        );
        fields.push(
            JsonField {
                name: String::from_str("account_hold_auth_yn"),
                value: JsonValue::Scalar(opt_bool_scalar_exec(&self.account_hold_auth_yn)),
            },
        );
        fields.push(
            JsonField {
                name: String::from_str("register_info"),
                value: JsonValue::Scalar(
                    match self.register_info {
                        None => JsonScalar::Null,
                        Some(k) => JsonScalar::Str(String::from_str(k.code())),
                    },
                ),
            },
        );
        fields.push(
            JsonField {
                name: String::from_str("accountinfo_yn"),
                value: JsonValue::Scalar(opt_bool_scalar_exec(&self.accountinfo_yn)),
            },
        );
        fields.push(
            JsonField {
                name: String::from_str("accountinfo_api_tran_id"),
                value: JsonValue::Scalar(opt_string_scalar(&self.accountinfo_api_tran_id)),
            },
        );
        fields.push(
            JsonField {
                name: String::from_str("accountinfo_list_num"),
                value: match &self.accountinfo_list_num {
                    None => JsonValue::Scalar(JsonScalar::Null),
                    Some(vs) => i32_array(vs),
                },
            },
        );
        fields.push(
            JsonField {
                name: String::from_str("client_device_type"),
                value: JsonValue::Scalar(
                    match self.client_device_type {
                        None => JsonScalar::Null,
                        Some(t) => JsonScalar::Str(String::from_str(t.code())),
                    },
                ),
            },
        );
        fields.push(
            JsonField {
                name: String::from_str("client_device_ip"),
                value: JsonValue::Scalar(opt_string_scalar(&self.client_device_ip)),
            },
        );
        fields.push(
            JsonField {
                name: String::from_str("client_device_mac"),
                value: JsonValue::Scalar(opt_string_scalar(&self.client_device_mac)),
            },
        );
        fields.push(
            JsonField {
                name: String::from_str("client_device_id"),
                value: JsonValue::Scalar(opt_string_scalar(&self.client_device_id)),
            },
        );
        fields.push(
            JsonField {
                name: String::from_str("client_device_num"),
                value: JsonValue::Scalar(opt_string_scalar(&self.client_device_num)),
            },
        );
        fields.push(
            JsonField {
                name: String::from_str("client_device_version"),
                value: JsonValue::Scalar(opt_string_scalar(&self.client_device_version)),
            },
        );
        let obj = JsonObject { fields };
        proof {
            lemma_field_views_props(obj.fields@);
            assert(obj@ =~= self@.json_fields());
        }
        serialize_object(&obj)
    }
}

} // verus!

verus! {

proof fn lemma_scope_scalars_wf(ss: Seq<Scope>)
    ensures
        forall|j: int|
            0 <= j < scope_scalars(ss).len() ==> crate::json::wf_scalar(
                #[trigger] scope_scalars(ss)[j],
            ),
{
    lemma_scope_scalars_props(ss);
}

proof fn lemma_byte_scalars_wf(bs: Seq<u8>)
    ensures
        forall|j: int|
            0 <= j < byte_scalars(bs).len() ==> crate::json::wf_scalar(
                #[trigger] byte_scalars(bs)[j],
            ),
{
    lemma_byte_scalars_props(bs);
    assert forall|j: int|
        0 <= j < byte_scalars(bs).len() implies crate::json::wf_scalar(
        #[trigger] byte_scalars(bs)[j],
    ) by {
        crate::json::lemma_dec_rep_wf(bs[j] as nat);
    }
}

proof fn lemma_i32_scalars_wf(vs: Seq<i32>)
    ensures
        forall|j: int|
            0 <= j < i32_scalars(vs).len() ==> crate::json::wf_scalar(
                #[trigger] i32_scalars(vs)[j],
            ),
{
    lemma_i32_scalars_props(vs);
    assert forall|j: int|
        0 <= j < i32_scalars(vs).len() implies crate::json::wf_scalar(
        #[trigger] i32_scalars(vs)[j],
    ) by {
        crate::json::lemma_dec_rep_wf(i32_abs(vs[j]));
    }
}

proof fn lemma_auth_type_token_wf(t: AuthType)
    ensures
        crate::json::wf_num_token(t.spec_code()),
{
    reveal_strlit("0");
    reveal_strlit("2");
    match t {
        AuthType::First => {
            assert(t.spec_code() =~= seq!['0']);
        },
        AuthType::Ignore => {
            assert(t.spec_code() =~= seq!['2']);
        },
    }
}

/// Law: an authorization request's wire text parses back to exactly its
/// fields — serializing and then parsing loses nothing.
#[verifier::rlimit(100)]
pub proof fn lemma_request_json_round_trip(b: RequestBodyV)
    ensures
        crate::json::parse_text(b.spec_json()) == Some(b.json_fields()),
{
    let fs = b.json_fields();
    assert forall|k: int| 0 <= k < fs.len() implies crate::json::wf_value(
        (#[trigger] fs[k]).value,
    ) by {
        if k == 3 {
            lemma_scope_scalars_wf(b.scope);
            assert(crate::json::wf_value(fs[3].value));
        } else if k == 4 {
            match b.client_info {
                None => {
                    assert(crate::json::wf_value(fs[4].value));
                },
                Some(bs) => {
                    lemma_byte_scalars_wf(bs);
                    assert(crate::json::wf_value(fs[4].value));
                },
            }
        } else if k == 5 {
            lemma_byte_scalars_wf(b.state);
            assert(crate::json::wf_value(fs[5].value));
        } else if k == 6 {
            lemma_auth_type_token_wf(b.auth_type);
            assert(crate::json::wf_value(fs[6].value));
        } else if k == 14 {
            match b.accountinfo_list_num {
                None => {
                    assert(crate::json::wf_value(fs[14].value));
                },
                Some(vs) => {
                    lemma_i32_scalars_wf(vs);
                    assert(crate::json::wf_value(fs[14].value));
                },
            }
        } else {
            assert(crate::json::wf_value(fs[k].value));
        }
    }
    crate::json::lemma_object_round_trip(fs);
}

} // verus!
