//! The token-issuing operation: its request body and its response body.

use vstd::prelude::*;
use vstd::string::*;
use crate::json::{
    JsonField, JsonFieldV, JsonObject, JsonScalar, JsonScalarV, JsonValue, JsonValueV,
    lemma_field_views_props, opt_str_field, opt_u64_field, opt_view, parse_json, parse_text,
    ser_object, serialize_object, str_field, field_str, field_opt_str, field_opt_u64,
};
use crate::types::Scope;
use crate::types::oauth::ResponseCode;
use crate::ApiError;

verus! {

/// Request body of the token-issuing call.  The grant type is not chosen
/// by the caller: the constructor fixes it to the authorization-code flow.
pub struct RequestBody {
    code: String,
    client_id: String,
    client_secret: String,
    redirect_uri: String,
    grant_type: String,
}

/// The model of a token request body.
pub struct RequestBodyV {
    pub code: Seq<char>,
    pub client_id: Seq<char>,
    pub client_secret: Seq<char>,
    pub redirect_uri: Seq<char>,
    pub grant_type: Seq<char>,
}

impl View for RequestBody {
    type V = RequestBodyV;

    closed spec fn view(&self) -> RequestBodyV {
        RequestBodyV {
            code: self.code@,
            client_id: self.client_id@,
            client_secret: self.client_secret@,
            redirect_uri: self.redirect_uri@,
            grant_type: self.grant_type@,
        }
    }
}

impl RequestBodyV {
    /// The fields of this body on the wire, in order.
    pub open spec fn json_fields(self) -> Seq<JsonFieldV> {
        seq![
            JsonFieldV { name: "code"@, value: JsonValueV::Scalar(JsonScalarV::Str(self.code)) },
            JsonFieldV {
                name: "client_id"@,
                value: JsonValueV::Scalar(JsonScalarV::Str(self.client_id)),
            },
            JsonFieldV {
                name: "client_secret"@,
                value: JsonValueV::Scalar(JsonScalarV::Str(self.client_secret)),
            },
            JsonFieldV {
                name: "redirect_uri"@,
                value: JsonValueV::Scalar(JsonScalarV::Str(self.redirect_uri)),
            },
            JsonFieldV {
                name: "grant_type"@,
                value: JsonValueV::Scalar(JsonScalarV::Str(self.grant_type)),
            },
        ]
    }

    /// The JSON text of this body.
    pub open spec fn spec_json(self) -> Seq<char> {
        ser_object(self.json_fields())
    }
}

impl RequestBody {
    /// A token request for an authorization code.  The grant type is set to
    /// the fixed wire value of the authorization-code flow.
    pub fn new(code: String, client_id: String, client_secret: String, redirect_uri: String) -> (r:
        Self)
        ensures
            r@.code == code@,
            r@.client_id == client_id@,
            r@.client_secret == client_secret@,
            r@.redirect_uri == redirect_uri@,
            r@.grant_type == "authorization_code"@,
    {
        Self {
            code,
            client_id,
            client_secret,
            redirect_uri,
            grant_type: String::from_str("authorization_code"),
        }
    }

    /// Serializes this body to its wire text.
    pub fn to_json(&self) -> (r: String)
        ensures
            r@ == self@.spec_json(),
    {
        let mut fields: Vec<JsonField> = Vec::new();
        fields.push(
            JsonField {
                name: String::from_str("code"),
                value: JsonValue::Scalar(JsonScalar::Str(self.code.clone())),
            },
        );
        fields.push(
            JsonField {
                name: String::from_str("client_id"),
                value: JsonValue::Scalar(JsonScalar::Str(self.client_id.clone())),
            },
        );
        fields.push(
            JsonField {
                name: String::from_str("client_secret"),
                value: JsonValue::Scalar(JsonScalar::Str(self.client_secret.clone())),
            },
        );
        fields.push(
            JsonField {
                name: String::from_str("redirect_uri"),
                value: JsonValue::Scalar(JsonScalar::Str(self.redirect_uri.clone())),
            },
        );
        fields.push(
            JsonField {
                name: String::from_str("grant_type"),
                value: JsonValue::Scalar(JsonScalar::Str(self.grant_type.clone())),
            },
        );
        let obj = JsonObject { fields };
        proof {
            lemma_field_views_props(obj.fields@);
            assert(obj@ =~= self@.json_fields());
        }
        serialize_object(&obj)
    }
}

/// Response body of the token-issuing call: the envelope's code and
/// message, and the token fields the platform fills on success.
pub struct ResponseBody {
    pub rsp_code: ResponseCode,
    pub rsp_message: String,
    pub access_token: Option<String>,
    pub token_type: Option<String>,
    pub expires_in: Option<u64>,
    pub refresh_token: Option<String>,
    pub scope: Option<Scope>,
    pub user_seq_no: Option<String>,
}

/// The model of a token response body.
pub struct ResponseBodyV {
    pub rsp_code: ResponseCode,
    pub rsp_message: Seq<char>,
    pub access_token: Option<Seq<char>>,
    pub token_type: Option<Seq<char>>,
    pub expires_in: Option<u64>,
    pub refresh_token: Option<Seq<char>>,
    pub scope: Option<Scope>,
    pub user_seq_no: Option<Seq<char>>,
}

impl View for ResponseBody {
    type V = ResponseBodyV;

    open spec fn view(&self) -> ResponseBodyV {
        ResponseBodyV {
            rsp_code: self.rsp_code,
            rsp_message: self.rsp_message@,
            access_token: opt_view(self.access_token),
            token_type: opt_view(self.token_type),
            expires_in: self.expires_in,
            refresh_token: opt_view(self.refresh_token),
            scope: self.scope,
            user_seq_no: opt_view(self.user_seq_no),
        }
    }
}

impl ResponseBodyV {
    /// What a parsed response object denotes as a token response: the
    /// envelope fields are required, the token fields optional, and any
    /// field of the wrong shape makes the whole response undecodable.
    pub open spec fn spec_decode(fs: Seq<JsonFieldV>) -> Option<ResponseBodyV> {
        match str_field(fs, "rsp_code"@) {
            None => None,
            Some(code_s) => match ResponseCode::spec_from_code(code_s) {
                None => None,
                Some(rsp_code) => match str_field(fs, "rsp_message"@) {
                    None => None,
                    Some(rsp_message) => match opt_str_field(fs, "access_token"@) {
                        None => None,
                        Some(access_token) => match opt_str_field(fs, "token_type"@) {
                            None => None,
                            Some(token_type) => match opt_u64_field(fs, "expires_in"@) {
                                None => None,
                                Some(expires_in) => match opt_str_field(fs, "refresh_token"@) {
                                    None => None,
                                    Some(refresh_token) => match opt_str_field(fs, "scope"@) {
                                        None => None,
                                        Some(scope_s) => {
                                            let scope = match scope_s {
                                                None => Some(None::<Scope>),
                                                Some(sc) => match Scope::spec_from_code(sc) {
                                                    None => None,
                                                    Some(x) => Some(Some(x)),
                                                },
                                            };
                                            match scope {
                                                None => None,
                                                Some(scope) => match opt_str_field(
                                                    fs,
                                                    "user_seq_no"@,
                                                ) {
                                                    None => None,
                                                    Some(user_seq_no) => Some(
                                                        ResponseBodyV {
                                                            rsp_code,
                                                            rsp_message,
                                                            access_token,
                                                            token_type,
                                                            expires_in,
                                                            refresh_token,
                                                            scope,
                                                            user_seq_no,
                                                        },
                                                    ),
                                                },
                                            }
                                        },
                                    },
                                },
                            },
                        },
                    },
                },
            },
        }
    }

    /// What a whole response text denotes as a token response.
    pub open spec fn spec_parse(s: Seq<char>) -> Option<ResponseBodyV> {
        match parse_text(s) {
            None => None,
            Some(fs) => Self::spec_decode(fs),
        }
    }
}

impl ResponseBody {
    /// Parses a response text into a token response.  Exactly the texts the
    /// model decodes are accepted; every other text is reported as a
    /// deserialization failure, never a panic and never a default.
    pub fn parse_response(s: &str) -> (r: Result<ResponseBody, ApiError>)
        ensures
            match ResponseBodyV::spec_parse(s@) {
                Some(v) => r matches Ok(b) && b@ == v,
                None => r matches Err(e) && e is DeserializationError,
            },
    {
        let obj = match parse_json(s) {
            Some(o) => o,
            None => {
                return Err(
                    ApiError::DeserializationError(
                        String::from_str("response text is not a JSON object"),
                    ),
                );
            },
        };
        let code_s = match field_str(&obj, "rsp_code") {
            Some(x) => x,
            None => {
                return Err(
                    ApiError::DeserializationError(String::from_str("rsp_code is missing")),
                );
            },
        };
        let rsp_code = match ResponseCode::from_code(code_s.as_str()) {
            Some(c) => c,
            None => {
                return Err(
                    ApiError::DeserializationError(String::from_str("rsp_code is unknown")),
                );
            },
        };
        let rsp_message = match field_str(&obj, "rsp_message") {
            Some(x) => x,
            None => {
                return Err(
                    ApiError::DeserializationError(String::from_str("rsp_message is missing")),
                );
            },
        };
        let access_token = match field_opt_str(&obj, "access_token") {
            Some(x) => x,
            None => {
                return Err(
                    ApiError::DeserializationError(String::from_str("access_token is malformed")),
                );
            },
        };
        let token_type = match field_opt_str(&obj, "token_type") {
            Some(x) => x,
            None => {
                return Err(
                    ApiError::DeserializationError(String::from_str("token_type is malformed")),
                );
            },
        };
        let expires_in = match field_opt_u64(&obj, "expires_in") {
            Some(x) => x,
            None => {
                return Err(
                    ApiError::DeserializationError(String::from_str("expires_in is malformed")),
                );
            },
        };
        let refresh_token = match field_opt_str(&obj, "refresh_token") {
            Some(x) => x,
            None => {
                return Err(
                    ApiError::DeserializationError(String::from_str("refresh_token is malformed")),
                );
            },
        };
        let scope = match field_opt_str(&obj, "scope") {
            Some(None) => None,
            Some(Some(sc)) => match Scope::from_code(sc.as_str()) {
                Some(x) => Some(x),
                None => {
                    return Err(
                        ApiError::DeserializationError(String::from_str("scope is unknown")),
                    );
                },
            },
            None => {
                return Err(
                    ApiError::DeserializationError(String::from_str("scope is malformed")),
                );
            },
        };
        let user_seq_no = match field_opt_str(&obj, "user_seq_no") {
            Some(x) => x,
            None => {
                return Err(
                    ApiError::DeserializationError(String::from_str("user_seq_no is malformed")),
                );
            },
        };
        Ok(
            ResponseBody {
                rsp_code,
                rsp_message,
                access_token,
                token_type,
                expires_in,
                refresh_token,
                scope,
                user_seq_no,
            },
        )
    }
}

} // verus!

verus! {

/// Law: a token request's wire text parses back to exactly its fields —
/// serializing and then parsing loses nothing.
pub proof fn lemma_request_json_round_trip(b: RequestBodyV)
    ensures
        crate::json::parse_text(b.spec_json()) == Some(b.json_fields()),
{
    let fs = b.json_fields();
    assert forall|k: int| 0 <= k < fs.len() implies crate::json::wf_value(
        (#[trigger] fs[k]).value,
    ) by {
        if k == 0 {
            assert(crate::json::wf_value(fs[0].value));
        } else if k == 1 {
            assert(crate::json::wf_value(fs[1].value));
        } else if k == 2 {
            assert(crate::json::wf_value(fs[2].value));
        } else if k == 3 {
            assert(crate::json::wf_value(fs[3].value));
        } else {
            assert(crate::json::wf_value(fs[4].value));
        }
    }
    crate::json::lemma_object_round_trip(fs);
}

} // verus!
