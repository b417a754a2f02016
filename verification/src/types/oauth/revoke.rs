//! The token-revoking operation: its request body and its response body.

use vstd::prelude::*;
use vstd::string::*;
use crate::json::{
    JsonField, JsonFieldV, JsonObject, JsonScalar, JsonScalarV, JsonValue, JsonValueV,
    lemma_field_views_props, opt_str_field, opt_view, parse_json, parse_text, ser_object,
    serialize_object, str_field, field_str, field_opt_str,
};
use crate::types::oauth::ResponseCode;
use crate::ApiError;

verus! {

/// Request body of the token-revoking call: the client's credentials and
/// the access token to discard.
pub struct RequestBody {
    client_id: String,
    client_secret: String,
    access_token: String,
}

/// The model of a revoke request body.
pub struct RequestBodyV {
    pub client_id: Seq<char>,
    pub client_secret: Seq<char>,
    pub access_token: Seq<char>,
}

impl View for RequestBody {
    type V = RequestBodyV;

    closed spec fn view(&self) -> RequestBodyV {
        RequestBodyV {
            client_id: self.client_id@,
            client_secret: self.client_secret@,
            access_token: self.access_token@,
        }
    }
}

impl RequestBodyV {
    /// The fields of this body on the wire, in order.
    pub open spec fn json_fields(self) -> Seq<JsonFieldV> {
        seq![
            JsonFieldV {
                name: "client_id"@,
                value: JsonValueV::Scalar(JsonScalarV::Str(self.client_id)),
            },
            JsonFieldV {
                name: "client_secret"@,
                value: JsonValueV::Scalar(JsonScalarV::Str(self.client_secret)),
            },
            JsonFieldV {
                name: "access_token"@,
                value: JsonValueV::Scalar(JsonScalarV::Str(self.access_token)),
            },
        ]
    }

    /// The JSON text of this body.
    pub open spec fn spec_json(self) -> Seq<char> {
        ser_object(self.json_fields())
    }
}

impl RequestBody {
    pub fn new(client_id: String, client_secret: String, access_token: String) -> (r: Self)
        ensures
            r@.client_id == client_id@,
            r@.client_secret == client_secret@,
            r@.access_token == access_token@,
    {
        Self { client_id, client_secret, access_token }
    }

    /// Serializes this body to its wire text.
    pub fn to_json(&self) -> (r: String)
        ensures
            r@ == self@.spec_json(),
    {
        let mut fields: Vec<JsonField> = Vec::new();
        fields.push(
            JsonField {
                name: String::from_str("client_id"),
                value: JsonValue::Scalar(JsonScalar::Str(self.client_id.clone())),
            },
        );
        fields.push(
            JsonField {
                name: String::from_str("client_secret"),
                value: JsonValue::Scalar(JsonScalar::Str(self.client_secret.clone())),
            },
        );
        fields.push(
            JsonField {
                name: String::from_str("access_token"),
                value: JsonValue::Scalar(JsonScalar::Str(self.access_token.clone())),
            },
        );
        let obj = JsonObject { fields };
        proof {
            lemma_field_views_props(obj.fields@);
            assert(obj@ =~= self@.json_fields());
        }
        serialize_object(&obj)
    }
}

/// Response body of the token-revoking call.  The last field's wire name
/// carries the API's own spelling.
pub struct ResponseBody {
    pub rsp_code: ResponseCode,
    pub rsp_message: String,
    pub client_id: Option<String>,
    pub client_secret: Option<String>,
    pub access_token: Option<String>,
    pub refersh_token: Option<String>,
}

/// The model of a revoke response body.
pub struct ResponseBodyV {
    pub rsp_code: ResponseCode,
    pub rsp_message: Seq<char>,
    pub client_id: Option<Seq<char>>,
    pub client_secret: Option<Seq<char>>,
    pub access_token: Option<Seq<char>>,
    pub refersh_token: Option<Seq<char>>,
}

impl View for ResponseBody {
    type V = ResponseBodyV;

    open spec fn view(&self) -> ResponseBodyV {
        ResponseBodyV {
            rsp_code: self.rsp_code,
            rsp_message: self.rsp_message@,
            client_id: opt_view(self.client_id),
            client_secret: opt_view(self.client_secret),
            access_token: opt_view(self.access_token),
            refersh_token: opt_view(self.refersh_token),
        }
    }
}

impl ResponseBodyV {
    /// What a parsed response object denotes as a revoke response.
    pub open spec fn spec_decode(fs: Seq<JsonFieldV>) -> Option<ResponseBodyV> {
        match str_field(fs, "rsp_code"@) {
            None => None,
            Some(code_s) => match ResponseCode::spec_from_code(code_s) {
                None => None,
                Some(rsp_code) => match str_field(fs, "rsp_message"@) {
                    None => None,
                    Some(rsp_message) => match opt_str_field(fs, "client_id"@) {
                        None => None,
                        Some(client_id) => match opt_str_field(fs, "client_secret"@) {
                            None => None,
                            Some(client_secret) => match opt_str_field(fs, "access_token"@) {
                                None => None,
                                Some(access_token) => match opt_str_field(fs, "refersh_token"@) {
                                    None => None,
                                    Some(refersh_token) => Some(
                                        ResponseBodyV {
                                            rsp_code,
                                            rsp_message,
                                            client_id,
                                            client_secret,
                                            access_token,
                                            refersh_token,
                                        },
                                    ),
                                },
                            },
                        },
                    },
                },
            },
        }
    }

    /// What a whole response text denotes as a revoke response.
    pub open spec fn spec_parse(s: Seq<char>) -> Option<ResponseBodyV> {
        match parse_text(s) {
            None => None,
            Some(fs) => Self::spec_decode(fs),
        }
    }
}

impl ResponseBody {
    /// Parses a response text into a revoke response.  Exactly the texts
    /// the model decodes are accepted; every other text is reported as a
    /// deserialization failure, never a panic and never a default.
    pub fn parse_response(s: &str) -> (r: Result<ResponseBody, ApiError>)
        ensures
            match ResponseBodyV::spec_parse(s@) {
                Some(v) => r matches Ok(b) && b@ == v,
                None => r matches Err(e) && e is DeserializationError,
            },
    {
        let obj = match parse_json(s) {
            Some(o) => o,
            None => {
                return Err(
                    ApiError::DeserializationError(
                        String::from_str("response text is not a JSON object"),
                    ),
                );
            },
        };
        let code_s = match field_str(&obj, "rsp_code") {
            Some(x) => x,
            None => {
                return Err(
                    ApiError::DeserializationError(String::from_str("rsp_code is missing")),
                );
            },
        };
        let rsp_code = match ResponseCode::from_code(code_s.as_str()) {
            Some(c) => c,
            None => {
                return Err(
                    ApiError::DeserializationError(String::from_str("rsp_code is unknown")),
                );
            },
        };
        let rsp_message = match field_str(&obj, "rsp_message") {
            Some(x) => x,
            None => {
                return Err(
                    ApiError::DeserializationError(String::from_str("rsp_message is missing")),
                );
            },
        };
        let client_id = match field_opt_str(&obj, "client_id") {
            Some(x) => x,
            None => {
                return Err(
                    ApiError::DeserializationError(String::from_str("client_id is malformed")),
                );
            },
        };
        let client_secret = match field_opt_str(&obj, "client_secret") {
            Some(x) => x,
            None => {
                return Err(
                    ApiError::DeserializationError(String::from_str("client_secret is malformed")),
                );
            },
        };
        let access_token = match field_opt_str(&obj, "access_token") {
            Some(x) => x,
            None => {
                return Err(
                    ApiError::DeserializationError(String::from_str("access_token is malformed")),
                );
            },
        };
        let refersh_token = match field_opt_str(&obj, "refersh_token") {
            Some(x) => x,
            None => {
                return Err(
                    ApiError::DeserializationError(String::from_str("refersh_token is malformed")),
                );
            },
        };
        Ok(
            ResponseBody {
                rsp_code,
                rsp_message,
                client_id,
                client_secret,
                access_token,
                refersh_token,
            },
        )
    }
}

} // verus!

verus! {

/// Law: a revoke request's wire text parses back to exactly its fields —
/// serializing and then parsing loses nothing.
pub proof fn lemma_request_json_round_trip(b: RequestBodyV)
    ensures
        crate::json::parse_text(b.spec_json()) == Some(b.json_fields()),
{
    let fs = b.json_fields();
    assert forall|k: int| 0 <= k < fs.len() implies crate::json::wf_value(
        (#[trigger] fs[k]).value,
    ) by {
        if k == 0 {
            assert(crate::json::wf_value(fs[0].value));
        } else if k == 1 {
            assert(crate::json::wf_value(fs[1].value));
        } else {
            assert(crate::json::wf_value(fs[2].value));
        }
    }
    crate::json::lemma_object_round_trip(fs);
}

} // verus!
