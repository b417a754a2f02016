//! Building the one outbound request of a call.
//!
//! A call names an endpoint, a verb, an optional header bag and an optional
//! body.  Everything the transport then needs — the resolved URL and
//! exactly the parts that were present — is computed and checked here,
//! before any network work: a header value that cannot travel as an HTTP
//! field value is refused at this point.

use vstd::prelude::*;
use vstd::string::*;
use crate::types::HttpMethod;
use crate::types::endpoint::{Endpoint, Host};
use crate::ApiError;

verus! {

/// One transport header: a field name and its value.
pub struct HeaderField {
    pub name: String,
    pub value: String,
}

/// A character an HTTP field value can carry: horizontal tab, or any
/// character at or above the space other than delete.
pub open spec fn spec_value_valid_char(c: char) -> bool {
    c == '\t' || (c as u32 >= 0x20 && c as u32 != 0x7F)
}

/// A whole header value an HTTP field value can carry.
pub open spec fn spec_value_valid(s: Seq<char>) -> bool {
    forall|k: int| 0 <= k < s.len() ==> spec_value_valid_char(#[trigger] s[k])
}

/// Every value of a header bag is transport-valid.
pub open spec fn spec_headers_valid(hs: Seq<HeaderField>) -> bool {
    forall|k: int| 0 <= k < hs.len() ==> spec_value_valid((#[trigger] hs[k]).value@)
}

/// Decides whether an HTTP field value can carry this text.
pub fn value_valid(s: &str) -> (r: bool)
    ensures
        r == spec_value_valid(s@),
{
    let n = s.unicode_len();
    let mut i: usize = 0;
    while i < n
        invariant
            n == s@.len(),
            i <= n,
            forall|k: int| 0 <= k < i ==> spec_value_valid_char(#[trigger] s@[k]),
        decreases n - i,
    {
        let c = s.get_char(i);
        if !(c == '\t' || (c as u32 >= 0x20 && c as u32 != 0x7F)) {
            return false;
        }
        i = i + 1;
    }
    true
}

/// The outbound request of one call: everything the transport needs, and
/// nothing it must decide.
pub struct RequestPlan {
    pub method: HttpMethod,
    pub url: String,
    pub header_fields: Vec<HeaderField>,
    pub body: Option<String>,
}

/// Builds the outbound request for a call.
///
/// The plan carries exactly the parts that were present: the header bag
/// when one was given, the body when one was given and the verb is POST —
/// a GET never carries a body, whatever was supplied.  A header value that
/// an HTTP field value cannot carry is refused here, before any network
/// call could be attempted, and that is the only refusal.
pub fn build_request(
    endpoint: Endpoint,
    host: Host,
    method: HttpMethod,
    header: Option<Vec<HeaderField>>,
    body: Option<String>,
) -> (r: Result<RequestPlan, ApiError>)
    ensures
        match r {
            Ok(plan) => {
                &&& (header matches Some(hs) ==> spec_headers_valid(hs@) && plan.header_fields@
                    == hs@)
                &&& (header is None ==> plan.header_fields@ == Seq::<HeaderField>::empty())
                &&& plan.method == method
                &&& plan.url@ == endpoint.spec_url(host)
                &&& plan.body == (if method is Post {
                    body
                } else {
                    None::<String>
                })
            },
            Err(e) => {
                &&& e is InvalidHeaderEncoding
                &&& header matches Some(hs) && !spec_headers_valid(hs@)
            },
        },
{
    let header_fields: Vec<HeaderField> = match header {
        None => Vec::new(),
        Some(hs) => {
            let n = hs.len();
            let mut i: usize = 0;
            while i < n
                invariant
                    header == Some(hs),
                    n == hs@.len(),
                    i <= n,
                    forall|k: int| 0 <= k < i ==> spec_value_valid((#[trigger] hs@[k]).value@),
                decreases n - i,
            {
                let f = &hs[i];
                if !value_valid(f.value.as_str()) {
                    proof {
                        assert(!spec_value_valid(hs@[i as int].value@));
                    }
                    return Err(
                        ApiError::InvalidHeaderEncoding(
                            String::from_str("header value holds a character an HTTP field value cannot carry"),
                        ),
                    );
                }
                i = i + 1;
            }
            hs
        },
    };
    let url = endpoint.url(host);
    let planned_body: Option<String> = match method {
        HttpMethod::Get => None,
        HttpMethod::Post => body,
    };
    Ok(RequestPlan { method, url, header_fields, body: planned_body })
}

} // verus!
