//! The shapes the front-end answers with, and the JSON rendering of
//! successful run results and error bodies.

pub mod root;
pub mod run;

use vstd::prelude::*;
use vstd::string::StringExecFns;

use crate::docker::json_str_of;
use crate::http_extra::JsonFailure;
use crate::json_text::{lit_bytes, write_json_string, write_lit};

verus! {

/// Front-end API configuration: the shared access token.
pub struct ApiConfig {
    pub access_token: String,
}

/// A successful response: suggested status code and JSON body bytes.
#[derive(Debug)]
pub struct SuccessResponse {
    pub status_code: u16,
    pub body: Vec<u8>,
}

/// An error response: suggested status code and structured body.
#[derive(Debug)]
pub struct ErrorResponse {
    pub status_code: u16,
    pub body: ErrorBody,
}

/// The error body the front-end serializes: a stable error code and a
/// human-readable message.
#[derive(Debug)]
pub struct ErrorBody {
    pub error: String,
    pub message: String,
}

impl ErrorBody {
    /// The pretty JSON document for this body, two-space indented.
    pub open spec fn to_json_spec(&self) -> Seq<u8> {
        lit_bytes("{\n  \"error\": ") + json_str_of(self.error@) + lit_bytes(",\n  \"message\": ")
            + json_str_of(self.message@) + lit_bytes("\n}")
    }

    /// Renders the pretty JSON document for this body.
    pub fn to_json_pretty(&self) -> (r: Vec<u8>)
        ensures
            r@ == self.to_json_spec(),
    {
        let mut out: Vec<u8> = Vec::new();
        write_lit(&mut out, "{\n  \"error\": ");
        write_json_string(&mut out, self.error.as_str());
        write_lit(&mut out, ",\n  \"message\": ");
        write_json_string(&mut out, self.message.as_str());
        write_lit(&mut out, "\n}");
        proof {
            assert(out@ =~= self.to_json_spec());
        }
        out
    }
}

/// The rejection of a request without the right access token.
pub fn authorization_error() -> (r: ErrorResponse)
    ensures
        r.status_code == 401,
        r.body.error@ == "access_token"@,
        r.body.message@ == "Missing or wrong access token"@,
{
    ErrorResponse {
        status_code: 401,
        body: ErrorBody {
            error: String::from_str("access_token"),
            message: String::from_str("Missing or wrong access token"),
        },
    }
}

/// How a response body is rendered.
pub enum JsonFormat {
    Minimal,
    Pretty,
}

/// What `serde_json` renders a decoded object to, minimally.
pub uninterp spec fn map_json_min(m: serde_json::Map<String, serde_json::Value>) -> Seq<u8>;

/// What `serde_json` renders a decoded object to, pretty-printed.
pub uninterp spec fn map_json_pretty(m: serde_json::Map<String, serde_json::Value>) -> Seq<u8>;

/// Relies on `serde_json::to_vec` on an object map: minimal JSON, a
/// function of the map alone. It cannot fail: the keys are strings and
/// every number a value holds is finite, and the writer is a vector.
#[verifier::external_body]
pub(crate) fn map_to_vec(m: &serde_json::Map<String, serde_json::Value>) -> (r: Result<
    Vec<u8>,
    JsonFailure,
>)
    ensures
        r is Ok,
        r matches Ok(v) ==> v@ == map_json_min(*m),
{
    serde_json::to_vec(m).map_err(|e| JsonFailure { message: format!("{}", e) })
}

/// Relies on `serde_json::to_vec_pretty` on an object map: pretty JSON,
/// a function of the map alone. It cannot fail, on the same grounds as
/// [`map_to_vec`].
#[verifier::external_body]
fn map_to_vec_pretty(m: &serde_json::Map<String, serde_json::Value>) -> (r: Result<
    Vec<u8>,
    JsonFailure,
>)
    ensures
        r is Ok,
        r matches Ok(v) ==> v@ == map_json_pretty(*m),
{
    serde_json::to_vec_pretty(m).map_err(|e| JsonFailure { message: format!("{}", e) })
}

/// Renders a decoded object as a successful response in the asked-for
/// format. Rendering an object map cannot fail; the error arm stands for
/// callers that keep the original signature.
pub fn prepare_json_response(
    body: &serde_json::Map<String, serde_json::Value>,
    format: JsonFormat,
) -> (r: Result<SuccessResponse, ErrorResponse>)
    ensures
        r matches Ok(resp) && resp.status_code == 200 && (match format {
            JsonFormat::Minimal => resp.body@ == map_json_min(*body),
            JsonFormat::Pretty => resp.body@ == map_json_pretty(*body),
        }),
{
    let rendered = match format {
        JsonFormat::Minimal => map_to_vec(body),
        JsonFormat::Pretty => map_to_vec_pretty(body),
    };
    match rendered {
        Ok(data) => Ok(SuccessResponse { status_code: 200, body: data }),
        Err(jf) => {
            let mut message = String::from_str("Failed to serialize response: ");
            message.append(jf.message.as_str());
            Err(
                ErrorResponse {
                    status_code: 500,
                    body: ErrorBody { error: String::from_str("response.serialize"), message },
                },
            )
        },
    }
}

} // verus!
