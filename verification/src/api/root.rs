//! The informational root endpoint: a fixed service description.

use vstd::prelude::*;

use crate::api::{ErrorResponse, SuccessResponse};
use crate::json_text::{lit_bytes, write_lit};

verus! {

/// The pretty JSON document describing the service.
pub open spec fn service_info_json() -> Seq<u8> {
    lit_bytes(
        "{\n  \"name\": \"docker-run\",\n  \"version\": \"0.1.0\",\n  \"description\": \"Api for running code in transient docker containers\"\n}",
    )
}

/// Answers the root endpoint with the service description.
pub fn handle() -> (r: Result<SuccessResponse, ErrorResponse>)
    ensures
        r matches Ok(resp) && resp.status_code == 200 && resp.body@ == service_info_json(),
{
    let mut body: Vec<u8> = Vec::new();
    write_lit(
        &mut body,
        "{\n  \"name\": \"docker-run\",\n  \"version\": \"0.1.0\",\n  \"description\": \"Api for running code in transient docker containers\"\n}",
    );
    proof {
        assert(body@ =~= service_info_json());
    }
    Ok(SuccessResponse { status_code: 200, body })
}

} // verus!
