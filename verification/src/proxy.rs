//! Requests to the route worker and the reading of its replies.

use vstd::prelude::*;
use crate::error::RotivError;
use crate::router::matcher::RouteParams;
use crate::text::{copy_str, decimal, decimal_string};

verus! {

/// Request payload sent to the route worker.
#[derive(Debug)]
pub struct InvokeRequest {
    pub route_file: String,
    pub method: String,
    pub params: RouteParams,
    pub search_params: String,
    pub headers: Vec<(String, String)>,
    pub body: Option<String>,
}

/// Successful response from the route worker.
#[derive(Debug)]
pub struct InvokeResponse {
    pub status: u16,
    pub headers: Vec<(String, String)>,
    pub body: String,
}

/// The invoke endpoint of the worker listening on `port`.
pub fn invoke_url(port: u16) -> (r: String)
    ensures
        r@ == "http://127.0.0.1:"@ + decimal(port as nat) + "/_rotiv/invoke"@,
{
    let mut s = copy_str("http://127.0.0.1:");
    let p = decimal_string(port as u64);
    s.append(p.as_str());
    s.append("/_rotiv/invoke");
    s
}

/// The error for a worker that could not be reached (`E_WORKER_UNREACHABLE`).
pub fn unreachable_error(detail: &str) -> (r: RotivError)
    ensures
        r.code@ == "E_WORKER_UNREACHABLE"@,
        r.message@ == detail@,
        r.suggestion matches Some(s) && s@ == "Make sure the route worker is running"@,
        r.file is None && r.line is None && r.expected is None && r.got is None && r.corrected_code is None,
{
    RotivError::new("E_WORKER_UNREACHABLE", detail).with_suggestion("Make sure the route worker is running")
}

/// The outcome of a worker reply. Status 500 signals an error: the error of
/// the reply's JSON envelope when it has one, else `E_ROUTE_ERROR` with the
/// body. Any other status is the route's own response.
pub fn interpret_reply(
    status: u16,
    headers: Vec<(String, String)>,
    body: String,
    envelope: Option<RotivError>,
) -> (r: Result<InvokeResponse, RotivError>)
    ensures
        status == 500 ==> match envelope {
            Some(e) => r matches Err(x) && x == e,
            None => r matches Err(x) && x.code@ == "E_ROUTE_ERROR"@
                && x.message@ == "route worker returned 500: "@ + body@
                && x.suggestion is None && x.file is None && x.line is None
                && x.expected is None && x.got is None && x.corrected_code is None,
        },
        status != 500 ==> (r matches Ok(resp) && resp.status == status && resp.headers == headers && resp.body == body),
{
    if status == 500 {
        match envelope {
            Some(e) => Err(e),
            None => {
                let mut msg = copy_str("route worker returned 500: ");
                msg.append(body.as_str());
                Err(RotivError::new("E_ROUTE_ERROR", msg.as_str()))
            },
        }
    } else {
        Ok(InvokeResponse { status, headers, body })
    }
}

} // verus!
