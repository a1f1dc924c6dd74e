//! The stream handler's decisions: what to answer and which backend calls
//! to make, for one `GET /stream` request.
//!
//! The handler's outside steps — verifying the token, the size lookup, the
//! ranged fetch — happen between these functions; each function takes the
//! last step's result as a plain value and decides the next step, so every
//! decision is checked here while the network work stays outside.

use vstd::prelude::*;

use crate::range::{
    RangePlan, spec_resolve_range, resolve_range, spec_content_range, format_content_range,
};

verus! {

/// The verdict of token verification: the token's storage path when the
/// signature and expiry check out, or a single undifferentiated rejection.
#[derive(Debug, Clone, PartialEq, Eq)]
pub enum AuthOutcome {
    Granted { storage_path: String },
    Denied,
}

/// What the handler will answer, decided before any byte is streamed.
#[derive(Debug, Clone, Copy, PartialEq, Eq, Structural)]
pub enum ResponsePlan {
    /// 401 — missing, malformed, expired, or forged token.
    Unauthorized,
    /// 404 — the backend could not serve the object.
    NotFound,
    /// 416 — a Range header was present but not satisfiable.
    NotSatisfiable,
    /// 200 — the whole object.
    Full { file_size: u64 },
    /// 206 — the inclusive byte slice `[start, end]` of the object.
    Partial { start: u64, end: u64, file_size: u64 },
}

/// The next outside step the handler must take.
#[derive(Debug, Clone, PartialEq, Eq)]
pub enum ProxyAction {
    /// Answer at once with the plan; no backend call is made.
    Respond { plan: ResponsePlan },
    /// Ask the blob store for the size of the object under `key`.
    HeadObject { key: String },
    /// Fetch from the blob store what the plan promises: the whole object,
    /// or its slice.
    GetObject { key: String, plan: ResponsePlan },
}

/// A plan only ever promises a slice that lies inside the object.
pub open spec fn plan_wf(plan: ResponsePlan) -> bool {
    plan matches ResponsePlan::Partial { start, end, file_size } ==> start <= end < file_size
}

/// First step. An unauthenticated request is answered 401 at once: no
/// backend call is ever made for it. An authenticated one asks the backend
/// for the object's size.
pub open spec fn spec_plan_after_auth(outcome: AuthOutcome) -> ProxyAction {
    match outcome {
        AuthOutcome::Denied => ProxyAction::Respond { plan: ResponsePlan::Unauthorized },
        AuthOutcome::Granted { storage_path } => ProxyAction::HeadObject { key: storage_path },
    }
}

/// Decides the step that follows token verification.
pub fn plan_after_auth(outcome: AuthOutcome) -> (r: ProxyAction)
    ensures
        r == spec_plan_after_auth(outcome),
{
    match outcome {
        AuthOutcome::Denied => ProxyAction::Respond { plan: ResponsePlan::Unauthorized },
        AuthOutcome::Granted { storage_path } => ProxyAction::HeadObject { key: storage_path },
    }
}

/// The view of an optional header value.
pub open spec fn header_view(h: Option<&[u8]>) -> Option<Seq<u8>> {
    match h {
        None => None,
        Some(b) => Some(b@),
    }
}

/// How the request's optional Range header resolves against the object.
pub open spec fn spec_range_plan(header: Option<Seq<u8>>, file_size: u64) -> RangePlan {
    match header {
        None => RangePlan::Whole,
        Some(h) => spec_resolve_range(h, file_size),
    }
}

/// The response owed for an existing object of `file_size` bytes: the whole
/// object without a Range header, the slice for a satisfiable range, and
/// 416 otherwise.
pub open spec fn spec_plan_for_object(file_size: u64, header: Option<Seq<u8>>) -> ResponsePlan {
    match spec_range_plan(header, file_size) {
        RangePlan::Whole => ResponsePlan::Full { file_size },
        RangePlan::Slice { start, end } => ResponsePlan::Partial { start, end, file_size },
        RangePlan::Unsatisfiable => ResponsePlan::NotSatisfiable,
    }
}

/// Second step. A failed size lookup is 404. Otherwise the Range header
/// decides: an unsatisfiable range is answered 416 with no fetch, anything
/// else is fetched from the backend.
pub open spec fn spec_plan_after_head(
    key: String,
    head_size: Option<u64>,
    header: Option<Seq<u8>>,
) -> ProxyAction {
    match head_size {
        None => ProxyAction::Respond { plan: ResponsePlan::NotFound },
        Some(size) => {
            let plan = spec_plan_for_object(size, header);
            if plan is NotSatisfiable {
                ProxyAction::Respond { plan }
            } else {
                ProxyAction::GetObject { key, plan }
            }
        },
    }
}

/// Decides the step that follows the size lookup.
pub fn plan_after_head(key: String, head_size: Option<u64>, range_header: Option<&[u8]>) -> (r:
    ProxyAction)
    ensures
        r == spec_plan_after_head(key, head_size, header_view(range_header)),
{
    match head_size {
        None => ProxyAction::Respond { plan: ResponsePlan::NotFound },
        Some(size) => {
            match resolve_range(range_header, size) {
                RangePlan::Whole => ProxyAction::GetObject {
                    key,
                    plan: ResponsePlan::Full { file_size: size },
                },
                RangePlan::Slice { start, end } => ProxyAction::GetObject {
                    key,
                    plan: ResponsePlan::Partial { start, end, file_size: size },
                },
                RangePlan::Unsatisfiable => ProxyAction::Respond {
                    plan: ResponsePlan::NotSatisfiable,
                },
            }
        },
    }
}

/// Last step. A failed fetch is 404; otherwise the planned response stands.
pub fn plan_after_get(plan: ResponsePlan, got: bool) -> (r: ResponsePlan)
    ensures
        got ==> r == plan,
        !got ==> r == ResponsePlan::NotFound,
{
    if got {
        plan
    } else {
        ResponsePlan::NotFound
    }
}

/// HTTP status code of a planned response.
pub open spec fn spec_status_code(plan: ResponsePlan) -> u16 {
    match plan {
        ResponsePlan::Unauthorized => 401,
        ResponsePlan::NotFound => 404,
        ResponsePlan::NotSatisfiable => 416,
        ResponsePlan::Full { .. } => 200,
        ResponsePlan::Partial { .. } => 206,
    }
}

/// HTTP status code of a planned response.
pub fn status_code(plan: &ResponsePlan) -> (r: u16)
    ensures
        r == spec_status_code(*plan),
{
    match plan {
        ResponsePlan::Unauthorized => 401,
        ResponsePlan::NotFound => 404,
        ResponsePlan::NotSatisfiable => 416,
        ResponsePlan::Full { .. } => 200,
        ResponsePlan::Partial { .. } => 206,
    }
}

/// The Content-Length owed by a planned response: the object's size for the
/// whole object, `end - start + 1` for a slice, none for an error body.
pub open spec fn spec_content_length(plan: ResponsePlan) -> Option<u64> {
    match plan {
        ResponsePlan::Full { file_size } => Some(file_size),
        ResponsePlan::Partial { start, end, .. } => Some((end - start + 1) as u64),
        _ => None,
    }
}

/// Content-Length of a planned response.
pub fn content_length(plan: &ResponsePlan) -> (r: Option<u64>)
    requires
        plan_wf(*plan),
    ensures
        r == spec_content_length(*plan),
{
    match plan {
        ResponsePlan::Full { file_size } => Some(*file_size),
        ResponsePlan::Partial { start, end, .. } => Some(*end - *start + 1),
        _ => None,
    }
}

/// The Content-Range value of a planned response: present exactly on a
/// partial response, as `bytes <start>-<end>/<file_size>`.
pub open spec fn spec_content_range_of(plan: ResponsePlan) -> Option<Seq<u8>> {
    match plan {
        ResponsePlan::Partial { start, end, file_size } => Some(
            spec_content_range(start as nat, end as nat, file_size as nat),
        ),
        _ => None,
    }
}

/// Content-Range header value of a planned response.
pub fn content_range_value(plan: &ResponsePlan) -> (r: Option<Vec<u8>>)
    ensures
        r matches Some(v) ==> spec_content_range_of(*plan) == Some(v@),
        r is None <==> spec_content_range_of(*plan) is None,
{
    match plan {
        ResponsePlan::Partial { start, end, file_size } => Some(
            format_content_range(*start, *end, *file_size),
        ),
        _ => None,
    }
}

/// Fixed error body of a planned response; a successful response streams
/// object bytes instead and has no fixed body.
pub fn error_body(plan: &ResponsePlan) -> (r: Option<&'static str>)
    ensures
        *plan is Unauthorized ==> (r matches Some(m) && m@ == "Invalid or expired token."@),
        *plan is NotFound ==> (r matches Some(m) && m@ == "File not found."@),
        *plan is NotSatisfiable ==> (r matches Some(m) && m@ == "Invalid range specified."@),
        *plan is Full || *plan is Partial ==> r is None,
{
    match plan {
        ResponsePlan::Unauthorized => Some("Invalid or expired token."),
        ResponsePlan::NotFound => Some("File not found."),
        ResponsePlan::NotSatisfiable => Some("Invalid range specified."),
        _ => None,
    }
}

/// The Content-Type every response carries.
pub fn content_type() -> (r: &'static str)
    ensures
        r@ == "audio/mpeg"@,
{
    "audio/mpeg"
}

/// The Accept-Ranges value every response carries.
pub fn accept_ranges_value() -> (r: &'static str)
    ensures
        r@ == "bytes"@,
{
    "bytes"
}

/// A request whose token does not verify, or has expired, is answered 401
/// and no backend call is made for it: its first action is already the
/// response.
pub proof fn lemma_unauthenticated_rejected(outcome: AuthOutcome)
    requires
        outcome is Denied,
    ensures
        spec_plan_after_auth(outcome) == (ProxyAction::Respond {
            plan: ResponsePlan::Unauthorized,
        }),
        spec_status_code(ResponsePlan::Unauthorized) == 401,
{
}

/// A satisfied range request is a 206 whose Content-Length is
/// `end - start + 1` and whose Content-Range is
/// `bytes <start>-<end>/<file_size>`.
pub proof fn lemma_partial_response_headers(start: u64, end: u64, file_size: u64)
    requires
        start <= end < file_size,
    ensures
        spec_status_code(ResponsePlan::Partial { start, end, file_size }) == 206,
        spec_content_length(ResponsePlan::Partial { start, end, file_size }) == Some(
            (end - start + 1) as u64,
        ),
        spec_content_range_of(ResponsePlan::Partial { start, end, file_size }) == Some(
            spec_content_range(start as nat, end as nat, file_size as nat),
        ),
{
}

/// A request without a Range header on an existing object is a 200 whose
/// Content-Length is the whole object's size.
pub proof fn lemma_whole_object_response(file_size: u64)
    ensures
        spec_plan_for_object(file_size, None) == (ResponsePlan::Full { file_size }),
        spec_status_code(ResponsePlan::Full { file_size }) == 200,
        spec_content_length(ResponsePlan::Full { file_size }) == Some(file_size),
{
}

/// A satisfiable range on an existing object leads to a fetch of exactly
/// that slice, to be answered as a 206 partial response.
pub proof fn lemma_satisfiable_range_fetched(key: String, file_size: u64, h: Seq<u8>, start: u64, end: u64)
    requires
        spec_resolve_range(h, file_size) == (RangePlan::Slice { start, end }),
    ensures
        spec_plan_after_head(key, Some(file_size), Some(h)) == (ProxyAction::GetObject {
            key,
            plan: ResponsePlan::Partial { start, end, file_size },
        }),
        spec_status_code(ResponsePlan::Partial { start, end, file_size }) == 206,
{
}

/// Every plan the handler pipeline produces is well-formed: a promised
/// slice always lies inside the object.
pub proof fn lemma_planned_response_well_formed(
    key: String,
    head_size: Option<u64>,
    header: Option<Seq<u8>>,
)
    ensures
        spec_plan_after_head(key, head_size, header) matches ProxyAction::GetObject {
            plan,
            ..
        } ==> plan_wf(plan),
        spec_plan_after_head(key, head_size, header) matches ProxyAction::Respond { plan }
            ==> plan_wf(plan),
{
    match head_size {
        Some(size) => match header {
            Some(h) => crate::range::lemma_resolved_slice_in_bounds(h, size),
            None => (),
        },
        None => (),
    }
}

/// An out-of-bounds or malformed range on an existing object is answered
/// 416 with no Content-Length, and the handler never asks the backend for
/// body bytes: its action is already the response.
pub proof fn lemma_out_of_bounds_no_body(key: String, file_size: u64, h: Seq<u8>)
    requires
        spec_resolve_range(h, file_size) is Unsatisfiable,
    ensures
        spec_plan_after_head(key, Some(file_size), Some(h)) == (ProxyAction::Respond {
            plan: ResponsePlan::NotSatisfiable,
        }),
        spec_status_code(ResponsePlan::NotSatisfiable) == 416,
        spec_content_length(ResponsePlan::NotSatisfiable) is None,
{
}

} // verus!
