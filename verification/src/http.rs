use vstd::prelude::*;

use crate::query::{parse_query, query_container, HealthcheckParams};
use crate::runtime::{
    healthcheck, healthcheck_spec, lemma_first_match_hit, lemma_first_match_none,
    no_status_message, not_found_message, restart_result, start_failed_message, start_result,
    stop_failed_message, stop_result, summary_matches, ContainerSummary,
};
use crate::text::chars_of;

verus! {

/// A plain-text reply: the status code and the body characters.
pub struct Response {
    pub status: u16,
    pub body: Vec<char>,
}

/// The greeting route: always the same success reply.
pub fn hello_response() -> (r: Response)
    ensures
        r.status == 200,
        r.body@ == "Hello world!"@,
{
    Response { status: 200, body: chars_of("Hello world!") }
}

/// The reply to a request that names no container.
pub fn missing_param_response() -> (r: Response)
    ensures
        r.status == 400,
        r.body@ == "Missing container parameter"@,
{
    Response { status: 400, body: chars_of("Missing container parameter") }
}

/// Reads the target container from the query string; a query that does
/// not name one draws the fixed rejection reply, before any daemon work.
pub fn read_params(query: &str) -> (r: Result<HealthcheckParams, Response>)
    ensures
        match r {
            Ok(p) => query_container(query@) == Some(p.container@),
            Err(resp) => {
                &&& query_container(query@) is None
                &&& resp.status == 400
                &&& resp.body@ == "Missing container parameter"@
            },
        },
{
    let qv = chars_of(query);
    match parse_query(&qv) {
        Some(p) => Ok(p),
        None => Err(missing_param_response()),
    }
}

/// The reply the health route gives once the daemon has listed its
/// containers: the matched status, or the failure text.
pub open spec fn healthcheck_reply(cs: Seq<ContainerSummary>, target: Seq<char>) -> (int, Seq<
    char,
>) {
    match healthcheck_spec(cs, target) {
        Ok(s) => (200int, s),
        Err(e) => (500int, e),
    }
}

/// Builds the health route's reply from the daemon's container list.
pub fn healthcheck_response(containers: &Vec<ContainerSummary>, target: &Vec<char>) -> (r:
    Response)
    ensures
        (r.status as int, r.body@) == healthcheck_reply(containers@, target@),
{
    match healthcheck(containers, target) {
        Ok(s) => Response { status: 200, body: s },
        Err(e) => Response { status: 500, body: e },
    }
}

/// The reply the start route gives for a daemon verdict.
pub open spec fn start_reply(target: Seq<char>, accepted: bool) -> (int, Seq<char>) {
    if accepted {
        (200int, "Container started"@)
    } else {
        (500int, start_failed_message(target))
    }
}

/// Builds the start route's reply from the daemon's verdict.
pub fn start_response(target: &Vec<char>, accepted: bool) -> (r: Response)
    ensures
        (r.status as int, r.body@) == start_reply(target@, accepted),
{
    match start_result(target, accepted) {
        Ok(_) => Response { status: 200, body: chars_of("Container started") },
        Err(e) => Response { status: 500, body: e },
    }
}

/// The reply the stop route gives for a daemon verdict.
pub open spec fn stop_reply(target: Seq<char>, accepted: bool) -> (int, Seq<char>) {
    if accepted {
        (200int, "Container stopped"@)
    } else {
        (500int, stop_failed_message(target))
    }
}

/// Builds the stop route's reply from the daemon's verdict.
pub fn stop_response(target: &Vec<char>, accepted: bool) -> (r: Response)
    ensures
        (r.status as int, r.body@) == stop_reply(target@, accepted),
{
    match stop_result(target, accepted) {
        Ok(_) => Response { status: 200, body: chars_of("Container stopped") },
        Err(e) => Response { status: 500, body: e },
    }
}

/// The reply the restart route gives for a daemon verdict; its failure
/// text reuses the start wording.
pub open spec fn restart_reply(target: Seq<char>, accepted: bool) -> (int, Seq<char>) {
    if accepted {
        (200int, "Container restarted"@)
    } else {
        (500int, start_failed_message(target))
    }
}

/// Builds the restart route's reply from the daemon's verdict.
pub fn restart_response(target: &Vec<char>, accepted: bool) -> (r: Response)
    ensures
        (r.status as int, r.body@) == restart_reply(target@, accepted),
{
    match restart_result(target, accepted) {
        Ok(_) => Response { status: 200, body: chars_of("Container restarted") },
        Err(e) => Response { status: 500, body: e },
    }
}

/// When no container's delinked name contains the target, the health
/// reply is the not-found failure.
pub proof fn lemma_healthcheck_not_found(cs: Seq<ContainerSummary>, target: Seq<char>)
    requires
        forall|k: int| 0 <= k < cs.len() ==> !summary_matches(cs[k], target),
    ensures
        healthcheck_reply(cs, target) == (500int, not_found_message(target)),
{
    lemma_first_match_none(cs, target);
}

/// The health reply reports the earliest matching container, in daemon
/// order: its status when the daemon gives one, the no-status failure
/// otherwise.
pub proof fn lemma_healthcheck_found(cs: Seq<ContainerSummary>, target: Seq<char>, k: int)
    requires
        0 <= k < cs.len(),
        summary_matches(cs[k], target),
        forall|j: int| 0 <= j < k ==> !summary_matches(cs[j], target),
    ensures
        match cs[k].status {
            Some(s) => healthcheck_reply(cs, target) == (200int, s@),
            None => healthcheck_reply(cs, target) == (500int, no_status_message(target)),
        },
{
    lemma_first_match_hit(cs, target, k);
}

/// Issuing the same health request twice against an unchanged daemon
/// yields identical replies: the reply is a function of the daemon's
/// container list and the target alone.
pub proof fn lemma_healthcheck_idempotent(
    cs: Seq<ContainerSummary>,
    target: Seq<char>,
    first: (int, Seq<char>),
    second: (int, Seq<char>),
)
    requires
        first == healthcheck_reply(cs, target),
        second == healthcheck_reply(cs, target),
    ensures
        first == second,
{
}

} // verus!
