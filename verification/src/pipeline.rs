//! The per-request decision pipeline: session-id extraction, verification
//! query construction, outcome assembly from the verification response,
//! the block decision, and the plan for the outgoing request or the
//! synthesized blocked response. The transport performs the sends; every
//! decision about their content is made and proved here.

use vstd::prelude::*;
use vstd::string::{StringExecFns, StrSliceExecFns};
use crate::cookie::{extract_cookie_element, extract_cookie_spec};
use crate::headers::{lookup, Headers};
use crate::probability::PROB_HALF;
use crate::registry::{Registry, UnavailablePolicy};
use crate::signal::{get_single_result, push_signal_headers, signal_headers_spec,
    slot_reflects, status_string, status_text, MalformedSignal, SignalResult, SignalStatus};
use crate::text::str_eq;

verus! {

/// A condition that leaves the pipeline without a usable outcome. Both fail
/// open: the request is forwarded, never blocked.
#[derive(Clone, PartialEq, Eq, Debug)]
pub enum PipelineError {
    /// No cookie header, or no matching cookie entry: no verification call
    /// is made.
    SessionMissing,
    /// The verification service answered with a non-success HTTP status.
    VerificationUnavailable { session_id: String },
}

/// Terminal state of the pipeline for one request.
#[derive(Clone, Copy, PartialEq, Eq, Structural, Debug)]
pub enum Decision {
    /// The primary signal crossed the threshold: answer 403.
    Blocked,
    /// A processed outcome below the threshold: forward, fully annotated.
    Forwarded,
    /// No usable outcome: forward, unannotated or with diagnostics.
    Unavailable,
}

/// The assembled verification outcome: the echoed session id, the overall
/// status, and one result per signal. Per-signal results are only populated
/// when the overall status is processed.
#[derive(PartialEq, Eq, Debug)]
pub struct VerificationOutcome {
    pub request_id: String,
    pub request_status: SignalStatus,
    pub error_description: String,
    pub bot: Result<SignalResult, MalformedSignal>,
    pub search_bot: Result<SignalResult, MalformedSignal>,
    pub vm: Result<SignalResult, MalformedSignal>,
    pub browser_spoofing: Result<SignalResult, MalformedSignal>,
}

/// Every present per-signal result is at its zero value.
pub open spec fn unset_slots(o: VerificationOutcome) -> bool {
    &&& o.bot is Ok && o.bot->Ok_0.is_unset()
    &&& o.search_bot is Ok && o.search_bot->Ok_0.is_unset()
    &&& o.vm is Ok && o.vm->Ok_0.is_unset()
    &&& o.browser_spoofing is Ok && o.browser_spoofing->Ok_0.is_unset()
}

impl VerificationOutcome {
    /// Signals are well formed, and stay at their zero values unless the
    /// overall status is processed.
    pub open spec fn wf(self) -> bool {
        &&& (self.bot is Ok ==> self.bot->Ok_0.wf())
        &&& (self.search_bot is Ok ==> self.search_bot->Ok_0.wf())
        &&& (self.vm is Ok ==> self.vm->Ok_0.wf())
        &&& (self.browser_spoofing is Ok ==> self.browser_spoofing->Ok_0.wf())
        &&& (!(self.request_status is Processed) ==> unset_slots(self))
    }
}

/// Finds the session id in the cookie header; without one the pipeline is
/// over before any verification call.
pub fn session_from_cookie(cookie_header: Option<&String>, cookie_name: &str) -> (r: Result<
    String,
    PipelineError,
>)
    ensures
        match cookie_header {
            None => r matches Err(PipelineError::SessionMissing),
            Some(c) => match extract_cookie_spec(c@, cookie_name@) {
                None => r matches Err(PipelineError::SessionMissing),
                Some(v) => r is Ok && r->Ok_0@ == v,
            },
        },
{
    match cookie_header {
        None => Err(PipelineError::SessionMissing),
        Some(c) => match extract_cookie_element(c.as_str(), cookie_name) {
            None => Err(PipelineError::SessionMissing),
            Some(v) => Ok(v),
        },
    }
}

/// The query string of the verification request: the fixed mode token, the
/// authentication token, and the session id.
pub open spec fn query_spec(token: Seq<char>, id: Seq<char>) -> Seq<char> {
    "header&token="@ + token + "&id="@ + id
}

pub fn verification_query(token: &str, session_id: &str) -> (r: String)
    ensures
        r@ == query_spec(token@, session_id@),
{
    let mut q: String = ("header&token=").to_owned();
    q.append(token);
    q.append("&id=");
    q.append(session_id);
    proof {
        assert(q@ =~= query_spec(token@, session_id@));
    }
    q
}

/// The verification endpoint: the configured base plus the result path.
pub fn verification_url(base_url: &str, result_path: &str) -> (r: String)
    ensures
        r@ == base_url@ + result_path@,
{
    let mut u: String = base_url.to_owned();
    u.append(result_path);
    u
}

/// The error description recorded for an unprocessed overall status: the
/// deployment's error-description header when it has one and the response
/// carries it, otherwise empty.
pub open spec fn error_description_spec(hs: Seq<(Seq<char>, Seq<char>)>, name: Seq<char>)
    -> Seq<char> {
    if name.len() == 0 {
        Seq::empty()
    } else {
        match lookup(hs, name) {
            None => Seq::empty(),
            Some(e) => e,
        }
    }
}

/// An outcome whose overall status failed locally: everything else at zero.
fn failed_outcome(session_id: &str) -> (o: VerificationOutcome)
    ensures
        o.wf(),
        o.request_id@ == session_id@,
        o.request_status is Failed,
        o.error_description@ =~= Seq::<char>::empty(),
        unset_slots(o),
{
    VerificationOutcome {
        request_id: session_id.to_owned(),
        request_status: SignalStatus::Failed,
        error_description: String::new(),
        bot: Ok(SignalResult::default()),
        search_bot: Ok(SignalResult::default()),
        vm: Ok(SignalResult::default()),
        browser_spoofing: Ok(SignalResult::default()),
    }
}

/// Assembles the verification outcome from the response. A non-success HTTP
/// status is the service being unavailable; a missing overall status header
/// is a failed outcome; a foreign overall status is recorded verbatim with
/// the optional error description and no signal is read; a processed status
/// has all four signals read independently.
pub fn collect_outcome(
    session_id: &str,
    http_success: bool,
    headers: &Headers,
    reg: &Registry,
) -> (r: Result<VerificationOutcome, PipelineError>)
    ensures
        !http_success ==> (r matches Err(PipelineError::VerificationUnavailable {
            session_id: sid,
        }) && sid@ == session_id@),
        http_success ==> r is Ok,
        http_success ==> ({
            let o = r->Ok_0;
            &&& o.wf()
            &&& o.request_id@ == session_id@
            &&& match lookup(headers@, reg.request_status_header@) {
                None => o.request_status is Failed && unset_slots(o)
                    && o.error_description@ =~= Seq::<char>::empty(),
                Some(st) => if st != reg.processed_token@ {
                    &&& o.request_status matches SignalStatus::OtherDomainValue(v) && v@ == st
                    &&& unset_slots(o)
                    &&& o.error_description@ == error_description_spec(headers@,
                        reg.error_description_header@)
                } else {
                    &&& o.request_status is Processed
                    &&& o.error_description@ =~= Seq::<char>::empty()
                    &&& slot_reflects(o.bot, headers@, reg.bot, reg.processed_token@)
                    &&& slot_reflects(o.search_bot, headers@, reg.search_bot,
                        reg.processed_token@)
                    &&& slot_reflects(o.vm, headers@, reg.vm, reg.processed_token@)
                    &&& slot_reflects(o.browser_spoofing, headers@, reg.browser_spoofing,
                        reg.processed_token@)
                },
            }
        }),
{
    if !http_success {
        return Err(PipelineError::VerificationUnavailable {
            session_id: session_id.to_owned(),
        });
    }
    let status_opt = headers.get(reg.request_status_header.as_str());
    let st = match status_opt {
        None => {
            return Ok(failed_outcome(session_id));
        },
        Some(st) => st,
    };
    if !str_eq(st.as_str(), reg.processed_token.as_str()) {
        let error_description: String = if reg.error_description_header.as_str().is_empty() {
            String::new()
        } else {
            match headers.get(reg.error_description_header.as_str()) {
                None => String::new(),
                Some(e) => e,
            }
        };
        return Ok(VerificationOutcome {
            request_id: session_id.to_owned(),
            request_status: SignalStatus::OtherDomainValue(st),
            error_description,
            bot: Ok(SignalResult::default()),
            search_bot: Ok(SignalResult::default()),
            vm: Ok(SignalResult::default()),
            browser_spoofing: Ok(SignalResult::default()),
        });
    }
    let bot = get_single_result(headers, &reg.bot, reg.processed_token.as_str());
    let search_bot = get_single_result(headers, &reg.search_bot, reg.processed_token.as_str());
    let vm = get_single_result(headers, &reg.vm, reg.processed_token.as_str());
    let browser_spoofing = get_single_result(headers, &reg.browser_spoofing,
        reg.processed_token.as_str());
    Ok(VerificationOutcome {
        request_id: session_id.to_owned(),
        request_status: SignalStatus::Processed,
        error_description: String::new(),
        bot,
        search_bot,
        vm,
        browser_spoofing,
    })
}

/// The block rule: processed outcome, processed primary signal, and its
/// probability at or above one half.
pub open spec fn is_bot_spec(o: VerificationOutcome) -> bool {
    &&& o.request_status is Processed
    &&& o.bot is Ok
    &&& o.bot->Ok_0.status is Processed
    &&& o.bot->Ok_0.probability is Some
    &&& o.bot->Ok_0.probability->0 >= PROB_HALF
}

pub fn is_bot(o: &VerificationOutcome) -> (b: bool)
    requires
        o.wf(),
    ensures
        b == is_bot_spec(*o),
{
    let overall = match &o.request_status {
        SignalStatus::Processed => true,
        _ => false,
    };
    if !overall {
        return false;
    }
    match &o.bot {
        Err(_) => false,
        Ok(r) => match &r.status {
            SignalStatus::Processed => r.probability.unwrap() >= PROB_HALF,
            _ => false,
        },
    }
}

/// The decision for one request given the assembled result.
pub open spec fn decision_spec(result: Result<VerificationOutcome, PipelineError>) -> Decision {
    match result {
        Err(_) => Decision::Unavailable,
        Ok(o) => if !(o.request_status is Processed) {
            Decision::Unavailable
        } else if is_bot_spec(o) {
            Decision::Blocked
        } else {
            Decision::Forwarded
        },
    }
}

pub fn decide(result: &Result<VerificationOutcome, PipelineError>) -> (d: Decision)
    requires
        result matches Ok(o) ==> o.wf(),
    ensures
        d == decision_spec(*result),
{
    match result {
        Err(_) => Decision::Unavailable,
        Ok(o) => {
            let overall = match &o.request_status {
                SignalStatus::Processed => true,
                _ => false,
            };
            if !overall {
                Decision::Unavailable
            } else if is_bot(o) {
                Decision::Blocked
            } else {
                Decision::Forwarded
            }
        },
    }
}

/// The request-id and request-status diagnostic pair, or nothing, per the
/// deployment's policy for unusable outcomes.
pub open spec fn diagnostics_spec(reg: Registry, id: Seq<char>, status: Seq<char>) -> Seq<
    (Seq<char>, Seq<char>),
> {
    if reg.unavailable_policy is ForwardWithDiagnostics {
        seq![(reg.request_id_header@, id), (reg.request_status_header@, status)]
    } else {
        Seq::empty()
    }
}

/// One signal's annotation contribution: its headers when it was read, and
/// nothing for a malformed signal.
pub open spec fn slot_headers_spec(
    slot: Result<SignalResult, MalformedSignal>,
    names: crate::registry::SignalHeaderNames,
    processed: Seq<char>,
    failed: Seq<char>,
) -> Seq<(Seq<char>, Seq<char>)> {
    match slot {
        Ok(r) => signal_headers_spec(r, names.status@, names.prob@, names.kind@, processed,
            failed),
        Err(_) => Seq::empty(),
    }
}

/// Every header the pipeline attaches to the outgoing request (or, when
/// blocking, to the audited inbound request): diagnostics on an unusable
/// outcome, and on a processed outcome the id and status followed by every
/// signal's annotation.
pub open spec fn annotation_spec(
    result: Result<VerificationOutcome, PipelineError>,
    reg: Registry,
) -> Seq<(Seq<char>, Seq<char>)> {
    match result {
        Err(PipelineError::SessionMissing) => diagnostics_spec(reg, Seq::empty(),
            reg.failed_token@),
        Err(PipelineError::VerificationUnavailable { session_id }) => diagnostics_spec(reg,
            session_id@, reg.failed_token@),
        Ok(o) => if !(o.request_status is Processed) {
            diagnostics_spec(reg, o.request_id@, status_text(o.request_status,
                reg.processed_token@, reg.failed_token@))
        } else {
            seq![
                (reg.request_id_header@, o.request_id@),
                (reg.request_status_header@, reg.processed_token@),
            ] + slot_headers_spec(o.bot, reg.bot, reg.processed_token@, reg.failed_token@)
                + slot_headers_spec(o.search_bot, reg.search_bot, reg.processed_token@,
                reg.failed_token@) + slot_headers_spec(o.vm, reg.vm, reg.processed_token@,
                reg.failed_token@) + slot_headers_spec(o.browser_spoofing,
                reg.browser_spoofing, reg.processed_token@, reg.failed_token@)
        },
    }
}

/// Builds the annotation headers for one request.
pub fn annotation_headers(
    result: &Result<VerificationOutcome, PipelineError>,
    reg: &Registry,
) -> (r: Vec<(String, String)>)
    requires
        result matches Ok(o) ==> o.wf(),
    ensures
        r.deep_view() =~= annotation_spec(*result, *reg),
{
    let mut out: Vec<(String, String)> = Vec::new();
    proof {
        assert(out.deep_view() =~= Seq::<(Seq<char>, Seq<char>)>::empty());
    }
    match result {
        Err(e) => {
            match reg.unavailable_policy {
                UnavailablePolicy::ForwardSilently => {},
                UnavailablePolicy::ForwardWithDiagnostics => {
                    let ghost before = out.deep_view();
                    let id: String = match e {
                        PipelineError::SessionMissing => String::new(),
                        PipelineError::VerificationUnavailable { session_id } => session_id
                            .clone(),
                    };
                    out.push((reg.request_id_header.clone(), id));
                    out.push((reg.request_status_header.clone(), reg.failed_token.clone()));
                    proof {
                        assert(out.deep_view() =~= annotation_spec(*result, *reg));
                    }
                },
            }
        },
        Ok(o) => {
            let overall = match &o.request_status {
                SignalStatus::Processed => true,
                _ => false,
            };
            if !overall {
                match reg.unavailable_policy {
                    UnavailablePolicy::ForwardSilently => {},
                    UnavailablePolicy::ForwardWithDiagnostics => {
                        out.push((reg.request_id_header.clone(), o.request_id.clone()));
                        let st = status_string(&o.request_status,
                            reg.processed_token.as_str(), reg.failed_token.as_str());
                        out.push((reg.request_status_header.clone(), st));
                        proof {
                            assert(out.deep_view() =~= annotation_spec(*result, *reg));
                        }
                    },
                }
            } else {
                out.push((reg.request_id_header.clone(), o.request_id.clone()));
                out.push((reg.request_status_header.clone(), reg.processed_token.clone()));
                let ghost base = out.deep_view();
                proof {
                    assert(base =~= seq![
                        (reg.request_id_header@, o.request_id@),
                        (reg.request_status_header@, reg.processed_token@),
                    ]);
                }
                match &o.bot {
                    Ok(r) => push_signal_headers(&mut out, r, &reg.bot,
                        reg.processed_token.as_str(), reg.failed_token.as_str()),
                    Err(_) => {},
                }
                match &o.search_bot {
                    Ok(r) => push_signal_headers(&mut out, r, &reg.search_bot,
                        reg.processed_token.as_str(), reg.failed_token.as_str()),
                    Err(_) => {},
                }
                match &o.vm {
                    Ok(r) => push_signal_headers(&mut out, r, &reg.vm,
                        reg.processed_token.as_str(), reg.failed_token.as_str()),
                    Err(_) => {},
                }
                match &o.browser_spoofing {
                    Ok(r) => push_signal_headers(&mut out, r, &reg.browser_spoofing,
                        reg.processed_token.as_str(), reg.failed_token.as_str()),
                    Err(_) => {},
                }
                proof {
                    assert(out.deep_view() =~= annotation_spec(*result, *reg));
                }
            }
        },
    }
    out
}

/// The fixed body of a blocked response.
pub open spec fn forbidden_body_text() -> Seq<char> {
    "{\"error\": {\"code\": 403, \"description\": \"Forbidden\"}}"@
}

pub fn forbidden_body() -> (r: String)
    ensures
        r@ == forbidden_body_text(),
{
    ("{\"error\": {\"code\": 403, \"description\": \"Forbidden\"}}").to_owned()
}

/// The synthesized answer to the client when a request is blocked.
pub struct ClientResponse {
    pub status: u16,
    pub body: String,
}

/// Everything the transport must do for one request: the decision, the
/// headers to attach, whether to replace the body, whether a blocked request
/// is still forwarded for audit, and the response to synthesize instead of
/// the origin's.
pub struct RequestPlan {
    pub decision: Decision,
    pub headers: Vec<(String, String)>,
    pub replace_body: Option<String>,
    pub audit_forward: bool,
    pub client_response: Option<ClientResponse>,
}

/// Turns an assembled result into the full plan for the request. Blocking
/// replaces the body and answers 403 with the fixed payload; everything else
/// forwards and leaves the origin's response untouched.
pub fn request_plan(
    result: &Result<VerificationOutcome, PipelineError>,
    reg: &Registry,
) -> (p: RequestPlan)
    requires
        result matches Ok(o) ==> o.wf(),
    ensures
        p.decision == decision_spec(*result),
        p.headers.deep_view() =~= annotation_spec(*result, *reg),
        p.decision is Blocked ==> (p.replace_body matches Some(b) && b@
            == forbidden_body_text()),
        p.decision is Blocked ==> p.audit_forward == reg.forward_on_block,
        p.decision is Blocked ==> (p.client_response matches Some(c) && c.status == 403
            && c.body@ == forbidden_body_text()),
        !(p.decision is Blocked) ==> p.replace_body is None && p.audit_forward == false
            && p.client_response is None,
{
    let decision = decide(result);
    let headers = annotation_headers(result, reg);
    let blocked = match decision {
        Decision::Blocked => true,
        _ => false,
    };
    if blocked {
        RequestPlan {
            decision,
            headers,
            replace_body: Some(forbidden_body()),
            audit_forward: reg.forward_on_block,
            client_response: Some(ClientResponse { status: 403, body: forbidden_body() }),
        }
    } else {
        RequestPlan {
            decision,
            headers,
            replace_body: None,
            audit_forward: false,
            client_response: None,
        }
    }
}

/// The block threshold is inclusive: a processed primary signal at exactly
/// one half blocks.
pub proof fn lemma_threshold_inclusive(o: VerificationOutcome)
    requires
        o.wf(),
        o.request_status is Processed,
        o.bot is Ok,
        o.bot->Ok_0.status is Processed,
        o.bot->Ok_0.probability == Some(PROB_HALF),
    ensures
        is_bot_spec(o),
        decision_spec(Result::<VerificationOutcome, PipelineError>::Ok(o)) is Blocked,
{
}

/// An outcome whose overall status is not processed carries no signal data:
/// every slot is at its zero value, the decision is to forward, and the
/// annotation holds no per-signal header — only the diagnostics pair, when
/// the deployment asks for it.
pub proof fn lemma_unprocessed_outcome_is_silent(o: VerificationOutcome, reg: Registry)
    requires
        o.wf(),
        !(o.request_status is Processed),
    ensures
        unset_slots(o),
        decision_spec(Result::<VerificationOutcome, PipelineError>::Ok(o))
            is Unavailable,
        reg.unavailable_policy is ForwardSilently ==> annotation_spec(
            Result::<VerificationOutcome, PipelineError>::Ok(o),
            reg,
        ) =~= Seq::<(Seq<char>, Seq<char>)>::empty(),
        reg.unavailable_policy is ForwardWithDiagnostics ==> annotation_spec(
            Result::<VerificationOutcome, PipelineError>::Ok(o),
            reg,
        ) =~= seq![
            (reg.request_id_header@, o.request_id@),
            (reg.request_status_header@, status_text(o.request_status, reg.processed_token@,
                reg.failed_token@)),
        ],
{
}

} // verus!
