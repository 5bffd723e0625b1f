use botd_edge::headers::Headers;
use botd_edge::pipeline::{annotation_headers, collect_outcome, decide, is_bot, request_plan,
    session_from_cookie, verification_query, verification_url, Decision, PipelineError};
use botd_edge::registry::{Registry, SignalHeaderNames, UnavailablePolicy};
use botd_edge::signal::SignalStatus;

fn fpjs_registry(policy: UnavailablePolicy) -> Registry {
    Registry {
        cookie_name: "botd-request-id=".to_string(),
        request_id_header: "fpjs-request-id".to_string(),
        request_status_header: "fpjs-request-status".to_string(),
        error_description_header: "fpjs-error-description".to_string(),
        processed_token: "ok".to_string(),
        failed_token: "failed".to_string(),
        bot: SignalHeaderNames::new("fpjs-bot-status", "fpjs-bot-prob", "fpjs-bot-type"),
        search_bot: SignalHeaderNames::new(
            "fpjs-search-bot-status",
            "fpjs-search-bot-prob",
            "fpjs-search-bot-type",
        ),
        vm: SignalHeaderNames::new("fpjs-vm-status", "fpjs-vm-prob", "fpjs-vm-type"),
        browser_spoofing: SignalHeaderNames::new(
            "fpjs-browser-spoofing-status",
            "fpjs-browser-spoofing-prob",
            "",
        ),
        unavailable_policy: policy,
        forward_on_block: true,
    }
}

fn headers(entries: &[(&str, &str)]) -> Headers {
    let mut h = Headers::new();
    for (n, v) in entries {
        h.push(n.to_string(), v.to_string());
    }
    h
}

fn pairs(entries: &[(&str, &str)]) -> Vec<(String, String)> {
    entries.iter().map(|(n, v)| (n.to_string(), v.to_string())).collect()
}

const FORBIDDEN: &str = "{\"error\": {\"code\": 403, \"description\": \"Forbidden\"}}";

#[test]
fn session_extracted_from_cookie_header() {
    let cookie = "botd-request-id=abc123".to_string();
    let r = session_from_cookie(Some(&cookie), "botd-request-id=");
    assert_eq!(r, Ok("abc123".to_string()));
}

#[test]
fn query_string_carries_token_and_id() {
    let q = verification_query("tok123", "abc123");
    assert_eq!(q, "header&token=tok123&id=abc123");
}

#[test]
fn url_is_base_plus_result_path() {
    let u = verification_url("https://botd.example", "/api/v1/results");
    assert_eq!(u, "https://botd.example/api/v1/results");
}

#[test]
fn unprocessed_overall_status_leaves_signals_unset() {
    let reg = fpjs_registry(UnavailablePolicy::ForwardWithDiagnostics);
    let h = headers(&[
        ("fpjs-request-status", "pending"),
        ("fpjs-error-description", "warming up"),
        ("fpjs-bot-status", "ok"),
        ("fpjs-bot-prob", "0.99"),
    ]);
    let o = collect_outcome("abc123", true, &h, &reg).unwrap();
    assert_eq!(o.request_status, SignalStatus::OtherDomainValue("pending".to_string()));
    assert_eq!(o.error_description, "warming up");
    for slot in [&o.bot, &o.search_bot, &o.vm, &o.browser_spoofing] {
        let s = slot.as_ref().unwrap();
        assert_eq!(s.status, SignalStatus::Unset);
        assert_eq!(s.probability, None);
        assert_eq!(s.kind, "");
    }
    let r = Ok(o);
    assert_eq!(decide(&r), Decision::Unavailable);
    let ann = annotation_headers(&r, &reg);
    assert_eq!(ann, pairs(&[
        ("fpjs-request-id", "abc123"),
        ("fpjs-request-status", "pending"),
    ]));
}

#[test]
fn threshold_is_inclusive_at_one_half() {
    let reg = fpjs_registry(UnavailablePolicy::ForwardWithDiagnostics);
    let h = headers(&[
        ("fpjs-request-status", "ok"),
        ("fpjs-bot-status", "ok"),
        ("fpjs-bot-prob", "0.5"),
    ]);
    let o = collect_outcome("abc123", true, &h, &reg).unwrap();
    assert!(is_bot(&o));
    assert_eq!(decide(&Ok(o)), Decision::Blocked);
}

#[test]
fn just_below_threshold_is_not_bot() {
    let reg = fpjs_registry(UnavailablePolicy::ForwardWithDiagnostics);
    let h = headers(&[
        ("fpjs-request-status", "ok"),
        ("fpjs-bot-status", "ok"),
        ("fpjs-bot-prob", "0.4999"),
    ]);
    let o = collect_outcome("abc123", true, &h, &reg).unwrap();
    assert!(!is_bot(&o));
    assert_eq!(decide(&Ok(o)), Decision::Forwarded);
}

#[test]
fn high_probability_blocks_with_forbidden_payload() {
    let reg = fpjs_registry(UnavailablePolicy::ForwardWithDiagnostics);
    let cookie = "botd-request-id=abc123".to_string();
    let session = session_from_cookie(Some(&cookie), &reg.cookie_name).unwrap();
    let h = headers(&[
        ("fpjs-request-status", "ok"),
        ("fpjs-bot-status", "ok"),
        ("fpjs-bot-prob", "0.91"),
    ]);
    let result = collect_outcome(&session, true, &h, &reg);
    let plan = request_plan(&result, &reg);
    assert_eq!(plan.decision, Decision::Blocked);
    assert_eq!(plan.replace_body.as_deref(), Some(FORBIDDEN));
    assert!(plan.audit_forward);
    let client = plan.client_response.unwrap();
    assert_eq!(client.status, 403);
    assert_eq!(client.body, FORBIDDEN);
    assert_eq!(plan.headers, pairs(&[
        ("fpjs-request-id", "abc123"),
        ("fpjs-request-status", "ok"),
        ("fpjs-bot-status", "ok"),
        ("fpjs-bot-prob", "0.91"),
        ("fpjs-search-bot-status", "failed"),
        ("fpjs-vm-status", "failed"),
        ("fpjs-browser-spoofing-status", "failed"),
    ]));
}

#[test]
fn low_probability_forwards_with_annotations() {
    let reg = fpjs_registry(UnavailablePolicy::ForwardWithDiagnostics);
    let cookie = "botd-request-id=abc123".to_string();
    let session = session_from_cookie(Some(&cookie), &reg.cookie_name).unwrap();
    let h = headers(&[
        ("fpjs-request-status", "ok"),
        ("fpjs-bot-status", "ok"),
        ("fpjs-bot-prob", "0.2"),
    ]);
    let result = collect_outcome(&session, true, &h, &reg);
    let plan = request_plan(&result, &reg);
    assert_eq!(plan.decision, Decision::Forwarded);
    assert_eq!(plan.replace_body, None);
    assert!(!plan.audit_forward);
    assert!(plan.client_response.is_none());
    assert!(plan.headers.contains(&("fpjs-bot-status".to_string(), "ok".to_string())));
    assert!(plan.headers.contains(&("fpjs-bot-prob".to_string(), "0.20".to_string())));
}

#[test]
fn missing_cookie_short_circuits_before_verification() {
    let reg = fpjs_registry(UnavailablePolicy::ForwardSilently);
    let session = session_from_cookie(None, &reg.cookie_name);
    assert_eq!(session, Err(PipelineError::SessionMissing));
    let result = Err(session.unwrap_err());
    let plan = request_plan(&result, &reg);
    assert_eq!(plan.decision, Decision::Unavailable);
    assert!(plan.headers.is_empty());
    assert_eq!(plan.replace_body, None);
    assert!(plan.client_response.is_none());
}

#[test]
fn missing_cookie_with_diagnostics_policy() {
    let reg = fpjs_registry(UnavailablePolicy::ForwardWithDiagnostics);
    let result = Err(PipelineError::SessionMissing);
    let plan = request_plan(&result, &reg);
    assert_eq!(plan.decision, Decision::Unavailable);
    assert_eq!(plan.headers, pairs(&[
        ("fpjs-request-id", ""),
        ("fpjs-request-status", "failed"),
    ]));
}

#[test]
fn http_failure_is_unavailable_and_forwards_without_signal_headers() {
    let reg = fpjs_registry(UnavailablePolicy::ForwardWithDiagnostics);
    let h = headers(&[]);
    let result = collect_outcome("abc123", false, &h, &reg);
    assert_eq!(
        result,
        Err(PipelineError::VerificationUnavailable { session_id: "abc123".to_string() })
    );
    let plan = request_plan(&result, &reg);
    assert_eq!(plan.decision, Decision::Unavailable);
    assert_eq!(plan.headers, pairs(&[
        ("fpjs-request-id", "abc123"),
        ("fpjs-request-status", "failed"),
    ]));
    assert!(plan.client_response.is_none());
    assert_eq!(plan.replace_body, None);
}

#[test]
fn missing_overall_status_header_is_failed_outcome() {
    let reg = fpjs_registry(UnavailablePolicy::ForwardWithDiagnostics);
    let h = headers(&[("unrelated", "x")]);
    let o = collect_outcome("abc123", true, &h, &reg).unwrap();
    assert_eq!(o.request_status, SignalStatus::Failed);
    assert_eq!(o.error_description, "");
    assert_eq!(decide(&Ok(o)), Decision::Unavailable);
}

#[test]
fn deployment_without_error_description_concept_records_none() {
    let mut reg = fpjs_registry(UnavailablePolicy::ForwardWithDiagnostics);
    reg.error_description_header = String::new();
    let h = headers(&[
        ("fpjs-request-status", "pending"),
        ("fpjs-error-description", "warming up"),
    ]);
    let o = collect_outcome("abc123", true, &h, &reg).unwrap();
    assert_eq!(o.request_status, SignalStatus::OtherDomainValue("pending".to_string()));
    assert_eq!(o.error_description, "");
}

#[test]
fn blocking_without_audit_forward() {
    let mut reg = fpjs_registry(UnavailablePolicy::ForwardWithDiagnostics);
    reg.forward_on_block = false;
    let h = headers(&[
        ("fpjs-request-status", "ok"),
        ("fpjs-bot-status", "ok"),
        ("fpjs-bot-prob", "0.75"),
    ]);
    let result = collect_outcome("abc123", true, &h, &reg);
    let plan = request_plan(&result, &reg);
    assert_eq!(plan.decision, Decision::Blocked);
    assert!(!plan.audit_forward);
}

#[test]
fn malformed_primary_signal_fails_open() {
    let reg = fpjs_registry(UnavailablePolicy::ForwardWithDiagnostics);
    let h = headers(&[
        ("fpjs-request-status", "ok"),
        ("fpjs-bot-status", "ok"),
        ("fpjs-bot-prob", "not-a-number"),
        ("fpjs-vm-status", "ok"),
        ("fpjs-vm-prob", "0.75"),
        ("fpjs-vm-type", "qemu"),
    ]);
    let o = collect_outcome("abc123", true, &h, &reg).unwrap();
    assert!(o.bot.is_err());
    let vm = o.vm.as_ref().unwrap();
    assert_eq!(vm.status, SignalStatus::Processed);
    assert_eq!(vm.probability, Some(7500));
    assert_eq!(vm.kind, "qemu");
    assert!(!is_bot(&o));
    let r = Ok(o);
    assert_eq!(decide(&r), Decision::Forwarded);
    let ann = annotation_headers(&r, &reg);
    assert_eq!(ann, pairs(&[
        ("fpjs-request-id", "abc123"),
        ("fpjs-request-status", "ok"),
        ("fpjs-search-bot-status", "failed"),
        ("fpjs-vm-status", "ok"),
        ("fpjs-vm-prob", "0.75"),
        ("fpjs-vm-type", "qemu"),
        ("fpjs-browser-spoofing-status", "failed"),
    ]));
}
