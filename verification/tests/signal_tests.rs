use botd_edge::headers::Headers;
use botd_edge::registry::SignalHeaderNames;
use botd_edge::signal::{get_single_result, push_signal_headers, MalformedSignal,
    SignalResult, SignalStatus};

fn names() -> SignalHeaderNames {
    SignalHeaderNames::new("fpjs-bot-status", "fpjs-bot-prob", "fpjs-bot-type")
}

fn headers(entries: &[(&str, &str)]) -> Headers {
    let mut h = Headers::new();
    for (n, v) in entries {
        h.push(n.to_string(), v.to_string());
    }
    h
}

#[test]
fn missing_status_header_fails_signal() {
    let h = headers(&[("other", "x")]);
    let r = get_single_result(&h, &names(), "ok").unwrap();
    assert_eq!(r.status, SignalStatus::Failed);
    assert_eq!(r.probability, None);
    assert_eq!(r.kind, "");
}

#[test]
fn foreign_status_kept_verbatim() {
    let h = headers(&[("fpjs-bot-status", "pending")]);
    let r = get_single_result(&h, &names(), "ok").unwrap();
    assert_eq!(r.status, SignalStatus::OtherDomainValue("pending".to_string()));
    assert_eq!(r.probability, None);
}

#[test]
fn processed_signal_with_kind() {
    let h = headers(&[
        ("fpjs-bot-status", "ok"),
        ("fpjs-bot-prob", "0.83"),
        ("fpjs-bot-type", "headless"),
    ]);
    let r = get_single_result(&h, &names(), "ok").unwrap();
    assert_eq!(r.status, SignalStatus::Processed);
    assert_eq!(r.probability, Some(8300));
    assert_eq!(r.kind, "headless");
}

#[test]
fn processed_signal_without_kind_header() {
    let h = headers(&[("fpjs-bot-status", "ok"), ("fpjs-bot-prob", "0.2")]);
    let r = get_single_result(&h, &names(), "ok").unwrap();
    assert_eq!(r.status, SignalStatus::Processed);
    assert_eq!(r.probability, Some(2000));
    assert_eq!(r.kind, "");
}

#[test]
fn missing_probability_fails_signal() {
    let h = headers(&[("fpjs-bot-status", "ok")]);
    let r = get_single_result(&h, &names(), "ok").unwrap();
    assert_eq!(r.status, SignalStatus::Failed);
    assert_eq!(r.probability, None);
}

#[test]
fn unreadable_probability_is_malformed() {
    let h = headers(&[("fpjs-bot-status", "ok"), ("fpjs-bot-prob", "high")]);
    let r = get_single_result(&h, &names(), "ok");
    assert_eq!(r, Err(MalformedSignal));
}

#[test]
fn empty_kind_name_skips_kind_lookup() {
    let no_kind = SignalHeaderNames::new(
        "fpjs-browser-spoofing-status",
        "fpjs-browser-spoofing-prob",
        "",
    );
    let h = headers(&[
        ("fpjs-browser-spoofing-status", "ok"),
        ("fpjs-browser-spoofing-prob", "0.1"),
    ]);
    let r = get_single_result(&h, &no_kind, "ok").unwrap();
    assert_eq!(r.status, SignalStatus::Processed);
    assert_eq!(r.probability, Some(1000));
    assert_eq!(r.kind, "");
}

#[test]
fn processed_signal_emits_status_prob_and_type() {
    let r = SignalResult {
        status: SignalStatus::Processed,
        probability: Some(8300),
        kind: "headless".to_string(),
    };
    let mut out: Vec<(String, String)> = Vec::new();
    push_signal_headers(&mut out, &r, &names(), "processed", "failed");
    assert_eq!(out, vec![
        ("fpjs-bot-status".to_string(), "processed".to_string()),
        ("fpjs-bot-prob".to_string(), "0.83".to_string()),
        ("fpjs-bot-type".to_string(), "headless".to_string()),
    ]);
}

#[test]
fn failed_signal_emits_only_status() {
    let r = SignalResult {
        status: SignalStatus::Failed,
        probability: None,
        kind: String::new(),
    };
    let mut out: Vec<(String, String)> = Vec::new();
    push_signal_headers(&mut out, &r, &names(), "processed", "failed");
    assert_eq!(out, vec![("fpjs-bot-status".to_string(), "failed".to_string())]);
}

#[test]
fn emitted_signal_reads_back() {
    let r = SignalResult {
        status: SignalStatus::Processed,
        probability: Some(8300),
        kind: "headless".to_string(),
    };
    let mut out: Vec<(String, String)> = Vec::new();
    push_signal_headers(&mut out, &r, &names(), "ok", "failed");
    let mut h = Headers::new();
    for (n, v) in out {
        h.push(n, v);
    }
    let back = get_single_result(&h, &names(), "ok").unwrap();
    assert_eq!(back, r);
}
