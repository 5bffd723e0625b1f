//! The protocol registry: every header name, status token, and policy knob of
//! one deployment, gathered in a single value so that the near-identical
//! deployed variants are alternate registries rather than code forks.

use vstd::prelude::*;

verus! {

/// The header-name triple of one detection signal. An empty `kind` name
/// means the signal has no classification concept.
pub struct SignalHeaderNames {
    pub status: String,
    pub prob: String,
    pub kind: String,
}

/// What to do with the outgoing request when no verification outcome is
/// usable: forward it untouched, or forward it with the request-id and
/// request-status diagnostic headers attached.
#[derive(Clone, Copy, PartialEq, Eq, Structural, Debug)]
pub enum UnavailablePolicy {
    ForwardSilently,
    ForwardWithDiagnostics,
}

/// All protocol constants of one deployment.
pub struct Registry {
    /// Cookie entry that carries the session id, trailing `=` included.
    pub cookie_name: String,
    pub request_id_header: String,
    pub request_status_header: String,
    /// Empty when the deployment has no error-description header.
    pub error_description_header: String,
    /// Token the verification service uses for a processed status.
    pub processed_token: String,
    /// Token emitted for a locally detected failure.
    pub failed_token: String,
    pub bot: SignalHeaderNames,
    pub search_bot: SignalHeaderNames,
    pub vm: SignalHeaderNames,
    pub browser_spoofing: SignalHeaderNames,
    pub unavailable_policy: UnavailablePolicy,
    /// Whether a blocked request is still forwarded once for audit.
    pub forward_on_block: bool,
}

impl SignalHeaderNames {
    pub fn new(status: &str, prob: &str, kind: &str) -> (r: SignalHeaderNames)
        ensures
            r.status@ == status@,
            r.prob@ == prob@,
            r.kind@ == kind@,
    {
        SignalHeaderNames {
            status: status.to_owned(),
            prob: prob.to_owned(),
            kind: kind.to_owned(),
        }
    }
}

} // verus!
