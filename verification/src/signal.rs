//! One detection signal: parsing its header triple out of a verification
//! response, and emitting it back as annotation headers.

use vstd::prelude::*;
use vstd::string::{StringExecFns, StrSliceExecFns};
use crate::headers::{lookup, Headers};
use crate::probability::{format_prob_spec, format_probability, parse_prob_spec,
    parse_probability};
use crate::registry::SignalHeaderNames;

verus! {

/// Outcome class of one signal, as the verification service reported it.
#[derive(Clone, PartialEq, Eq, Debug)]
pub enum SignalStatus {
    /// Nothing was reported; the zero value.
    Unset,
    /// The signal was evaluated and carries a probability.
    Processed,
    /// The response lacked the signal's status or probability header.
    Failed,
    /// Any other status string, kept verbatim for propagation.
    OtherDomainValue(String),
}

/// One signal's normalized result. The probability is in basis points and
/// present exactly when the status is `Processed`; the kind is empty when the
/// signal was not classified.
#[derive(Clone, PartialEq, Eq, Debug)]
pub struct SignalResult {
    pub status: SignalStatus,
    pub probability: Option<u32>,
    pub kind: String,
}

/// A processed signal whose probability header did not parse: a protocol
/// violation, surfaced rather than defaulted away.
#[derive(Clone, Copy, PartialEq, Eq, Structural, Debug)]
pub struct MalformedSignal;

impl SignalResult {
    /// The probability accompanies exactly a processed status.
    pub open spec fn wf(self) -> bool {
        self.status is Processed <==> self.probability is Some
    }

    /// The zero value: nothing reported, nothing computed.
    pub open spec fn is_unset(self) -> bool {
        &&& self.status is Unset
        &&& self.probability is None
        &&& self.kind@ =~= Seq::<char>::empty()
    }
}

impl Default for SignalResult {
    fn default() -> (r: SignalResult)
        ensures
            r.is_unset(),
            r.wf(),
    {
        SignalResult { status: SignalStatus::Unset, probability: None, kind: String::new() }
    }
}

/// What the header triple of one signal says, before it is shaped into a
/// `SignalResult`.
pub enum SignalParse {
    /// Status header missing, or probability header missing on a processed
    /// status: the signal failed.
    Absent,
    /// A status other than the processed token, kept verbatim.
    NotProcessed(Seq<char>),
    /// A processed status whose probability does not parse.
    Malformed,
    /// A processed signal: probability in basis points, kind possibly empty.
    Evaluated { bp: u32, kind: Seq<char> },
}

/// Reading of one signal's headers, per the protocol: status first, then on a
/// processed status the probability, then optionally the kind.
pub open spec fn parse_signal_spec(
    hs: Seq<(Seq<char>, Seq<char>)>,
    status_name: Seq<char>,
    prob_name: Seq<char>,
    kind_name: Seq<char>,
    processed: Seq<char>,
) -> SignalParse {
    match lookup(hs, status_name) {
        None => SignalParse::Absent,
        Some(st) => if st != processed {
            SignalParse::NotProcessed(st)
        } else {
            match lookup(hs, prob_name) {
                None => SignalParse::Absent,
                Some(p) => match parse_prob_spec(p) {
                    None => SignalParse::Malformed,
                    Some(bp) => SignalParse::Evaluated {
                        bp,
                        kind: if kind_name.len() == 0 {
                            Seq::empty()
                        } else {
                            match lookup(hs, kind_name) {
                                None => Seq::empty(),
                                Some(k) => k,
                            }
                        },
                    },
                },
            }
        },
    }
}

/// `slot` is the `SignalResult` that reading the given header triple yields:
/// failed when a header is missing, verbatim when the status is foreign, an
/// error exactly when the probability is unreadable, and otherwise the parsed
/// probability and kind.
pub open spec fn slot_reflects(
    slot: Result<SignalResult, MalformedSignal>,
    hs: Seq<(Seq<char>, Seq<char>)>,
    names: SignalHeaderNames,
    processed: Seq<char>,
) -> bool {
    let p = parse_signal_spec(hs, names.status@, names.prob@, names.kind@, processed);
    &&& (slot is Err <==> p is Malformed)
    &&& (slot is Ok ==> slot->Ok_0.wf())
    &&& (p is Absent ==> slot->Ok_0.status is Failed && slot->Ok_0.probability is None
        && slot->Ok_0.kind@ =~= Seq::<char>::empty())
    &&& (p matches SignalParse::NotProcessed(st) ==> slot->Ok_0.status matches
        SignalStatus::OtherDomainValue(o) && o@ == st && slot->Ok_0.probability is None
        && slot->Ok_0.kind@ =~= Seq::<char>::empty())
    &&& (p matches SignalParse::Evaluated { bp, kind } ==> slot->Ok_0.status is Processed
        && slot->Ok_0.probability == Some(bp) && slot->Ok_0.kind@ == kind)
}

/// Reads one signal out of the verification response headers. Independent of
/// every other signal; a missing status or probability header degrades the
/// signal to `Failed`, an unreadable probability surfaces as an error.
pub fn get_single_result(
    headers: &Headers,
    names: &SignalHeaderNames,
    processed: &str,
) -> (r: Result<SignalResult, MalformedSignal>)
    ensures
        slot_reflects(r, headers@, *names, processed@),
{
    let status_option = headers.get(names.status.as_str());
    let status = match status_option {
        None => {
            return Ok(SignalResult {
                status: SignalStatus::Failed,
                probability: None,
                kind: String::new(),
            });
        },
        Some(s) => s,
    };
    if !crate::text::str_eq(status.as_str(), processed) {
        return Ok(SignalResult {
            status: SignalStatus::OtherDomainValue(status),
            probability: None,
            kind: String::new(),
        });
    }
    let prob_option = headers.get(names.prob.as_str());
    let prob_text = match prob_option {
        None => {
            return Ok(SignalResult {
                status: SignalStatus::Failed,
                probability: None,
                kind: String::new(),
            });
        },
        Some(p) => p,
    };
    let bp = match parse_probability(prob_text.as_str()) {
        None => {
            return Err(MalformedSignal);
        },
        Some(bp) => bp,
    };
    let kind: String = if names.kind.as_str().is_empty() {
        String::new()
    } else {
        match headers.get(names.kind.as_str()) {
            None => String::new(),
            Some(k) => k,
        }
    };
    Ok(SignalResult { status: SignalStatus::Processed, probability: Some(bp), kind })
}

/// The annotation text of a status: the deployment's tokens for processed
/// and failed, the empty string for unset, any other status verbatim.
pub open spec fn status_text(st: SignalStatus, processed: Seq<char>, failed: Seq<char>)
    -> Seq<char> {
    match st {
        SignalStatus::Unset => Seq::empty(),
        SignalStatus::Processed => processed,
        SignalStatus::Failed => failed,
        SignalStatus::OtherDomainValue(s) => s@,
    }
}

/// The annotation headers one signal contributes: always its status; its
/// two-place probability and, when classified, its kind, exactly when the
/// signal was processed.
pub open spec fn signal_headers_spec(
    r: SignalResult,
    status_name: Seq<char>,
    prob_name: Seq<char>,
    kind_name: Seq<char>,
    processed: Seq<char>,
    failed: Seq<char>,
) -> Seq<(Seq<char>, Seq<char>)> {
    seq![(status_name, status_text(r.status, processed, failed))] + if r.status is Processed {
        seq![(prob_name, format_prob_spec(r.probability->0))] + if r.kind@.len() > 0
            && kind_name.len() > 0 {
            seq![(kind_name, r.kind@)]
        } else {
            Seq::empty()
        }
    } else {
        Seq::empty()
    }
}

/// A processed signal's annotation headers read back to the signal itself:
/// the status header carries the processed token, the probability rendering
/// reads back to the same basis points when they are whole hundredths, and
/// the kind rides along exactly when the signal carries one.
pub proof fn lemma_signal_round_trip(
    r: SignalResult,
    status_name: Seq<char>,
    prob_name: Seq<char>,
    kind_name: Seq<char>,
    processed: Seq<char>,
    failed: Seq<char>,
)
    requires
        r.wf(),
        r.status is Processed,
        r.probability->0 % 100 == 0,
        r.probability->0 <= 99_999_999,
        status_name != prob_name,
        status_name != kind_name,
        prob_name != kind_name,
        kind_name.len() > 0 || r.kind@.len() == 0,
    ensures
        parse_signal_spec(
            signal_headers_spec(r, status_name, prob_name, kind_name, processed, failed),
            status_name,
            prob_name,
            kind_name,
            processed,
        ) == (SignalParse::Evaluated { bp: r.probability->0, kind: r.kind@ }),
{
    let bp = r.probability->0;
    let fmt = format_prob_spec(bp);
    crate::probability::lemma_prob_codec_round_trip(bp);
    let hs = signal_headers_spec(r, status_name, prob_name, kind_name, processed, failed);
    let e0 = (status_name, processed);
    let e1 = (prob_name, fmt);
    if r.kind@.len() > 0 && kind_name.len() > 0 {
        let e2 = (kind_name, r.kind@);
        assert(hs =~= seq![e0, e1, e2]);
        assert(seq![e0, e1, e2].drop_first() =~= seq![e1, e2]);
        assert(seq![e1, e2].drop_first() =~= seq![e2]);
        assert(lookup(hs, status_name) == Some(processed));
        assert(lookup(hs, prob_name) == lookup(seq![e1, e2], prob_name));
        assert(lookup(seq![e1, e2], prob_name) == Some(fmt));
        assert(lookup(hs, kind_name) == lookup(seq![e1, e2], kind_name));
        assert(lookup(seq![e1, e2], kind_name) == lookup(seq![e2], kind_name));
        assert(lookup(seq![e2], kind_name) == Some(r.kind@));
    } else {
        assert(hs =~= seq![e0, e1]);
        assert(seq![e0, e1].drop_first() =~= seq![e1]);
        assert(seq![e1].drop_first() =~= Seq::<(Seq<char>, Seq<char>)>::empty());
        assert(lookup(hs, status_name) == Some(processed));
        assert(lookup(hs, prob_name) == lookup(seq![e1], prob_name));
        assert(lookup(seq![e1], prob_name) == Some(fmt));
        if kind_name.len() > 0 {
            assert(lookup(hs, kind_name) == lookup(seq![e1], kind_name));
            assert(lookup(seq![e1], kind_name) == lookup(
                Seq::<(Seq<char>, Seq<char>)>::empty(),
                kind_name,
            ));
            assert(lookup(Seq::<(Seq<char>, Seq<char>)>::empty(), kind_name) is None);
        }
        assert(r.kind@ =~= Seq::<char>::empty());
    }
}

/// Renders the status of one signal with the deployment's tokens.
pub fn status_string(st: &SignalStatus, processed: &str, failed: &str) -> (r: String)
    ensures
        r@ == status_text(*st, processed@, failed@),
{
    match st {
        SignalStatus::Unset => String::new(),
        SignalStatus::Processed => processed.to_owned(),
        SignalStatus::Failed => failed.to_owned(),
        SignalStatus::OtherDomainValue(s) => s.clone(),
    }
}

/// Appends one signal's annotation headers to `out`.
pub fn push_signal_headers(
    out: &mut Vec<(String, String)>,
    r: &SignalResult,
    names: &SignalHeaderNames,
    processed: &str,
    failed: &str,
)
    requires
        r.wf(),
    ensures
        final(out).deep_view() =~= old(out).deep_view() + signal_headers_spec(*r, names.status@,
            names.prob@, names.kind@, processed@, failed@),
{
    let ghost before = out.deep_view();
    let st = status_string(&r.status, processed, failed);
    out.push((names.status.clone(), st));
    proof {
        assert(out.deep_view() =~= before.push((names.status@, status_text(r.status,
            processed@, failed@))));
    }
    let is_processed = match &r.status {
        SignalStatus::Processed => true,
        _ => false,
    };
    if is_processed {
        let ghost mid = out.deep_view();
        let bp = r.probability.unwrap();
        let prob = format_probability(bp);
        out.push((names.prob.clone(), prob));
        proof {
            assert(out.deep_view() =~= mid.push((names.prob@,
                format_prob_spec(r.probability->0))));
        }
        if r.kind.as_str().unicode_len() > 0 && names.kind.as_str().unicode_len() > 0 {
            let ghost mid2 = out.deep_view();
            out.push((names.kind.clone(), r.kind.clone()));
            proof {
                assert(out.deep_view() =~= mid2.push((names.kind@, r.kind@)));
            }
        }
    }
}

} // verus!
