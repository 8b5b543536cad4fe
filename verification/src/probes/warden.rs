//! `WardenProbe`: whether the bpolicy security module is loaded.

use vstd::prelude::*;

use crate::evidence::{self, Evidence, EvidenceView};
use crate::report::PrimitiveReport;
use crate::text;
use crate::verdict::{Verdict, VerdictView};

verus! {

/// Probe for the warden kernel primitive.
#[derive(Debug, Clone, Copy)]
pub struct WardenProbe;

/// What `bpolicy status` says.
#[derive(Debug, Clone)]
pub struct BpolicyStatus {
    /// Whether the module is loaded.
    pub loaded: Option<bool>,
    /// What went wrong.
    pub error: Option<String>,
}

/// The verdict on a status: an error outweighs everything, and a status that does not say is
/// worth nothing.
pub open spec fn status_verdict(parsed: Result<BpolicyStatus, String>) -> VerdictView {
    match parsed {
        Ok(BpolicyStatus { loaded: Some(loaded), error: None }) => if loaded {
            VerdictView::Live
        } else {
            VerdictView::Inert
        },
        _ => VerdictView::Unknown,
    }
}

/// The evidence of a status text and what it was read as.
pub open spec fn status_evidence(
    raw: Seq<char>,
    parsed: Result<BpolicyStatus, String>,
) -> EvidenceView {
    let base = EvidenceView::empty().with("bpolicy_status_raw"@, text::trim(raw));
    match parsed {
        Err(e) => base.with_detail("JSON parse error: "@ + e@),
        Ok(BpolicyStatus { error: Some(e), .. }) => base.with_detail(e@),
        Ok(BpolicyStatus { loaded: None, .. }) => base.with_detail(
            "'loaded' field absent in JSON"@,
        ),
        _ => base,
    }
}

/// Decides on a status text and what it was read as.
pub fn parse_bpolicy_output(
    probe_name: &str,
    raw: &str,
    parsed: &Result<BpolicyStatus, String>,
) -> (r: PrimitiveReport)
    ensures
        r@.says(probe_name@, status_verdict(*parsed), status_evidence(raw@, *parsed)),
{
    let base: Evidence = Evidence::single("bpolicy_status_raw", text::trimmed(raw).as_str());
    match parsed {
        Ok(status) => {
            if let Some(err) = &status.error {
                return PrimitiveReport::new(
                    probe_name,
                    Verdict::Unknown,
                    base.with_detail(err.as_str()),
                );
            }
            match status.loaded {
                Some(true) => PrimitiveReport::new(probe_name, Verdict::Live, base),
                Some(false) => PrimitiveReport::new(probe_name, Verdict::Inert, base),
                None => PrimitiveReport::new(
                    probe_name,
                    Verdict::Unknown,
                    base.with_detail("'loaded' field absent in JSON"),
                ),
            }
        },
        Err(e) => {
            let mut detail: String = "JSON parse error: ".to_owned();
            detail.append(e.as_str());
            PrimitiveReport::new(probe_name, Verdict::Unknown, base.with_detail(detail.as_str()))
        },
    }
}

impl WardenProbe {
    /// The name of the primitive.
    pub fn name(&self) -> (r: &'static str)
        ensures
            r@ == "warden"@,
    {
        "warden"
    }

    /// The status text where there is no `bpolicy` at `path`.
    pub fn missing_status(&self, path: &str) -> (r: String)
        ensures
            r@ == "{\"error\":\"bpolicy not found at "@ + path@ + "\"}"@,
    {
        let mut r: String = "{\"error\":\"bpolicy not found at ".to_owned();
        r.append(path);
        r.append("\"}");
        r
    }

    /// The status text where `bpolicy` could not be run.
    pub fn failed_status(&self, error: &str) -> (r: String)
        ensures
            r@ == "{\"error\":\"exec failed: "@ + error@ + "\"}"@,
    {
        let mut r: String = "{\"error\":\"exec failed: ".to_owned();
        r.append(error);
        r.append("\"}");
        r
    }

    /// The report where the status file could not be read.
    pub fn unreadable_fixture(&self, error: &str) -> (r: PrimitiveReport)
        ensures
            r@.says(
                "warden"@,
                VerdictView::Unknown,
                EvidenceView::empty().with("error"@, "fixture read failed: "@ + error@),
            ),
    {
        let mut detail: String = "fixture read failed: ".to_owned();
        detail.append(error);
        PrimitiveReport::new(
            self.name(),
            Verdict::Unknown,
            Evidence::single("error", detail.as_str()),
        )
    }

    /// Decides on a status text and what it was read as.
    pub fn probe(&self, raw: &str, parsed: &Result<BpolicyStatus, String>) -> (r: PrimitiveReport)
        ensures
            r@.says("warden"@, status_verdict(*parsed), status_evidence(raw@, *parsed)),
    {
        parse_bpolicy_output(self.name(), raw, parsed)
    }
}

// ---------------------------------------------------------------------------
// Laws
// ---------------------------------------------------------------------------

/// The module is `Live` exactly where a status without an error says that it is loaded, `Inert`
/// exactly where one says that it is not, and `Unknown` otherwise, with the reason in the detail.
/// The status text goes on record without the white space around it.
pub proof fn only_a_plain_status_counts(
    raw: &str,
    parsed: &Result<BpolicyStatus, String>,
    r: PrimitiveReport,
    name: &str,
    s: PrimitiveReport,
)
    requires
        call_ensures(WardenProbe::probe, (&WardenProbe, raw, parsed), r),
        call_ensures(parse_bpolicy_output, (name, raw, parsed), s),
    ensures
        r.name@ == "warden"@,
        s.name@ == name@,
        s@.verdict == r@.verdict,
        s@.evidence == r@.evidence,
        r.verdict is Live <==> parsed is Ok && parsed->Ok_0.error is None && parsed->Ok_0.loaded
            == Some(true),
        r.verdict is Inert <==> parsed is Ok && parsed->Ok_0.error is None && parsed->Ok_0.loaded
            == Some(false),
        r.verdict is Unknown <==> !(r.verdict is Live) && !(r.verdict is Inert),
        r.evidence@.pairs == seq![
            evidence::PairView { key: "bpolicy_status_raw"@, value: text::trim(raw@) },
        ],
        text::opt_view(r.evidence.detail) == match *parsed {
            Err(e) => Some("JSON parse error: "@ + e@),
            Ok(status) => match status.error {
                Some(e) => Some(e@),
                None => if status.loaded is None {
                    Some("'loaded' field absent in JSON"@)
                } else {
                    None
                },
            },
        },
{
    assert(r.evidence@.pairs =~= seq![
        evidence::PairView { key: "bpolicy_status_raw"@, value: text::trim(raw@) },
    ]);
    assert(r@.evidence.detail == text::opt_view(r.evidence.detail));
}

/// Where `bpolicy` is missing or cannot be run, the status says so as an error, and a status file
/// that cannot be read makes the primitive `Unknown`.
pub proof fn failures_are_told(
    path: &str,
    error: &str,
    missing: String,
    failed: String,
    unread: PrimitiveReport,
)
    requires
        call_ensures(WardenProbe::missing_status, (&WardenProbe, path), missing),
        call_ensures(WardenProbe::failed_status, (&WardenProbe, error), failed),
        call_ensures(WardenProbe::unreadable_fixture, (&WardenProbe, error), unread),
    ensures
        missing@ == "{\"error\":\"bpolicy not found at "@ + path@ + "\"}"@,
        failed@ == "{\"error\":\"exec failed: "@ + error@ + "\"}"@,
        unread.name@ == "warden"@,
        unread.verdict is Unknown,
        unread.evidence@.pairs == seq![
            evidence::PairView { key: "error"@, value: "fixture read failed: "@ + error@ },
        ],
        unread.evidence.detail is None,
{
    assert(unread.evidence@.pairs =~= seq![
        evidence::PairView { key: "error"@, value: "fixture read failed: "@ + error@ },
    ]);
    assert(unread@.evidence.detail == text::opt_view(unread.evidence.detail));
}

} // verus!
