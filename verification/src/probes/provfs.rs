//! `ProvfsProbe`: whether provfs stamps files, and with what.

use vstd::prelude::*;

use crate::env::ProbeEnv;
use crate::evidence::{self, Evidence, EvidenceView};
use crate::report::{PrimitiveReport, ReportView};
use crate::text;
use crate::verdict::{Verdict, VerdictView};

verus! {

/// Probe for the provfs kernel primitive.
#[derive(Debug, Clone, Copy)]
pub struct ProvfsProbe;

/// What was found where provfs should have left its stamp.
#[derive(Debug)]
pub enum StampReading {
    /// The file does not exist.
    PathMissing,
    /// There is no `getfattr` to read the stamp with.
    ToolMissing,
    /// The stamp could not be read.
    Unreadable,
    /// What `getfattr` printed.
    Printed(String),
}

/// The verdict on a stamp.
pub open spec fn stamp_verdict(value: Seq<char>) -> VerdictView {
    if text::starts_with(value, "comm:"@) {
        VerdictView::LiveDegraded { reason: "agentns-fallback session id"@ }
    } else if text::is_session_id(value) {
        VerdictView::Live
    } else {
        VerdictView::Unknown
    }
}

/// What the verdict on a stamp adds to the evidence.
pub open spec fn stamp_evidence(value: Seq<char>, ev: EvidenceView) -> EvidenceView {
    if text::starts_with(value, "comm:"@) {
        ev.with_detail(
            "xattr is in comm: form — agentns did not assign a session UUID; value: "@ + value,
        )
    } else if text::is_session_id(value) {
        ev
    } else {
        ev.with_detail("unrecognised xattr value format: "@ + value)
    }
}

/// The evidence on the stamp of a file, up to what was found.
pub open spec fn path_evidence(path: Seq<char>) -> EvidenceView {
    EvidenceView::empty().with("provfs_xattr_path"@, path)
}

/// Whether a report is the right one for what was found at a path.
pub open spec fn is_provfs_report(r: ReportView, path: Seq<char>, found: StampReading) -> bool {
    let base = path_evidence(path);
    let keyed = base.with("xattr_key"@, "user.prov.session"@);
    let absent = keyed.with("xattr_present"@, "false"@);
    match found {
        StampReading::PathMissing => r.says(
            "provfs"@,
            VerdictView::Unknown,
            base.with("error"@, "path does not exist"@),
        ),
        StampReading::ToolMissing => r.says(
            "provfs"@,
            VerdictView::Unknown,
            keyed.with("error"@, "getfattr not installed"@),
        ),
        StampReading::Unreadable => r.says("provfs"@, VerdictView::Inert, absent),
        StampReading::Printed(out) => {
            let value = text::trim(out@);
            if value.len() == 0 {
                r.says("provfs"@, VerdictView::Inert, absent)
            } else {
                r.says(
                    "provfs"@,
                    stamp_verdict(value),
                    stamp_evidence(
                        value,
                        keyed.with("xattr_present"@, "true"@).with("xattr_value"@, value),
                    ),
                )
            }
        },
    }
}

/// Classifies a stamp: a fallback by process name, a session, or neither.
pub fn classify_provfs_value(probe_name: &str, value: &str, ev: Evidence) -> (r: PrimitiveReport)
    ensures
        r@.says(probe_name@, stamp_verdict(value@), stamp_evidence(value@, ev@)),
{
    if text::has_prefix(value, "comm:") {
        let mut detail: String =
            "xattr is in comm: form — agentns did not assign a session UUID; value: ".to_owned();
        detail.append(value);
        return PrimitiveReport::new(
            probe_name,
            Verdict::LiveDegraded { reason: "agentns-fallback session id".to_owned() },
            ev.with_detail(detail.as_str()),
        );
    }
    if text::session_id(value) {
        return PrimitiveReport::new(probe_name, Verdict::Live, ev);
    }
    let mut detail: String = "unrecognised xattr value format: ".to_owned();
    detail.append(value);
    PrimitiveReport::new(probe_name, Verdict::Unknown, ev.with_detail(detail.as_str()))
}

impl ProvfsProbe {
    /// The name of the primitive.
    pub fn name(&self) -> (r: &'static str)
        ensures
            r@ == "provfs"@,
    {
        "provfs"
    }

    /// The name of the attribute that holds the stamp.
    pub fn stamp_key(&self) -> (r: &'static str)
        ensures
            r@ == "user.prov.session"@,
    {
        "user.prov.session"
    }

    /// Decides on what was found at the stamped file.
    pub fn probe(&self, env: &ProbeEnv, found: &StampReading) -> (r: PrimitiveReport)
        ensures
            is_provfs_report(r@, env@.provfs_xattr_path, *found),
    {
        let base: Evidence = Evidence::single("provfs_xattr_path", env.provfs_xattr_path.as_str());
        if let StampReading::PathMissing = found {
            return PrimitiveReport::new(
                self.name(),
                Verdict::Unknown,
                base.with("error", "path does not exist"),
            );
        }
        let keyed: Evidence = base.with("xattr_key", self.stamp_key());
        if let StampReading::ToolMissing = found {
            return PrimitiveReport::new(
                self.name(),
                Verdict::Unknown,
                keyed.with("error", "getfattr not installed"),
            );
        }
        if let StampReading::Printed(out) = found {
            let value: String = text::trimmed(out.as_str());
            if value.as_str().unicode_len() > 0 {
                let ev: Evidence = keyed.with("xattr_present", "true").with(
                    "xattr_value",
                    value.as_str(),
                );
                return classify_provfs_value(self.name(), value.as_str(), ev);
            }
        }
        PrimitiveReport::new(self.name(), Verdict::Inert, keyed.with("xattr_present", "false"))
    }
}

// ---------------------------------------------------------------------------
// Laws
// ---------------------------------------------------------------------------

/// A stamp that starts with `comm:` is a fallback, any other stamp that is a session identifier is
/// live, and what is neither is unknown; the two that are not live say so in the detail.
pub proof fn stamps_are_sessions_or_fallbacks(
    name: &str,
    value: &str,
    ev: Evidence,
    r: PrimitiveReport,
    session: bool,
)
    requires
        call_ensures(classify_provfs_value, (name, value, ev), r),
        call_ensures(text::session_id, (value,), session),
    ensures
        r.name@ == name@,
        r.evidence@.pairs == ev@.pairs,
        ({
            let fallback = exists|rest: Seq<char>| value@ == #[trigger] ("comm:"@ + rest);
            &&& r.verdict is LiveDegraded <==> fallback
            &&& r.verdict is Live <==> !fallback && session
            &&& r.verdict is Unknown <==> !fallback && !session
            &&& fallback ==> r.verdict->reason@ == "agentns-fallback session id"@
                && r.evidence@.detail == Some(
                "xattr is in comm: form — agentns did not assign a session UUID; value: "@
                    + value@,
            )
            &&& !fallback && session ==> r.evidence@.detail == ev@.detail
            &&& !fallback && !session ==> r.evidence@.detail == Some(
                "unrecognised xattr value format: "@ + value@,
            )
        }),
{
    let p = "comm:"@;
    if text::starts_with(value@, p) {
        assert(value@ =~= p + value@.skip(p.len() as int));
        assert(r@.verdict->reason == r.verdict->reason@);
    }
    if exists|rest: Seq<char>| value@ == #[trigger] (p + rest) {
        let rest = choose|rest: Seq<char>| value@ == #[trigger] (p + rest);
        text::a_prefix_comes_first(p, rest);
    }
}

/// What is found at the stamped file decides: without the file or the tool to read it the
/// primitive is `Unknown`, without a stamp it is `Inert`, and a stamp is classified, without the
/// white space around it. The path, the key and the stamp go on record.
pub proof fn a_missing_stamp_is_inert(
    env: &ProbeEnv,
    found: &StampReading,
    r: PrimitiveReport,
    value: &str,
    ev: Evidence,
    classified: PrimitiveReport,
)
    requires
        call_ensures(ProvfsProbe::probe, (&ProvfsProbe, env, found), r),
        found is Printed ==> value@ == text::trim(found->Printed_0@),
        ev@.pairs == seq![
            evidence::PairView { key: "provfs_xattr_path"@, value: env.provfs_xattr_path@ },
            evidence::PairView { key: "xattr_key"@, value: "user.prov.session"@ },
            evidence::PairView { key: "xattr_present"@, value: "true"@ },
            evidence::PairView { key: "xattr_value"@, value: value@ },
        ],
        ev@.detail is None,
        call_ensures(classify_provfs_value, ("provfs", value, ev), classified),
    ensures
        r.name@ == "provfs"@,
        ({
            let path = evidence::PairView {
                key: "provfs_xattr_path"@,
                value: env.provfs_xattr_path@,
            };
            let key = evidence::PairView { key: "xattr_key"@, value: "user.prov.session"@ };
            match *found {
                StampReading::PathMissing => {
                    &&& r.verdict is Unknown
                    &&& r.evidence@.detail is None
                    &&& r.evidence@.pairs == seq![
                        path,
                        evidence::PairView { key: "error"@, value: "path does not exist"@ },
                    ]
                },
                StampReading::ToolMissing => {
                    &&& r.verdict is Unknown
                    &&& r.evidence@.detail is None
                    &&& r.evidence@.pairs == seq![
                        path,
                        key,
                        evidence::PairView { key: "error"@, value: "getfattr not installed"@ },
                    ]
                },
                StampReading::Unreadable => {
                    &&& r.verdict is Inert
                    &&& r.evidence@.detail is None
                    &&& r.evidence@.pairs == seq![
                        path,
                        key,
                        evidence::PairView { key: "xattr_present"@, value: "false"@ },
                    ]
                },
                StampReading::Printed(_) => {
                    &&& value@.len() == 0 ==> r.verdict is Inert && r.evidence@.detail is None
                        && r.evidence@.pairs == seq![
                        path,
                        key,
                        evidence::PairView { key: "xattr_present"@, value: "false"@ },
                    ]
                    &&& value@.len() > 0 ==> r@.verdict == classified@.verdict && r@.evidence
                        == classified@.evidence
                },
            }
        }),
{
    let path = evidence::PairView { key: "provfs_xattr_path"@, value: env.provfs_xattr_path@ };
    let key = evidence::PairView { key: "xattr_key"@, value: "user.prov.session"@ };
    let base = path_evidence(env.provfs_xattr_path@);
    let keyed = base.with("xattr_key"@, "user.prov.session"@);
    assert(base.with("error"@, "path does not exist"@).pairs =~= seq![
        path,
        evidence::PairView { key: "error"@, value: "path does not exist"@ },
    ]);
    assert(keyed.with("error"@, "getfattr not installed"@).pairs =~= seq![
        path,
        key,
        evidence::PairView { key: "error"@, value: "getfattr not installed"@ },
    ]);
    assert(keyed.with("xattr_present"@, "false"@).pairs =~= seq![
        path,
        key,
        evidence::PairView { key: "xattr_present"@, value: "false"@ },
    ]);
    let full = keyed.with("xattr_present"@, "true"@).with("xattr_value"@, value@);
    assert(full.pairs =~= ev@.pairs);
    assert(full == ev@);
}

} // verus!
