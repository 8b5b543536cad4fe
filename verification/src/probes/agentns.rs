//! `AgentnsProbe`: whether the current process runs in an agent session.
//!
//! The agent-session file holds a 128-bit number. Zero means that there is no session, and then
//! `assay` is asked whether the kernel refuses to start one or the launch was not wrapped.

use vstd::prelude::*;

use crate::env::{self, ProbeEnv};
use crate::evidence::{self, Evidence, EvidenceView};
use crate::report::PrimitiveReport;
use crate::text;
use crate::verdict::{Verdict, VerdictView};

verus! {

/// Probe for the agentns kernel primitive.
#[derive(Debug, Clone, Copy)]
pub struct AgentnsProbe;

/// Why the kernel refused to create an agent namespace.
#[derive(Debug, Clone)]
pub struct FlagRejectedDetail {
    /// The clone flag that was tried.
    pub flag: u64,
    /// The flag that it collides with.
    pub collides_with: Option<String>,
    /// The error number that the kernel returned.
    pub errno: Option<i32>,
}

/// The verdict of `assay` on the kernel mechanism.
#[derive(Debug, Clone)]
pub enum AssayVerdict {
    /// The kernel rejected the clone flag.
    FlagRejected {
        /// What is known of the rejection.
        detail: FlagRejectedDetail,
    },
    /// The kernel created a namespace.
    Live,
    /// Anything else.
    Other,
}

/// What `assay` reported.
#[derive(Debug, Clone)]
pub struct AssayReport {
    /// Its verdict.
    pub verdict: AssayVerdict,
    /// The flag that the kernel was compiled with, where the evidence has it as text.
    pub compiled_flag: Option<String>,
}

/// What a `FlagRejectedDetail` stands for.
pub struct FlagRejectedView {
    pub flag: u64,
    pub collides_with: Option<Seq<char>>,
    pub errno: Option<i32>,
}

impl View for FlagRejectedDetail {
    type V = FlagRejectedView;

    open spec fn view(&self) -> FlagRejectedView {
        FlagRejectedView {
            flag: self.flag,
            collides_with: text::opt_view(self.collides_with),
            errno: self.errno,
        }
    }
}

/// What comes of the first step of the probe.
#[derive(Debug)]
pub enum AgentnsStep {
    /// The report is complete.
    Done(PrimitiveReport),
    /// There is no session: `assay` has to be asked why. The evidence so far is carried on.
    AskAssay(Evidence),
}

/// The evidence where the agent-session file could not be read.
pub open spec fn unreadable_session(path: Seq<char>) -> EvidenceView {
    EvidenceView::empty().with("agent_session_path"@, path).with(
        "error"@,
        "file absent or unreadable"@,
    )
}

/// The evidence of a session text.
pub open spec fn session_evidence(raw: Seq<char>, path: Seq<char>) -> EvidenceView {
    EvidenceView::empty().with("agent_session_raw"@, raw).with("agent_session_path"@, path)
}

/// Text or, where there is none, `unknown`.
pub open spec fn or_unknown(o: Option<Seq<char>>) -> Seq<char> {
    match o {
        Some(s) => s,
        None => "unknown"@,
    }
}

/// A clone flag in hexadecimal.
pub open spec fn flag_text(flag: u64) -> Seq<char> {
    "0x"@ + text::digits(flag as nat, 16)
}

/// The advice for a live mechanism without a session.
pub open spec fn wrap_advice() -> Seq<char> {
    "wrap the launch (onramp agentns-wrap)"@
}

/// The evidence of a rejected clone flag, on top of `base`.
pub open spec fn rejected_evidence(
    base: EvidenceView,
    detail: FlagRejectedView,
    compiled_flag: Option<Seq<char>>,
) -> EvidenceView {
    let collision = or_unknown(detail.collides_with);
    let flag = flag_text(detail.flag);
    base.with("assay_verdict"@, "FlagRejected"@).with(
        "assay_compiled_flag"@,
        match compiled_flag {
            Some(f) => f,
            None => flag,
        },
    ).with("assay_collides_with"@, collision).with(
        "assay_unshare_errno"@,
        match detail.errno {
            Some(e) => text::signed_decimal(e as int),
            None => "unknown"@,
        },
    ).with(
        "cause"@,
        "kernel rejects CLONE_NEWAGENT (flag "@ + flag + " == "@ + collision + "), errno EINVAL"@,
    ).with("remediation"@, "PRD-agentns-clone-flag-fix; launch-wrap will not help"@)
}

/// Whether the first step settles a session text, and how.
pub open spec fn is_first_step(
    step: AgentnsStep,
    path: Seq<char>,
    content: Option<Seq<char>>,
) -> bool {
    match content {
        None => step matches AgentnsStep::Done(r) && r@.says(
            "agentns"@,
            VerdictView::Unknown,
            unreadable_session(path),
        ),
        Some(s) => {
            let raw = text::trim(s);
            let evidence = session_evidence(raw, path);
            if text::is_zero_session_id(raw) {
                step matches AgentnsStep::AskAssay(e) && e@ == evidence
            } else {
                step matches AgentnsStep::Done(r) && r@.says(
                    "agentns"@,
                    if text::is_session_id(raw) {
                        VerdictView::Live
                    } else {
                        VerdictView::Unknown
                    },
                    evidence,
                )
            }
        },
    }
}

impl AgentnsProbe {
    /// The name of the primitive.
    pub fn name(&self) -> (r: &'static str)
        ensures
            r@ == "agentns"@,
    {
        "agentns"
    }

    /// The first step: what the agent-session file says, as far as it could be read.
    ///
    /// `assay` is asked only where the session is all zeros.
    pub fn begin(&self, env: &ProbeEnv, content: Option<&str>) -> (r: AgentnsStep)
        ensures
            is_first_step(r, env@.agent_session_path, text::opt_view(content)),
    {
        let path: &str = env.agent_session_path.as_str();
        let raw: String = match env::read_trimmed(content) {
            Some(raw) => raw,
            None => {
                let evidence: Evidence = Evidence::single("agent_session_path", path).with(
                    "error",
                    "file absent or unreadable",
                );
                return AgentnsStep::Done(
                    PrimitiveReport::new(self.name(), Verdict::Unknown, evidence),
                );
            },
        };
        let evidence: Evidence = Evidence::single("agent_session_raw", raw.as_str()).with(
            "agent_session_path",
            path,
        );
        if text::zero_session_id(raw.as_str()) {
            AgentnsStep::AskAssay(evidence)
        } else if text::session_id(raw.as_str()) {
            AgentnsStep::Done(PrimitiveReport::new(self.name(), Verdict::Live, evidence))
        } else {
            AgentnsStep::Done(PrimitiveReport::new(self.name(), Verdict::Unknown, evidence))
        }
    }

    /// The evidence of a rejected clone flag, on top of `base`.
    fn flag_rejected_evidence(
        base: Evidence,
        compiled_flag: &Option<String>,
        detail: &FlagRejectedDetail,
    ) -> (r: Evidence)
        ensures
            r@ == rejected_evidence(base@, detail@, text::opt_view(*compiled_flag)),
    {
        let collision: &str = match &detail.collides_with {
            Some(c) => c.as_str(),
            None => "unknown",
        };
        let errno: String = match detail.errno {
            Some(e) => text::signed_text(e),
            None => "unknown".to_owned(),
        };
        let mut flag: String = "0x".to_owned();
        flag.append(text::number_text(detail.flag, 16).as_str());
        let compiled: &str = match compiled_flag {
            Some(f) => f.as_str(),
            None => flag.as_str(),
        };
        let mut cause: String = "kernel rejects CLONE_NEWAGENT (flag ".to_owned();
        cause.append(flag.as_str());
        cause.append(" == ");
        cause.append(collision);
        cause.append("), errno EINVAL");
        base.with("assay_verdict", "FlagRejected").with("assay_compiled_flag", compiled).with(
            "assay_collides_with",
            collision,
        ).with("assay_unshare_errno", errno.as_str()).with("cause", cause.as_str()).with(
            "remediation",
            "PRD-agentns-clone-flag-fix; launch-wrap will not help",
        )
    }

    /// The second step: what `assay` answered, if it did.
    ///
    /// Where it gave no usable answer, the report is what it would be without `assay`.
    pub fn finish(&self, evidence: Evidence, assay: Option<&AssayReport>) -> (r: PrimitiveReport)
        ensures
            match assay {
                Some(AssayReport { verdict: AssayVerdict::FlagRejected { detail }, compiled_flag })
                    => r@.says(
                    "agentns"@,
                    VerdictView::Inert,
                    rejected_evidence(evidence@, detail@, text::opt_view(*compiled_flag)),
                ),
                Some(AssayReport { verdict: AssayVerdict::Live, .. }) => r@.says(
                    "agentns"@,
                    VerdictView::MechanismLiveNotWired { remediation: wrap_advice() },
                    evidence@.with("assay_verdict"@, "Live"@).with("remediation"@, wrap_advice()),
                ),
                _ => r@.says("agentns"@, VerdictView::Inert, evidence@),
            },
    {
        let report: &AssayReport = match assay {
            Some(report) => report,
            None => {
                return PrimitiveReport::new(self.name(), Verdict::Inert, evidence);
            },
        };
        match &report.verdict {
            AssayVerdict::FlagRejected { detail } => {
                let full: Evidence = Self::flag_rejected_evidence(
                    evidence,
                    &report.compiled_flag,
                    detail,
                );
                PrimitiveReport::new(self.name(), Verdict::Inert, full)
            },
            AssayVerdict::Live => {
                let advice: &str = "wrap the launch (onramp agentns-wrap)";
                let full: Evidence = evidence.with("assay_verdict", "Live").with(
                    "remediation",
                    advice,
                );
                PrimitiveReport::new(
                    self.name(),
                    Verdict::MechanismLiveNotWired { remediation: advice.to_owned() },
                    full,
                )
            },
            AssayVerdict::Other => PrimitiveReport::new(self.name(), Verdict::Inert, evidence),
        }
    }
}

// ---------------------------------------------------------------------------
// Laws
// ---------------------------------------------------------------------------

/// What the first step decides: without a readable file the primitive is `Unknown`; with a session
/// other than zero, without the white space around it, it is `Live`; with neither it is `Unknown`;
/// and only for the session zero is `assay` asked. What was read goes on record.
pub proof fn only_a_session_is_live(
    env: &ProbeEnv,
    content: Option<&str>,
    r: AgentnsStep,
    raw: &str,
    session: bool,
    zero: bool,
)
    requires
        call_ensures(AgentnsProbe::begin, (&AgentnsProbe, env, content), r),
        content is Some ==> raw@ == text::trim(content->0@),
        call_ensures(text::session_id, (raw,), session),
        call_ensures(text::zero_session_id, (raw,), zero),
    ensures
        content is None ==> r is Done && r->Done_0.name@ == "agentns"@ && r->Done_0.verdict
            is Unknown && r->Done_0.evidence@.pairs == seq![
            evidence::PairView {
                key: "agent_session_path"@,
                value: env.agent_session_path@,
            },
            evidence::PairView { key: "error"@, value: "file absent or unreadable"@ },
        ] && r->Done_0.evidence.detail is None,
        content is Some ==> {
            let seen = seq![
                evidence::PairView { key: "agent_session_raw"@, value: raw@ },
                evidence::PairView {
                    key: "agent_session_path"@,
                    value: env.agent_session_path@,
                },
            ];
            &&& r is AskAssay <==> zero
            &&& r matches AgentnsStep::AskAssay(e) ==> e@.pairs == seen && e.detail is None
            &&& r matches AgentnsStep::Done(report) ==> {
                &&& report.name@ == "agentns"@
                &&& report.verdict is Live <==> session
                &&& report.verdict is Unknown <==> !session
                &&& report.evidence@.pairs == seen
                &&& report.evidence.detail is None
            }
        },
{
    match content {
        None => {
            let e = r->Done_0.evidence;
            assert(e@.pairs =~= seq![
                evidence::PairView {
                    key: "agent_session_path"@,
                    value: env.agent_session_path@,
                },
                evidence::PairView { key: "error"@, value: "file absent or unreadable"@ },
            ]);
            assert(e@.detail == text::opt_view(e.detail));
        },
        Some(s) => {
            let e = match r {
                AgentnsStep::AskAssay(e) => e,
                AgentnsStep::Done(report) => report.evidence,
            };
            assert(e@.pairs =~= seq![
                evidence::PairView { key: "agent_session_raw"@, value: raw@ },
                evidence::PairView {
                    key: "agent_session_path"@,
                    value: env.agent_session_path@,
                },
            ]);
            assert(e@.detail == text::opt_view(e.detail));
        },
    }
}

/// Without a usable answer of `assay` the primitive is `Inert`, on the evidence there was.
pub proof fn no_answer_leaves_the_evidence(
    evidence: Evidence,
    assay: Option<&AssayReport>,
    r: PrimitiveReport,
)
    requires
        call_ensures(AgentnsProbe::finish, (&AgentnsProbe, evidence, assay), r),
        assay is None || assay->0.verdict is Other,
    ensures
        r.name@ == "agentns"@,
        r.verdict is Inert,
        r.evidence@ == evidence@,
{
}

/// Where `assay` finds the mechanism live, the launch was not wrapped: the advice to wrap it is
/// both in the verdict and on record, after the answer.
pub proof fn a_live_mechanism_is_not_wired(
    evidence: Evidence,
    assay: Option<&AssayReport>,
    r: PrimitiveReport,
)
    requires
        call_ensures(AgentnsProbe::finish, (&AgentnsProbe, evidence, assay), r),
        assay is Some,
        assay->0.verdict is Live,
    ensures
        r.name@ == "agentns"@,
        r.verdict is MechanismLiveNotWired,
        text::starts_with(r.verdict->remediation@, "wrap the launch (onramp "@),
        r.evidence@.pairs == evidence@.pairs + seq![
            evidence::PairView { key: "assay_verdict"@, value: "Live"@ },
            evidence::PairView { key: "remediation"@, value: r.verdict->remediation@ },
        ],
        r.evidence@.detail == evidence@.detail,
{
    let advice = r.verdict->remediation@;
    assert(r@.verdict->remediation == advice);
    reveal_strlit("wrap the launch (onramp ");
    reveal_strlit("wrap the launch (onramp agentns-wrap)");
    assert(advice.take(24) =~= "wrap the launch (onramp "@);
    assert(r.evidence@.pairs =~= evidence@.pairs + seq![
        evidence::PairView { key: "assay_verdict"@, value: "Live"@ },
        evidence::PairView { key: "remediation"@, value: advice },
    ]);
}

/// Where the kernel rejects the clone flag the primitive is `Inert`, and the flag, what it
/// collides with, the error number and the cause go on record, with `unknown` for what `assay` did
/// not say.
pub proof fn a_rejected_flag_is_explained(
    evidence: Evidence,
    assay: Option<&AssayReport>,
    r: PrimitiveReport,
)
    requires
        call_ensures(AgentnsProbe::finish, (&AgentnsProbe, evidence, assay), r),
        assay is Some,
        assay->0.verdict is FlagRejected,
    ensures
        r.name@ == "agentns"@,
        r.verdict is Inert,
        r.evidence@.detail == evidence@.detail,
        ({
            let detail = assay->0.verdict->detail;
            let flag = "0x"@ + text::digits(detail.flag as nat, 16);
            let collision = match detail.collides_with {
                Some(c) => c@,
                None => "unknown"@,
            };
            r.evidence@.pairs == evidence@.pairs + seq![
                evidence::PairView { key: "assay_verdict"@, value: "FlagRejected"@ },
                evidence::PairView {
                    key: "assay_compiled_flag"@,
                    value: match assay->0.compiled_flag {
                        Some(f) => f@,
                        None => flag,
                    },
                },
                evidence::PairView { key: "assay_collides_with"@, value: collision },
                evidence::PairView {
                    key: "assay_unshare_errno"@,
                    value: match detail.errno {
                        Some(e) => text::signed_decimal(e as int),
                        None => "unknown"@,
                    },
                },
                evidence::PairView {
                    key: "cause"@,
                    value: "kernel rejects CLONE_NEWAGENT (flag "@ + flag + " == "@ + collision
                        + "), errno EINVAL"@,
                },
                evidence::PairView {
                    key: "remediation"@,
                    value: "PRD-agentns-clone-flag-fix; launch-wrap will not help"@,
                },
            ]
        }),
{
    let detail = assay->0.verdict->detail;
    let flag = "0x"@ + text::digits(detail.flag as nat, 16);
    let collision = match detail.collides_with {
        Some(c) => c@,
        None => "unknown"@,
    };
    assert(r.evidence@.pairs =~= evidence@.pairs + seq![
        evidence::PairView { key: "assay_verdict"@, value: "FlagRejected"@ },
        evidence::PairView {
            key: "assay_compiled_flag"@,
            value: match assay->0.compiled_flag {
                Some(f) => f@,
                None => flag,
            },
        },
        evidence::PairView { key: "assay_collides_with"@, value: collision },
        evidence::PairView {
            key: "assay_unshare_errno"@,
            value: match detail.errno {
                Some(e) => text::signed_decimal(e as int),
                None => "unknown"@,
            },
        },
        evidence::PairView {
            key: "cause"@,
            value: "kernel rejects CLONE_NEWAGENT (flag "@ + flag + " == "@ + collision
                + "), errno EINVAL"@,
        },
        evidence::PairView {
            key: "remediation"@,
            value: "PRD-agentns-clone-flag-fix; launch-wrap will not help"@,
        },
    ]);
}

} // verus!
