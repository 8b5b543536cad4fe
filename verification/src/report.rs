//! `PrimitiveReport`: the output of one probe run.

use vstd::prelude::*;

use crate::evidence::{Evidence, EvidenceView};
use crate::text;
use crate::time::{Civil, Timestamp};
use crate::verdict::{Verdict, VerdictView};

verus! {

/// The complete report of one probe run.
#[derive(Debug)]
pub struct PrimitiveReport {
    /// Short identifier of the primitive, such as `memlog`.
    pub name: String,
    /// Classification of the primitive's liveness.
    pub verdict: Verdict,
    /// The observations that the verdict was derived from.
    pub evidence: Evidence,
    /// When the probe was run.
    pub checked_at: Timestamp,
}

/// What a `PrimitiveReport` stands for.
pub struct ReportView {
    pub name: Seq<char>,
    pub verdict: VerdictView,
    pub evidence: EvidenceView,
    pub checked_at: Civil,
}

impl ReportView {
    /// Whether the report says this, at whatever time.
    pub open spec fn says(
        self,
        name: Seq<char>,
        verdict: VerdictView,
        evidence: EvidenceView,
    ) -> bool {
        self.name == name && self.verdict == verdict && self.evidence == evidence
    }
}

impl View for PrimitiveReport {
    type V = ReportView;

    open spec fn view(&self) -> ReportView {
        ReportView {
            name: self.name@,
            verdict: self.verdict@,
            evidence: self.evidence@,
            checked_at: self.checked_at@,
        }
    }
}

impl Clone for PrimitiveReport {
    fn clone(&self) -> (r: Self)
        ensures
            r@ == self@,
    {
        PrimitiveReport {
            name: self.name.clone(),
            verdict: self.verdict.clone(),
            evidence: self.evidence.clone(),
            checked_at: self.checked_at,
        }
    }
}

impl PrimitiveReport {
    /// A new report stamped with the current time.
    #[must_use]
    pub fn new(name: &str, verdict: Verdict, evidence: Evidence) -> (r: Self)
        ensures
            r@.says(name@, verdict@, evidence@),
            call_ensures(Timestamp::now, (), r.checked_at),
    {
        PrimitiveReport { name: name.to_owned(), verdict, evidence, checked_at: Timestamp::now() }
    }
}

/// A copy of a list of reports.
pub fn clone_reports(reports: &[PrimitiveReport]) -> (r: Vec<PrimitiveReport>)
    ensures
        text::views(r@) == text::views(reports@),
{
    let mut r: Vec<PrimitiveReport> = Vec::new();
    let mut i: usize = 0;
    while i < reports.len()
        invariant
            i <= reports.len(),
            r.len() == i,
            forall|j: int| 0 <= j < i ==> (#[trigger] r@[j])@ == reports@[j]@,
        decreases reports.len() - i,
    {
        r.push(reports[i].clone());
        i += 1;
    }
    assert(text::views(r@) =~= text::views(reports@));
    r
}

} // verus!
