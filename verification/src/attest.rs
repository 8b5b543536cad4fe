//! One attestation: a new receipt, what changed since the last one, and the inert streaks.

use vstd::prelude::*;

use crate::delta::{self, Delta, DeltaKind};
use crate::receipt::{AttestClock, Receipt, ReceiptView};
use crate::report::{self, PrimitiveReport, ReportView};
use crate::streak::{self, StreakInfo};
use crate::text;

verus! {

/// The complete result of one attestation.
#[derive(Debug, Clone)]
pub struct AttestResult {
    /// The new receipt. Whether it is kept is the caller's decision.
    pub receipt: Receipt,
    /// Per-primitive deltas against the most recent prior receipt, if there is one.
    pub deltas: Vec<(String, Delta)>,
    /// Per-primitive inert streaks.
    pub streaks: Vec<(String, StreakInfo)>,
}

/// Whether `deltas` holds, for each report in order, its name and its change since the last receipt
/// of `history`; without one there is nothing to compare with.
pub open spec fn are_deltas_since(
    deltas: Seq<(String, Delta)>,
    reports: Seq<ReportView>,
    history: Seq<ReceiptView>,
) -> bool {
    if history.len() == 0 {
        &&& deltas.len() == reports.len()
        &&& forall|i: int|
            0 <= i < deltas.len() ==> {
                &&& (#[trigger] deltas[i]).0@ == reports[i].name
                &&& deltas[i].1@ is NoPrior
            }
    } else {
        delta::are_deltas(deltas, history.last().reports, reports)
    }
}

/// Deltas for reports that have nothing to be compared with.
fn without_prior(reports: &[PrimitiveReport]) -> (r: Vec<(String, Delta)>)
    ensures
        are_deltas_since(r@, text::views(reports@), Seq::empty()),
{
    let mut r: Vec<(String, Delta)> = Vec::new();
    let mut i: usize = 0;
    while i < reports.len()
        invariant
            i <= reports.len(),
            r.len() == i,
            forall|j: int|
                0 <= j < i ==> {
                    &&& (#[trigger] r@[j]).0@ == reports@[j].name@
                    &&& r@[j].1@ is NoPrior
                },
        decreases reports.len() - i,
    {
        r.push((reports[i].name.clone(), Delta { kind: DeltaKind::NoPrior }));
        i += 1;
    }
    r
}

/// Takes a receipt of `reports` and holds it against the receipts taken before, oldest first.
///
/// Deltas are against the last receipt of the history, streaks are counted over all of it. The
/// new receipt is part of neither; keeping it is up to the caller.
pub fn attest<C: AttestClock>(
    reports: &[PrimitiveReport],
    clock: &C,
    boot_id: &str,
    history: &[Receipt],
) -> (r: AttestResult)
    requires
        forall|i: int|
            0 <= i < reports@.len() ==> streak::countable(
                text::views(history@),
                (#[trigger] reports@[i]).name@,
            ),
    ensures
        call_ensures(C::now, (clock,), r.receipt.taken_at),
        r.receipt@.boot_id == boot_id@,
        r.receipt@.reports == text::views(reports@),
        are_deltas_since(r.deltas@, text::views(reports@), text::views(history@)),
        streak::are_streaks(r.streaks@, text::views(reports@), text::views(history@)),
{
    let receipt: Receipt = Receipt {
        taken_at: clock.now(),
        boot_id: boot_id.to_owned(),
        reports: report::clone_reports(reports),
    };
    let n: usize = history.len();
    let deltas: Vec<(String, Delta)> = if n == 0 {
        assert(text::views(history@) =~= Seq::empty());
        without_prior(reports)
    } else {
        delta::compute_deltas(history[n - 1].reports.as_slice(), reports)
    };
    let streaks: Vec<(String, StreakInfo)> = streak::compute_streaks(reports, history);
    AttestResult { receipt, deltas, streaks }
}

// ---------------------------------------------------------------------------
// Laws
// ---------------------------------------------------------------------------

/// An attestation is the new receipt, the deltas against the last receipt of the history, or none
/// to compare with where the history is empty, and the streaks over the history.
pub proof fn an_attestation_is_its_parts<C: AttestClock>(
    reports: &[PrimitiveReport],
    clock: &C,
    boot_id: &str,
    history: &[Receipt],
    r: AttestResult,
    prior: &[PrimitiveReport],
    deltas: Vec<(String, Delta)>,
    streaks: Vec<(String, StreakInfo)>,
    i: int,
)
    requires
        call_ensures(attest::<C>, (reports, clock, boot_id, history), r),
        history@.len() > 0 ==> text::views(prior@) == history@.last()@.reports,
        call_ensures(delta::compute_deltas, (prior, reports), deltas),
        call_ensures(streak::compute_streaks, (reports, history), streaks),
        0 <= i < reports@.len(),
    ensures
        r.receipt.boot_id@ == boot_id@,
        text::views(r.receipt.reports@) == text::views(reports@),
        call_ensures(C::now, (clock,), r.receipt.taken_at),
        r.deltas@.len() == reports@.len(),
        r.deltas@[i].0@ == reports@[i].name@,
        history@.len() == 0 ==> r.deltas@[i].1.kind is NoPrior,
        history@.len() > 0 ==> r.deltas@[i].1.kind@ == deltas@[i].1.kind@,
        r.streaks@.len() == reports@.len(),
        r.streaks@[i].0@ == reports@[i].name@,
        r.streaks@[i].1.inert_streak == streaks@[i].1.inert_streak,
        r.streaks@[i].1.severity@ == streaks@[i].1.severity@,
{
    assert(text::views(reports@)[i] == reports@[i]@);
    assert(r.deltas@[i].0@ == reports@[i].name@);
    assert(r.streaks@[i].0@ == reports@[i].name@);
    assert(streaks@[i].0@ == reports@[i].name@);
    assert(deltas@[i].0@ == reports@[i].name@);
    if history@.len() > 0 {
        assert(text::views(history@).last() == history@.last()@);
    }
}

} // verus!
