//! Per-primitive change classification between two receipts.

use vstd::prelude::*;

use crate::evidence::{self, Evidence, EvidencePair, PairView};
use crate::report::{PrimitiveReport, ReportView};
use crate::text;
use crate::verdict::{Verdict, VerdictView};

verus! {

/// How a primitive's verdict changed between two receipts.
#[derive(Debug, Clone, PartialEq, Eq)]
pub enum DeltaKind {
    /// No prior receipt exists to compare against.
    NoPrior,
    /// The verdict is the same in both receipts.
    Unchanged,
    /// The verdict improved, for example from `Inert` to `Live`.
    Improved,
    /// The verdict regressed, for example from `Live` to `Inert`.
    Regressed,
    /// The verdict's kind is the same, but evidence values differ.
    EvidenceChanged {
        /// Human-readable description of what changed.
        detail: String,
    },
    /// The primitive was not present in the prior receipt.
    NewPrimitive,
}

/// What a `DeltaKind` stands for.
pub enum DeltaKindView {
    NoPrior,
    Unchanged,
    Improved,
    Regressed,
    EvidenceChanged { detail: Seq<char> },
    NewPrimitive,
}

impl View for DeltaKind {
    type V = DeltaKindView;

    open spec fn view(&self) -> DeltaKindView {
        match self {
            DeltaKind::NoPrior => DeltaKindView::NoPrior,
            DeltaKind::Unchanged => DeltaKindView::Unchanged,
            DeltaKind::Improved => DeltaKindView::Improved,
            DeltaKind::Regressed => DeltaKindView::Regressed,
            DeltaKind::EvidenceChanged { detail } => DeltaKindView::EvidenceChanged {
                detail: detail@,
            },
            DeltaKind::NewPrimitive => DeltaKindView::NewPrimitive,
        }
    }
}

/// A delta for a single primitive.
#[derive(Debug, Clone, PartialEq, Eq)]
pub struct Delta {
    /// The kind of change.
    pub kind: DeltaKind,
}

impl View for Delta {
    type V = DeltaKindView;

    open spec fn view(&self) -> DeltaKindView {
        self.kind@
    }
}

/// How good a verdict is: the higher the better.
pub open spec fn rank(v: VerdictView) -> int {
    match v {
        VerdictView::Live => 5,
        VerdictView::LiveDegraded { .. } => 4,
        VerdictView::InstalledNotActivated => 3,
        VerdictView::StagedNotInstalled => 2,
        VerdictView::Inert => 1,
        VerdictView::MechanismLiveNotWired { .. } => 0,
        VerdictView::Unknown => 0,
    }
}

/// Whether two verdicts are of the same kind, whatever data they carry.
pub open spec fn same_kind(a: VerdictView, b: VerdictView) -> bool {
    match a {
        VerdictView::Live => b is Live,
        VerdictView::LiveDegraded { .. } => b is LiveDegraded,
        VerdictView::StagedNotInstalled => b is StagedNotInstalled,
        VerdictView::InstalledNotActivated => b is InstalledNotActivated,
        VerdictView::Inert => b is Inert,
        VerdictView::MechanismLiveNotWired { .. } => b is MechanismLiveNotWired,
        VerdictView::Unknown => b is Unknown,
    }
}

/// The changed pairs among `current`, in order, each as `key:old->new`.
pub open spec fn changed_values(prior: Seq<PairView>, current: Seq<PairView>) -> Seq<Seq<char>>
    decreases current.len(),
{
    if current.len() == 0 {
        Seq::empty()
    } else {
        let before = changed_values(prior, current.drop_last());
        let p = current.last();
        match evidence::lookup(prior, p.key) {
            Some(old) => if old != p.value {
                before.push(p.key + ":"@ + old + "->"@ + p.value)
            } else {
                before
            },
            None => before,
        }
    }
}

/// The pairs among `current` with a key that `prior` lacks, in order, each as `key:+value`.
pub open spec fn added_values(prior: Seq<PairView>, current: Seq<PairView>) -> Seq<Seq<char>>
    decreases current.len(),
{
    if current.len() == 0 {
        Seq::empty()
    } else {
        let before = added_values(prior, current.drop_last());
        let p = current.last();
        if evidence::lookup(prior, p.key) is None {
            before.push(p.key + ":+"@ + p.value)
        } else {
            before
        }
    }
}

/// Everything that is different in `current`: changed values first, then new keys.
pub open spec fn evidence_changes(prior: Seq<PairView>, current: Seq<PairView>) -> Seq<Seq<char>> {
    changed_values(prior, current) + added_values(prior, current)
}

/// How one primitive changed from `prior` to `current`.
pub open spec fn change(prior: ReportView, current: ReportView) -> DeltaKindView {
    if rank(current.verdict) > rank(prior.verdict) {
        DeltaKindView::Improved
    } else if rank(current.verdict) < rank(prior.verdict) || !same_kind(
        prior.verdict,
        current.verdict,
    ) {
        DeltaKindView::Regressed
    } else {
        let changes = evidence_changes(prior.evidence.pairs, current.evidence.pairs);
        if changes.len() == 0 {
            DeltaKindView::Unchanged
        } else {
            DeltaKindView::EvidenceChanged { detail: text::joined(changes, ", "@) }
        }
    }
}

/// The first report with a name.
pub open spec fn report_named(reports: Seq<ReportView>, name: Seq<char>) -> Option<ReportView>
    decreases reports.len(),
{
    if reports.len() == 0 {
        None
    } else if reports[0].name == name {
        Some(reports[0])
    } else {
        report_named(reports.drop_first(), name)
    }
}

/// A name that no report has is not found.
pub proof fn unnamed_is_not_found(reports: Seq<ReportView>, name: Seq<char>)
    requires
        forall|j: int| 0 <= j < reports.len() ==> (#[trigger] reports[j]).name != name,
    ensures
        report_named(reports, name) is None,
    decreases reports.len(),
{
    if reports.len() > 0 {
        let rest = reports.drop_first();
        assert forall|j: int| 0 <= j < rest.len() implies (#[trigger] rest[j]).name != name by {
            assert(reports[j + 1].name != name);
        }
        unnamed_is_not_found(rest, name);
    }
}

/// How `current` changed against the reports of a prior receipt.
pub open spec fn change_against(prior: Seq<ReportView>, current: ReportView) -> DeltaKindView {
    match report_named(prior, current.name) {
        Some(p) => change(p, current),
        None => DeltaKindView::NewPrimitive,
    }
}

/// Whether `deltas` holds, for each current report in order, its name and its change against the
/// reports of a prior receipt.
pub open spec fn are_deltas(
    deltas: Seq<(String, Delta)>,
    prior: Seq<ReportView>,
    current: Seq<ReportView>,
) -> bool {
    &&& deltas.len() == current.len()
    &&& forall|i: int|
        0 <= i < deltas.len() ==> {
            &&& (#[trigger] deltas[i]).0@ == current[i].name
            &&& deltas[i].1@ == change_against(prior, current[i])
        }
}

/// How good a verdict is: the higher the better.
#[must_use]
pub fn verdict_rank(v: &Verdict) -> (r: u8)
    ensures
        r == rank(v@),
{
    match v {
        Verdict::Live => 5,
        Verdict::LiveDegraded { .. } => 4,
        Verdict::InstalledNotActivated => 3,
        Verdict::StagedNotInstalled => 2,
        Verdict::Inert => 1,
        Verdict::MechanismLiveNotWired { .. } => 0,
        Verdict::Unknown => 0,
    }
}

/// Whether two verdicts are of the same kind, whatever data they carry.
#[must_use]
pub fn same_verdict_kind(a: &Verdict, b: &Verdict) -> (r: bool)
    ensures
        r == same_kind(a@, b@),
{
    match a {
        Verdict::Live => matches!(b, Verdict::Live),
        Verdict::LiveDegraded { .. } => matches!(b, Verdict::LiveDegraded { .. }),
        Verdict::StagedNotInstalled => matches!(b, Verdict::StagedNotInstalled),
        Verdict::InstalledNotActivated => matches!(b, Verdict::InstalledNotActivated),
        Verdict::Inert => matches!(b, Verdict::Inert),
        Verdict::MechanismLiveNotWired { .. } => matches!(b, Verdict::MechanismLiveNotWired { .. }),
        Verdict::Unknown => matches!(b, Verdict::Unknown),
    }
}

/// Adds one change to a list of them.
fn push_text(list: &mut Vec<String>, item: String)
    ensures
        text::views(final(list)@) == text::views(old(list)@).push(item@),
{
    list.push(item);
    assert(text::views(list@) =~= text::views(old(list)@).push(item@));
}

/// Everything that is different in `current`: changed values first, then new keys.
fn list_changes(prior: &Evidence, current: &Evidence) -> (r: Vec<String>)
    ensures
        text::views(r@) == evidence_changes(prior@.pairs, current@.pairs),
{
    let ghost old_pairs = prior@.pairs;
    let ghost new_pairs = current@.pairs;
    let mut changes: Vec<String> = Vec::new();
    let mut i: usize = 0;
    assert(text::views(changes@) =~= changed_values(old_pairs, new_pairs.take(0)));
    while i < current.pairs.len()
        invariant
            old_pairs == prior@.pairs,
            new_pairs == text::views(current.pairs@),
            i <= current.pairs.len(),
            text::views(changes@) == changed_values(old_pairs, new_pairs.take(i as int)),
        decreases current.pairs.len() - i,
    {
        let p: &EvidencePair = &current.pairs[i];
        proof {
            assert(new_pairs.take(i + 1).drop_last() =~= new_pairs.take(i as int));
            assert(new_pairs.take(i + 1).last() == p@);
        }
        if let Some(old_value) = prior.get(p.key.as_str()) {
            if !text::same(old_value, p.value.as_str()) {
                let mut line: String = p.key.clone();
                line.append(":");
                line.append(old_value);
                line.append("->");
                line.append(p.value.as_str());
                push_text(&mut changes, line);
            }
        }
        i += 1;
    }
    assert(new_pairs.take(new_pairs.len() as int) =~= new_pairs);
    let ghost changed = changed_values(old_pairs, new_pairs);
    let mut k: usize = 0;
    assert(text::views(changes@) =~= changed + added_values(old_pairs, new_pairs.take(0)));
    while k < current.pairs.len()
        invariant
            old_pairs == prior@.pairs,
            new_pairs == text::views(current.pairs@),
            k <= current.pairs.len(),
            text::views(changes@) == changed + added_values(old_pairs, new_pairs.take(k as int)),
        decreases current.pairs.len() - k,
    {
        let p: &EvidencePair = &current.pairs[k];
        proof {
            assert(new_pairs.take(k + 1).drop_last() =~= new_pairs.take(k as int));
            assert(new_pairs.take(k + 1).last() == p@);
        }
        if prior.get(p.key.as_str()).is_none() {
            let mut line: String = p.key.clone();
            line.append(":+");
            line.append(p.value.as_str());
            let ghost before = text::views(changes@);
            push_text(&mut changes, line);
            assert(before.push(line@) =~= changed + added_values(
                old_pairs,
                new_pairs.take(k as int),
            ).push(line@));
        }
        k += 1;
    }
    changes
}

/// Classifies the delta between a previous and a current report of one primitive.
fn classify(prev: &PrimitiveReport, current: &PrimitiveReport) -> (r: Delta)
    ensures
        r@ == change(prev@, current@),
{
    let prev_rank: u8 = verdict_rank(&prev.verdict);
    let cur_rank: u8 = verdict_rank(&current.verdict);
    if cur_rank > prev_rank {
        return Delta { kind: DeltaKind::Improved };
    }
    if cur_rank < prev_rank || !same_verdict_kind(&prev.verdict, &current.verdict) {
        return Delta { kind: DeltaKind::Regressed };
    }
    let changes: Vec<String> = list_changes(&prev.evidence, &current.evidence);
    assert(text::views(changes@).len() == changes@.len());
    if changes.len() == 0 {
        Delta { kind: DeltaKind::Unchanged }
    } else {
        Delta { kind: DeltaKind::EvidenceChanged { detail: text::join(&changes, ", ") } }
    }
}

/// The first report with a name.
pub fn find_report<'a>(reports: &'a [PrimitiveReport], name: &str) -> (r: Option<
    &'a PrimitiveReport,
>)
    ensures
        text::opt_view(r) == report_named(text::views(reports@), name@),
{
    let ghost all = text::views(reports@);
    let mut i: usize = 0;
    assert(all.skip(0) =~= all);
    while i < reports.len()
        invariant
            all == text::views(reports@),
            i <= reports.len(),
            report_named(all, name@) == report_named(all.skip(i as int), name@),
        decreases reports.len() - i,
    {
        assert(all.skip(i as int)[0] == reports@[i as int]@);
        if text::same(reports[i].name.as_str(), name) {
            return Some(&reports[i]);
        }
        assert(all.skip(i as int).drop_first() =~= all.skip(i + 1));
        i += 1;
    }
    None
}

/// Per-primitive deltas between a prior set of reports and the current set.
///
/// Primitives absent in `prior` get [`DeltaKind::NewPrimitive`].
#[must_use]
pub fn compute_deltas(prior: &[PrimitiveReport], current: &[PrimitiveReport]) -> (r: Vec<
    (String, Delta),
>)
    ensures
        are_deltas(r@, text::views(prior@), text::views(current@)),
{
    let mut r: Vec<(String, Delta)> = Vec::new();
    let mut i: usize = 0;
    while i < current.len()
        invariant
            i <= current.len(),
            r.len() == i,
            forall|j: int|
                0 <= j < i ==> {
                    &&& (#[trigger] r@[j]).0@ == current@[j].name@
                    &&& r@[j].1@ == change_against(text::views(prior@), current@[j]@)
                },
        decreases current.len() - i,
    {
        let cur: &PrimitiveReport = &current[i];
        let delta: Delta = match find_report(prior, cur.name.as_str()) {
            Some(prev) => classify(prev, cur),
            None => Delta { kind: DeltaKind::NewPrimitive },
        };
        r.push((cur.name.clone(), delta));
        i += 1;
    }
    r
}

// ---------------------------------------------------------------------------
// Laws
// ---------------------------------------------------------------------------

/// Whether no two pairs have the same key.
pub open spec fn distinct_keys(pairs: Seq<PairView>) -> bool {
    forall|i: int, j: int|
        0 <= i < j < pairs.len() ==> (#[trigger] pairs[i]).key != (#[trigger] pairs[j]).key
}

/// An improvement read backwards is a regression, and the other way round.
pub proof fn improving_and_regressing_mirror_each_other(a: ReportView, b: ReportView)
    requires
        rank(a.verdict) != rank(b.verdict),
    ensures
        change(a, b) is Improved <==> change(b, a) is Regressed,
        change(a, b) is Improved <==> rank(b.verdict) > rank(a.verdict),
{
}

/// From best to worst: `Live`, `LiveDegraded`, `InstalledNotActivated`, `StagedNotInstalled`,
/// `Inert`, `Unknown`; what a verdict carries does not matter.
pub proof fn verdicts_rank_from_live_to_unknown(reason: Seq<char>)
    ensures
        rank(VerdictView::Live) > rank(VerdictView::LiveDegraded { reason }),
        rank(VerdictView::LiveDegraded { reason }) > rank(VerdictView::InstalledNotActivated),
        rank(VerdictView::InstalledNotActivated) > rank(VerdictView::StagedNotInstalled),
        rank(VerdictView::StagedNotInstalled) > rank(VerdictView::Inert),
        rank(VerdictView::Inert) > rank(VerdictView::Unknown),
{
}

/// Two verdicts are of the same kind exactly where they are the same variant, whatever they carry.
pub proof fn the_same_kind_is_the_same_variant(a: VerdictView, b: VerdictView)
    ensures
        same_kind(a, b) <==> match (a, b) {
            (VerdictView::Live, VerdictView::Live) => true,
            (VerdictView::LiveDegraded { .. }, VerdictView::LiveDegraded { .. }) => true,
            (VerdictView::StagedNotInstalled, VerdictView::StagedNotInstalled) => true,
            (VerdictView::InstalledNotActivated, VerdictView::InstalledNotActivated) => true,
            (VerdictView::Inert, VerdictView::Inert) => true,
            (
                VerdictView::MechanismLiveNotWired { .. },
                VerdictView::MechanismLiveNotWired { .. },
            ) => true,
            (VerdictView::Unknown, VerdictView::Unknown) => true,
            _ => false,
        },
{
}

/// Being of the same kind is reflexive, symmetric and transitive.
pub proof fn the_same_kind_is_an_equivalence(a: VerdictView, b: VerdictView, c: VerdictView)
    ensures
        same_kind(a, a),
        same_kind(a, b) <==> same_kind(b, a),
        same_kind(a, b) && same_kind(b, c) ==> same_kind(a, c),
{
}

/// Verdicts of the same kind have the same rank.
pub proof fn the_same_kind_has_the_same_rank(a: VerdictView, b: VerdictView)
    requires
        same_kind(a, b),
    ensures
        rank(a) == rank(b),
{
}

/// Every acceptable verdict ranks above every other.
pub proof fn acceptable_verdicts_rank_highest(a: VerdictView, b: VerdictView)
    requires
        a.acceptable(),
        !b.acceptable(),
    ensures
        rank(a) > rank(b),
{
}

proof fn a_key_finds_its_pair(pairs: Seq<PairView>, k: int)
    requires
        distinct_keys(pairs),
        0 <= k < pairs.len(),
    ensures
        evidence::lookup(pairs, pairs[k].key) == Some(pairs[k].value),
    decreases pairs.len(),
{
    if k > 0 {
        let rest = pairs.drop_first();
        assert(pairs[0].key != pairs[k].key);
        assert forall|i: int, j: int| 0 <= i < j < rest.len() implies (#[trigger] rest[i]).key != (
        #[trigger] rest[j]).key by {
            assert(pairs[i + 1].key != pairs[j + 1].key);
        }
        a_key_finds_its_pair(rest, k - 1);
        assert(rest[k - 1] == pairs[k]);
    }
}

proof fn nothing_changes_within(pairs: Seq<PairView>, k: int)
    requires
        distinct_keys(pairs),
        0 <= k <= pairs.len(),
    ensures
        changed_values(pairs, pairs.take(k)).len() == 0,
        added_values(pairs, pairs.take(k)).len() == 0,
    decreases k,
{
    if k > 0 {
        nothing_changes_within(pairs, k - 1);
        assert(pairs.take(k).drop_last() =~= pairs.take(k - 1));
        assert(pairs.take(k).last() == pairs[k - 1]);
        a_key_finds_its_pair(pairs, k - 1);
    }
}

/// A report has not changed against one of the same kind with the same evidence.
pub proof fn the_same_again_is_unchanged(a: ReportView, b: ReportView)
    requires
        same_kind(a.verdict, b.verdict),
        a.evidence.pairs == b.evidence.pairs,
        distinct_keys(a.evidence.pairs),
    ensures
        change(a, b) is Unchanged,
{
    nothing_changes_within(a.evidence.pairs, a.evidence.pairs.len() as int);
    assert(a.evidence.pairs.take(a.evidence.pairs.len() as int) =~= a.evidence.pairs);
}

/// Evidence is compared only between verdicts of the same kind.
pub proof fn only_the_same_kind_can_be_unchanged(a: ReportView, b: ReportView)
    ensures
        change(a, b) is Unchanged || change(a, b) is EvidenceChanged <==> same_kind(
            a.verdict,
            b.verdict,
        ),
{
}

proof fn report_named_is_first(reports: Seq<ReportView>, name: Seq<char>)
    ensures
        match report_named(reports, name) {
            Some(r) => exists|i: int|
                0 <= i < reports.len() && #[trigger] reports[i] == r && r.name == name
                    && forall|j: int| 0 <= j < i ==> (#[trigger] reports[j]).name != name,
            None => forall|j: int| 0 <= j < reports.len() ==> (#[trigger] reports[j]).name != name,
        },
    decreases reports.len(),
{
    if reports.len() > 0 && reports[0].name != name {
        let rest = reports.drop_first();
        report_named_is_first(rest, name);
        match report_named(rest, name) {
            Some(r) => {
                let i = choose|i: int|
                    0 <= i < rest.len() && #[trigger] rest[i] == r && r.name == name
                        && forall|j: int| 0 <= j < i ==> (#[trigger] rest[j]).name != name;
                assert(reports[i + 1] == r);
                assert forall|j: int| 0 <= j < i + 1 implies (#[trigger] reports[j]).name
                    != name by {
                    if j > 0 {
                        assert(rest[j - 1] == reports[j]);
                    }
                }
            },
            None => {
                assert forall|j: int| 0 <= j < reports.len() implies (#[trigger] reports[j]).name
                    != name by {
                    if j > 0 {
                        assert(rest[j - 1] == reports[j]);
                    }
                }
            },
        }
    } else if reports.len() > 0 {
        assert(reports[0] == report_named(reports, name)->0);
    }
}

/// The report at `i` is the one that counts for its name where no earlier one has that name.
pub proof fn the_first_report_counts(reports: Seq<ReportView>, i: int)
    requires
        0 <= i < reports.len(),
        forall|j: int| 0 <= j < i ==> (#[trigger] reports[j]).name != reports[i].name,
    ensures
        report_named(reports, reports[i].name) == Some(reports[i]),
    decreases reports.len(),
{
    if i > 0 {
        let rest = reports.drop_first();
        assert forall|j: int| 0 <= j < i - 1 implies (#[trigger] rest[j]).name != rest[i
            - 1].name by {
            assert(rest[j] == reports[j + 1]);
        }
        assert(reports[0].name != reports[i].name);
        assert(rest[i - 1] == reports[i]);
        the_first_report_counts(rest, i - 1);
    }
}

/// What is found by a name is the first report with it, and nothing exactly where none has it.
pub proof fn the_first_report_with_a_name_is_found(
    reports: &[PrimitiveReport],
    name: &str,
    r: Option<&PrimitiveReport>,
)
    requires
        call_ensures(find_report, (reports, name), r),
    ensures
        r is None ==> forall|j: int|
            0 <= j < reports@.len() ==> (#[trigger] reports@[j]).name@ != name@,
        r is Some ==> exists|i: int|
            0 <= i < reports@.len() && (#[trigger] reports@[i])@ == r->0@ && reports@[i].name@
                == name@ && forall|j: int|
                0 <= j < i ==> (#[trigger] reports@[j]).name@ != name@,
{
    let all = text::views(reports@);
    report_named_is_first(all, name@);
    if r is Some {
        let i = choose|i: int|
            0 <= i < all.len() && #[trigger] all[i] == r->0@ && r->0@.name == name@ && forall|j: int|
                0 <= j < i ==> (#[trigger] all[j]).name != name@;
        assert(reports@[i]@ == r->0@);
        assert forall|j: int| 0 <= j < i implies (#[trigger] reports@[j]).name@ != name@ by {
            assert(all[j].name != name@);
        }
    } else {
        assert forall|j: int| 0 <= j < reports@.len() implies (#[trigger] reports@[j]).name@
            != name@ by {
            assert(all[j].name != name@);
        }
    }
}

/// The rank of a verdict tells six grades apart, from `Live` down to `Unknown`, and puts a
/// mechanism that is not wired with the unknown.
pub proof fn ranks_tell_grades_apart(v: &Verdict, w: &Verdict, a: u8, b: u8)
    requires
        call_ensures(verdict_rank, (v,), a),
        call_ensures(verdict_rank, (w,), b),
    ensures
        match (*v, *w) {
            (Verdict::Live, Verdict::Live) => a == b,
            (Verdict::Live, _) => a > b,
            (Verdict::LiveDegraded { .. }, Verdict::Live) => a < b,
            (Verdict::LiveDegraded { .. }, Verdict::LiveDegraded { .. }) => a == b,
            (Verdict::LiveDegraded { .. }, _) => a > b,
            (Verdict::InstalledNotActivated, Verdict::Live | Verdict::LiveDegraded { .. }) => a < b,
            (Verdict::InstalledNotActivated, Verdict::InstalledNotActivated) => a == b,
            (Verdict::InstalledNotActivated, _) => a > b,
            (Verdict::StagedNotInstalled, Verdict::StagedNotInstalled) => a == b,
            (
                Verdict::StagedNotInstalled,
                Verdict::Inert | Verdict::MechanismLiveNotWired { .. } | Verdict::Unknown,
            ) => a > b,
            (Verdict::StagedNotInstalled, _) => a < b,
            (Verdict::Inert, Verdict::Inert) => a == b,
            (Verdict::Inert, Verdict::MechanismLiveNotWired { .. } | Verdict::Unknown) => a > b,
            (Verdict::Inert, _) => a < b,
            (_, Verdict::MechanismLiveNotWired { .. } | Verdict::Unknown) => a == b,
            (_, _) => a < b,
        },
{
}

/// Verdicts are of the same kind exactly where they are the same variant, whatever they carry.
pub proof fn kinds_are_variants(v: &Verdict, w: &Verdict, r: bool)
    requires
        call_ensures(same_verdict_kind, (v, w), r),
    ensures
        r <==> match (*v, *w) {
            (Verdict::Live, Verdict::Live) => true,
            (Verdict::LiveDegraded { .. }, Verdict::LiveDegraded { .. }) => true,
            (Verdict::StagedNotInstalled, Verdict::StagedNotInstalled) => true,
            (Verdict::InstalledNotActivated, Verdict::InstalledNotActivated) => true,
            (Verdict::Inert, Verdict::Inert) => true,
            (Verdict::MechanismLiveNotWired { .. }, Verdict::MechanismLiveNotWired { .. }) => true,
            (Verdict::Unknown, Verdict::Unknown) => true,
            _ => false,
        },
{
}

/// Whether a prior record has another value by the key of a pair.
pub open spec fn has_other_value(prior: Seq<PairView>, p: PairView) -> bool {
    evidence::lookup(prior, p.key) matches Some(old) && old != p.value
}

proof fn changes_are_filtered(prior: Seq<PairView>, current: Seq<PairView>)
    ensures
        changed_values(prior, current) == current.filter(
            |p: PairView| has_other_value(prior, p),
        ).map_values(
            |p: PairView|
                p.key + ":"@ + evidence::lookup(prior, p.key)->0 + "->"@ + p.value,
        ),
        added_values(prior, current) == current.filter(
            |p: PairView| evidence::lookup(prior, p.key) is None,
        ).map_values(|p: PairView| p.key + ":+"@ + p.value),
    decreases current.len(),
{
    reveal(Seq::filter);
    let other = |p: PairView| has_other_value(prior, p);
    let new = |p: PairView| evidence::lookup(prior, p.key) is None;
    let told = |p: PairView| p.key + ":"@ + evidence::lookup(prior, p.key)->0 + "->"@ + p.value;
    let added = |p: PairView| p.key + ":+"@ + p.value;
    if current.len() > 0 {
        let rest = current.drop_last();
        let p = current.last();
        changes_are_filtered(prior, rest);
        assert(rest.filter(other).push(p).map_values(told) =~= rest.filter(other).map_values(
            told,
        ).push(told(p)));
        assert(rest.filter(new).push(p).map_values(added) =~= rest.filter(new).map_values(
            added,
        ).push(added(p)));
    } else {
        assert(current.filter(other).map_values(told) =~= Seq::empty());
        assert(current.filter(new).map_values(added) =~= Seq::empty());
    }
}

proof fn filtering_finds(pairs: Seq<PairView>, f: spec_fn(PairView) -> bool, k: int)
    requires
        0 <= k < pairs.len(),
        f(pairs[k]),
    ensures
        exists|i: int| 0 <= i < pairs.filter(f).len() && #[trigger] pairs.filter(f)[i] == pairs[k],
    decreases pairs.len(),
{
    reveal(Seq::filter);
    let rest = pairs.drop_last();
    if k < rest.len() {
        filtering_finds(rest, f, k);
        let i = choose|i: int|
            0 <= i < rest.filter(f).len() && #[trigger] rest.filter(f)[i] == rest[k];
        assert(pairs.filter(f)[i] == pairs[k]);
    } else {
        assert(pairs.filter(f)[rest.filter(f).len() as int] == pairs[k]);
    }
}

proof fn filtering_nothing(pairs: Seq<PairView>, f: spec_fn(PairView) -> bool)
    requires
        forall|k: int| 0 <= k < pairs.len() ==> !f(#[trigger] pairs[k]),
    ensures
        pairs.filter(f).len() == 0,
    decreases pairs.len(),
{
    reveal(Seq::filter);
    if pairs.len() > 0 {
        let rest = pairs.drop_last();
        assert forall|k: int| 0 <= k < rest.len() implies !f(#[trigger] rest[k]) by {
            assert(rest[k] == pairs[k]);
        }
        filtering_nothing(rest, f);
        assert(pairs[pairs.len() - 1] == pairs.last());
    }
}

/// Between two records, first the keys with another value are told, each with the old and the new
/// one, and then the new keys with theirs, both in the order of the current record.
pub proof fn changes_are_told_in_order(prior: Seq<PairView>, current: Seq<PairView>)
    ensures
        evidence_changes(prior, current) == current.filter(
            |p: PairView| has_other_value(prior, p),
        ).map_values(
            |p: PairView|
                p.key + ":"@ + evidence::lookup(prior, p.key)->0 + "->"@ + p.value,
        ) + current.filter(|p: PairView| evidence::lookup(prior, p.key) is None).map_values(
            |p: PairView| p.key + ":+"@ + p.value,
        ),
{
    changes_are_filtered(prior, current);
}

/// Nothing has changed exactly where every current key stood in the prior record with the same
/// value.
pub proof fn nothing_changes_where_every_value_is_known(
    prior: Seq<PairView>,
    current: Seq<PairView>,
)
    ensures
        evidence_changes(prior, current).len() == 0 <==> forall|k: int|
            0 <= k < current.len() ==> evidence::lookup(prior, (#[trigger] current[k]).key) == Some(
                current[k].value,
            ),
{
    changes_are_filtered(prior, current);
    let other = |p: PairView| has_other_value(prior, p);
    let new = |p: PairView| evidence::lookup(prior, p.key) is None;
    if evidence_changes(prior, current).len() == 0 {
        assert forall|k: int| 0 <= k < current.len() implies evidence::lookup(
            prior,
            (#[trigger] current[k]).key,
        ) == Some(current[k].value) by {
            if other(current[k]) {
                filtering_finds(current, other, k);
            }
            if new(current[k]) {
                filtering_finds(current, new, k);
            }
        }
    }
    if forall|k: int|
        0 <= k < current.len() ==> evidence::lookup(prior, (#[trigger] current[k]).key) == Some(
            current[k].value,
        ) {
        filtering_nothing(current, other);
        filtering_nothing(current, new);
    }
}

/// Every changed value and every new key is told.
pub proof fn no_change_goes_untold(prior: Seq<PairView>, current: Seq<PairView>, k: int)
    requires
        0 <= k < current.len(),
    ensures
        ({
            let detail = text::joined(evidence_changes(prior, current), ", "@);
            let p = current[k];
            match evidence::lookup(prior, p.key) {
                Some(old) => old != p.value ==> text::holds(
                    detail,
                    p.key + ":"@ + old + "->"@ + p.value,
                ),
                None => text::holds(detail, p.key + ":+"@ + p.value),
            }
        }),
{
    changes_are_filtered(prior, current);
    let other = |p: PairView| has_other_value(prior, p);
    let new = |p: PairView| evidence::lookup(prior, p.key) is None;
    let p = current[k];
    let all = evidence_changes(prior, current);
    let changed = changed_values(prior, current);
    let added = added_values(prior, current);
    if other(p) {
        filtering_finds(current, other, k);
        let i = choose|i: int|
            0 <= i < current.filter(other).len() && #[trigger] current.filter(other)[i] == p;
        assert(changed[i] == p.key + ":"@ + evidence::lookup(prior, p.key)->0 + "->"@ + p.value);
        assert(all[i] == changed[i]);
        text::joined_text_holds_its_parts(all, ", "@, i);
    }
    if new(p) {
        filtering_finds(current, new, k);
        let i = choose|i: int|
            0 <= i < current.filter(new).len() && #[trigger] current.filter(new)[i] == p;
        assert(added[i] == p.key + ":+"@ + p.value);
        assert(all[changed.len() + i] == added[i]);
        text::joined_text_holds_its_parts(all, ", "@, changed.len() + i);
    }
}

/// Whether a verdict is better than another: one of the grades `Live`, `LiveDegraded`,
/// `InstalledNotActivated`, `StagedNotInstalled` and `Inert`, where the other is of a lower grade
/// or of none.
pub open spec fn is_better(now: Verdict, before: Verdict) -> bool {
    match now {
        Verdict::Live => !(before is Live),
        Verdict::LiveDegraded { .. } => !(before is Live) && !(before is LiveDegraded),
        Verdict::InstalledNotActivated => before is StagedNotInstalled || before is Inert || before
            is MechanismLiveNotWired || before is Unknown,
        Verdict::StagedNotInstalled => before is Inert || before is MechanismLiveNotWired || before
            is Unknown,
        Verdict::Inert => before is MechanismLiveNotWired || before is Unknown,
        Verdict::MechanismLiveNotWired { .. } => false,
        Verdict::Unknown => false,
    }
}

/// Whether two verdicts are the same variant, whatever they carry.
pub open spec fn same_variant(a: Verdict, b: Verdict) -> bool {
    ||| a is Live && b is Live
    ||| a is LiveDegraded && b is LiveDegraded
    ||| a is StagedNotInstalled && b is StagedNotInstalled
    ||| a is InstalledNotActivated && b is InstalledNotActivated
    ||| a is Inert && b is Inert
    ||| a is MechanismLiveNotWired && b is MechanismLiveNotWired
    ||| a is Unknown && b is Unknown
}

/// What a delta says of a primitive, from the first prior report with its name: new without one,
/// improved where the verdict is better, regressed where it is another one that is not better,
/// and otherwise a matter of the evidence: unchanged where every key stood there with the same
/// value, and changed with a detail that tells every other one where not.
pub proof fn deltas_say_what_changed(
    prior: &[PrimitiveReport],
    current: &[PrimitiveReport],
    r: Vec<(String, Delta)>,
    i: int,
    j: int,
)
    requires
        call_ensures(compute_deltas, (prior, current), r),
        0 <= i < current@.len(),
        0 <= j <= prior@.len(),
        forall|k: int| 0 <= k < j ==> (#[trigger] prior@[k]).name@ != current@[i].name@,
        j < prior@.len() ==> prior@[j].name@ == current@[i].name@,
    ensures
        r@.len() == current@.len(),
        r@[i].0@ == current@[i].name@,
        j == prior@.len() ==> r@[i].1.kind is NewPrimitive,
        j < prior@.len() ==> {
            let before = prior@[j];
            let now = current@[i];
            let known = before.evidence@.pairs;
            let pairs = now.evidence@.pairs;
            let same = forall|k: int|
                0 <= k < pairs.len() ==> evidence::lookup(known, (#[trigger] pairs[k]).key) == Some(
                    pairs[k].value,
                );
            &&& r@[i].1.kind is Improved <==> is_better(now.verdict, before.verdict)
            &&& r@[i].1.kind is Regressed <==> !is_better(now.verdict, before.verdict)
                && !same_variant(now.verdict, before.verdict)
            &&& r@[i].1.kind is Unchanged <==> same_variant(now.verdict, before.verdict) && same
            &&& r@[i].1.kind is EvidenceChanged <==> same_variant(now.verdict, before.verdict)
                && !same
            &&& r@[i].1.kind matches DeltaKind::EvidenceChanged { detail } ==> {
                &&& detail@ == text::joined(evidence_changes(known, pairs), ", "@)
                &&& forall|k: int|
                    0 <= k < pairs.len() ==> match evidence::lookup(
                        known,
                        (#[trigger] pairs[k]).key,
                    ) {
                        Some(old) => old != pairs[k].value ==> text::holds(
                            detail@,
                            pairs[k].key + ":"@ + old + "->"@ + pairs[k].value,
                        ),
                        None => text::holds(detail@, pairs[k].key + ":+"@ + pairs[k].value),
                    }
            }
        },
{
    let all = text::views(prior@);
    let now = current@[i];
    assert(text::views(current@)[i] == now@);
    assert(r@[i].0@ == now.name@);
    if j == prior@.len() {
        assert forall|k: int| 0 <= k < all.len() implies (#[trigger] all[k]).name != now.name@ by {
            assert(prior@[k].name@ != now.name@);
        }
        unnamed_is_not_found(all, now.name@);
    } else {
        assert forall|k: int| 0 <= k < j implies (#[trigger] all[k]).name != all[j].name by {
            assert(prior@[k].name@ != now.name@);
        }
        assert(all[j] == prior@[j]@);
        the_first_report_counts(all, j);
        let known = prior@[j].evidence@.pairs;
        let pairs = now.evidence@.pairs;
        nothing_changes_where_every_value_is_known(known, pairs);
        assert forall|k: int| 0 <= k < pairs.len() implies match evidence::lookup(
            known,
            (#[trigger] pairs[k]).key,
        ) {
            Some(old) => old != pairs[k].value ==> text::holds(
                text::joined(evidence_changes(known, pairs), ", "@),
                pairs[k].key + ":"@ + old + "->"@ + pairs[k].value,
            ),
            None => text::holds(
                text::joined(evidence_changes(known, pairs), ", "@),
                pairs[k].key + ":+"@ + pairs[k].value,
            ),
        } by {
            no_change_goes_untold(known, pairs, k);
        }
    }
}

} // verus!
