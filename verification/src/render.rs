//! What is printed: tables, labels and exit codes.

use vstd::prelude::*;

use crate::attest::AttestResult;
use crate::crossdep::AnnotatedReport;
use crate::delta::{Delta, DeltaKind, DeltaKindView};
use crate::evidence::{Evidence, EvidencePair, EvidenceView, PairView};
use crate::remedy::{self, Remediation, RemediationView, RemedyStep, StepView};
use crate::report::{PrimitiveReport, ReportView};
use crate::streak::StreakInfo;
use crate::text;
use crate::time;
use crate::verdict::{Verdict, VerdictView};

verus! {

// ---------------------------------------------------------------------------
// Labels
// ---------------------------------------------------------------------------

/// A verdict for people.
pub open spec fn verdict_label(v: VerdictView) -> Seq<char> {
    match v {
        VerdictView::Live => "Live"@,
        VerdictView::LiveDegraded { reason } => "LiveDegraded ("@ + reason + ")"@,
        VerdictView::StagedNotInstalled => "StagedNotInstalled"@,
        VerdictView::InstalledNotActivated => "InstalledNotActivated"@,
        VerdictView::Inert => "Inert"@,
        VerdictView::MechanismLiveNotWired { .. } => "Unknown"@,
        VerdictView::Unknown => "Unknown"@,
    }
}

/// An observation for people.
pub open spec fn pair_label(p: PairView) -> Seq<char> {
    p.key + "="@ + p.value
}

/// Evidence on one line.
pub open spec fn summary(e: EvidenceView) -> Seq<char> {
    text::joined(e.pairs.map_values(|p: PairView| pair_label(p)), " "@)
}

/// A change for machines.
pub open spec fn change_name(d: DeltaKindView) -> Seq<char> {
    match d {
        DeltaKindView::NoPrior => "NoPrior"@,
        DeltaKindView::Unchanged => "Unchanged"@,
        DeltaKindView::Improved => "Improved"@,
        DeltaKindView::Regressed => "Regressed"@,
        DeltaKindView::EvidenceChanged { detail } => "EvidenceChanged: "@ + detail,
        DeltaKindView::NewPrimitive => "NewPrimitive"@,
    }
}

/// A change for people.
pub open spec fn change_label(d: DeltaKindView) -> Seq<char> {
    match d {
        DeltaKindView::NoPrior => "no-prior"@,
        DeltaKindView::Unchanged => "unchanged"@,
        DeltaKindView::Improved => "improved"@,
        DeltaKindView::Regressed => "REGRESSED"@,
        DeltaKindView::EvidenceChanged { detail } => "evidence: "@ + detail,
        DeltaKindView::NewPrimitive => "new"@,
    }
}

/// A verdict for people.
#[must_use]
pub fn verdict_display(v: &Verdict) -> (r: String)
    ensures
        r@ == verdict_label(v@),
{
    match v {
        Verdict::Live => "Live".to_owned(),
        Verdict::LiveDegraded { reason } => {
            let mut r: String = "LiveDegraded (".to_owned();
            r.append(reason.as_str());
            r.append(")");
            r
        },
        Verdict::StagedNotInstalled => "StagedNotInstalled".to_owned(),
        Verdict::InstalledNotActivated => "InstalledNotActivated".to_owned(),
        Verdict::Inert => "Inert".to_owned(),
        Verdict::MechanismLiveNotWired { .. } => "Unknown".to_owned(),
        Verdict::Unknown => "Unknown".to_owned(),
    }
}

/// Evidence on one line.
#[must_use]
pub fn evidence_summary(ev: &Evidence) -> (r: String)
    ensures
        r@ == summary(ev@),
{
    let ghost all = ev@.pairs.map_values(|p: PairView| pair_label(p));
    let mut parts: Vec<String> = Vec::new();
    let mut i: usize = 0;
    while i < ev.pairs.len()
        invariant
            all == ev@.pairs.map_values(|p: PairView| pair_label(p)),
            i <= ev.pairs.len(),
            text::views(parts@) == all.take(i as int),
        decreases ev.pairs.len() - i,
    {
        let p: &EvidencePair = &ev.pairs[i];
        let ghost before = text::views(parts@);
        let mut part: String = p.key.clone();
        part.append("=");
        part.append(p.value.as_str());
        parts.push(part);
        i += 1;
        assert(text::views(parts@) =~= before.push(pair_label(p@)));
        assert(text::views(parts@) =~= all.take(i as int));
    }
    assert(all.take(all.len() as int) =~= all);
    text::join(&parts, " ")
}

/// A change for machines.
#[must_use]
pub fn delta_name(d: &DeltaKind) -> (r: String)
    ensures
        r@ == change_name(d@),
{
    match d {
        DeltaKind::NoPrior => "NoPrior".to_owned(),
        DeltaKind::Unchanged => "Unchanged".to_owned(),
        DeltaKind::Improved => "Improved".to_owned(),
        DeltaKind::Regressed => "Regressed".to_owned(),
        DeltaKind::EvidenceChanged { detail } => {
            let mut r: String = "EvidenceChanged: ".to_owned();
            r.append(detail.as_str());
            r
        },
        DeltaKind::NewPrimitive => "NewPrimitive".to_owned(),
    }
}

/// A change for people.
#[must_use]
pub fn delta_label(d: &DeltaKind) -> (r: String)
    ensures
        r@ == change_label(d@),
{
    match d {
        DeltaKind::NoPrior => "no-prior".to_owned(),
        DeltaKind::Unchanged => "unchanged".to_owned(),
        DeltaKind::Improved => "improved".to_owned(),
        DeltaKind::Regressed => "REGRESSED".to_owned(),
        DeltaKind::EvidenceChanged { detail } => {
            let mut r: String = "evidence: ".to_owned();
            r.append(detail.as_str());
            r
        },
        DeltaKind::NewPrimitive => "new".to_owned(),
    }
}

/// The identifier of the current boot, as far as it could be read.
#[must_use]
pub fn boot_id_text(content: Option<&str>) -> (r: String)
    ensures
        r@ == match content {
            Some(s) => text::trim(s@),
            None => "unknown"@,
        },
{
    match content {
        Some(s) => text::trimmed(s),
        None => "unknown".to_owned(),
    }
}

/// Whether every report is at least `LiveDegraded`.
pub open spec fn all_acceptable(reports: Seq<ReportView>) -> bool {
    forall|i: int| 0 <= i < reports.len() ==> (#[trigger] reports[i]).verdict.acceptable()
}

/// The exit code of a run: 0 where every verdict is at least `LiveDegraded`, else 1.
#[must_use]
pub fn exit_code(reports: &[PrimitiveReport]) -> (r: i32)
    ensures
        r == if all_acceptable(text::views(reports@)) {
            0i32
        } else {
            1i32
        },
{
    let ghost all = text::views(reports@);
    let mut i: usize = 0;
    while i < reports.len()
        invariant
            all == text::views(reports@),
            i <= reports.len(),
            forall|j: int| 0 <= j < i ==> (#[trigger] all[j]).verdict.acceptable(),
        decreases reports.len() - i,
    {
        assert(all[i as int] == reports@[i as int]@);
        if !reports[i].verdict.is_acceptable() {
            return 1;
        }
        i += 1;
    }
    0
}

/// The exit code of an attestation: 2 where the history could not be loaded or the receipt could
/// not be written, else that of its reports.
///
/// `written` says whether the receipt was written; nothing where it was not meant to be.
#[must_use]
pub fn attest_exit_code(loaded: bool, written: Option<bool>, reports: &[PrimitiveReport]) -> (r:
    i32)
    ensures
        r == 2 <==> !loaded || written == Some(false),
        r != 2 ==> r == if all_acceptable(text::views(reports@)) {
            0i32
        } else {
            1i32
        },
{
    if !loaded {
        return 2;
    }
    match written {
        Some(false) => 2,
        _ => exit_code(reports),
    }
}

// ---------------------------------------------------------------------------
// Tables
// ---------------------------------------------------------------------------

/// A row: a name, a verdict, and what follows them.
pub open spec fn row(name: Seq<char>, verdict: Seq<char>, rest: Seq<char>) -> Seq<char> {
    text::padded(name, 12) + "  "@ + text::padded(verdict, 28) + "  "@ + rest
}

/// A row with one more column of a given width.
pub open spec fn wide_row(
    name: Seq<char>,
    verdict: Seq<char>,
    column: Seq<char>,
    width: int,
    rest: Seq<char>,
) -> Seq<char> {
    row(name, verdict, text::padded(column, width) + "  "@ + rest)
}

fn row_text(name: &str, verdict: &str, rest: &str) -> (r: String)
    ensures
        r@ == row(name@, verdict@, rest@),
{
    let mut r: String = text::pad(name, 12);
    r.append("  ");
    r.append(text::pad(verdict, 28).as_str());
    r.append("  ");
    r.append(rest);
    r
}

fn wide_row_text(name: &str, verdict: &str, column: &str, width: usize, rest: &str) -> (r: String)
    ensures
        r@ == wide_row(name@, verdict@, column@, width as int, rest@),
{
    let mut tail: String = text::pad(column, width);
    tail.append("  ");
    tail.append(rest);
    row_text(name, verdict, tail.as_str())
}

fn push_line(lines: &mut Vec<String>, line: String)
    ensures
        text::views(final(lines)@) == text::views(old(lines)@).push(line@),
{
    lines.push(line);
    assert(text::views(lines@) =~= text::views(old(lines)@).push(line@));
}

/// The rows of one report: its evidence, and its detail where there is one.
pub open spec fn report_rows(r: ReportView) -> Seq<Seq<char>> {
    let first = row(r.name, verdict_label(r.verdict), summary(r.evidence));
    match r.evidence.detail {
        Some(d) => seq![first, row(""@, ""@, "note: "@ + d)],
        None => seq![first],
    }
}

/// The rows of a list of reports.
pub open spec fn reports_rows(reports: Seq<ReportView>) -> Seq<Seq<char>>
    decreases reports.len(),
{
    if reports.len() == 0 {
        Seq::empty()
    } else {
        reports_rows(reports.drop_last()) + report_rows(reports.last())
    }
}

/// The table of a probe run.
pub open spec fn report_table(reports: Seq<ReportView>) -> Seq<Seq<char>> {
    seq![row("PRIMITIVE"@, "VERDICT"@, "EVIDENCE"@), text::repeated('-', 80)] + reports_rows(
        reports,
    )
}

/// The table of a probe run, line by line.
#[must_use]
pub fn table_lines(reports: &[PrimitiveReport]) -> (r: Vec<String>)
    ensures
        text::views(r@) == report_table(text::views(reports@)),
{
    let ghost all = text::views(reports@);
    let ghost head = seq![
        row("PRIMITIVE"@, "VERDICT"@, "EVIDENCE"@),
        text::repeated('-', 80),
    ];
    let mut r: Vec<String> = Vec::new();
    push_line(&mut r, row_text("PRIMITIVE", "VERDICT", "EVIDENCE"));
    push_line(&mut r, text::dashes(80));
    assert(text::views(r@) =~= head + reports_rows(all.take(0)));
    let mut i: usize = 0;
    while i < reports.len()
        invariant
            all == text::views(reports@),
            i <= reports.len(),
            text::views(r@) == head + reports_rows(all.take(i as int)),
        decreases reports.len() - i,
    {
        let report: &PrimitiveReport = &reports[i];
        let ghost before = reports_rows(all.take(i as int));
        proof {
            assert(all.take(i + 1).drop_last() =~= all.take(i as int));
            assert(all.take(i + 1).last() == report@);
        }
        push_line(
            &mut r,
            row_text(
                report.name.as_str(),
                verdict_display(&report.verdict).as_str(),
                evidence_summary(&report.evidence).as_str(),
            ),
        );
        if let Some(detail) = &report.evidence.detail {
            let mut note: String = "note: ".to_owned();
            note.append(detail.as_str());
            push_line(&mut r, row_text("", "", note.as_str()));
        }
        assert(text::views(r@) =~= head + (before + report_rows(report@)));
        i += 1;
    }
    assert(all.take(all.len() as int) =~= all);
    r
}

/// Names in one cell.
pub open spec fn names_cell(names: Seq<Seq<char>>) -> Seq<char> {
    if names.len() == 0 {
        "-"@
    } else {
        text::joined(names, ", "@)
    }
}

fn names_text(names: &Vec<String>) -> (r: String)
    ensures
        r@ == names_cell(text::views(names@)),
{
    if names.len() == 0 {
        "-".to_owned()
    } else {
        text::join(names, ", ")
    }
}

/// The row of one annotated report.
pub open spec fn annotated_row(a: AnnotatedReport) -> Seq<char> {
    wide_row(
        a.report@.name,
        verdict_label(a.report@.verdict),
        names_cell(text::views(a.blocked_by@)),
        20,
        names_cell(text::views(a.would_upgrade@)),
    )
}

/// The table of a probe run with its dependencies, line by line.
#[must_use]
pub fn deps_table_lines(annotated: &[AnnotatedReport]) -> (r: Vec<String>)
    ensures
        text::views(r@) == seq![
            wide_row("PRIMITIVE"@, "VERDICT"@, "BLOCKED-BY"@, 20, "WOULD-UPGRADE"@),
            text::repeated('-', 100),
        ] + annotated@.map_values(|a: AnnotatedReport| annotated_row(a)),
{
    let ghost head = seq![
        wide_row("PRIMITIVE"@, "VERDICT"@, "BLOCKED-BY"@, 20, "WOULD-UPGRADE"@),
        text::repeated('-', 100),
    ];
    let ghost all = annotated@.map_values(|a: AnnotatedReport| annotated_row(a));
    let mut r: Vec<String> = Vec::new();
    push_line(&mut r, wide_row_text("PRIMITIVE", "VERDICT", "BLOCKED-BY", 20, "WOULD-UPGRADE"));
    push_line(&mut r, text::dashes(100));
    assert(text::views(r@) =~= head + all.take(0));
    let mut i: usize = 0;
    while i < annotated.len()
        invariant
            all == annotated@.map_values(|a: AnnotatedReport| annotated_row(a)),
            i <= annotated.len(),
            text::views(r@) == head + all.take(i as int),
        decreases annotated.len() - i,
    {
        let a: &AnnotatedReport = &annotated[i];
        push_line(
            &mut r,
            wide_row_text(
                a.report.name.as_str(),
                verdict_display(&a.report.verdict).as_str(),
                names_text(&a.blocked_by).as_str(),
                20,
                names_text(&a.would_upgrade).as_str(),
            ),
        );
        i += 1;
        assert(text::views(r@) =~= head + all.take(i as int));
    }
    assert(all.take(all.len() as int) =~= all);
    r
}

/// The change of the first entry with a name, for people.
pub open spec fn change_cell(deltas: Seq<(String, Delta)>, name: Seq<char>) -> Seq<char>
    decreases deltas.len(),
{
    if deltas.len() == 0 {
        "-"@
    } else if deltas[0].0@ == name {
        change_label(deltas[0].1.kind@)
    } else {
        change_cell(deltas.drop_first(), name)
    }
}

/// The severity of the first entry with a name.
pub open spec fn severity_cell(streaks: Seq<(String, StreakInfo)>, name: Seq<char>) -> Seq<char>
    decreases streaks.len(),
{
    if streaks.len() == 0 {
        Seq::empty()
    } else if streaks[0].0@ == name {
        streaks[0].1.severity@
    } else {
        severity_cell(streaks.drop_first(), name)
    }
}

fn change_text(deltas: &Vec<(String, Delta)>, name: &str) -> (r: String)
    ensures
        r@ == change_cell(deltas@, name@),
{
    let mut i: usize = 0;
    assert(deltas@.skip(0) =~= deltas@);
    while i < deltas.len()
        invariant
            i <= deltas.len(),
            change_cell(deltas@, name@) == change_cell(deltas@.skip(i as int), name@),
        decreases deltas.len() - i,
    {
        assert(deltas@.skip(i as int)[0] == deltas@[i as int]);
        assert(deltas@.skip(i as int).drop_first() =~= deltas@.skip(i + 1));
        if text::same(deltas[i].0.as_str(), name) {
            return delta_label(&deltas[i].1.kind);
        }
        i += 1;
    }
    "-".to_owned()
}

fn severity_text(streaks: &Vec<(String, StreakInfo)>, name: &str) -> (r: String)
    ensures
        r@ == severity_cell(streaks@, name@),
{
    let mut i: usize = 0;
    assert(streaks@.skip(0) =~= streaks@);
    while i < streaks.len()
        invariant
            i <= streaks.len(),
            severity_cell(streaks@, name@) == severity_cell(streaks@.skip(i as int), name@),
        decreases streaks.len() - i,
    {
        assert(streaks@.skip(i as int)[0] == streaks@[i as int]);
        assert(streaks@.skip(i as int).drop_first() =~= streaks@.skip(i + 1));
        if text::same(streaks[i].0.as_str(), name) {
            return streaks[i].1.severity.clone();
        }
        i += 1;
    }
    String::new()
}

/// The row of one report of an attestation.
pub open spec fn attest_row(
    r: ReportView,
    deltas: Seq<(String, Delta)>,
    streaks: Seq<(String, StreakInfo)>,
) -> Seq<char> {
    wide_row(
        r.name,
        verdict_label(r.verdict),
        change_cell(deltas, r.name),
        14,
        severity_cell(streaks, r.name),
    )
}

/// The table of an attestation.
pub open spec fn attest_table(result: AttestResult) -> Seq<Seq<char>> {
    let receipt = result.receipt@;
    seq![
        "Liveness receipt — "@ + time::heading_stamp_text(receipt.taken_at),
        "boot_id: "@ + receipt.boot_id,
        ""@,
        wide_row("PRIMITIVE"@, "VERDICT"@, "DELTA"@, 14, "STREAK"@),
        text::repeated('-', 90),
    ] + receipt.reports.map_values(
        |r: ReportView| attest_row(r, result.deltas@, result.streaks@),
    ) + seq![""@]
}

/// The table of an attestation, line by line.
#[must_use]
pub fn attest_table_lines(result: &AttestResult) -> (r: Vec<String>)
    ensures
        text::views(r@) == attest_table(*result),
{
    let receipt = &result.receipt;
    let ghost head = seq![
        "Liveness receipt — "@ + time::heading_stamp_text(receipt@.taken_at),
        "boot_id: "@ + receipt@.boot_id,
        ""@,
        wide_row("PRIMITIVE"@, "VERDICT"@, "DELTA"@, 14, "STREAK"@),
        text::repeated('-', 90),
    ];
    let ghost all = receipt@.reports.map_values(
        |r: ReportView| attest_row(r, result.deltas@, result.streaks@),
    );
    let mut title: String = "Liveness receipt — ".to_owned();
    title.append(receipt.taken_at.heading_stamp().as_str());
    let mut boot: String = "boot_id: ".to_owned();
    boot.append(receipt.boot_id.as_str());
    let mut r: Vec<String> = Vec::new();
    push_line(&mut r, title);
    push_line(&mut r, boot);
    push_line(&mut r, "".to_owned());
    push_line(&mut r, wide_row_text("PRIMITIVE", "VERDICT", "DELTA", 14, "STREAK"));
    push_line(&mut r, text::dashes(90));
    assert(text::views(r@) =~= head + all.take(0));
    let mut i: usize = 0;
    while i < receipt.reports.len()
        invariant
            receipt@ == result.receipt@,
            all == receipt@.reports.map_values(
                |r: ReportView| attest_row(r, result.deltas@, result.streaks@),
            ),
            i <= receipt.reports.len(),
            text::views(r@) == head + all.take(i as int),
        decreases receipt.reports.len() - i,
    {
        let report: &PrimitiveReport = &receipt.reports[i];
        push_line(
            &mut r,
            wide_row_text(
                report.name.as_str(),
                verdict_display(&report.verdict).as_str(),
                change_text(&result.deltas, report.name.as_str()).as_str(),
                14,
                severity_text(&result.streaks, report.name.as_str()).as_str(),
            ),
        );
        i += 1;
        assert(text::views(r@) =~= head + all.take(i as int));
    }
    assert(all.take(all.len() as int) =~= all);
    push_line(&mut r, "".to_owned());
    assert(text::views(r@) =~= attest_table(*result));
    r
}

// ---------------------------------------------------------------------------
// Remedies
// ---------------------------------------------------------------------------

/// What is printed of one step, with its number.
pub open spec fn step_lines(number: int, s: StepView) -> Seq<Seq<char>> {
    let title = seq![
        "  Step "@ + text::decimal(number as nat) + ": ["@ + remedy::tier_word(s.tier) + "]"@,
    ];
    let command = if s.command.len() > 0 {
        seq!["    command:  "@ + s.command]
    } else {
        Seq::empty()
    };
    let reboot = if s.requires_reboot {
        seq!["    reboot:   yes"@]
    } else {
        Seq::empty()
    };
    title + command + reboot + seq!["    rationale: "@ + s.rationale]
}

/// What is printed of the steps of a remedy.
pub open spec fn steps_lines(steps: Seq<StepView>) -> Seq<Seq<char>>
    decreases steps.len(),
{
    if steps.len() == 0 {
        Seq::empty()
    } else {
        steps_lines(steps.drop_last()) + step_lines(steps.len() as int, steps.last())
    }
}

/// What is printed of a list of remedies.
pub open spec fn remedies_lines(list: Seq<RemediationView>) -> Seq<Seq<char>>
    decreases list.len(),
{
    if list.len() == 0 {
        Seq::empty()
    } else {
        remedies_lines(list.drop_last()) + (seq![
            ""@,
            "=== Remedy: "@ + list.last().primitive + " ==="@,
        ] + steps_lines(list.last().steps))
    }
}

fn push_step(lines: &mut Vec<String>, number: usize, step: &RemedyStep)
    ensures
        text::views(final(lines)@) == text::views(old(lines)@) + step_lines(number as int, step@),
{
    let mut title: String = "  Step ".to_owned();
    title.append(text::decimal_text(number as u64).as_str());
    title.append(": [");
    title.append(remedy::tier_label(&step.tier));
    title.append("]");
    push_line(lines, title);
    if step.command.as_str().unicode_len() > 0 {
        let mut line: String = "    command:  ".to_owned();
        line.append(step.command.as_str());
        push_line(lines, line);
    }
    if step.requires_reboot {
        push_line(lines, "    reboot:   yes".to_owned());
    }
    let mut line: String = "    rationale: ".to_owned();
    line.append(step.rationale.as_str());
    push_line(lines, line);
    assert(text::views(lines@) =~= text::views(old(lines)@) + step_lines(number as int, step@));
}

fn push_remedy(lines: &mut Vec<String>, rem: &Remediation)
    ensures
        text::views(final(lines)@) == text::views(old(lines)@) + (seq![
            ""@,
            "=== Remedy: "@ + rem@.primitive + " ==="@,
        ] + steps_lines(rem@.steps)),
{
    let ghost head = seq![""@, "=== Remedy: "@ + rem@.primitive + " ==="@];
    let ghost all = rem@.steps;
    let ghost start = text::views(lines@);
    let mut title: String = "=== Remedy: ".to_owned();
    title.append(rem.primitive.as_str());
    title.append(" ===");
    push_line(lines, "".to_owned());
    push_line(lines, title);
    let mut i: usize = 0;
    assert(text::views(lines@) =~= start + (head + steps_lines(all.take(0))));
    while i < rem.steps.len()
        invariant
            all == text::views(rem.steps@),
            i <= rem.steps.len(),
            text::views(lines@) == start + (head + steps_lines(all.take(i as int))),
        decreases rem.steps.len() - i,
    {
        let ghost before = steps_lines(all.take(i as int));
        proof {
            assert(all.take(i + 1).drop_last() =~= all.take(i as int));
            assert(all.take(i + 1).last() == rem.steps@[i as int]@);
        }
        push_step(lines, i + 1, &rem.steps[i]);
        i += 1;
        assert(text::views(lines@) =~= start + (head + (before + step_lines(
            i as int,
            rem.steps@[i - 1]@,
        ))));
    }
    assert(all.take(all.len() as int) =~= all);
}

/// A list of remedies, line by line.
#[must_use]
pub fn remediation_lines(list: &[Remediation]) -> (r: Vec<String>)
    ensures
        text::views(r@) == remedies_lines(text::views(list@)).push(""@),
{
    let ghost all = text::views(list@);
    let mut r: Vec<String> = Vec::new();
    let mut i: usize = 0;
    assert(text::views(r@) =~= remedies_lines(all.take(0)));
    while i < list.len()
        invariant
            all == text::views(list@),
            i <= list.len(),
            text::views(r@) == remedies_lines(all.take(i as int)),
        decreases list.len() - i,
    {
        proof {
            assert(all.take(i + 1).drop_last() =~= all.take(i as int));
            assert(all.take(i + 1).last() == list@[i as int]@);
        }
        push_remedy(&mut r, &list[i]);
        i += 1;
    }
    assert(all.take(all.len() as int) =~= all);
    push_line(&mut r, "".to_owned());
    r
}

// ---------------------------------------------------------------------------
// Laws
// ---------------------------------------------------------------------------

/// A verdict is shown by its name, a degraded one with its reason, and a mechanism that is not
/// wired as unknown.
pub proof fn verdicts_are_shown_by_name(v: &Verdict, r: String)
    requires
        call_ensures(verdict_display, (v,), r),
    ensures
        r@ == match *v {
            Verdict::Live => "Live"@,
            Verdict::LiveDegraded { reason } => "LiveDegraded ("@ + reason@ + ")"@,
            Verdict::StagedNotInstalled => "StagedNotInstalled"@,
            Verdict::InstalledNotActivated => "InstalledNotActivated"@,
            Verdict::Inert => "Inert"@,
            Verdict::MechanismLiveNotWired { .. } => "Unknown"@,
            Verdict::Unknown => "Unknown"@,
        },
{
}

/// Changes have a name for machines and one for people, changed evidence with its detail.
pub proof fn changes_are_shown_by_name(d: &DeltaKind, name: String, label: String)
    requires
        call_ensures(delta_name, (d,), name),
        call_ensures(delta_label, (d,), label),
    ensures
        name@ == match *d {
            DeltaKind::NoPrior => "NoPrior"@,
            DeltaKind::Unchanged => "Unchanged"@,
            DeltaKind::Improved => "Improved"@,
            DeltaKind::Regressed => "Regressed"@,
            DeltaKind::EvidenceChanged { detail } => "EvidenceChanged: "@ + detail@,
            DeltaKind::NewPrimitive => "NewPrimitive"@,
        },
        label@ == match *d {
            DeltaKind::NoPrior => "no-prior"@,
            DeltaKind::Unchanged => "unchanged"@,
            DeltaKind::Improved => "improved"@,
            DeltaKind::Regressed => "REGRESSED"@,
            DeltaKind::EvidenceChanged { detail } => "evidence: "@ + detail@,
            DeltaKind::NewPrimitive => "new"@,
        },
{
}

/// Evidence is shown as `key=value` for every pair in order, with a space between neighbours.
pub proof fn every_pair_is_shown(ev: &Evidence, r: String)
    requires
        call_ensures(evidence_summary, (ev,), r),
    ensures
        r@ == text::joined(
            Seq::new(
                ev.pairs@.len(),
                |i: int| ev.pairs@[i].key@ + "="@ + ev.pairs@[i].value@,
            ),
            " "@,
        ),
{
    assert(ev@.pairs.map_values(|p: PairView| pair_label(p)) =~= Seq::new(
        ev.pairs@.len(),
        |i: int| ev.pairs@[i].key@ + "="@ + ev.pairs@[i].value@,
    ));
}

/// A run succeeds exactly where every verdict is `Live` or `LiveDegraded`, and an attestation
/// fails with 2 where the history could not be loaded or the receipt not be written.
pub proof fn one_dark_primitive_makes_a_run_fail(
    reports: &[PrimitiveReport],
    r: i32,
    loaded: bool,
    written: Option<bool>,
    code: i32,
)
    requires
        call_ensures(exit_code, (reports,), r),
        call_ensures(attest_exit_code, (loaded, written, reports), code),
    ensures
        r == 0 <==> forall|i: int|
            0 <= i < reports@.len() ==> (#[trigger] reports@[i]).verdict is Live
                || reports@[i].verdict is LiveDegraded,
        r == 0 || r == 1,
        code == if !loaded || written == Some(false) {
            2
        } else {
            r
        },
{
    let all = text::views(reports@);
    assert forall|i: int| 0 <= i < reports@.len() implies (#[trigger] all[i]).verdict
        == reports@[i].verdict@ by {}
    if r == 0 {
        assert forall|i: int| 0 <= i < reports@.len() implies (#[trigger] reports@[i]).verdict
            is Live || reports@[i].verdict is LiveDegraded by {
            assert(all[i].verdict.acceptable());
        }
    }
}

/// The boot is known by what was read of it, without the white space around it.
pub proof fn boots_are_known_by_their_text(content: Option<&str>, r: String)
    requires
        call_ensures(boot_id_text, (content,), r),
    ensures
        content is Some ==> r@ == text::trim(content->0@),
        content is None ==> r@ == "unknown"@,
{
}

/// The table of a run is its heading, a line, and for each report in order a row with its name,
/// verdict and evidence, and one more for its detail where it has one.
pub proof fn every_report_has_its_row(
    reports: &[PrimitiveReport],
    longer: &[PrimitiveReport],
    report: PrimitiveReport,
    r: Vec<String>,
    s: Vec<String>,
    verdict: String,
    summed: String,
)
    requires
        text::views(longer@) == text::views(reports@).push(report@),
        call_ensures(table_lines, (reports,), r),
        call_ensures(table_lines, (longer,), s),
        call_ensures(verdict_display, (&report.verdict,), verdict),
        call_ensures(evidence_summary, (&report.evidence,), summed),
    ensures
        reports@.len() == 0 ==> text::views(r@) == seq![
            text::padded("PRIMITIVE"@, 12) + "  "@ + text::padded("VERDICT"@, 28) + "  "@
                + "EVIDENCE"@,
            text::repeated('-', 80),
        ],
        ({
            let first = text::padded(report.name@, 12) + "  "@ + text::padded(verdict@, 28)
                + "  "@ + summed@;
            text::views(s@) == text::views(r@) + if report.evidence.detail is Some {
                seq![
                    first,
                    text::padded(""@, 12) + "  "@ + text::padded(""@, 28) + "  "@ + ("note: "@
                        + report.evidence.detail->0@),
                ]
            } else {
                seq![first]
            }
        }),
{
    let all = text::views(longer@);
    assert(all.drop_last() =~= text::views(reports@));
    assert(all.last() == report@);
    assert(report@.evidence.detail == text::opt_view(report.evidence.detail));
    let first = text::padded(report.name@, 12) + "  "@ + text::padded(verdict@, 28) + "  "@
        + summed@;
    if reports@.len() == 0 {
        assert(reports_rows(text::views(reports@)) =~= Seq::empty());
        assert(text::views(r@) =~= seq![
            text::padded("PRIMITIVE"@, 12) + "  "@ + text::padded("VERDICT"@, 28) + "  "@
                + "EVIDENCE"@,
            text::repeated('-', 80),
        ]);
    }
    assert(text::views(s@) =~= text::views(r@) + report_rows(report@));
}

/// Names in one cell, or a dash for none.
pub open spec fn listed(names: Seq<String>) -> Seq<char> {
    if names.len() > 0 {
        text::joined(text::views(names), ", "@)
    } else {
        "-"@
    }
}

/// The table with dependencies is its heading, a line, and for each report in order its name,
/// verdict, what blocks it and what it would upgrade.
pub proof fn dependencies_are_shown(
    annotated: &[AnnotatedReport],
    r: Vec<String>,
    i: int,
    verdict: String,
)
    requires
        call_ensures(deps_table_lines, (annotated,), r),
        0 <= i < annotated@.len(),
        call_ensures(verdict_display, (&annotated@[i].report.verdict,), verdict),
    ensures
        r@.len() == annotated@.len() + 2,
        r@[0]@ == text::padded("PRIMITIVE"@, 12) + "  "@ + text::padded("VERDICT"@, 28) + "  "@ + (
        text::padded("BLOCKED-BY"@, 20) + "  "@ + "WOULD-UPGRADE"@),
        r@[1]@ == text::repeated('-', 100),
        r@[i + 2]@ == text::padded(annotated@[i].report.name@, 12) + "  "@ + text::padded(
            verdict@,
            28,
        ) + "  "@ + (text::padded(listed(annotated@[i].blocked_by@), 20) + "  "@ + listed(
            annotated@[i].would_upgrade@,
        )),
{
    let lines = text::views(r@);
    assert(lines.len() == r@.len());
    assert(lines[0] == r@[0]@ && lines[1] == r@[1]@ && lines[i + 2] == r@[i + 2]@);
    assert(text::views(annotated@[i].blocked_by@).len() == annotated@[i].blocked_by@.len());
    assert(text::views(annotated@[i].would_upgrade@).len() == annotated@[i].would_upgrade@.len());
}

proof fn the_first_change_is_shown(deltas: Seq<(String, Delta)>, name: Seq<char>, k: int)
    requires
        0 <= k <= deltas.len(),
        forall|j: int| 0 <= j < k ==> (#[trigger] deltas[j]).0@ != name,
        k < deltas.len() ==> deltas[k].0@ == name,
    ensures
        change_cell(deltas, name) == if k < deltas.len() {
            change_label(deltas[k].1.kind@)
        } else {
            "-"@
        },
    decreases k,
{
    if k > 0 {
        let rest = deltas.drop_first();
        assert(deltas[0].0@ != name);
        assert forall|j: int| 0 <= j < k - 1 implies (#[trigger] rest[j]).0@ != name by {
            assert(rest[j] == deltas[j + 1]);
        }
        the_first_change_is_shown(rest, name, k - 1);
    }
}

proof fn the_first_severity_is_shown(streaks: Seq<(String, StreakInfo)>, name: Seq<char>, k: int)
    requires
        0 <= k <= streaks.len(),
        forall|j: int| 0 <= j < k ==> (#[trigger] streaks[j]).0@ != name,
        k < streaks.len() ==> streaks[k].0@ == name,
    ensures
        severity_cell(streaks, name) == if k < streaks.len() {
            streaks[k].1.severity@
        } else {
            Seq::empty()
        },
    decreases k,
{
    if k > 0 {
        let rest = streaks.drop_first();
        assert(streaks[0].0@ != name);
        assert forall|j: int| 0 <= j < k - 1 implies (#[trigger] rest[j]).0@ != name by {
            assert(rest[j] == streaks[j + 1]);
        }
        the_first_severity_is_shown(rest, name, k - 1);
    }
}

/// The table of an attestation is its moment, its boot, a heading, and for each report in order
/// its name, verdict, change and severity, each of the latter two by the first entry with the
/// name.
pub proof fn an_attestation_is_shown_in_full(
    result: &AttestResult,
    r: Vec<String>,
    stamp: String,
    i: int,
    verdict: String,
    d: int,
    change: String,
    k: int,
)
    requires
        call_ensures(attest_table_lines, (result,), r),
        call_ensures(time::Timestamp::heading_stamp, (&result.receipt.taken_at,), stamp),
        0 <= i < result.receipt.reports@.len(),
        call_ensures(verdict_display, (&result.receipt.reports@[i].verdict,), verdict),
        0 <= d < result.deltas@.len(),
        result.deltas@[d].0@ == result.receipt.reports@[i].name@,
        forall|j: int|
            0 <= j < d ==> (#[trigger] result.deltas@[j]).0@
                != result.receipt.reports@[i].name@,
        call_ensures(delta_label, (&result.deltas@[d].1.kind,), change),
        0 <= k < result.streaks@.len(),
        result.streaks@[k].0@ == result.receipt.reports@[i].name@,
        forall|j: int|
            0 <= j < k ==> (#[trigger] result.streaks@[j]).0@
                != result.receipt.reports@[i].name@,
    ensures
        r@.len() == result.receipt.reports@.len() + 6,
        r@[0]@ == "Liveness receipt — "@ + stamp@,
        r@[1]@ == "boot_id: "@ + result.receipt.boot_id@,
        r@[2]@ == ""@,
        r@[3]@ == text::padded("PRIMITIVE"@, 12) + "  "@ + text::padded("VERDICT"@, 28) + "  "@ + (
        text::padded("DELTA"@, 14) + "  "@ + "STREAK"@),
        r@[4]@ == text::repeated('-', 90),
        r@[i + 5]@ == text::padded(result.receipt.reports@[i].name@, 12) + "  "@ + text::padded(
            verdict@,
            28,
        ) + "  "@ + (text::padded(change@, 14) + "  "@ + result.streaks@[k].1.severity@),
        r@.last()@ == ""@,
{
    let lines = text::views(r@);
    let name = result.receipt.reports@[i].name@;
    assert(lines.len() == r@.len());
    assert(lines[0] == r@[0]@ && lines[1] == r@[1]@ && lines[2] == r@[2]@ && lines[3] == r@[3]@
        && lines[4] == r@[4]@ && lines[i + 5] == r@[i + 5]@);
    assert(lines[lines.len() - 1] == r@[r@.len() - 1]@);
    assert(result.receipt@.reports[i] == result.receipt.reports@[i]@);
    the_first_change_is_shown(result.deltas@, name, d);
    the_first_severity_is_shown(result.streaks@, name, k);
}

/// What is listed of a step: its number and tier, its command where it has one, that it takes a
/// reboot where it does, and why it is there.
pub open spec fn listed_step(number: nat, s: RemedyStep, tier: Seq<char>) -> Seq<Seq<char>> {
    seq!["  Step "@ + text::decimal(number) + ": ["@ + tier + "]"@] + (if s.command@
        == Seq::<char>::empty() {
        Seq::empty()
    } else {
        seq!["    command:  "@ + s.command@]
    }) + (if s.requires_reboot {
        seq!["    reboot:   yes"@]
    } else {
        Seq::empty()
    }) + seq!["    rationale: "@ + s.rationale@]
}

/// The list of remedies is, for each in order, a heading with the primitive and its steps, and an
/// empty line at the end. The last step of the last remedy stands right before that, with its
/// number.
pub proof fn every_step_is_listed(
    list: &[Remediation],
    longer: &[Remediation],
    last: Remediation,
    shorter: Remediation,
    step: RemedyStep,
    r: Vec<String>,
    s: Vec<String>,
    tier: &str,
)
    requires
        text::views(list@).len() > 0,
        text::views(longer@) == text::views(list@).drop_last().push(last@),
        text::views(list@).last() == shorter@,
        last@.primitive == shorter@.primitive,
        last@.steps == shorter@.steps.push(step@),
        call_ensures(remediation_lines, (list,), r),
        call_ensures(remediation_lines, (longer,), s),
        call_ensures(remedy::tier_label, (&step.tier,), tier),
    ensures
        text::views(r@).last() == ""@,
        text::views(s@) == text::views(r@).drop_last() + listed_step(
            last@.steps.len(),
            step,
            tier@,
        ) + seq![""@],
{
    let k = shorter@.steps.len() as int;
    assert(last@.steps.take(k + 1) =~= last@.steps);
    assert(last@.steps.take(k) =~= shorter@.steps);
    assert(last@.steps.drop_last() =~= shorter@.steps);
    assert(last@.steps.last() == step@);
    if step.command@.len() == 0 {
        assert(step.command@ =~= Seq::empty());
    }
    assert(steps_lines(last@.steps) =~= steps_lines(shorter@.steps) + listed_step(
        last@.steps.len(),
        step,
        tier@,
    ));
    let a = text::views(list@);
    let b = text::views(longer@);
    assert(b.drop_last() =~= a.drop_last());
    assert(b.last() == last@);
    assert(text::views(r@).drop_last() =~= remedies_lines(a));
    assert(text::views(s@) =~= remedies_lines(a) + listed_step(last@.steps.len(), step, tier@)
        + seq![""@]);
}

/// A remedy without steps is listed by its heading alone, after all before it.
pub proof fn every_remedy_has_a_heading(
    list: &[Remediation],
    longer: &[Remediation],
    last: Remediation,
    r: Vec<String>,
    s: Vec<String>,
)
    requires
        text::views(longer@) == text::views(list@).push(last@),
        last.steps@.len() == 0,
        call_ensures(remediation_lines, (list,), r),
        call_ensures(remediation_lines, (longer,), s),
    ensures
        list@.len() == 0 ==> text::views(r@) == seq![""@],
        text::views(s@) == text::views(r@).drop_last() + seq![
            ""@,
            "=== Remedy: "@ + last.primitive@ + " ==="@,
            ""@,
        ],
{
    let a = text::views(list@);
    let b = text::views(longer@);
    assert(b.drop_last() =~= a);
    assert(b.last() == last@);
    assert(last@.steps.len() == 0);
    if list@.len() == 0 {
        assert(text::views(r@) =~= seq![""@]);
    }
    assert(text::views(r@).drop_last() =~= remedies_lines(a));
    assert(text::views(s@) =~= text::views(r@).drop_last() + seq![
        ""@,
        "=== Remedy: "@ + last.primitive@ + " ==="@,
        ""@,
    ]);
}

} // verus!
