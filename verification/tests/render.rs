use quicken::render::{
    attest_table_lines, boot_id_text, delta_label, delta_name, deps_table_lines, evidence_summary,
    table_lines, verdict_display,
};
use quicken::{
    AnnotatedReport, AttestResult, Delta, DeltaKind, Evidence, PrimitiveReport, Receipt,
    StreakInfo, Timestamp, Verdict,
};

fn report(name: &str, verdict: Verdict, evidence: Evidence) -> PrimitiveReport {
    PrimitiveReport::new(name, verdict, evidence)
}

#[test]
fn verdicts_for_people() {
    assert_eq!(verdict_display(&Verdict::Live), "Live");
    assert_eq!(
        verdict_display(&Verdict::LiveDegraded { reason: "slow".into() }),
        "LiveDegraded (slow)"
    );
    assert_eq!(verdict_display(&Verdict::StagedNotInstalled), "StagedNotInstalled");
    assert_eq!(verdict_display(&Verdict::InstalledNotActivated), "InstalledNotActivated");
    assert_eq!(verdict_display(&Verdict::Inert), "Inert");
    assert_eq!(verdict_display(&Verdict::Unknown), "Unknown");
    let wired = Verdict::MechanismLiveNotWired { remediation: "x".into() };
    assert_eq!(verdict_display(&wired), "Unknown");
}

#[test]
fn evidence_for_people() {
    assert_eq!(evidence_summary(&Evidence::empty()), "");
    assert_eq!(evidence_summary(&Evidence::single("a", "1")), "a=1");
    assert_eq!(evidence_summary(&Evidence::single("a", "1").with("b", "")), "a=1 b=");
}

#[test]
fn changes_for_machines_and_people() {
    let changed = DeltaKind::EvidenceChanged { detail: "a:1->2".into() };
    for (kind, name, label) in [
        (DeltaKind::NoPrior, "NoPrior", "no-prior"),
        (DeltaKind::Unchanged, "Unchanged", "unchanged"),
        (DeltaKind::Improved, "Improved", "improved"),
        (DeltaKind::Regressed, "Regressed", "REGRESSED"),
        (changed, "EvidenceChanged: a:1->2", "evidence: a:1->2"),
        (DeltaKind::NewPrimitive, "NewPrimitive", "new"),
    ] {
        assert_eq!(delta_name(&kind), name);
        assert_eq!(delta_label(&kind), label);
    }
}

#[test]
fn boot_ids() {
    assert_eq!(boot_id_text(Some("abc-def\n")), "abc-def");
    assert_eq!(boot_id_text(None), "unknown");
}

#[test]
fn plain_table() {
    let reports = vec![
        report("memlog", Verdict::Inert, Evidence::single("a", "1").with_detail("why")),
        report(
            "averyverylongname",
            Verdict::LiveDegraded { reason: "agentns-fallback session id".into() },
            Evidence::empty(),
        ),
        report("é", Verdict::Live, Evidence::single("b", "2")),
    ];
    let expected: Vec<String> = vec![
        format!("{:<12}  {:<28}  EVIDENCE", "PRIMITIVE", "VERDICT"),
        "-".repeat(80),
        format!("{:<12}  {:<28}  a=1", "memlog", "Inert"),
        format!("{:<12}  {:<28}  note: why", "", ""),
        "averyverylongname  LiveDegraded (agentns-fallback session id)  ".to_owned(),
        format!("{:<12}  {:<28}  b=2", "é", "Live"),
    ];
    assert_eq!(table_lines(&reports), expected);
    assert_eq!(table_lines(&[]).len(), 2);
    assert_eq!(table_lines(&reports)[2], "memlog        Inert                         a=1");
}

#[test]
fn dependency_table() {
    let annotated = vec![
        AnnotatedReport {
            report: report("provfs", Verdict::Live, Evidence::empty()),
            blocked_by: vec!["agentns".into(), "memlog".into()],
            would_upgrade: Vec::new(),
        },
        AnnotatedReport {
            report: report("agentns", Verdict::Inert, Evidence::empty()),
            blocked_by: Vec::new(),
            would_upgrade: vec!["provfs".into()],
        },
    ];
    let expected: Vec<String> = vec![
        format!("{:<12}  {:<28}  {:<20}  WOULD-UPGRADE", "PRIMITIVE", "VERDICT", "BLOCKED-BY"),
        "-".repeat(100),
        format!("{:<12}  {:<28}  {:<20}  {}", "provfs", "Live", "agentns, memlog", "-"),
        format!("{:<12}  {:<28}  {:<20}  {}", "agentns", "Inert", "-", "provfs"),
    ];
    assert_eq!(deps_table_lines(&annotated), expected);
}

#[test]
fn attestation_table() {
    let taken_at = Timestamp::new(2026, 6, 5, 10, 30, 45, 123_000_000).unwrap();
    let result = AttestResult {
        receipt: Receipt {
            taken_at,
            boot_id: "boot-1".into(),
            reports: vec![
                report("memlog", Verdict::Inert, Evidence::empty()),
                report("warden", Verdict::Live, Evidence::empty()),
            ],
        },
        deltas: vec![
            ("memlog".into(), Delta { kind: DeltaKind::Regressed }),
            ("memlog".into(), Delta { kind: DeltaKind::Improved }),
        ],
        streaks: vec![(
            "memlog".into(),
            StreakInfo { inert_streak: 3, severity: "dark for 3 boots".into() },
        )],
    };
    let expected: Vec<String> = vec![
        "Liveness receipt — 2026-06-05 10:30:45 UTC".to_owned(),
        "boot_id: boot-1".to_owned(),
        String::new(),
        format!("{:<12}  {:<28}  {:<14}  STREAK", "PRIMITIVE", "VERDICT", "DELTA"),
        "-".repeat(90),
        format!("{:<12}  {:<28}  {:<14}  dark for 3 boots", "memlog", "Inert", "REGRESSED"),
        format!("{:<12}  {:<28}  {:<14}  ", "warden", "Live", "-"),
        String::new(),
    ];
    assert_eq!(attest_table_lines(&result), expected);
}
