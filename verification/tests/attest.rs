use chrono::{Datelike, Timelike};
use quicken::delta::{same_verdict_kind, verdict_rank};
use quicken::streak::inert_streak_for;
use quicken::{
    attest, compute_deltas, compute_streaks, streak_band, AttestClock, DeltaKind, Evidence,
    PrimitiveReport, Receipt, ReceiptStore, StoredFile, SystemClock, Timestamp, Verdict,
};

fn ts(s: &str) -> Timestamp {
    let t: chrono::DateTime<chrono::Utc> = s.parse().expect("parse timestamp in test");
    Timestamp::new(
        t.year(),
        t.month(),
        t.day(),
        t.hour(),
        t.minute(),
        t.second(),
        t.nanosecond(),
    )
    .expect("a moment on the calendar")
}

fn report(name: &str, verdict: Verdict, evidence: Evidence) -> PrimitiveReport {
    PrimitiveReport {
        name: name.into(),
        verdict,
        evidence,
        checked_at: ts("2026-06-05T10:00:00Z"),
    }
}

fn inert(name: &str) -> PrimitiveReport {
    report(name, Verdict::Inert, Evidence::empty())
}

fn live(name: &str) -> PrimitiveReport {
    report(name, Verdict::Live, Evidence::empty())
}

fn make_receipt(at: &str, boot_id: &str, name: &str, verdict: Verdict) -> Receipt {
    let taken_at = ts(at);
    Receipt {
        taken_at,
        boot_id: boot_id.to_owned(),
        reports: vec![PrimitiveReport {
            name: name.into(),
            verdict,
            evidence: Evidence::empty(),
            checked_at: taken_at,
        }],
    }
}

struct FixedClock(Timestamp);

impl AttestClock for FixedClock {
    fn now(&self) -> Timestamp {
        self.0
    }
}

fn fixed_clock(at: &str) -> FixedClock {
    FixedClock(ts(at))
}

/// A directory in memory.
struct Directory(Vec<StoredFile>);

impl Directory {
    fn new() -> Self {
        Directory(Vec::new())
    }

    fn write(&mut self, receipt: &Receipt) {
        self.0.push(StoredFile {
            name: receipt.filename().into_bytes(),
            receipt: Some(receipt.clone()),
        });
    }

    fn put(&mut self, name: &str, receipt: Option<Receipt>) {
        self.0.push(StoredFile { name: name.as_bytes().to_vec(), receipt });
    }

    fn load_all(&self) -> Vec<Receipt> {
        ReceiptStore::load_all(&self.0)
    }
}

// --- deltas ---

#[test]
fn unchanged_verdict_same_evidence() {
    let prev = report("memlog", Verdict::Inert, Evidence::empty());
    let cur = report("memlog", Verdict::Inert, Evidence::empty());
    let delta = compute_deltas(&[prev], &[cur]);
    assert_eq!(delta[0].1.kind, DeltaKind::Unchanged);
}

#[test]
fn regressed_live_to_inert() {
    let prev = report("memlog", Verdict::Live, Evidence::empty());
    let cur = report("memlog", Verdict::Inert, Evidence::empty());
    let delta = compute_deltas(&[prev], &[cur]);
    assert_eq!(delta[0].1.kind, DeltaKind::Regressed);
}

#[test]
fn improved_inert_to_live() {
    let prev = report("memlog", Verdict::Inert, Evidence::empty());
    let cur = report("memlog", Verdict::Live, Evidence::empty());
    let delta = compute_deltas(&[prev], &[cur]);
    assert_eq!(delta[0].1.kind, DeltaKind::Improved);
}

#[test]
fn evidence_changed_pkgrel() {
    let prev = report(
        "memlog",
        Verdict::StagedNotInstalled,
        Evidence::single("installed_pkgrel", "5").with("staged_pkgrel", "6"),
    );
    let cur = report(
        "memlog",
        Verdict::StagedNotInstalled,
        Evidence::single("installed_pkgrel", "5").with("staged_pkgrel", "11"),
    );
    let delta = compute_deltas(&[prev], &[cur]);
    match &delta[0].1.kind {
        DeltaKind::EvidenceChanged { detail } => {
            assert!(
                detail.contains("staged_pkgrel"),
                "detail should mention staged_pkgrel: {detail}"
            );
            assert!(detail.contains('6'), "detail should contain old value: {detail}");
            assert!(detail.contains("11"), "detail should contain new value: {detail}");
            assert_eq!(detail, "staged_pkgrel:6->11");
        }
        other => panic!("expected EvidenceChanged, got {other:?}"),
    }
}

#[test]
fn new_primitive_not_in_prior() {
    let cur = report("newprim", Verdict::Inert, Evidence::empty());
    let delta = compute_deltas(&[], &[cur]);
    assert_eq!(delta[0].1.kind, DeltaKind::NewPrimitive);
}

#[test]
fn changed_values_come_before_new_keys() {
    let prev = report("p", Verdict::Inert, Evidence::single("a", "1").with("b", "2"));
    let cur = report(
        "p",
        Verdict::Inert,
        Evidence::single("c", "3").with("b", "5").with("a", "4"),
    );
    let delta = compute_deltas(&[prev], &[cur]);
    assert_eq!(
        delta[0].1.kind,
        DeltaKind::EvidenceChanged { detail: "b:2->5, a:1->4, c:+3".into() }
    );
}

#[test]
fn a_dropped_key_is_no_change() {
    let prev = report("p", Verdict::Inert, Evidence::single("a", "1").with("b", "2"));
    let cur = report("p", Verdict::Inert, Evidence::single("a", "1"));
    let delta = compute_deltas(&[prev], &[cur]);
    assert_eq!(delta[0].1.kind, DeltaKind::Unchanged);
}

#[test]
fn ranks_from_best_to_worst() {
    let order = [
        Verdict::Live,
        Verdict::LiveDegraded { reason: "r".into() },
        Verdict::InstalledNotActivated,
        Verdict::StagedNotInstalled,
        Verdict::Inert,
        Verdict::Unknown,
    ];
    let ranks: Vec<u8> = order.iter().map(verdict_rank).collect();
    assert_eq!(ranks, vec![5, 4, 3, 2, 1, 0]);
    for (i, a) in order.iter().enumerate() {
        for (j, b) in order.iter().enumerate() {
            let prev = report("p", a.clone(), Evidence::empty());
            let cur = report("p", b.clone(), Evidence::empty());
            let kind = compute_deltas(&[prev], &[cur])[0].1.kind.clone();
            let expected = if j < i {
                DeltaKind::Improved
            } else if j > i {
                DeltaKind::Regressed
            } else {
                DeltaKind::Unchanged
            };
            assert_eq!(kind, expected, "{a:?} to {b:?}");
        }
    }
}

#[test]
fn other_kind_of_the_same_rank_is_a_regression() {
    let wired = Verdict::MechanismLiveNotWired { remediation: "wrap".into() };
    let prev = report("p", wired.clone(), Evidence::empty());
    let cur = report("p", Verdict::Unknown, Evidence::empty());
    assert_eq!(compute_deltas(&[prev], &[cur])[0].1.kind, DeltaKind::Regressed);

    let prev = report("p", wired.clone(), Evidence::empty());
    let cur = report("p", wired, Evidence::empty());
    assert_eq!(compute_deltas(&[prev], &[cur])[0].1.kind, DeltaKind::Unchanged);
}

#[test]
fn kinds_ignore_what_a_verdict_carries() {
    let all = |text: &str| {
        vec![
            Verdict::Live,
            Verdict::LiveDegraded { reason: text.into() },
            Verdict::InstalledNotActivated,
            Verdict::StagedNotInstalled,
            Verdict::Inert,
            Verdict::MechanismLiveNotWired { remediation: text.into() },
            Verdict::Unknown,
        ]
    };
    for (i, a) in all("x").into_iter().enumerate() {
        for (j, b) in all("y").into_iter().enumerate() {
            let x = report("p", a.clone(), Evidence::empty());
            let y = report("p", b, Evidence::empty());
            let there = compute_deltas(&[x.clone()], &[y.clone()])[0].1.kind.clone();
            let back = compute_deltas(&[y.clone()], &[x.clone()])[0].1.kind.clone();
            assert_eq!(there == DeltaKind::Unchanged, i == j);
            assert_eq!(back == DeltaKind::Unchanged, i == j);
            assert_eq!(same_verdict_kind(&x.verdict, &y.verdict), i == j);
            assert_eq!(same_verdict_kind(&y.verdict, &x.verdict), i == j);
        }
    }
}

#[test]
fn another_reason_is_no_change() {
    let prev = report("p", Verdict::LiveDegraded { reason: "a".into() }, Evidence::empty());
    let cur = report("p", Verdict::LiveDegraded { reason: "b".into() }, Evidence::empty());
    assert_eq!(compute_deltas(&[prev], &[cur])[0].1.kind, DeltaKind::Unchanged);
}

#[test]
fn a_repeated_key_hides_its_later_values() {
    let twice = report("p", Verdict::Inert, Evidence::single("a", "1").with("a", "2"));
    let delta = compute_deltas(&[twice.clone()], &[twice]);
    assert_eq!(delta[0].1.kind, DeltaKind::EvidenceChanged { detail: "a:1->2".into() });
}

#[test]
fn the_first_prior_report_with_a_name_counts() {
    let delta = compute_deltas(&[live("p"), inert("p")], &[inert("p")]);
    assert_eq!(delta[0].1.kind, DeltaKind::Regressed);
}

// --- streaks ---

#[test]
fn streak_band_wording() {
    assert_eq!(streak_band(0), "");
    assert_eq!(streak_band(1), "dark");
    assert_eq!(streak_band(2), "dark");
    assert_eq!(streak_band(3), "dark for 3 boots");
    assert_eq!(streak_band(6), "dark for 6 boots");
    assert_eq!(streak_band(7), "DARK FOR 7 BOOTS — needs attention");
    assert_eq!(streak_band(10), "DARK FOR 10 BOOTS — needs attention");
}

#[test]
fn largest_streak_is_worded_in_full() {
    assert_eq!(streak_band(u32::MAX), "DARK FOR 4294967295 BOOTS — needs attention");
}

#[test]
fn no_history_streak_is_zero() {
    let cur = vec![inert("memlog")];
    let streaks = compute_streaks(&cur, &[]);
    assert_eq!(streaks[0].1.inert_streak, 0);
}

#[test]
fn two_boot_ids_both_dark_streak_two() {
    let history = vec![
        make_receipt("2026-06-03T10:00:00Z", "boot-1", "memlog", Verdict::Inert),
        make_receipt("2026-06-04T10:00:00Z", "boot-2", "memlog", Verdict::Inert),
    ];
    let cur = vec![inert("memlog")];
    let streaks = compute_streaks(&cur, &history);
    assert_eq!(streaks[0].1.inert_streak, 2);
}

#[test]
fn three_receipts_two_boot_ids_both_dark_streak_two() {
    let history = vec![
        make_receipt("2026-06-03T09:00:00Z", "boot-1", "memlog", Verdict::Inert),
        make_receipt("2026-06-03T10:00:00Z", "boot-1", "memlog", Verdict::Inert),
        make_receipt("2026-06-04T10:00:00Z", "boot-2", "memlog", Verdict::Inert),
    ];
    let cur = vec![inert("memlog")];
    let streaks = compute_streaks(&cur, &history);
    assert_eq!(streaks[0].1.inert_streak, 2, "streak must count distinct boot ids");
}

#[test]
fn streak_resets_on_live_boot() {
    let history = vec![
        make_receipt("2026-06-03T10:00:00Z", "boot-1", "memlog", Verdict::Inert),
        make_receipt("2026-06-04T10:00:00Z", "boot-2", "memlog", Verdict::Live),
        make_receipt("2026-06-05T10:00:00Z", "boot-3", "memlog", Verdict::Inert),
    ];
    let cur = vec![inert("memlog")];
    let streaks = compute_streaks(&cur, &history);
    assert_eq!(streaks[0].1.inert_streak, 1);
}

#[test]
fn streak_severity_escalates_at_1_3_7() {
    assert_eq!(streak_band(1), "dark");
    assert_eq!(streak_band(3), "dark for 3 boots");
    assert_eq!(streak_band(7), "DARK FOR 7 BOOTS — needs attention");
    assert_ne!(streak_band(1), streak_band(3));
    assert_ne!(streak_band(3), streak_band(7));
    assert_ne!(streak_band(1), streak_band(7));
}

#[test]
fn a_boot_is_judged_by_its_last_receipt() {
    let history = vec![
        make_receipt("2026-06-03T10:00:00Z", "boot-1", "memlog", Verdict::Inert),
        make_receipt("2026-06-04T09:00:00Z", "boot-2", "memlog", Verdict::Live),
        make_receipt("2026-06-04T10:00:00Z", "boot-2", "memlog", Verdict::Inert),
    ];
    let streaks = compute_streaks(&[inert("memlog")], &history);
    assert_eq!(streaks[0].1.inert_streak, 2);
    assert_eq!(streaks[0].1.severity, "dark");
}

#[test]
fn a_boot_that_comes_back_counts_once() {
    let history = vec![
        make_receipt("2026-06-02T10:00:00Z", "boot-1", "memlog", Verdict::Live),
        make_receipt("2026-06-03T10:00:00Z", "boot-2", "memlog", Verdict::Inert),
        make_receipt("2026-06-04T10:00:00Z", "boot-1", "memlog", Verdict::Inert),
    ];
    let streaks = compute_streaks(&[inert("memlog")], &history);
    assert_eq!(streaks[0].1.inert_streak, 2);
}

#[test]
fn an_absent_primitive_ends_its_streak() {
    let history = vec![
        make_receipt("2026-06-03T10:00:00Z", "boot-1", "memlog", Verdict::Inert),
        make_receipt("2026-06-04T10:00:00Z", "boot-2", "agentns", Verdict::Inert),
    ];
    let streaks = compute_streaks(&[inert("memlog"), inert("agentns")], &history);
    assert_eq!(streaks[0].1.inert_streak, 0);
    assert_eq!(streaks[0].1.severity, "");
    assert_eq!(streaks[1].1.inert_streak, 1);
}

#[test]
fn each_dark_boot_adds_one_to_the_streak() {
    let mut history: Vec<Receipt> = Vec::new();
    for n in 1..=9u32 {
        let at = format!("2026-06-{n:02}T10:00:00Z");
        history.push(make_receipt(&at, &format!("boot-{n}"), "memlog", Verdict::Unknown));
        let streaks = compute_streaks(&[inert("memlog")], &history);
        assert_eq!(streaks[0].1.inert_streak, n);
        assert_eq!(streaks[0].1.severity, streak_band(n));
    }
}

#[test]
fn streaks_do_not_depend_on_current_verdicts() {
    let history = vec![
        make_receipt("2026-06-01T00:00:00Z", "boot-1", "memlog", Verdict::Inert),
        make_receipt("2026-06-02T00:00:00Z", "boot-2", "memlog", Verdict::Inert),
    ];
    let dark = compute_streaks(&[inert("memlog"), inert("warden")], &history);
    let bright = compute_streaks(&[live("memlog"), live("warden")], &history);
    assert_eq!(dark, bright);
    assert_eq!(dark[0].1.inert_streak, 2);
    assert_eq!(dark[0].1.severity, streak_band(2));
    assert_eq!(dark[1].1.inert_streak, 0);
}

#[test]
fn a_new_boot_adds_one_or_ends_the_streak() {
    let mut history = vec![
        make_receipt("2026-06-01T00:00:00Z", "boot-1", "memlog", Verdict::Inert),
        make_receipt("2026-06-02T00:00:00Z", "boot-2", "memlog", Verdict::Unknown),
    ];
    assert_eq!(inert_streak_for("memlog", &history), 2);
    history.push(make_receipt("2026-06-03T00:00:00Z", "boot-3", "memlog", Verdict::Inert));
    assert_eq!(inert_streak_for("memlog", &history), 3);
    let degraded = Verdict::LiveDegraded { reason: "r".into() };
    history.push(make_receipt("2026-06-04T00:00:00Z", "boot-4", "memlog", degraded));
    assert_eq!(inert_streak_for("memlog", &history), 0);
}

// --- receipts and the store ---

#[test]
fn one_more_receipt_keeps_the_others_in_order() {
    let mut dir = Directory::new();
    dir.write(&make_receipt("2026-06-05T10:04:00Z", "boot-4", "memlog", Verdict::Live));
    dir.write(&make_receipt("2026-06-05T10:00:00Z", "boot-0", "memlog", Verdict::Inert));
    let ids = |list: Vec<Receipt>| -> Vec<String> {
        list.into_iter().map(|r| r.boot_id).collect()
    };
    assert_eq!(ids(dir.load_all()), vec!["boot-0", "boot-4"]);
    dir.write(&make_receipt("2026-06-05T10:02:00Z", "boot-2", "memlog", Verdict::Inert));
    assert_eq!(ids(dir.load_all()), vec!["boot-0", "boot-2", "boot-4"]);
    dir.write(&make_receipt("2026-06-05T09:00:00Z", "boot-9", "memlog", Verdict::Inert));
    assert_eq!(ids(dir.load_all()), vec!["boot-9", "boot-0", "boot-2", "boot-4"]);
}

#[test]
fn filename_does_not_contain_colons() {
    let r = make_receipt("2026-06-05T10:30:45.123Z", "boot-1", "memlog", Verdict::Inert);
    let name = r.filename();
    assert!(!name.contains(':'), "filename must not contain colons: {name}");
    assert!(name.ends_with(".json"), "must end with .json: {name}");
    assert_eq!(name, "2026-06-05T10_30_45.123Z.json");
}

#[test]
fn filename_always_has_milliseconds() {
    let r = make_receipt("2026-06-05T10:30:45Z", "boot-1", "memlog", Verdict::Inert);
    assert_eq!(r.filename(), "2026-06-05T10_30_45.000Z.json");
    let r = make_receipt("2026-06-05T10:30:45.999999999Z", "boot-1", "memlog", Verdict::Inert);
    assert_eq!(r.filename(), "2026-06-05T10_30_45.999Z.json");
}

#[test]
fn write_and_read_roundtrip() {
    let mut dir = Directory::new();
    let r = make_receipt("2026-06-05T10:00:00Z", "boot-abc", "memlog", Verdict::Inert);
    dir.write(&r);
    let loaded = dir.load_all();
    assert_eq!(loaded.len(), 1);
    assert_eq!(loaded[0].boot_id, "boot-abc");
    assert_eq!(loaded[0].reports[0].verdict, Verdict::Inert);
}

#[test]
fn load_all_returns_chronological_order() {
    let mut dir = Directory::new();
    dir.write(&make_receipt("2026-06-05T10:02:00Z", "boot-1", "memlog", Verdict::Live));
    dir.write(&make_receipt("2026-06-05T10:00:00Z", "boot-1", "memlog", Verdict::Inert));
    dir.write(&make_receipt(
        "2026-06-05T10:01:00Z",
        "boot-1",
        "memlog",
        Verdict::InstalledNotActivated,
    ));
    let loaded = dir.load_all();
    assert_eq!(loaded.len(), 3);
    assert_eq!(loaded[0].reports[0].verdict, Verdict::Inert);
    assert_eq!(loaded[1].reports[0].verdict, Verdict::InstalledNotActivated);
    assert_eq!(loaded[2].reports[0].verdict, Verdict::Live);
    let latest = ReceiptStore::load_latest(&dir.0).expect("a latest receipt");
    assert_eq!(latest.reports[0].verdict, Verdict::Live);
}

#[test]
fn the_listing_order_is_no_matter() {
    let a = make_receipt("2026-06-05T10:00:00Z", "boot-a", "memlog", Verdict::Inert);
    let b = make_receipt("2026-06-05T10:01:00Z", "boot-b", "memlog", Verdict::Inert);
    let c = make_receipt("2026-06-05T10:02:00Z", "boot-c", "memlog", Verdict::Live);
    for listing in [[&a, &b, &c], [&c, &b, &a], [&b, &c, &a], [&c, &a, &b]] {
        let mut dir = Directory::new();
        for r in listing {
            dir.write(r);
        }
        let ids: Vec<String> = dir.load_all().into_iter().map(|r| r.boot_id).collect();
        assert_eq!(ids, vec!["boot-a", "boot-b", "boot-c"]);
        let latest = ReceiptStore::load_latest(&dir.0).expect("a latest receipt");
        assert_eq!(latest.boot_id, "boot-c");
    }
}

#[test]
fn missing_dir_returns_empty() {
    let dir = Directory::new();
    assert!(dir.load_all().is_empty());
    assert!(ReceiptStore::load_latest(&dir.0).is_none());
}

#[test]
fn other_files_and_malformed_receipts_are_passed_over() {
    let r = make_receipt("2026-06-05T10:00:00Z", "boot-1", "memlog", Verdict::Inert);
    let mut dir = Directory::new();
    dir.put("notes.txt", Some(r.clone()));
    dir.put(".json", Some(r.clone()));
    dir.put("json", Some(r.clone()));
    dir.put("x.JSON", Some(r.clone()));
    dir.put("broken.json", None);
    assert!(dir.load_all().is_empty());
    dir.put("a.json", Some(r));
    assert_eq!(dir.load_all().len(), 1);
}

#[test]
fn years_beyond_four_digits_break_the_order() {
    let mut dir = Directory::new();
    dir.write(&Receipt {
        taken_at: Timestamp::new(10000, 1, 1, 0, 0, 0, 0).unwrap(),
        boot_id: "later".into(),
        reports: Vec::new(),
    });
    dir.write(&Receipt {
        taken_at: Timestamp::new(9999, 1, 1, 0, 0, 0, 0).unwrap(),
        boot_id: "earlier".into(),
        reports: Vec::new(),
    });
    let loaded = dir.load_all();
    assert_eq!(loaded[0].boot_id, "later");
}

#[test]
fn store_paths() {
    assert_eq!(
        ReceiptStore::default_path(Some("/home/jsy")),
        "/home/jsy/.local/share/quicken/receipts"
    );
    assert_eq!(ReceiptStore::default_path(None), "/tmp/quicken-receipts");
    let store = ReceiptStore::new("/var/receipts");
    assert_eq!(store.dir(), "/var/receipts");
    let r = make_receipt("2026-06-05T10:00:00Z", "b", "memlog", Verdict::Inert);
    assert_eq!(store.path_for(&r), "/var/receipts/2026-06-05T10_00_00.000Z.json");
}

// --- attestations ---

#[test]
fn ac2_receipt_write_and_read_roundtrip() {
    let mut dir = Directory::new();
    let clock = fixed_clock("2026-06-05T10:00:00Z");
    let reports = vec![inert("memlog"), live("agentns")];
    let result = attest(&reports, &clock, "boot-abc", &dir.load_all());
    dir.write(&result.receipt);

    let loaded = dir.load_all();
    assert_eq!(loaded.len(), 1, "exactly one receipt expected");
    let r = &loaded[0];
    assert_eq!(r.boot_id, "boot-abc");
    assert_eq!(r.reports.len(), 2);
    assert_eq!(r.reports[0].name, "memlog");
    assert_eq!(r.reports[0].verdict, Verdict::Inert);
    assert_eq!(r.reports[1].name, "agentns");
    assert_eq!(r.reports[1].verdict, Verdict::Live);
}

#[test]
fn ac3_delta_unchanged() {
    let mut dir = Directory::new();
    let clock1 = fixed_clock("2026-06-04T10:00:00Z");
    let clock2 = fixed_clock("2026-06-05T10:00:00Z");
    let prior = attest(&[inert("memlog")], &clock1, "boot-1", &dir.load_all());
    dir.write(&prior.receipt);
    let result = attest(&[inert("memlog")], &clock2, "boot-2", &dir.load_all());
    let (name, delta) = &result.deltas[0];
    assert_eq!(name, "memlog");
    assert_eq!(delta.kind, DeltaKind::Unchanged, "same verdict must be Unchanged");
}

#[test]
fn ac3_delta_regressed_live_to_inert() {
    let mut dir = Directory::new();
    let clock1 = fixed_clock("2026-06-04T10:00:00Z");
    let clock2 = fixed_clock("2026-06-05T10:00:00Z");
    let prior = attest(&[live("memlog")], &clock1, "boot-1", &dir.load_all());
    dir.write(&prior.receipt);
    let result = attest(&[inert("memlog")], &clock2, "boot-2", &dir.load_all());
    assert_eq!(result.deltas[0].1.kind, DeltaKind::Regressed);
}

#[test]
fn ac3_delta_improved_inert_to_live() {
    let mut dir = Directory::new();
    let clock1 = fixed_clock("2026-06-04T10:00:00Z");
    let clock2 = fixed_clock("2026-06-05T10:00:00Z");
    let prior = attest(&[inert("memlog")], &clock1, "boot-1", &dir.load_all());
    dir.write(&prior.receipt);
    let result = attest(&[live("memlog")], &clock2, "boot-2", &dir.load_all());
    assert_eq!(result.deltas[0].1.kind, DeltaKind::Improved);
}

#[test]
fn ac3_delta_evidence_changed_pkgrel() {
    let mut dir = Directory::new();
    let clock1 = fixed_clock("2026-06-04T10:00:00Z");
    let clock2 = fixed_clock("2026-06-05T10:00:00Z");
    let prior_ev = Evidence::single("installed_pkgrel", "5").with("staged_pkgrel", "6");
    let prior_reports = vec![report("memlog", Verdict::StagedNotInstalled, prior_ev)];
    let prior = attest(&prior_reports, &clock1, "boot-1", &dir.load_all());
    dir.write(&prior.receipt);

    let cur_ev = Evidence::single("installed_pkgrel", "5").with("staged_pkgrel", "11");
    let cur_reports = vec![report("memlog", Verdict::StagedNotInstalled, cur_ev)];
    let result = attest(&cur_reports, &clock2, "boot-2", &dir.load_all());
    match &result.deltas[0].1.kind {
        DeltaKind::EvidenceChanged { detail } => {
            assert!(
                detail.contains("staged_pkgrel"),
                "EvidenceChanged detail must mention staged_pkgrel: {detail}"
            );
        }
        other => panic!("expected EvidenceChanged, got {other:?}"),
    }
}

#[test]
fn ac4_streak_counts_distinct_boot_ids_not_receipts() {
    let mut dir = Directory::new();
    dir.write(&make_receipt("2026-06-03T09:00:00Z", "boot-A", "memlog", Verdict::Inert));
    dir.write(&make_receipt("2026-06-03T10:00:00Z", "boot-A", "memlog", Verdict::Inert));
    dir.write(&make_receipt("2026-06-04T10:00:00Z", "boot-B", "memlog", Verdict::Inert));
    let clock = fixed_clock("2026-06-05T10:00:00Z");
    let result = attest(&[inert("memlog")], &clock, "boot-C", &dir.load_all());
    let (_, streak_info) = result
        .streaks
        .iter()
        .find(|(name, _)| name == "memlog")
        .expect("memlog streak");
    assert_eq!(streak_info.inert_streak, 2, "streak must count distinct boot_ids");
}

#[test]
fn ac5_streak_band_escalates() {
    let s1 = streak_band(1);
    let s3 = streak_band(3);
    let s7 = streak_band(7);
    assert!(!s1.is_empty(), "streak 1 must produce non-empty severity");
    assert!(!s3.is_empty(), "streak 3 must produce non-empty severity");
    assert!(!s7.is_empty(), "streak 7 must produce non-empty severity");
    assert_ne!(s1, s3, "streak 1 and 3 must have different wording");
    assert_ne!(s3, s7, "streak 3 and 7 must have different wording");
    assert_ne!(s1, s7, "streak 1 and 7 must have different wording");
    assert!(s7.contains("DARK FOR"), "streak 7 must contain 'DARK FOR': {s7}");
}

#[test]
fn ac6_no_write_does_not_persist() {
    let dir = Directory::new();
    let clock = fixed_clock("2026-06-05T10:00:00Z");
    let result = attest(&[inert("memlog")], &clock, "boot-1", &dir.load_all());
    assert!(dir.load_all().is_empty(), "store must be empty when we don't call write");
    assert_eq!(result.receipt.boot_id, "boot-1");
}

#[test]
fn ac7_all_tests_use_injected_store_and_clock() {
    let dir = Directory::new();
    let clock = FixedClock(ts("2026-06-05T12:00:00Z"));
    let result = attest(&[inert("memlog")], &clock, "test-boot-id", &dir.load_all());
    assert_eq!(result.receipt.boot_id, "test-boot-id");
    assert_eq!(
        result.receipt.taken_at,
        ts("2026-06-05T12:00:00Z"),
        "taken_at must use injected clock"
    );
}

#[test]
fn without_history_there_is_nothing_to_compare() {
    let clock = fixed_clock("2026-06-05T10:00:00Z");
    let result = attest(&[inert("memlog"), live("warden")], &clock, "b", &[]);
    assert_eq!(result.deltas.len(), 2);
    assert_eq!(result.deltas[0].1.kind, DeltaKind::NoPrior);
    assert_eq!(result.deltas[1].0, "warden");
    assert_eq!(result.deltas[1].1.kind, DeltaKind::NoPrior);
    assert_eq!(result.streaks[0].1.inert_streak, 0);
}

#[test]
fn the_new_receipt_is_not_part_of_its_own_history() {
    let history = vec![make_receipt("2026-06-04T10:00:00Z", "b", "memlog", Verdict::Inert)];
    let clock = fixed_clock("2026-06-05T10:00:00Z");
    let result = attest(&[inert("memlog")], &clock, "c", &history);
    assert_eq!(result.streaks[0].1.inert_streak, 1);
}

#[test]
fn the_system_clock_gives_this_century() {
    let (year, ..) = SystemClock.now().parts();
    assert!((2020..2200).contains(&year), "{year}");
}
