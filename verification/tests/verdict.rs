use quicken::{render, Evidence, PrimitiveReport, Verdict};

#[test]
fn live_is_acceptable() {
    assert!(Verdict::Live.is_acceptable());
}

#[test]
fn live_degraded_is_acceptable() {
    assert!(Verdict::LiveDegraded { reason: "test".into() }.is_acceptable());
}

#[test]
fn inert_not_acceptable() {
    assert!(!Verdict::Inert.is_acceptable());
}

#[test]
fn installed_not_activated_not_acceptable() {
    assert!(!Verdict::InstalledNotActivated.is_acceptable());
}

#[test]
fn staged_not_installed_not_acceptable() {
    assert!(!Verdict::StagedNotInstalled.is_acceptable());
}

#[test]
fn unknown_not_acceptable() {
    assert!(!Verdict::Unknown.is_acceptable());
}

#[test]
fn mechanism_live_not_wired_not_acceptable() {
    assert!(!Verdict::MechanismLiveNotWired {
        remediation: "wrap the launch".into()
    }
    .is_acceptable());
}

#[test]
fn single_roundtrip() {
    let e = Evidence::single("foo", "bar");
    assert_eq!(e.get("foo"), Some("bar"));
    assert_eq!(e.get("baz"), None);
}

#[test]
fn chaining() {
    let e = Evidence::empty()
        .with("a", "1")
        .with("b", "2")
        .with_detail("some context");
    assert_eq!(e.get("a"), Some("1"));
    assert_eq!(e.get("b"), Some("2"));
    assert_eq!(e.detail.as_deref(), Some("some context"));
}

#[test]
fn first_pair_with_a_key_counts() {
    let e = Evidence::single("a", "1").with("a", "2");
    assert_eq!(e.get("a"), Some("1"));
    assert_eq!(e.pairs.len(), 2);
}

fn reports_with(verdicts: &[Verdict]) -> Vec<PrimitiveReport> {
    verdicts
        .iter()
        .map(|v| PrimitiveReport::new("p", v.clone(), Evidence::empty()))
        .collect()
}

#[test]
fn all_acceptable_exits_zero_logic() {
    let verdicts = vec![Verdict::Live, Verdict::LiveDegraded { reason: "test".into() }];
    let all_ok = verdicts.iter().all(|v| v.is_acceptable());
    assert!(all_ok);
    let exit = if all_ok { 0 } else { 1 };
    assert_eq!(exit, 0, "all-acceptable verdicts should give exit 0");
    assert_eq!(render::exit_code(&reports_with(&verdicts)), 0);
}

#[test]
fn any_inert_exits_nonzero_logic() {
    let verdicts = vec![Verdict::Live, Verdict::Inert];
    let all_ok = verdicts.iter().all(|v| v.is_acceptable());
    assert!(!all_ok);
    let exit = if all_ok { 0 } else { 1 };
    assert_eq!(exit, 1, "any Inert should give exit 1");
    assert_eq!(render::exit_code(&reports_with(&verdicts)), 1);
}

#[test]
fn installed_not_activated_exits_nonzero_logic() {
    let verdicts = vec![Verdict::InstalledNotActivated, Verdict::Live];
    let all_ok = verdicts.iter().all(|v| v.is_acceptable());
    assert!(!all_ok);
    let exit = if all_ok { 0 } else { 1 };
    assert_eq!(exit, 1);
    assert_eq!(render::exit_code(&reports_with(&verdicts)), 1);
}

#[test]
fn staged_not_installed_exits_nonzero_logic() {
    let verdicts = vec![Verdict::StagedNotInstalled];
    let all_ok = verdicts.iter().all(|v| v.is_acceptable());
    assert!(!all_ok);
    let exit = if all_ok { 0 } else { 1 };
    assert_eq!(exit, 1);
    assert_eq!(render::exit_code(&reports_with(&verdicts)), 1);
}

#[test]
fn no_reports_exit_zero() {
    assert_eq!(render::exit_code(&[]), 0);
}

#[test]
fn cloning_keeps_a_report() {
    let r = PrimitiveReport::new(
        "memlog",
        Verdict::LiveDegraded { reason: "slow".into() },
        Evidence::single("a", "1").with_detail("d"),
    );
    let c = r.clone();
    assert_eq!(c.name, r.name);
    assert_eq!(c.verdict, r.verdict);
    assert_eq!(c.evidence, r.evidence);
    assert_eq!(c.checked_at, r.checked_at);
}

#[test]
fn attest_exit_codes() {
    let fine = reports_with(&[Verdict::Live]);
    let dark = reports_with(&[Verdict::Live, Verdict::Inert]);
    assert_eq!(render::attest_exit_code(true, Some(true), &fine), 0);
    assert_eq!(render::attest_exit_code(true, None, &fine), 0);
    assert_eq!(render::attest_exit_code(true, Some(true), &dark), 1);
    assert_eq!(render::attest_exit_code(true, None, &dark), 1);
    assert_eq!(render::attest_exit_code(true, Some(false), &fine), 2);
    assert_eq!(render::attest_exit_code(false, None, &fine), 2);
    assert_eq!(render::attest_exit_code(false, Some(true), &dark), 2);
}
