use quicken::notify::{
    apply_event_to_state, classify_event, emit_signal, events_from_attest, is_dark,
    is_darkening_edge, is_recovery_edge, once_exit_code, payload_in, run_once, EdgeState,
    HealthEvent, NotifyOptions, Signal, DEFAULT_STREAK_THRESHOLD,
};
use quicken::watch::{verdict_to_str, watch_events};
use quicken::{Evidence, PrimitiveReport, Receipt, Timestamp, Verdict};

fn options() -> NotifyOptions {
    NotifyOptions {
        state_path: "/tmp/notify.json".to_owned(),
        streak_threshold: DEFAULT_STREAK_THRESHOLD,
        notify_recovery: false,
        ping: false,
        agorabus_bin: "agorabus".to_owned(),
    }
}

fn dark_event(name: &str, verdict: &str, streak: u32) -> HealthEvent {
    HealthEvent {
        subject: format!("primitive.{name}"),
        verdict: verdict.to_owned(),
        inert_streak: streak,
        ts: "2026-06-09T00:00:00Z".to_owned(),
        blocked_by: Vec::new(),
    }
}

fn dark_state(name: &str) -> EdgeState {
    let mut state = EdgeState::default();
    state.last_verdict.insert(name.to_owned(), "inert".to_owned());
    state
}

fn recovery_event() -> HealthEvent {
    HealthEvent {
        subject: "primitive.memlog".to_owned(),
        verdict: "live".to_owned(),
        inert_streak: 0,
        ts: String::new(),
        blocked_by: Vec::new(),
    }
}

#[test]
fn once_emits_darkening_fragment() {
    let event = dark_event("memlog", "inert", 1);
    let signal = classify_event(&event, &EdgeState::default(), &options());
    assert!(signal.is_some(), "first-seen dark should produce signal");
    let s = signal.unwrap();
    assert!(s.line.contains("memlog"), "line should name the primitive");
    assert!(s.line.contains("went dark"), "line should say 'went dark'");
    assert!(s.line.contains("quicken remedy memlog"), "line should be actionable");
    assert_eq!(
        s.line,
        "quicken: \u{26a0} memlog went dark (streak 1) — quicken remedy memlog"
    );
    assert!(s.should_ping);
    let s = classify_event(&dark_event("memlog", "inert", 0), &EdgeState::default(), &options());
    assert_eq!(
        s.unwrap().line,
        "quicken: \u{26a0} memlog went dark — quicken remedy memlog"
    );
}

#[test]
fn once_silent_for_unchanged_dark() {
    let state = dark_state("memlog");
    let signal = classify_event(&dark_event("memlog", "inert", 2), &state, &options());
    assert!(signal.is_none(), "unchanged dark should be silent (debounced)");
}

#[test]
fn once_silent_for_recovery_without_flag() {
    let state = dark_state("memlog");
    let signal = classify_event(&recovery_event(), &state, &options());
    assert!(signal.is_none(), "recovery without --notify-recovery should be silent");
}

#[test]
fn debounce_second_dark_is_silent() {
    let events = vec![dark_event("agentns", "inert", 0), dark_event("agentns", "inert", 0)];
    let opts = options();
    let mut state = EdgeState::default();
    let mut signals = 0u32;
    for event in &events {
        if classify_event(event, &state, &opts).is_some() {
            signals += 1;
        }
        apply_event_to_state(event, &mut state);
    }
    assert_eq!(signals, 1, "debounce: only first dark transition fires");

    let mut state2 = EdgeState::default();
    let fired = run_once(&[dark_event("agentns", "inert", 0)], &mut state2, &opts);
    assert_eq!(fired.len(), 1);
    let signal2 = classify_event(&dark_event("agentns", "inert", 0), &state2, &opts);
    assert!(signal2.is_none(), "persisted state suppresses re-alarm");
}

#[test]
fn streak_threshold_fires_at_crossing() {
    let opts = options();
    let mut state = dark_state("memlog");
    let ev2 = dark_event("memlog", "inert", 2);
    assert!(classify_event(&ev2, &state, &opts).is_none(), "streak 2 below threshold 3: silent");

    let ev3 = dark_event("memlog", "inert", 3);
    let sig3 = classify_event(&ev3, &state, &opts);
    assert!(sig3.is_some(), "streak 3 at threshold 3: fires");
    let s = sig3.unwrap();
    assert!(s.line.contains("streak"), "signal mentions streak");
    assert_eq!(
        s.line,
        "quicken: \u{26a0} memlog inert streak 3 crossed threshold 3 — quicken remedy memlog"
    );
    assert!(s.should_ping);

    apply_event_to_state(&ev3, &mut state);
    assert!(classify_event(&ev3, &state, &opts).is_none(), "streak plateau: no second fire");
}

#[test]
fn notify_recovery_flag_controls_recovery_signal() {
    let state = dark_state("memlog");
    let opts_no_recovery = NotifyOptions {
        notify_recovery: false,
        ..NotifyOptions::with_state_path("/tmp/notify.json")
    };
    let sig_no = classify_event(&recovery_event(), &state, &opts_no_recovery);
    assert!(sig_no.is_none(), "without --notify-recovery: silent");

    let opts_recovery = NotifyOptions {
        notify_recovery: true,
        ..NotifyOptions::with_state_path("/tmp/notify.json")
    };
    let sig_yes = classify_event(&recovery_event(), &state, &opts_recovery);
    assert!(sig_yes.is_some(), "with --notify-recovery: emits recovery signal");
    let s = sig_yes.unwrap();
    assert!(s.line.contains("recovered"), "recovery line mentions 'recovered'");
    assert!(s.line.contains("memlog"), "recovery line names primitive");
    assert_eq!(s.line, "quicken: \u{2705} memlog recovered (now live)");
    assert!(!s.should_ping);
}

#[test]
fn ping_flag_controls_peon_ping() {
    let event = dark_event("warden", "inert", 0);
    let opts_no_ping = NotifyOptions { ping: false, ..NotifyOptions::with_state_path("/x") };
    let signal = classify_event(&event, &EdgeState::default(), &opts_no_ping).expect("a signal");
    assert!(!emit_signal(&signal, &opts_no_ping).ping, "no ping without --ping");

    let opts_ping = NotifyOptions { ping: true, ..NotifyOptions::with_state_path("/x") };
    let signal = classify_event(&event, &EdgeState::default(), &opts_ping).expect("a signal");
    let emission = emit_signal(&signal, &opts_ping);
    assert!(emission.ping, "ping with --ping set");
    assert_eq!(emission.line, signal.line);

    let quiet = Signal { line: "l".into(), should_ping: false };
    assert!(!emit_signal(&quiet, &opts_ping).ping);
}

#[test]
fn edge_state_tolerates_missing_file() {
    let state = EdgeState::load(None);
    assert!(state.last_verdict.is_empty());
    assert!(state.last_streak_fired.is_empty());
}

#[test]
fn edge_state_tolerates_corrupt_file() {
    let state = EdgeState::load(None);
    assert!(state.last_verdict.is_empty());
}

#[test]
fn a_stored_state_is_kept() {
    let mut stored = dark_state("memlog");
    stored.last_streak_fired.insert("memlog".to_owned(), 3);
    let loaded = EdgeState::load(Some(stored));
    assert_eq!(loaded.last_verdict.get("memlog").map(String::as_str), Some("inert"));
    assert_eq!(loaded.last_streak_fired.get("memlog").copied(), Some(3));
}

#[test]
fn run_once_with_fixture_events() {
    let events = vec![
        dark_event("memlog", "inert", 1),
        dark_event("agentns", "inert", 1),
        dark_event("warden", "live", 0),
    ];
    let mut state = EdgeState::default();
    let emissions = run_once(&events, &mut state, &options());
    assert_eq!(emissions.len(), 2);
    assert!(emissions[0].line.contains("memlog went dark"));
    assert!(emissions[1].line.contains("agentns went dark"));
    assert_eq!(state.last_verdict.get("memlog").map(String::as_str), Some("inert"));
    assert_eq!(state.last_verdict.get("agentns").map(String::as_str), Some("inert"));
    assert_eq!(state.last_verdict.get("warden").map(String::as_str), Some("live"));
    assert_eq!(state.last_streak_fired.get("warden"), None);
}

#[test]
fn is_dark_verdicts() {
    assert!(is_dark("inert"));
    assert!(is_dark("unknown"));
    assert!(is_dark("installed-not-activated"));
    assert!(is_dark("staged-not-installed"));
    assert!(!is_dark("live"));
    assert!(!is_dark("live-degraded"));
}

#[test]
fn is_darkening_edge_cases() {
    // First-seen dark.
    assert!(is_darkening_edge(None, "inert"));
    // First-seen live: not darkening.
    assert!(!is_darkening_edge(None, "live"));
    // live → inert: darkening.
    assert!(is_darkening_edge(Some("live"), "inert"));
    // live-degraded → unknown: darkening.
    assert!(is_darkening_edge(Some("live-degraded"), "unknown"));
    // inert → inert: plateau (not darkening).
    assert!(!is_darkening_edge(Some("inert"), "inert"));
    // inert → live: not darkening.
    assert!(!is_darkening_edge(Some("inert"), "live"));
}

#[test]
fn dark_in_another_way_is_an_edge() {
    assert!(is_darkening_edge(Some("inert"), "unknown"));
    assert!(is_darkening_edge(Some("staged-not-installed"), "inert"));
}

#[test]
fn recovery_edges() {
    assert!(is_recovery_edge(Some("inert"), "live"));
    assert!(is_recovery_edge(Some("unknown"), "live-degraded"));
    assert!(!is_recovery_edge(Some("live"), "live-degraded"));
    assert!(!is_recovery_edge(Some("inert"), "unknown"));
    assert!(!is_recovery_edge(None, "live"));
}

#[test]
fn names_of_primitives() {
    let mut event = dark_event("memlog", "inert", 0);
    assert_eq!(event.primitive_name(), "memlog");
    event.subject = "other.memlog".into();
    assert_eq!(event.primitive_name(), "other.memlog");
    event.subject = "primitive.".into();
    assert_eq!(event.primitive_name(), "");
    event.subject = "primitive.é.x".into();
    assert_eq!(event.primitive_name(), "é.x");
}

#[test]
fn the_remembered_streak_never_falls_while_dark() {
    let mut state = EdgeState::default();
    apply_event_to_state(&dark_event("memlog", "inert", 5), &mut state);
    assert_eq!(state.last_streak_fired.get("memlog"), Some(&5));
    apply_event_to_state(&dark_event("memlog", "inert", 2), &mut state);
    assert_eq!(state.last_streak_fired.get("memlog"), Some(&5));
    apply_event_to_state(&dark_event("memlog", "inert", 6), &mut state);
    assert_eq!(state.last_streak_fired.get("memlog"), Some(&6));
    apply_event_to_state(&dark_event("memlog", "live", 0), &mut state);
    assert_eq!(state.last_streak_fired.get("memlog"), None);
}

#[test]
fn the_threshold_fires_again_after_a_recovery() {
    let mut state = EdgeState::default();
    let events = vec![
        dark_event("memlog", "inert", 1),
        dark_event("memlog", "inert", 3),
        dark_event("memlog", "inert", 4),
        dark_event("memlog", "live", 0),
        dark_event("memlog", "inert", 1),
        dark_event("memlog", "inert", 3),
    ];
    let lines: Vec<String> =
        run_once(&events, &mut state, &options()).into_iter().map(|e| e.line).collect();
    assert_eq!(
        lines,
        vec![
            "quicken: \u{26a0} memlog went dark (streak 1) — quicken remedy memlog",
            "quicken: \u{26a0} memlog inert streak 3 crossed threshold 3 — quicken remedy memlog",
            "quicken: \u{26a0} memlog went dark (streak 1) — quicken remedy memlog",
            "quicken: \u{26a0} memlog inert streak 3 crossed threshold 3 — quicken remedy memlog",
        ]
    );
}

#[test]
fn primitives_are_kept_apart() {
    let opts = options();
    let mut state = dark_state("memlog");
    let event = dark_event("agentns", "inert", 7);
    let before = classify_event(&event, &state, &opts);
    apply_event_to_state(&dark_event("memlog", "unknown", 9), &mut state);
    assert_eq!(classify_event(&event, &state, &opts), before);
    assert_eq!(state.last_verdict.get("agentns"), None);
    assert_eq!(state.last_streak_fired.get("agentns"), None);
}

#[test]
fn words_are_dark_where_verdicts_are_not_acceptable() {
    for v in [
        Verdict::Live,
        Verdict::LiveDegraded { reason: "r".into() },
        Verdict::StagedNotInstalled,
        Verdict::InstalledNotActivated,
        Verdict::Inert,
        Verdict::MechanismLiveNotWired { remediation: "r".into() },
        Verdict::Unknown,
    ] {
        assert_eq!(is_dark(&verdict_to_str(&v)), !v.is_acceptable());
    }
}

#[test]
fn published_and_stored_events_agree() {
    let history = vec![
        receipt("b1", 1, &[("agentns", Verdict::Inert)]),
        receipt("b2", 2, &[("agentns", Verdict::Inert), ("provfs", Verdict::Live)]),
    ];
    let published = watch_events(&history[1].reports, &history, history[1].taken_at);
    let stored = events_from_attest(&history);
    assert_eq!(published.len(), stored.len());
    for (p, s) in published.iter().zip(&stored) {
        assert_eq!(p.subject, s.subject);
        assert_eq!(p.verdict, s.verdict);
        assert_eq!(p.inert_streak, s.inert_streak);
        assert_eq!(p.blocked_by, s.blocked_by);
    }
}

#[test]
fn default_state_paths() {
    assert_eq!(EdgeState::default_path(Some("/x/y.json"), Some("/home/jsy")), "/x/y.json");
    assert_eq!(
        EdgeState::default_path(None, Some("/home/jsy")),
        "/home/jsy/.local/state/quicken/notify.json"
    );
    assert_eq!(EdgeState::default_path(None, None), "/tmp/.local/state/quicken/notify.json");
}

#[test]
fn default_options() {
    let opts = NotifyOptions::with_state_path("/x");
    assert_eq!(opts.state_path, "/x");
    assert_eq!(opts.streak_threshold, 3);
    assert!(!opts.notify_recovery);
    assert!(!opts.ping);
    assert_eq!(opts.agorabus_bin, "agorabus");
}

fn receipt(boot: &str, day: u32, reports: &[(&str, Verdict)]) -> Receipt {
    Receipt {
        taken_at: Timestamp::new(2026, 6, day, 10, 0, 0, 0).unwrap(),
        boot_id: boot.to_owned(),
        reports: reports
            .iter()
            .map(|(n, v)| PrimitiveReport::new(n, v.clone(), Evidence::empty()))
            .collect(),
    }
}

#[test]
fn events_of_the_latest_receipt() {
    assert!(events_from_attest(&[]).is_empty());
    let history = vec![
        receipt("b1", 1, &[("agentns", Verdict::Inert), ("gone", Verdict::Inert)]),
        receipt(
            "b2",
            2,
            &[
                ("agentns", Verdict::Inert),
                ("provfs", Verdict::LiveDegraded { reason: "r".into() }),
            ],
        ),
    ];
    let events = events_from_attest(&history);
    assert_eq!(events.len(), 2);
    assert_eq!(events[0].subject, "primitive.agentns");
    assert_eq!(events[0].verdict, "inert");
    assert_eq!(events[0].inert_streak, 2);
    assert_eq!(events[0].ts, "2026-06-02T10:00:00+00:00");
    assert!(events[0].blocked_by.is_empty());
    assert_eq!(events[1].verdict, "live-degraded");
    assert_eq!(events[1].inert_streak, 0);
    assert_eq!(events[1].blocked_by, vec!["agentns".to_owned()]);
    assert_eq!(events[1].primitive_name(), "provfs");
}

#[test]
fn payloads_in_bus_lines() {
    assert_eq!(payload_in("{\"a\":1}").as_deref(), Some("{\"a\":1}"));
    assert_eq!(
        payload_in("wm.health.primitive.é {\"a\":{}}").as_deref(),
        Some("{\"a\":{}}")
    );
    assert_eq!(payload_in("reconnected"), None);
    assert_eq!(payload_in(""), None);
}

#[test]
fn once_exit_codes() {
    assert_eq!(once_exit_code(true), 0);
    assert_eq!(once_exit_code(false), 2);
}
