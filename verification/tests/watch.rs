use quicken::probes::agentns::AgentnsStep;
use quicken::probes::memlog::MemlogStep;
use quicken::probes::provfs::StampReading;
use quicken::probes::warden::BpolicyStatus;
use quicken::watch::{
    after_attempt, evidence_digest, evidence_text, failure_notice, payload_array,
    read_inert_streaks, run_outcome, verdict_to_str, watch_events, Attempt, PrimitiveEvent,
    PublishStep, WatchOptions, WatchOutcome, MAX_PUBLISH_RETRIES,
};
use quicken::{
    AgentnsProbe, Evidence, MemlogProbe, NameMap, PrimitiveReport, ProbeEnv, ProvfsProbe, Receipt,
    Timestamp, Verdict, WardenProbe,
};

fn now() -> Timestamp {
    Timestamp::new(2026, 6, 8, 12, 0, 0, 0).unwrap()
}

/// The reports of a system on which nothing is there.
fn reports() -> Vec<PrimitiveReport> {
    let env = ProbeEnv::for_home(None);
    let memlog = match MemlogProbe.begin(&env, false, None, None) {
        MemlogStep::Done(report) => report,
        MemlogStep::InspectDevice(_) => panic!("no device"),
    };
    let agentns = match AgentnsProbe.begin(&env, None) {
        AgentnsStep::Done(report) => report,
        AgentnsStep::AskAssay(_) => panic!("no session"),
    };
    let status = Ok(BpolicyStatus { loaded: Some(true), error: None });
    let warden = WardenProbe.probe("{\"loaded\":true}", &status);
    let provfs = ProvfsProbe.probe(&env, &StampReading::PathMissing);
    vec![memlog, agentns, warden, provfs]
}

fn events() -> Vec<PrimitiveEvent> {
    watch_events(&reports(), &[], now())
}

#[test]
fn format_json_emits_one_event_per_primitive() {
    let events = events();
    assert_eq!(events.len(), 4, "expected 4 events, got {}", events.len());
    let valid_verdicts = [
        "live",
        "live-degraded",
        "staged-not-installed",
        "installed-not-activated",
        "inert",
        "unknown",
    ];
    for event in &events {
        let topic = event.topic();
        assert!(topic.starts_with("wm.health.primitive."), "unexpected topic: {topic}");
        let payload: serde_json::Value =
            serde_json::from_str(&event.payload()).expect("payload must be valid JSON");
        assert_eq!(payload["subject"], event.subject.as_str());
        assert_eq!(payload["verdict"], event.verdict.as_str());
        assert!(valid_verdicts.contains(&event.verdict.as_str()));
        assert_eq!(event.evidence_digest.len(), 8);
        assert!(event.evidence_digest.chars().all(|c| c.is_ascii_hexdigit()));
        assert!(topic.ends_with(&event.subject));
    }
}

#[test]
fn publishes_to_wm_health_primitive_prefix() {
    let topics: Vec<String> = events().iter().map(|e| e.topic()).collect();
    assert!(topics.contains(&"wm.health.primitive.memlog".to_owned()));
    assert!(topics.contains(&"wm.health.primitive.agentns".to_owned()));
    assert!(topics.contains(&"wm.health.primitive.warden".to_owned()));
    assert!(topics.contains(&"wm.health.primitive.provfs".to_owned()));
}

#[test]
fn no_bus_exits_zero_without_require_bus() {
    let opts = WatchOptions { require_bus: false, format_json: false };
    let outcome = run_outcome(&opts, &vec![false, false, false, false]);
    assert_eq!(outcome, WatchOutcome::Clean);
    assert_eq!(outcome.exit_code(), 0);
}

#[test]
fn no_bus_exits_nonzero_with_require_bus() {
    let opts = WatchOptions { require_bus: true, format_json: false };
    let outcome = run_outcome(&opts, &vec![false, false, false, false]);
    assert_eq!(outcome, WatchOutcome::BusError);
    assert_ne!(outcome.exit_code(), 0);
}

#[test]
fn one_failure_is_enough() {
    let opts = WatchOptions { require_bus: true, format_json: true };
    assert_eq!(run_outcome(&opts, &vec![true, true, false, true]), WatchOutcome::BusError);
    assert_eq!(run_outcome(&opts, &vec![true, true]), WatchOutcome::Clean);
    assert_eq!(run_outcome(&opts, &Vec::new()), WatchOutcome::Clean);
}

#[test]
fn outcomes_have_codes_and_labels() {
    assert_eq!(WatchOutcome::Clean.exit_code(), 0);
    assert_eq!(WatchOutcome::BusError.exit_code(), 1);
    assert_eq!(WatchOutcome::InternalError.exit_code(), 2);
    assert_eq!(WatchOutcome::Clean.label(), "ok");
    assert_eq!(WatchOutcome::BusError.label(), "bus-error");
    assert_eq!(WatchOutcome::InternalError.label(), "internal-error");
}

#[test]
fn payload_has_required_field_names() {
    let events = events();
    let payload = events.first().expect("at least one event").payload();
    let v: serde_json::Value = serde_json::from_str(&payload).unwrap();
    assert!(v.get("subject").is_some(), "missing subject: {v}");
    assert!(v.get("verdict").is_some(), "no verdict in {v}");
    assert!(v.get("evidence_digest").is_some(), "missing evidence_digest: {v}");
    assert!(v.get("inert_streak").is_some(), "missing inert_streak: {v}");
    assert!(v.get("blocked_by").is_some(), "missing blocked_by: {v}");
    assert!(v.get("ts").is_some(), "missing ts: {v}");
}

#[test]
fn payloads_have_exact_texts() {
    let event = PrimitiveEvent {
        subject: "primitive.memlog".into(),
        verdict: "inert".into(),
        evidence_digest: "a1b2c3d4".into(),
        inert_streak: 2,
        blocked_by: vec!["agentns".into(), "a\"b".into()],
        ts: now(),
    };
    let text = "{\"subject\":\"primitive.memlog\",\"verdict\":\"inert\",\
                \"evidence_digest\":\"a1b2c3d4\",\"inert_streak\":2,\
                \"blocked_by\":[\"agentns\",\"a\\\"b\"],\"ts\":\"2026-06-08T12:00:00Z\"}";
    assert_eq!(event.payload(), text);
    assert_eq!(payload_array(&vec![event.clone(), event]), format!("[{text},{text}]"));
    assert_eq!(payload_array(&Vec::new()), "[]");
}

#[test]
fn the_array_holds_every_event() {
    let array = payload_array(&events());
    let v: serde_json::Value = serde_json::from_str(&array).expect("a JSON array");
    let list = v.as_array().expect("an array");
    assert_eq!(list.len(), 4);
    for ev in list {
        assert!(ev["subject"].as_str().unwrap().starts_with("primitive."));
        assert!(ev["ts"].is_string());
        assert!(ev["inert_streak"].as_u64().is_some());
    }
}

#[test]
fn inert_streak_defaults_to_zero_when_no_store() {
    let streaks: NameMap<u32> = read_inert_streaks(&[]);
    let streak = streaks.get("nonexistent").copied().unwrap_or(0);
    assert_eq!(streak, 0);
}

fn receipt(boot: &str, day: u32, names: &[(&str, Verdict)]) -> Receipt {
    let taken_at = Timestamp::new(2026, 6, day, 0, 0, 0, 0).unwrap();
    Receipt {
        taken_at,
        boot_id: boot.to_owned(),
        reports: names
            .iter()
            .map(|(n, v)| PrimitiveReport::new(n, v.clone(), Evidence::empty()))
            .collect(),
    }
}

#[test]
fn streaks_of_every_primitive_in_the_history() {
    let history = vec![
        receipt("b1", 1, &[("memlog", Verdict::Inert), ("old", Verdict::Inert)]),
        receipt("b2", 2, &[("memlog", Verdict::Unknown), ("warden", Verdict::Live)]),
    ];
    let streaks = read_inert_streaks(&history);
    assert_eq!(streaks.get("memlog"), Some(&2));
    assert_eq!(streaks.get("old"), Some(&0));
    assert_eq!(streaks.get("warden"), Some(&0));
    assert_eq!(streaks.get("provfs"), None);
    let mut names = streaks.names();
    names.sort();
    assert_eq!(names, vec!["memlog", "old", "warden"]);

    let events = watch_events(&reports(), &history, now());
    assert_eq!(events[0].inert_streak, 2);
    assert_eq!(events[1].inert_streak, 0);
    assert_eq!(events[2].inert_streak, 0);
}

#[test]
fn events_name_what_blocks_them() {
    let events = events();
    assert_eq!(events[3].subject, "primitive.provfs");
    assert_eq!(events[3].blocked_by, vec!["agentns".to_owned()]);
    assert!(events[0].blocked_by.is_empty());
}

#[test]
fn evidence_digest_is_8_hex_chars() {
    let e = Evidence::empty();
    let d = evidence_digest(&e);
    assert_eq!(d.len(), 8, "digest must be 8 chars: {d}");
    assert!(d.chars().all(|c| c.is_ascii_hexdigit()), "digest must be hex: {d}");
    assert_eq!(d, "c796d0fd");
}

#[test]
fn evidence_digest_differs_for_different_evidence() {
    let e1 = Evidence::single("a", "1");
    let e2 = Evidence::single("a", "2");
    assert_ne!(
        evidence_digest(&e1),
        evidence_digest(&e2),
        "digests for different evidence should differ"
    );
    assert_eq!(evidence_digest(&e1), "99c806d7");
    assert_eq!(evidence_digest(&e2), "c5ec69bc");
}

#[test]
fn evidence_digest_stable_for_same_evidence() {
    let e = Evidence::single("key", "val");
    assert_eq!(evidence_digest(&e), evidence_digest(&e));
    assert_eq!(evidence_digest(&e), "a328c48f");
}

#[test]
fn evidence_as_json() {
    let e = Evidence::single("k\"", "l\nm — ü").with("b", "\u{1}\\").with_detail("tab\there");
    let text = "{\"pairs\":[{\"key\":\"k\\\"\",\"value\":\"l\\nm — ü\"},\
                {\"key\":\"b\",\"value\":\"\\u0001\\\\\"}],\"detail\":\"tab\\there\"}";
    assert_eq!(evidence_text(&e), text);
    assert_eq!(evidence_digest(&e), "d3e03e37");
    assert_eq!(evidence_text(&Evidence::empty()), "{\"pairs\":[],\"detail\":null}");
}

#[test]
fn every_character_is_escaped_as_json_has_it() {
    let mut all = String::new();
    for n in 0..0x3000u32 {
        if let Some(c) = char::from_u32(n) {
            all.push(c);
        }
    }
    let text = evidence_text(&Evidence::single(&all, ""));
    let v: serde_json::Value = serde_json::from_str(&text).expect("valid JSON");
    assert_eq!(v["pairs"][0]["key"], all.as_str());
    let control = evidence_text(&Evidence::single("\u{8}\u{c}\u{1f}\u{7f}\r/", ""));
    assert!(control.contains("\"\\b\\f\\u001f\u{7f}\\r/\""));
}

#[test]
fn verdict_strings_are_lowercase_kebab() {
    assert_eq!(verdict_to_str(&Verdict::Live), "live");
    assert_eq!(verdict_to_str(&Verdict::LiveDegraded { reason: "x".into() }), "live-degraded");
    assert_eq!(verdict_to_str(&Verdict::StagedNotInstalled), "staged-not-installed");
    assert_eq!(verdict_to_str(&Verdict::InstalledNotActivated), "installed-not-activated");
    assert_eq!(verdict_to_str(&Verdict::Inert), "inert");
    assert_eq!(verdict_to_str(&Verdict::Unknown), "unknown");
    let wired = Verdict::MechanismLiveNotWired { remediation: "x".into() };
    assert_eq!(verdict_to_str(&wired), "unknown");
}

#[test]
fn publishing_is_tried_three_times() {
    assert_eq!(MAX_PUBLISH_RETRIES, 3);
    for attempt in 0..MAX_PUBLISH_RETRIES {
        assert!(matches!(
            after_attempt(attempt, &Attempt::Succeeded),
            PublishStep::Published
        ));
    }
    assert!(matches!(after_attempt(0, &Attempt::Exited(Some(1))), PublishStep::Retry));
    assert!(matches!(after_attempt(1, &Attempt::NotRun("e".into())), PublishStep::Retry));
    match after_attempt(2, &Attempt::Exited(Some(7))) {
        PublishStep::GiveUp(reason) => assert_eq!(reason, "agorabus publish exited 7"),
        other => panic!("{other:?}"),
    }
    match after_attempt(2, &Attempt::Exited(None)) {
        PublishStep::GiveUp(reason) => assert_eq!(reason, "agorabus publish exited -1"),
        other => panic!("{other:?}"),
    }
    match after_attempt(2, &Attempt::NotRun("no such file".into())) {
        PublishStep::GiveUp(reason) => {
            assert_eq!(reason, "could not run agorabus: no such file");
        }
        other => panic!("{other:?}"),
    }
}

#[test]
fn failure_notices() {
    assert_eq!(
        failure_notice("wm.health.primitive.memlog", "bus unreachable"),
        "quicken watch: fail-open: could not publish wm.health.primitive.memlog: bus unreachable"
    );
}
