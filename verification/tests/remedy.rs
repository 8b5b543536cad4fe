use quicken::remedy::{
    apply_remedies, apply_safe_steps, manual_remediation, remediation_for, remediations,
    remedy_mode, tier_label, worded_state, CommandExecutor, RecordingExecutor, Remediation,
    RemedyMode, RemedyStep, Tier,
};
use quicken::{render, Evidence, PrimitiveReport, Verdict};

const ACTIVATE: &str = "systemd-sysusers /usr/lib/sysusers.d/memlog.conf && udevadm trigger \
                        /dev/memlog && newgrp memlog";

fn memlog_staged_report() -> PrimitiveReport {
    let ev = Evidence::empty()
        .with("installed_pkgrel", "5")
        .with("staged_pkgrel", "11")
        .with("pkg_staging_dir", "/home/jsy/wintermute/wintermute-kernel/pkg")
        .with_detail("staged pkgrel 11 > installed pkgrel 5: kernel update pending");
    PrimitiveReport::new("memlog", Verdict::StagedNotInstalled, ev)
}

fn agentns_inert_report() -> PrimitiveReport {
    let ev = Evidence::single("agent_session_raw", "00000000000000000000000000000000")
        .with("agent_session_path", "/proc/self/agent_session");
    PrimitiveReport::new("agentns", Verdict::Inert, ev)
}

#[test]
fn ac2_memlog_staged_not_installed_both_steps() {
    let rem = remediation_for(&memlog_staged_report())
        .expect("should produce a remediation for StagedNotInstalled");
    assert_eq!(rem.primitive, "memlog");
    let reboot_step = rem
        .steps
        .iter()
        .find(|s| s.tier == Tier::RequiresReboot)
        .expect("expected a RequiresReboot step");
    assert!(reboot_step.command.contains("linux-wintermute-"));
    assert!(reboot_step.command.contains("-11-"), "got '{}'", reboot_step.command);
    assert!(reboot_step.command.starts_with("sudo pacman -U"));
    assert_eq!(
        reboot_step.command,
        "sudo pacman -U /home/jsy/wintermute/wintermute-kernel/pkg/\
         linux-wintermute-7.0.10.arch1-11-x86_64.pkg.tar.zst"
    );
    assert_eq!(
        reboot_step.rationale,
        "Install staged kernel package (pkgrel 11) then reboot to activate the memlog kernel \
         module."
    );
    assert!(reboot_step.requires_reboot);
    let safe_step = rem
        .steps
        .iter()
        .find(|s| s.tier == Tier::SafeUserspace)
        .expect("expected a SafeUserspace step");
    assert!(safe_step.command.contains("systemd-sysusers"));
    assert!(safe_step.command.contains("udevadm trigger"));
    assert!(safe_step.command.contains("newgrp memlog"));
    assert_eq!(safe_step.command, ACTIVATE);
    assert!(!safe_step.requires_reboot);
    assert!(!safe_step.command.contains("sudo"));
}

#[test]
fn staged_memlog_without_evidence() {
    let report = PrimitiveReport::new("memlog", Verdict::StagedNotInstalled, Evidence::empty());
    let rem = remediation_for(&report).expect("a remedy");
    assert_eq!(
        rem.steps[0].command,
        "sudo pacman -U ~/wintermute/wintermute-kernel/pkg/\
         linux-wintermute-7.0.10.arch1-?-x86_64.pkg.tar.zst"
    );
}

#[test]
fn ac3_agentns_inert_report_only() {
    let rem = remediation_for(&agentns_inert_report())
        .expect("should produce a remediation for agentns Inert");
    assert_eq!(rem.primitive, "agentns");
    assert_eq!(rem.steps.len(), 1);
    let step = &rem.steps[0];
    assert_eq!(step.tier, Tier::ReportOnly);
    assert!(
        step.rationale.to_lowercase().contains("no userspace")
            || step.rationale.to_lowercase().contains("no automated"),
        "rationale should say there is no userspace fix: got '{}'",
        step.rationale
    );
    assert!(step.command.is_empty(), "ReportOnly step should have no command");
}

#[test]
fn ac4_dry_run_executes_nothing() {
    let executor = RecordingExecutor::new();
    assert_eq!(
        executor.executed.len(),
        0,
        "dry-run must not record any executed commands"
    );
    assert_eq!(remedy_mode(2, false, false), RemedyMode::ListSteps);
}

#[test]
fn ac5_apply_only_safe_steps() {
    let rem = remediation_for(&memlog_staged_report())
        .expect("remediation should exist for mixed fixture");
    let mut executor = RecordingExecutor::new();
    let ran = apply_safe_steps(&rem, &mut executor).expect("apply_safe_steps should succeed");
    assert!(ran >= 1, "at least one SafeUserspace step should have run");
    assert_eq!(ran, 1);
    for cmd in &executor.executed {
        assert!(!cmd.contains("pacman -U"), "pacman -U must not be executed: got '{cmd}'");
    }
    let safe_cmds: Vec<_> = rem
        .steps
        .iter()
        .filter(|s| s.tier == Tier::SafeUserspace)
        .map(|s| s.command.as_str())
        .collect();
    for executed_cmd in &executor.executed {
        assert!(safe_cmds.contains(&executed_cmd.as_str()));
    }
    assert_eq!(
        executor.lines,
        vec![
            "[skip — requires-reboot] sudo pacman -U \
             /home/jsy/wintermute/wintermute-kernel/pkg/\
             linux-wintermute-7.0.10.arch1-11-x86_64.pkg.tar.zst"
                .to_owned(),
            "  note: Install staged kernel package (pkgrel 11) then reboot to activate the \
             memlog kernel module."
                .to_owned(),
        ]
    );
}

#[test]
fn ac7_recording_executor_never_runs_real_commands() {
    let mut executor = RecordingExecutor::default();
    let rem = remediation_for(&memlog_staged_report()).expect("remediation should exist");
    let _ = apply_safe_steps(&rem, &mut executor);
    for cmd in &executor.executed {
        assert!(!cmd.is_empty());
    }
    assert_eq!(executor.executed, vec![ACTIVATE.to_owned()]);
}

#[test]
fn live_verdict_returns_none() {
    let report = PrimitiveReport::new("memlog", Verdict::Live, Evidence::empty());
    assert!(remediation_for(&report).is_none());
}

#[test]
fn installed_memlog_is_activated() {
    let report = PrimitiveReport::new("memlog", Verdict::InstalledNotActivated, Evidence::empty());
    let rem = remediation_for(&report).expect("a remedy");
    assert_eq!(rem.steps.len(), 1);
    assert_eq!(rem.steps[0].command, ACTIVATE);
    assert_eq!(rem.steps[0].tier, Tier::SafeUserspace);
    assert_eq!(
        rem.steps[0].rationale,
        "Re-apply group/udev rules so the current session gains memlog group membership."
    );
}

#[test]
fn other_states_get_an_explanation() {
    let cases = [
        ("warden", Verdict::Inert, "Inert"),
        ("memlog", Verdict::Inert, "Inert"),
        ("agentns", Verdict::Unknown, "Unknown"),
        ("provfs", Verdict::StagedNotInstalled, "StagedNotInstalled"),
        ("provfs", Verdict::InstalledNotActivated, "InstalledNotActivated"),
        (
            "provfs",
            Verdict::LiveDegraded { reason: "a \"b\"\n\\ é".into() },
            "LiveDegraded { reason: \"a \\\"b\\\"\\n\\\\ é\" }",
        ),
        (
            "agentns",
            Verdict::MechanismLiveNotWired { remediation: "wrap".into() },
            "MechanismLiveNotWired { remediation: \"wrap\" }",
        ),
    ];
    for (name, v, state) in cases {
        assert_eq!(format!("{v:?}"), state);
        let report = PrimitiveReport::new(name, v, Evidence::empty());
        let rem = remediation_for(&report).expect("a remedy");
        assert_eq!(rem, manual_remediation(name, state));
        assert_eq!(
            rem.steps[0].rationale,
            format!(
                "No automated remediation is available for primitive '{name}' in state \
                 '{state}'. Check self-review journal for manual steps."
            )
        );
        assert_eq!(rem.steps[0].tier, Tier::ReportOnly);
        assert!(rem.steps[0].command.is_empty());
    }
}

#[test]
fn remedies_leave_live_primitives_out() {
    let reports = vec![
        memlog_staged_report(),
        PrimitiveReport::new("warden", Verdict::Live, Evidence::empty()),
        agentns_inert_report(),
    ];
    let list = remediations(&reports);
    assert_eq!(list.len(), 2);
    assert_eq!(list[0].primitive, "memlog");
    assert_eq!(list[1].primitive, "agentns");
    assert!(remediations(&[]).is_empty());
}

#[test]
fn nothing_to_remedy_where_all_is_live() {
    let live = PrimitiveReport::new("memlog", Verdict::Live, Evidence::empty());
    assert!(remediations(&[live.clone(), live]).is_empty());
}

#[test]
fn tiers_and_steps_agree() {
    let installed =
        PrimitiveReport::new("memlog", Verdict::InstalledNotActivated, Evidence::empty());
    let unknown = PrimitiveReport::new("x", Verdict::Unknown, Evidence::empty());
    let reports = [memlog_staged_report(), agentns_inert_report(), installed, unknown];
    for rem in remediations(&reports) {
        assert!(!rem.steps.is_empty());
        for step in &rem.steps {
            assert_eq!(step.requires_reboot, step.tier == Tier::RequiresReboot);
            assert_eq!(step.command.is_empty(), step.tier == Tier::ReportOnly);
        }
    }
}

#[test]
fn states_in_words() {
    let degraded = Verdict::LiveDegraded { reason: "ignored".into() };
    assert_eq!(worded_state(&degraded, "<q>"), "LiveDegraded { reason: <q> }");
    let wired = Verdict::MechanismLiveNotWired { remediation: "ignored".into() };
    assert_eq!(worded_state(&wired, "<q>"), "MechanismLiveNotWired { remediation: <q> }");
    assert_eq!(worded_state(&Verdict::Inert, "<q>"), "Inert");
}

#[test]
fn modes() {
    assert_eq!(remedy_mode(0, true, false), RemedyMode::NothingToDo);
    assert_eq!(remedy_mode(0, false, true), RemedyMode::NothingToDo);
    assert_eq!(remedy_mode(1, false, true), RemedyMode::GiveJson);
    assert_eq!(remedy_mode(1, true, false), RemedyMode::TakeSafeSteps);
    assert_eq!(remedy_mode(1, false, false), RemedyMode::ListSteps);
}

#[test]
fn tier_labels() {
    assert_eq!(tier_label(&Tier::SafeUserspace), "safe-userspace");
    assert_eq!(tier_label(&Tier::RequiresSudo), "requires-sudo");
    assert_eq!(tier_label(&Tier::RequiresReboot), "requires-reboot");
    assert_eq!(tier_label(&Tier::ReportOnly), "report-only");
}

/// An executor on which one command fails.
struct Failing {
    bad: String,
    ran: Vec<String>,
    lines: Vec<String>,
}

impl CommandExecutor for Failing {
    fn run(&mut self, command: &str) -> Result<(), String> {
        self.ran.push(command.to_owned());
        if command == self.bad {
            Err("command exited with 1".to_owned())
        } else {
            Ok(())
        }
    }

    fn show(&mut self, line: &str) {
        self.lines.push(line.to_owned());
    }
}

fn step(command: &str, tier: Tier) -> RemedyStep {
    RemedyStep {
        command: command.to_owned(),
        tier,
        requires_reboot: false,
        rationale: format!("why {command}"),
    }
}

#[test]
fn a_failing_step_ends_the_run() {
    let rem = Remediation {
        primitive: "p".into(),
        steps: vec![
            step("a", Tier::SafeUserspace),
            step("s", Tier::RequiresSudo),
            step("b", Tier::SafeUserspace),
            step("c", Tier::SafeUserspace),
            step("", Tier::ReportOnly),
        ],
    };
    let mut executor = Failing { bad: "b".into(), ran: Vec::new(), lines: Vec::new() };
    let result = apply_safe_steps(&rem, &mut executor);
    assert_eq!(result, Err("command exited with 1".to_owned()));
    assert_eq!(executor.ran, vec!["a", "b"]);
    assert_eq!(executor.lines, vec!["[skip — requires-sudo] s", "  note: why s"]);

    let mut executor = Failing { bad: "none".into(), ran: Vec::new(), lines: Vec::new() };
    assert_eq!(apply_safe_steps(&rem, &mut executor), Ok(3));
    assert_eq!(executor.ran, vec!["a", "b", "c"]);
    assert_eq!(
        executor.lines,
        vec!["[skip — requires-sudo] s", "  note: why s", "  note: why "]
    );
}

#[test]
fn safe_steps_call_no_sudo() {
    let installed =
        PrimitiveReport::new("memlog", Verdict::InstalledNotActivated, Evidence::empty());
    let mut safe = 0;
    for rem in remediations(&[memlog_staged_report(), agentns_inert_report(), installed]) {
        for step in rem.steps.iter().filter(|s| s.tier == Tier::SafeUserspace) {
            assert!(!step.command.contains("sudo"), "got '{}'", step.command);
            safe += 1;
        }
    }
    assert_eq!(safe, 2);
}

#[test]
fn remedies_are_taken_in_order() {
    let list = remediations(&[agentns_inert_report(), memlog_staged_report()]);
    let mut executor = RecordingExecutor::new();
    assert_eq!(apply_remedies(&list, &mut executor), Ok(vec![0, 1]));
    assert_eq!(executor.executed, vec![ACTIVATE.to_owned()]);
    assert_eq!(executor.lines.len(), 9);
    assert_eq!(executor.lines[0], "");
    assert_eq!(executor.lines[1], "=== Remediation: agentns ===");
    assert_eq!(executor.lines[2], format!("  note: {}", list[0].steps[0].rationale));
    assert_eq!(executor.lines[3], "  0 SafeUserspace step(s) applied.");
    assert_eq!(executor.lines[4], "");
    assert_eq!(executor.lines[5], "=== Remediation: memlog ===");
    assert!(executor.lines[6].starts_with("[skip — requires-reboot] sudo pacman -U "));
    assert!(executor.lines[7].starts_with("  note: Install staged kernel package"));
    assert_eq!(executor.lines[8], "  1 SafeUserspace step(s) applied.");

    let mut executor = RecordingExecutor::new();
    assert_eq!(apply_remedies(&[], &mut executor), Ok(Vec::new()));
    assert!(executor.executed.is_empty() && executor.lines.is_empty());
}

#[test]
fn a_failing_remedy_ends_the_run() {
    let remedy = |name: &str, command: &str| Remediation {
        primitive: name.to_owned(),
        steps: vec![step(command, Tier::SafeUserspace)],
    };
    let list = [remedy("p", "a"), remedy("q", "b"), remedy("r", "c")];
    let mut executor = Failing { bad: "b".into(), ran: Vec::new(), lines: Vec::new() };
    assert_eq!(
        apply_remedies(&list, &mut executor),
        Err("remedy apply failed for 'q': command exited with 1".to_owned())
    );
    assert_eq!(executor.ran, vec!["a", "b"]);
    assert_eq!(
        executor.lines,
        vec![
            "",
            "=== Remediation: p ===",
            "  1 SafeUserspace step(s) applied.",
            "",
            "=== Remediation: q ===",
        ]
    );
}

#[test]
fn remedies_are_listed() {
    let lines = render::remediation_lines(&[
        Remediation {
            primitive: "p".into(),
            steps: vec![
                RemedyStep {
                    command: "do it".into(),
                    tier: Tier::RequiresReboot,
                    requires_reboot: true,
                    rationale: "because".into(),
                },
                step("", Tier::ReportOnly),
            ],
        },
        Remediation { primitive: "q".into(), steps: Vec::new() },
    ]);
    assert_eq!(
        lines,
        vec![
            "",
            "=== Remedy: p ===",
            "  Step 1: [requires-reboot]",
            "    command:  do it",
            "    reboot:   yes",
            "    rationale: because",
            "  Step 2: [report-only]",
            "    rationale: why ",
            "",
            "=== Remedy: q ===",
            "",
        ]
    );
}
