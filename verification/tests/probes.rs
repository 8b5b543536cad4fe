use quicken::env::read_trimmed;
use quicken::probes::agentns::{AgentnsStep, AssayReport, AssayVerdict, FlagRejectedDetail};
use quicken::probes::memlog::{
    current_user_in_group, parse_pkgrel_from_desc, parse_pkgrel_from_filename,
    read_installed_pkgrel, read_staged_pkgrel, DeviceInfo, MemlogStep, PackageEntry,
};
use quicken::probes::provfs::{classify_provfs_value, StampReading};
use quicken::probes::warden::BpolicyStatus;
use quicken::{
    AgentnsProbe, Evidence, MemlogProbe, PrimitiveReport, ProbeEnv, ProvfsProbe, Verdict,
    WardenProbe,
};

// --- the environment ---

#[test]
fn default_env_paths_are_absolute() {
    for home in [None, Some("/home/jsy")] {
        let env = ProbeEnv::for_home(home);
        assert!(std::path::Path::new(&env.dev_root).is_absolute());
        assert!(std::path::Path::new(&env.agent_session_path).is_absolute());
    }
}

#[test]
fn env_of_a_home_directory() {
    let env = ProbeEnv::for_home(Some("/home/jsy"));
    assert_eq!(env.dev_root, "/dev");
    assert_eq!(env.agent_session_path, "/proc/self/agent_session");
    assert_eq!(env.provfs_xattr_path, "/home/jsy/.local/share/wintermute/last-run");
    assert_eq!(env.pacman_local_db, "/var/lib/pacman/local");
    assert_eq!(env.pkg_staging_dir, "/home/jsy/wintermute/wintermute-kernel/pkg");
    assert_eq!(env.bpolicy_path, "/home/jsy/.local/bin/bpolicy");
    assert_eq!(env.bpolicy_status_fixture, None);
    assert_eq!(env.assay_path, None);
    assert_eq!(ProbeEnv::for_home(None).bpolicy_path, "/root/.local/bin/bpolicy");
}

#[test]
fn env_builders_change_one_path_each() {
    let env = ProbeEnv::for_home(None)
        .with_dev_root("/a")
        .with_agent_session("/b")
        .with_provfs_xattr_path("/c")
        .with_pacman_local_db("/d")
        .with_pkg_staging_dir("/e")
        .with_bpolicy_fixture("/f")
        .with_assay_path("/g");
    assert_eq!(env.dev_root, "/a");
    assert_eq!(env.agent_session_path, "/b");
    assert_eq!(env.provfs_xattr_path, "/c");
    assert_eq!(env.pacman_local_db, "/d");
    assert_eq!(env.pkg_staging_dir, "/e");
    assert_eq!(env.bpolicy_path, "/root/.local/bin/bpolicy");
    assert_eq!(env.bpolicy_status_fixture.as_deref(), Some("/f"));
    assert_eq!(env.assay_path.as_deref(), Some("/g"));
    assert_eq!(env.memlog_dev_node(), "/a/memlog");
    assert_eq!(env.with_dev_root("/x/").memlog_dev_node(), "/x/memlog");
}

#[test]
fn read_trimmed_missing_returns_none() {
    assert_eq!(read_trimmed(None), None);
}

#[test]
fn read_trimmed_strips_newline() {
    assert_eq!(read_trimmed(Some("hello\n")).as_deref(), Some("hello"));
}

// --- agentns ---

const ZEROS: &str = "00000000000000000000000000000000";

fn env() -> ProbeEnv {
    ProbeEnv::for_home(None)
}

/// The probe over the content of the session file and the answer of `assay`.
fn agentns(content: Option<&str>, assay: Option<AssayReport>) -> PrimitiveReport {
    match AgentnsProbe.begin(&env(), content) {
        AgentnsStep::Done(report) => report,
        AgentnsStep::AskAssay(evidence) => AgentnsProbe.finish(evidence, assay.as_ref()),
    }
}

#[test]
fn all_zeros_is_inert_without_assay() {
    let report = agentns(Some(ZEROS), None);
    assert_eq!(report.verdict, Verdict::Inert);
    assert_eq!(report.name, "agentns");
}

#[test]
fn all_zeros_with_dashes_is_inert() {
    let report = agentns(Some("00000000-0000-0000-0000-000000000000"), None);
    assert_eq!(report.verdict, Verdict::Inert);
}

#[test]
fn non_zero_hex_is_live() {
    let report = agentns(Some("a1b2c3d4e5f6789012345678aabbccdd"), None);
    assert_eq!(report.verdict, Verdict::Live);
}

#[test]
fn non_zero_uuid_form_is_live() {
    let report = agentns(Some("a1b2c3d4-e5f6-7890-1234-5678aabbccdd"), None);
    assert_eq!(report.verdict, Verdict::Live);
}

#[test]
fn agentns_all_zeros_is_inert() {
    let report = agentns(Some(ZEROS), None);
    assert_eq!(report.verdict, Verdict::Inert, "all-zero agent_session should be Inert");
}

#[test]
fn agentns_nonzero_hex_is_live() {
    let report = agentns(Some("a1b2c3d4e5f6789012345678aabbccdd"), None);
    assert_eq!(report.verdict, Verdict::Live, "non-zero 128-bit hex should be Live");
}

#[test]
fn absent_file_is_unknown() {
    let report = agentns(None, None);
    assert_eq!(report.verdict, Verdict::Unknown);
    assert_eq!(report.evidence.get("agent_session_path"), Some("/proc/self/agent_session"));
    assert_eq!(report.evidence.get("error"), Some("file absent or unreadable"));
}

#[test]
fn garbage_content_is_unknown() {
    let report = agentns(Some("not-a-uuid-at-all!"), None);
    assert_eq!(report.verdict, Verdict::Unknown);
}

#[test]
fn evidence_records_raw_value() {
    let report = agentns(Some(ZEROS), None);
    assert!(report.evidence.get("agent_session_raw").is_some());
    assert_eq!(report.evidence.get("agent_session_raw"), Some(ZEROS));
}

fn flag_rejected(compiled_flag: Option<&str>) -> AssayReport {
    AssayReport {
        verdict: AssayVerdict::FlagRejected {
            detail: FlagRejectedDetail {
                flag: 256,
                collides_with: Some("CLONE_VM".into()),
                errno: Some(22),
            },
        },
        compiled_flag: compiled_flag.map(str::to_owned),
    }
}

#[test]
fn flag_rejected_assay_yields_inert_with_cause() {
    let report = agentns(Some(ZEROS), Some(flag_rejected(Some("0x100"))));
    assert_eq!(report.verdict, Verdict::Inert, "verdict must be Inert for FlagRejected");
    let cause = report.evidence.get("cause").expect("cause must be present");
    assert!(cause.contains("CLONE_NEWAGENT"), "cause must mention CLONE_NEWAGENT; got: {cause}");
    assert!(cause.contains("CLONE_VM"), "cause must mention collision; got: {cause}");
    assert!(cause.contains("EINVAL"), "cause must mention EINVAL; got: {cause}");
    assert_eq!(
        cause,
        "kernel rejects CLONE_NEWAGENT (flag 0x100 == CLONE_VM), errno EINVAL"
    );
    let rem = report.evidence.get("remediation").expect("remediation must be present");
    assert!(rem.contains("PRD-agentns-clone-flag-fix"), "got: {rem}");
    assert!(rem.contains("launch-wrap will not help"), "got: {rem}");
    assert_eq!(report.evidence.get("assay_compiled_flag"), Some("0x100"));
    assert_eq!(report.evidence.get("assay_collides_with"), Some("CLONE_VM"));
    assert_eq!(report.evidence.get("assay_unshare_errno"), Some("22"));
    assert_eq!(report.evidence.get("assay_verdict"), Some("FlagRejected"));
}

#[test]
fn flag_rejected_without_details() {
    let assay = AssayReport {
        verdict: AssayVerdict::FlagRejected {
            detail: FlagRejectedDetail { flag: 0xdead_beef, collides_with: None, errno: None },
        },
        compiled_flag: None,
    };
    let report = agentns(Some(ZEROS), Some(assay));
    assert_eq!(report.evidence.get("assay_compiled_flag"), Some("0xdeadbeef"));
    assert_eq!(report.evidence.get("assay_collides_with"), Some("unknown"));
    assert_eq!(report.evidence.get("assay_unshare_errno"), Some("unknown"));
    let assay = AssayReport {
        verdict: AssayVerdict::FlagRejected {
            detail: FlagRejectedDetail { flag: 0, collides_with: None, errno: Some(-22) },
        },
        compiled_flag: None,
    };
    let report = agentns(Some(ZEROS), Some(assay));
    assert_eq!(report.evidence.get("assay_compiled_flag"), Some("0x0"));
    assert_eq!(report.evidence.get("assay_unshare_errno"), Some("-22"));
}

#[test]
fn live_assay_yields_mechanism_live_not_wired() {
    let assay = AssayReport { verdict: AssayVerdict::Live, compiled_flag: None };
    let report = agentns(Some(ZEROS), Some(assay));
    match &report.verdict {
        Verdict::MechanismLiveNotWired { remediation } => {
            assert!(
                remediation.contains("onramp") || remediation.contains("launch"),
                "remediation must mention launch-wrap; got: {remediation}"
            );
        }
        other => panic!("expected MechanismLiveNotWired, got {other:?}"),
    }
    let rem = report.evidence.get("remediation").expect("remediation must be in evidence");
    assert!(
        rem.contains("onramp") || rem.contains("launch"),
        "evidence remediation must mention launch-wrap"
    );
    assert_eq!(report.verdict, Verdict::MechanismLiveNotWired { remediation: rem.to_owned() });
    assert_eq!(report.evidence.get("assay_verdict"), Some("Live"));
}

#[test]
fn assay_absent_falls_back_to_plain_inert() {
    let report = agentns(Some(ZEROS), None);
    assert_eq!(report.verdict, Verdict::Inert);
    assert!(report.evidence.get("cause").is_none(), "fail-open: no cause expected");
    assert!(report.evidence.get("remediation").is_none(), "fail-open: no remediation expected");
}

#[test]
fn assay_not_called_when_session_live() {
    let step = AgentnsProbe.begin(&env(), Some("a1b2c3d4e5f6789012345678aabbccdd"));
    match step {
        AgentnsStep::Done(report) => assert_eq!(report.verdict, Verdict::Live),
        AgentnsStep::AskAssay(_) => panic!("assay must not be asked"),
    }
}

#[test]
fn assay_exits_nonzero_falls_back_to_inert() {
    let report = agentns(Some(ZEROS), None);
    assert_eq!(report.verdict, Verdict::Inert, "non-zero assay exit must fall back to Inert");
    assert!(report.evidence.get("cause").is_none());
}

#[test]
fn assay_bad_json_falls_back_to_inert() {
    let report = agentns(Some(ZEROS), None);
    assert_eq!(report.verdict, Verdict::Inert, "bad JSON from assay must fall back to Inert");
}

#[test]
fn another_assay_verdict_falls_back_to_inert() {
    let assay = AssayReport { verdict: AssayVerdict::Other, compiled_flag: Some("1".into()) };
    let report = agentns(Some(ZEROS), Some(assay));
    assert_eq!(report.verdict, Verdict::Inert);
    assert_eq!(report.evidence.pairs.len(), 2);
}

#[test]
fn session_texts_at_the_edges() {
    let verdict = |s: &str| agentns(Some(s), None).verdict;
    assert_eq!(verdict(""), Verdict::Unknown);
    assert_eq!(verdict("0000000000000000000000000000000"), Verdict::Unknown);
    assert_eq!(verdict("000000000000000000000000000000000"), Verdict::Unknown);
    assert_eq!(verdict("  A1B2C3D4E5F6789012345678AABBCCDD\n"), Verdict::Live);
    assert_eq!(verdict("g1b2c3d4e5f6789012345678aabbccdd"), Verdict::Unknown);
    assert_eq!(verdict("00000000000000000000000000000001"), Verdict::Live);
    assert_eq!(verdict("--0-00000000000000000000000000000000"), Verdict::Unknown);
    assert_eq!(verdict("--0000000000000000000000000000000-0-"), Verdict::Inert);
    // Sixteen characters of two bytes each are no session.
    assert_eq!(verdict("éééééééééééééééé"), Verdict::Unknown);
}

// --- memlog ---

fn memlog(dev_exists: bool, installed: Option<u32>, staged: Option<u32>) -> MemlogStep {
    MemlogProbe.begin(&env().with_dev_root("/tmp/dev"), dev_exists, installed, staged)
}

fn done(step: MemlogStep) -> PrimitiveReport {
    match step {
        MemlogStep::Done(report) => report,
        MemlogStep::InspectDevice(_) => panic!("the device must not be looked at"),
    }
}

fn inspected(device: Result<DeviceInfo, String>) -> PrimitiveReport {
    match memlog(true, None, None) {
        MemlogStep::InspectDevice(evidence) => MemlogProbe.finish(evidence, &device),
        MemlogStep::Done(_) => panic!("the device must be looked at"),
    }
}

fn staging_pkg(pkgrel: u32) -> String {
    format!("linux-wintermute-6.8-{pkgrel}-x86_64.pkg.tar.zst")
}

fn installed_entry(pkgrel: u32) -> PackageEntry {
    PackageEntry {
        name: format!("linux-wintermute-6.8-{pkgrel}"),
        desc: Some(format!("%PKGREL%\n{pkgrel}\n")),
    }
}

#[test]
fn staged_higher_than_installed_is_staged_not_installed() {
    let installed = read_installed_pkgrel(&vec![installed_entry(5)]);
    let staged = read_staged_pkgrel(&vec![staging_pkg(11)]);
    let report = done(memlog(false, installed, staged));
    assert_eq!(report.verdict, Verdict::StagedNotInstalled);
    assert_eq!(report.evidence.get("installed_pkgrel"), Some("5"));
    assert_eq!(report.evidence.get("staged_pkgrel"), Some("11"));
    assert_eq!(
        report.evidence.detail.as_deref(),
        Some("staged pkgrel 11 > installed pkgrel 5: kernel update pending")
    );
}

#[test]
fn pkgrel_5_installed_11_staged_gives_staged_not_installed() {
    let installed = read_installed_pkgrel(&vec![installed_entry(5)]);
    let staged = read_staged_pkgrel(&vec![staging_pkg(11)]);
    let report = done(memlog(false, installed, staged));
    assert_eq!(report.verdict, Verdict::StagedNotInstalled);
}

#[test]
fn evidence_records_both_pkgrels_for_5_vs_11() {
    let installed = read_installed_pkgrel(&vec![installed_entry(5)]);
    let staged = read_staged_pkgrel(&vec![staging_pkg(11)]);
    let report = done(memlog(false, installed, staged));
    assert_eq!(report.evidence.get("installed_pkgrel"), Some("5"));
    assert_eq!(report.evidence.get("staged_pkgrel"), Some("11"));
}

#[test]
fn dev_node_present_wrong_group_is_installed_not_activated() {
    let report = inspected(Ok(DeviceInfo {
        mode: 0o100644,
        gid: 0,
        process_status: Some("Name:\tx\nGroups:\t4 24 \n".into()),
    }));
    assert_eq!(report.verdict, Verdict::InstalledNotActivated);
    assert_eq!(report.evidence.get("dev_node_exists"), Some("true"));
    assert_eq!(report.evidence.get("dev_mode_octal"), Some("100644"));
    assert_eq!(report.evidence.get("dev_gid"), Some("0"));
    assert_eq!(report.evidence.get("current_user_in_memlog_group"), Some("false"));
    assert_eq!(
        report.evidence.detail.as_deref(),
        Some("group-write bit unset AND user not in memlog group")
    );
}

#[test]
fn memlog_dev_node_present_no_group_is_installed_not_activated() {
    let report =
        inspected(Ok(DeviceInfo { mode: 0o660, gid: 0, process_status: None }));
    assert_eq!(report.verdict, Verdict::InstalledNotActivated);
    assert_eq!(report.evidence.get("dev_mode_octal"), Some("0660"));
    assert_eq!(report.evidence.detail.as_deref(), Some("user not in memlog group"));
}

#[test]
fn dev_node_without_group_write_is_installed_not_activated() {
    let report = inspected(Ok(DeviceInfo {
        mode: 0o4,
        gid: 985,
        process_status: Some("Groups: 985".into()),
    }));
    assert_eq!(report.verdict, Verdict::InstalledNotActivated);
    assert_eq!(report.evidence.get("dev_mode_octal"), Some("0004"));
    assert_eq!(report.evidence.detail.as_deref(), Some("group-write bit unset"));
}

#[test]
fn writable_dev_node_is_live() {
    let report = inspected(Ok(DeviceInfo {
        mode: 0o20660,
        gid: 985,
        process_status: Some("Uid:\t1000\nGroups:\t4 985 1000\n".into()),
    }));
    assert_eq!(report.verdict, Verdict::Live);
    assert_eq!(report.evidence.detail, None);
    assert_eq!(report.evidence.get("current_user_in_memlog_group"), Some("true"));
}

#[test]
fn unreadable_dev_node_is_unknown() {
    let report = inspected(Err("permission denied".into()));
    assert_eq!(report.verdict, Verdict::Unknown);
    assert_eq!(report.evidence.get("metadata_error"), Some("permission denied"));
}

#[test]
fn no_dev_node_no_staging_is_inert() {
    let report = done(memlog(false, None, None));
    assert_eq!(report.verdict, Verdict::Inert);
    assert_eq!(report.evidence.get("dev_node_exists"), Some("false"));
    assert_eq!(report.evidence.get("dev_node_path"), Some("/tmp/dev/memlog"));
}

#[test]
fn staged_equal_to_installed_does_not_trigger_staged_not_installed() {
    let installed = read_installed_pkgrel(&vec![installed_entry(11)]);
    let staged = read_staged_pkgrel(&vec![staging_pkg(11)]);
    let report = done(memlog(false, installed, staged));
    assert_ne!(report.verdict, Verdict::StagedNotInstalled);
}

#[test]
fn staged_without_installed_is_no_update() {
    assert_eq!(done(memlog(false, None, Some(11))).verdict, Verdict::Inert);
}

#[test]
fn parse_pkgrel_from_filename_extracts_correct_rel() {
    assert_eq!(
        parse_pkgrel_from_filename("linux-wintermute-6.8-11-x86_64.pkg.tar.zst"),
        Some(11)
    );
    assert_eq!(
        parse_pkgrel_from_filename("linux-wintermute-6.8-5-x86_64.pkg.tar.zst"),
        Some(5)
    );
    assert_eq!(parse_pkgrel_from_filename("not-a-package.pkg.tar.zst"), None);
}

#[test]
fn file_names_at_the_edges() {
    let parse = parse_pkgrel_from_filename;
    assert_eq!(parse("linux-wintermute-11-x86_64.pkg.tar.zst"), Some(11));
    assert_eq!(parse("linux-wintermute-a-b-c-7-x86.pkg.tar.zst"), Some(7));
    assert_eq!(parse("linux-wintermute-x86_64.pkg.tar.zst"), None);
    assert_eq!(parse("linux-wintermute-.pkg.tar.zst"), None);
    assert_eq!(parse("linux-wintermute-pkg.tar.zst"), None);
    assert_eq!(parse("linux-wintermute-6.8--x86_64.pkg.tar.zst"), None);
    assert_eq!(parse("linux-wintermute-6.8-1a-x86_64.pkg.tar.zst"), None);
    assert_eq!(parse("linux-wintermute-6.8-+3-x86_64.pkg.tar.zst"), Some(3));
    assert_eq!(parse("linux-wintermute-6.8-4294967295-x86_64.pkg.tar.zst"), Some(u32::MAX));
    assert_eq!(parse("linux-wintermute-6.8-4294967296-x86_64.pkg.tar.zst"), None);
    assert_eq!(parse("linux-wintermute-6.8-11-x86_64.pkg.tar"), None);
}

#[test]
fn the_highest_staged_release_counts() {
    let names = vec![
        staging_pkg(9),
        "README".to_owned(),
        staging_pkg(11),
        "linux-wintermute-6.8-x-y.pkg.tar.zst".to_owned(),
        staging_pkg(10),
    ];
    assert_eq!(read_staged_pkgrel(&names), Some(11));
    assert_eq!(read_staged_pkgrel(&vec!["README".to_owned()]), None);
    assert_eq!(read_staged_pkgrel(&Vec::new()), None);
}

#[test]
fn releases_in_desc_files() {
    assert_eq!(parse_pkgrel_from_desc("%NAME%\nx\n\n%PKGREL%\n 7 \n"), Some(7));
    assert_eq!(parse_pkgrel_from_desc("%PKGREL%\r\n7\r\n"), Some(7));
    assert_eq!(parse_pkgrel_from_desc("  %PKGREL%\t\n7"), Some(7));
    assert_eq!(parse_pkgrel_from_desc("%PKGREL%"), None);
    assert_eq!(parse_pkgrel_from_desc("%PKGREL%\n"), None);
    assert_eq!(parse_pkgrel_from_desc("%PKGREL%\n\n7\n"), None);
    assert_eq!(parse_pkgrel_from_desc("%PKGREL%\nx\n%PKGREL%\n7\n"), None);
    assert_eq!(parse_pkgrel_from_desc(""), None);
}

#[test]
fn the_first_readable_entry_counts() {
    let entries = vec![
        PackageEntry { name: "linux-6.8-9".into(), desc: Some("%PKGREL%\n9\n".into()) },
        PackageEntry { name: "linux-wintermute-6.8-1".into(), desc: None },
        PackageEntry { name: "linux-wintermute-6.8-2".into(), desc: Some("nothing".into()) },
        installed_entry(5),
        installed_entry(6),
    ];
    assert_eq!(read_installed_pkgrel(&entries), Some(5));
    assert_eq!(read_installed_pkgrel(&Vec::new()), None);
}

#[test]
fn group_membership() {
    assert!(current_user_in_group(Some("Groups:\t1 2 3"), 2));
    assert!(current_user_in_group(Some("Groups:7"), 7));
    assert!(!current_user_in_group(Some("Groups:\t1 2 3"), 4));
    assert!(!current_user_in_group(Some("Groups:\t12"), 1));
    assert!(!current_user_in_group(Some("Groups:\tx 1x"), 1));
    assert!(!current_user_in_group(Some(" Groups:\t1"), 1));
    assert!(!current_user_in_group(Some("Groups:\nGroups: 1"), 1));
    assert!(!current_user_in_group(Some(""), 0));
    assert!(!current_user_in_group(None, 0));
}

// --- provfs ---

#[test]
fn comm_form_is_live_degraded() {
    let report = classify_provfs_value("provfs", "comm:zsh:pid:64758:uid:1000", Evidence::empty());
    assert!(matches!(
        report.verdict,
        Verdict::LiveDegraded { ref reason } if reason.contains("agentns-fallback")
    ));
    assert_eq!(
        report.evidence.detail.as_deref(),
        Some(
            "xattr is in comm: form — agentns did not assign a session UUID; value: \
             comm:zsh:pid:64758:uid:1000"
        )
    );
}

#[test]
fn uuid_hex_form_is_live() {
    let report =
        classify_provfs_value("provfs", "a1b2c3d4e5f6789012345678aabbccdd", Evidence::empty());
    assert_eq!(report.verdict, Verdict::Live);
}

#[test]
fn uuid_dashed_form_is_live() {
    let report =
        classify_provfs_value("provfs", "a1b2c3d4-e5f6-7890-1234-5678aabbccdd", Evidence::empty());
    assert_eq!(report.verdict, Verdict::Live);
}

#[test]
fn garbage_value_is_unknown() {
    let report = classify_provfs_value("provfs", "totally-garbage-value!!", Evidence::empty());
    assert_eq!(report.verdict, Verdict::Unknown);
    assert_eq!(
        report.evidence.detail.as_deref(),
        Some("unrecognised xattr value format: totally-garbage-value!!")
    );
}

fn provfs(found: StampReading) -> PrimitiveReport {
    ProvfsProbe.probe(&env().with_provfs_xattr_path("/stamped"), &found)
}

#[test]
fn absent_path_is_unknown() {
    let report = provfs(StampReading::PathMissing);
    assert_eq!(report.verdict, Verdict::Unknown);
    assert_eq!(report.evidence.get("error"), Some("path does not exist"));
    assert_eq!(report.evidence.get("provfs_xattr_path"), Some("/stamped"));
}

#[test]
fn provfs_comm_form_is_live_degraded() {
    assert_eq!(provfs(StampReading::PathMissing).verdict, Verdict::Unknown);
    let report = provfs(StampReading::Printed("comm:zsh\n".into()));
    assert!(matches!(report.verdict, Verdict::LiveDegraded { .. }));
    assert_eq!(report.evidence.get("xattr_value"), Some("comm:zsh"));
    assert_eq!(report.evidence.get("xattr_present"), Some("true"));
    assert_eq!(report.evidence.get("xattr_key"), Some("user.prov.session"));
}

#[test]
fn probe_name_is_provfs() {
    assert_eq!(provfs(StampReading::PathMissing).name, "provfs");
}

#[test]
fn provfs_probe_name() {
    assert_eq!(provfs(StampReading::PathMissing).name, "provfs");
    assert_eq!(ProvfsProbe.name(), "provfs");
}

#[test]
fn absent_stamp_is_inert() {
    for found in [StampReading::Unreadable, StampReading::Printed(" \n".into())] {
        let report = provfs(found);
        assert_eq!(report.verdict, Verdict::Inert);
        assert_eq!(report.evidence.get("xattr_present"), Some("false"));
    }
}

#[test]
fn missing_tool_is_unknown() {
    let report = provfs(StampReading::ToolMissing);
    assert_eq!(report.verdict, Verdict::Unknown);
    assert_eq!(report.evidence.get("error"), Some("getfattr not installed"));
}

// --- warden ---

/// Reads a status text, for the texts that the tests use.
fn parsed(raw: &str) -> Result<BpolicyStatus, String> {
    let value: serde_json::Value = serde_json::from_str(raw).map_err(|e| e.to_string())?;
    Ok(BpolicyStatus {
        loaded: value.get("loaded").and_then(|v| v.as_bool()),
        error: value.get("error").and_then(|v| v.as_str()).map(str::to_owned),
    })
}

fn warden(raw: &str) -> PrimitiveReport {
    WardenProbe.probe(raw, &parsed(raw))
}

#[test]
fn loaded_true_is_live() {
    assert_eq!(warden(r#"{"loaded": true}"#).verdict, Verdict::Live);
}

#[test]
fn loaded_false_is_inert() {
    assert_eq!(warden(r#"{"loaded": false}"#).verdict, Verdict::Inert);
}

#[test]
fn warden_loaded_false_is_inert() {
    let report = warden(r#"{"loaded": false}"#);
    assert_eq!(report.verdict, Verdict::Inert, "bpolicy loaded:false should give Inert");
}

#[test]
fn warden_loaded_true_is_live() {
    let report = warden(r#"{"loaded": true}"#);
    assert_eq!(report.verdict, Verdict::Live, "bpolicy loaded:true should give Live");
}

#[test]
fn missing_fixture_is_unknown() {
    let report = WardenProbe.unreadable_fixture("No such file or directory (os error 2)");
    assert_eq!(report.verdict, Verdict::Unknown);
    assert_eq!(
        report.evidence.get("error"),
        Some("fixture read failed: No such file or directory (os error 2)")
    );
}

#[test]
fn invalid_json_is_unknown() {
    let report = warden("not json at all");
    assert_eq!(report.verdict, Verdict::Unknown);
    assert!(report.evidence.detail.expect("a detail").starts_with("JSON parse error: "));
}

#[test]
fn error_field_in_json_is_unknown() {
    let report = warden(r#"{"error":"bpolicy not found at /dev/null"}"#);
    assert_eq!(report.verdict, Verdict::Unknown);
    assert_eq!(report.evidence.detail.as_deref(), Some("bpolicy not found at /dev/null"));
}

#[test]
fn probe_name_is_warden() {
    assert_eq!(warden(r#"{"loaded": false}"#).name, "warden");
}

#[test]
fn evidence_records_raw_json() {
    let report = warden(" {\"loaded\": false}\n");
    assert!(report
        .evidence
        .get("bpolicy_status_raw")
        .map_or(false, |v| v.contains("loaded")));
    assert_eq!(report.evidence.get("bpolicy_status_raw"), Some("{\"loaded\": false}"));
}

#[test]
fn an_error_outweighs_a_loaded_module() {
    let report = warden(r#"{"loaded": true, "error": "stale"}"#);
    assert_eq!(report.verdict, Verdict::Unknown);
}

#[test]
fn a_status_that_does_not_say_is_unknown() {
    let report = warden("{}");
    assert_eq!(report.verdict, Verdict::Unknown);
    assert_eq!(report.evidence.detail.as_deref(), Some("'loaded' field absent in JSON"));
}

#[test]
fn status_texts_for_failures() {
    assert_eq!(
        WardenProbe.missing_status("/x/bpolicy"),
        r#"{"error":"bpolicy not found at /x/bpolicy"}"#
    );
    assert_eq!(WardenProbe.failed_status("denied"), r#"{"error":"exec failed: denied"}"#);
    let report = warden(&WardenProbe.missing_status("/x/bpolicy"));
    assert_eq!(report.verdict, Verdict::Unknown);
}

// --- all probes together ---

fn nothing_there() -> Vec<PrimitiveReport> {
    let missing = WardenProbe.missing_status("/root/.local/bin/bpolicy");
    vec![
        done(memlog(false, None, None)),
        agentns(None, None),
        warden(&missing),
        provfs(StampReading::PathMissing),
    ]
}

#[test]
fn memlog_probe_no_panic_on_missing_surfaces() {
    let report = &nothing_there()[0];
    assert!(matches!(report.verdict, Verdict::Inert | Verdict::Unknown));
    assert!(!report.evidence.pairs.is_empty());
}

#[test]
fn agentns_probe_no_panic_on_missing_file() {
    let report = &nothing_there()[1];
    assert_eq!(report.verdict, Verdict::Unknown, "absent agent_session should give Unknown");
    assert!(!report.evidence.pairs.is_empty());
}

#[test]
fn warden_probe_no_panic_on_missing_binary() {
    let report = &nothing_there()[2];
    assert!(matches!(report.verdict, Verdict::Inert | Verdict::Live | Verdict::Unknown));
}

#[test]
fn provfs_probe_no_panic_on_missing_path() {
    let report = &nothing_there()[3];
    assert_eq!(report.verdict, Verdict::Unknown, "absent provfs path should give Unknown");
    assert!(!report.evidence.pairs.is_empty());
}

#[test]
fn all_probes_no_panic_combined() {
    for report in nothing_there() {
        assert!(!report.name.is_empty(), "probe should have a name");
    }
}

#[test]
fn all_probes_inert_fixture_gives_nonzero() {
    let reports = vec![
        done(memlog(false, None, None)),
        agentns(Some(ZEROS), None),
        warden(r#"{"loaded": false}"#),
        provfs(StampReading::PathMissing),
    ];
    let all_ok = reports.iter().all(|r| r.verdict.is_acceptable());
    assert!(!all_ok, "all-inert fixture should not be acceptable");
    assert_eq!(quicken::render::exit_code(&reports), 1);
}

#[test]
fn probes_do_not_mutate_env() {
    let env = ProbeEnv::for_home(None)
        .with_dev_root("/tmp/empty_dev")
        .with_agent_session("/nonexistent/___ac7_agent___")
        .with_provfs_xattr_path("/nonexistent/___ac7_provfs___");
    let env_before = env.clone();
    let _ = MemlogProbe.begin(&env, false, None, None);
    let _ = AgentnsProbe.begin(&env, None);
    let _ = ProvfsProbe.probe(&env, &StampReading::PathMissing);
    assert_eq!(env.dev_root, env_before.dev_root);
    assert_eq!(env.agent_session_path, env_before.agent_session_path);
    assert_eq!(env.provfs_xattr_path, env_before.provfs_xattr_path);
}
