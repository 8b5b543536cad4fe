use quicken::{
    annotate, canonical_edges, AnnotatedReport, Effect, EnablementEdge, Evidence, PrimitiveReport,
    Verdict,
};

fn make_report(name: &str, verdict: Verdict) -> PrimitiveReport {
    PrimitiveReport::new(name, verdict, Evidence::empty())
}

fn named<'a>(list: &'a [AnnotatedReport], name: &str) -> &'a AnnotatedReport {
    list.iter().find(|a| a.report.name == name).expect("present in the output")
}

fn has_agentns_provfs(edges: &[EnablementEdge]) -> bool {
    edges.iter().any(|e| {
        e.from == "agentns"
            && e.to == "provfs"
            && matches!(
                &e.effect,
                Effect::UpgradesQuality { from_state, to_state }
                if from_state == "comm-fallback" && to_state == "128bit-session"
            )
    })
}

#[test]
fn canonical_edges_contains_agentns_provfs() {
    let edges = canonical_edges();
    assert!(
        has_agentns_provfs(&edges),
        "canonical edges must contain agentns→provfs UpgradesQuality"
    );
}

#[test]
fn ac2_agentns_provfs_edge_present() {
    let edges = canonical_edges();
    assert!(
        has_agentns_provfs(&edges),
        "canonical edges must contain agentns->provfs UpgradesQuality"
    );
}

#[test]
fn ac1_canonical_edges_is_public_api() {
    let edges = canonical_edges();
    assert!(!edges.is_empty(), "canonical_edges() must not be empty");
    assert_eq!(edges.len(), 1);
    assert_eq!(edges[0].from, "agentns");
}

#[test]
fn ac3_inert_agentns_annotates_provfs() {
    let reports = vec![
        make_report("agentns", Verdict::Inert),
        make_report(
            "provfs",
            Verdict::LiveDegraded { reason: "agentns-fallback session id".into() },
        ),
    ];
    let annotated = annotate(&reports, &canonical_edges());
    assert!(named(&annotated, "provfs").blocked_by.contains(&"agentns".to_owned()));
    assert!(named(&annotated, "agentns").would_upgrade.contains(&"provfs".to_owned()));
}

#[test]
fn ac3_inert_agentns_degraded_provfs_annotated() {
    let reports = vec![
        make_report("agentns", Verdict::Inert),
        make_report(
            "provfs",
            Verdict::LiveDegraded { reason: "comm: fallback session id".into() },
        ),
    ];
    let annotated = annotate(&reports, &canonical_edges());
    assert!(named(&annotated, "provfs").blocked_by.contains(&"agentns".to_owned()));
    assert!(named(&annotated, "agentns").would_upgrade.contains(&"provfs".to_owned()));
}

#[test]
fn ac4_live_agentns_no_blocked_by() {
    let reports = vec![make_report("agentns", Verdict::Live), make_report("provfs", Verdict::Live)];
    let annotated = annotate(&reports, &canonical_edges());
    assert!(!named(&annotated, "provfs").blocked_by.contains(&"agentns".to_owned()));
    assert!(named(&annotated, "agentns").would_upgrade.is_empty());
}

#[test]
fn ac4_live_agentns_no_agentns_in_provfs_blocked_by() {
    let reports = vec![make_report("agentns", Verdict::Live), make_report("provfs", Verdict::Live)];
    let annotated = annotate(&reports, &canonical_edges());
    assert!(!named(&annotated, "provfs").blocked_by.contains(&"agentns".to_owned()));
    assert!(named(&annotated, "agentns").would_upgrade.is_empty());
}

#[test]
fn ac6_cyclic_edges_no_panic() {
    let reports = vec![make_report("a", Verdict::Inert), make_report("b", Verdict::Inert)];
    let edges = vec![
        EnablementEdge::enables("a", "b"),
        EnablementEdge::enables("b", "a"),
        EnablementEdge::enables("a", "b"),
    ];
    let annotated = annotate(&reports, &edges);
    assert_eq!(annotated.len(), 2);
    assert_eq!(annotated[0].blocked_by, vec!["b".to_owned()]);
    assert_eq!(annotated[0].would_upgrade, vec!["b".to_owned()]);
    assert_eq!(annotated[1].blocked_by, vec!["a".to_owned()]);
}

#[test]
fn ac6_cyclic_edge_set_no_panic() {
    let reports = vec![
        make_report("alpha", Verdict::Inert),
        make_report("beta", Verdict::Inert),
        make_report("gamma", Verdict::Live),
    ];
    let edges = vec![
        EnablementEdge::enables("alpha", "beta"),
        EnablementEdge::enables("beta", "alpha"),
        EnablementEdge::enables("alpha", "alpha"),
        EnablementEdge::enables("alpha", "beta"),
    ];
    let annotated = annotate(&reports, &edges);
    let gamma = named(&annotated, "gamma");
    assert!(gamma.blocked_by.is_empty(), "gamma must have no blockers");
    assert!(gamma.would_upgrade.is_empty(), "gamma has no would_upgrade");
    let alpha = named(&annotated, "alpha");
    assert_eq!(alpha.blocked_by, vec!["beta".to_owned(), "alpha".to_owned()]);
    assert_eq!(alpha.would_upgrade, vec!["beta".to_owned(), "alpha".to_owned()]);
}

#[test]
fn annotate_pure_no_mutation() {
    let reports = vec![
        make_report("agentns", Verdict::Inert),
        make_report("provfs", Verdict::Live),
        make_report("memlog", Verdict::InstalledNotActivated),
    ];
    let edges = canonical_edges();
    let a1 = annotate(&reports, &edges);
    let a2 = annotate(&reports, &edges);
    assert_eq!(a1.len(), a2.len());
    for (r1, r2) in a1.iter().zip(a2.iter()) {
        assert_eq!(r1.blocked_by, r2.blocked_by);
        assert_eq!(r1.would_upgrade, r2.would_upgrade);
    }
}

#[test]
fn a_degraded_source_counts_as_dark() {
    let reports = vec![
        make_report("agentns", Verdict::LiveDegraded { reason: "r".into() }),
        make_report("provfs", Verdict::Live),
    ];
    let annotated = annotate(&reports, &canonical_edges());
    assert_eq!(annotated[1].blocked_by, vec!["agentns".to_owned()]);
}

#[test]
fn an_unreported_source_blocks_nothing() {
    let annotated = annotate(&[make_report("provfs", Verdict::Live)], &canonical_edges());
    assert!(annotated[0].blocked_by.is_empty());
}

#[test]
fn the_last_report_of_a_source_counts() {
    let reports = vec![
        make_report("agentns", Verdict::Inert),
        make_report("provfs", Verdict::Live),
        make_report("agentns", Verdict::Live),
    ];
    let annotated = annotate(&reports, &canonical_edges());
    assert!(annotated[1].blocked_by.is_empty());
    assert!(annotated[0].would_upgrade.is_empty());
}

#[test]
fn blocking_mirrors_upgrading() {
    let names = ["a", "b", "c"];
    let reports = vec![
        make_report("a", Verdict::Inert),
        make_report("b", Verdict::Live),
        make_report("c", Verdict::Unknown),
    ];
    let edges = vec![
        EnablementEdge::enables("a", "b"),
        EnablementEdge::enables("b", "c"),
        EnablementEdge::upgrades("c", "a", "low", "high"),
        EnablementEdge::enables("a", "c"),
        EnablementEdge::upgrades("a", "b", "x", "y"),
    ];
    let annotated = annotate(&reports, &edges);
    for (i, x) in names.iter().enumerate() {
        for (j, y) in names.iter().enumerate() {
            assert_eq!(
                annotated[j].blocked_by.contains(&x.to_string()),
                annotated[i].would_upgrade.contains(&y.to_string()),
            );
        }
    }
    assert_eq!(annotated[1].blocked_by, vec!["a".to_owned()]);
    assert_eq!(annotated[2].blocked_by, vec!["a".to_owned()]);
    assert_eq!(annotated[0].blocked_by, vec!["c".to_owned()]);
}
