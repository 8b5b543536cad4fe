//! The enablement graph: which primitive a dark primitive holds back.
//!
//! A primitive can be crippled by another one that is dark. Edges state those dependencies, and
//! [`annotate`] derives from them what each primitive is blocked by and what reviving it would
//! upgrade.

use vstd::prelude::*;

use crate::report::{PrimitiveReport, ReportView};
use crate::text;
use crate::verdict::{Verdict, VerdictView};

verus! {

/// Short identifier of a primitive, such as `agentns`.
pub type PrimitiveId = String;

/// The effect of one primitive, the source, on another, the target.
#[derive(Debug, Clone, PartialEq, Eq)]
pub enum Effect {
    /// The target is blocked until the source is live.
    EnablesLiveness,
    /// The target is degraded until the source is live.
    UpgradesQuality {
        /// The quality while the source is dark.
        from_state: String,
        /// The quality once the source is live.
        to_state: String,
    },
}

/// What an `Effect` stands for.
pub enum EffectView {
    EnablesLiveness,
    UpgradesQuality { from_state: Seq<char>, to_state: Seq<char> },
}

impl View for Effect {
    type V = EffectView;

    open spec fn view(&self) -> EffectView {
        match self {
            Effect::EnablesLiveness => EffectView::EnablesLiveness,
            Effect::UpgradesQuality { from_state, to_state } => EffectView::UpgradesQuality {
                from_state: from_state@,
                to_state: to_state@,
            },
        }
    }
}

/// One directed edge of the graph: while `from` is not `Live`, `to` is affected.
#[derive(Debug, Clone, PartialEq, Eq)]
pub struct EnablementEdge {
    /// The source: the primitive that has to be live.
    pub from: PrimitiveId,
    /// The target: the primitive that is affected while the source is dark.
    pub to: PrimitiveId,
    /// How the target is affected.
    pub effect: Effect,
}

/// What an `EnablementEdge` stands for.
pub struct EdgeView {
    pub from: Seq<char>,
    pub to: Seq<char>,
    pub effect: EffectView,
}

impl View for EnablementEdge {
    type V = EdgeView;

    open spec fn view(&self) -> EdgeView {
        EdgeView { from: self.from@, to: self.to@, effect: self.effect@ }
    }
}

impl EnablementEdge {
    /// An edge whose target is blocked until the source is live.
    #[must_use]
    pub fn enables(from: &str, to: &str) -> (r: Self)
        ensures
            r@ == (EdgeView { from: from@, to: to@, effect: EffectView::EnablesLiveness }),
    {
        EnablementEdge { from: from.to_owned(), to: to.to_owned(), effect: Effect::EnablesLiveness }
    }

    /// An edge whose target is degraded until the source is live.
    #[must_use]
    pub fn upgrades(from: &str, to: &str, from_state: &str, to_state: &str) -> (r: Self)
        ensures
            r@ == (EdgeView {
                from: from@,
                to: to@,
                effect: EffectView::UpgradesQuality { from_state: from_state@, to_state: to_state@ },
            }),
    {
        EnablementEdge {
            from: from.to_owned(),
            to: to.to_owned(),
            effect: Effect::UpgradesQuality {
                from_state: from_state.to_owned(),
                to_state: to_state.to_owned(),
            },
        }
    }
}

/// The edges between the known primitives.
pub open spec fn known_edges() -> Seq<EdgeView> {
    seq![
        EdgeView {
            from: "agentns"@,
            to: "provfs"@,
            effect: EffectView::UpgradesQuality {
                from_state: "comm-fallback"@,
                to_state: "128bit-session"@,
            },
        },
    ]
}

/// The edges between the known primitives.
///
/// While `agentns` is dark, `provfs` records a `comm:` fallback in place of the 128-bit session.
#[must_use]
pub fn canonical_edges() -> (r: Vec<EnablementEdge>)
    ensures
        text::views(r@) == known_edges(),
{
    let mut r: Vec<EnablementEdge> = Vec::new();
    r.push(EnablementEdge::upgrades("agentns", "provfs", "comm-fallback", "128bit-session"));
    assert(text::views(r@) =~= known_edges());
    r
}

/// A report with what it is blocked by and what it would upgrade.
#[derive(Debug, Clone)]
pub struct AnnotatedReport {
    /// The probe report.
    pub report: PrimitiveReport,
    /// The dark primitives that block or degrade this one.
    pub blocked_by: Vec<PrimitiveId>,
    /// The primitives that would benefit if this one were revived.
    pub would_upgrade: Vec<PrimitiveId>,
}

/// The verdict on a primitive: that of the last report with its name.
pub open spec fn verdict_on(reports: Seq<ReportView>, name: Seq<char>) -> Option<VerdictView>
    decreases reports.len(),
{
    if reports.len() == 0 {
        None
    } else if reports.last().name == name {
        Some(reports.last().verdict)
    } else {
        verdict_on(reports.drop_last(), name)
    }
}

/// Whether a primitive is reported, and reported other than `Live`.
pub open spec fn is_dark_source(reports: Seq<ReportView>, name: Seq<char>) -> bool {
    match verdict_on(reports, name) {
        Some(v) => !(v is Live),
        None => false,
    }
}

/// Whether one of the edges leads from `from` to `to`.
pub open spec fn has_edge(edges: Seq<EdgeView>, from: Seq<char>, to: Seq<char>) -> bool {
    exists|i: int| 0 <= i < edges.len() && (#[trigger] edges[i]).from == from && edges[i].to == to
}

/// The dark sources of the edges that lead to `name`, each once, in the order of the edges.
pub open spec fn blockers(
    reports: Seq<ReportView>,
    edges: Seq<EdgeView>,
    name: Seq<char>,
) -> Seq<Seq<char>>
    decreases edges.len(),
{
    if edges.len() == 0 {
        Seq::empty()
    } else {
        let rest = edges.drop_last();
        let before = blockers(reports, rest, name);
        let e = edges.last();
        if e.to == name && is_dark_source(reports, e.from) && !has_edge(rest, e.from, e.to) {
            before.push(e.from)
        } else {
            before
        }
    }
}

/// The targets of the edges that lead from `name`, each once and in the order of the edges, if
/// `name` is dark.
pub open spec fn upgrades(
    reports: Seq<ReportView>,
    edges: Seq<EdgeView>,
    name: Seq<char>,
) -> Seq<Seq<char>>
    decreases edges.len(),
{
    if edges.len() == 0 {
        Seq::empty()
    } else {
        let rest = edges.drop_last();
        let before = upgrades(reports, rest, name);
        let e = edges.last();
        if e.from == name && is_dark_source(reports, e.from) && !has_edge(rest, e.from, e.to) {
            before.push(e.to)
        } else {
            before
        }
    }
}

/// Whether a source counts as dark: anything other than `Live` does.
fn is_dark(verdict: &Verdict) -> (r: bool)
    ensures
        r == !(verdict@ is Live),
{
    !matches!(verdict, Verdict::Live)
}

fn dark_source(reports: &[PrimitiveReport], name: &str) -> (r: bool)
    ensures
        r == is_dark_source(text::views(reports@), name@),
{
    let ghost all = text::views(reports@);
    let mut i: usize = reports.len();
    assert(all.take(all.len() as int) =~= all);
    while i > 0
        invariant
            all == text::views(reports@),
            i <= reports.len(),
            verdict_on(all, name@) == verdict_on(all.take(i as int), name@),
        decreases i,
    {
        let report: &PrimitiveReport = &reports[i - 1];
        assert(all.take(i as int).last() == report@);
        assert(all.take(i as int).drop_last() =~= all.take(i - 1));
        if text::same(report.name.as_str(), name) {
            return is_dark(&report.verdict);
        }
        i -= 1;
    }
    false
}

/// Whether one of the first `n` edges leads from `from` to `to`.
fn edge_among(edges: &[EnablementEdge], n: usize, from: &str, to: &str) -> (r: bool)
    requires
        n <= edges@.len(),
    ensures
        r == has_edge(text::views(edges@).take(n as int), from@, to@),
{
    let ghost all = text::views(edges@).take(n as int);
    let mut i: usize = 0;
    while i < n
        invariant
            n <= edges.len(),
            all == text::views(edges@).take(n as int),
            i <= n,
            forall|j: int| 0 <= j < i ==> (#[trigger] all[j]).from != from@ || all[j].to != to@,
        decreases n - i,
    {
        assert(all[i as int] == edges@[i as int]@);
        if text::same(edges[i].from.as_str(), from) && text::same(edges[i].to.as_str(), to) {
            return true;
        }
        i += 1;
    }
    false
}

/// For each edge, whether its source is dark and no earlier edge joins the same two primitives.
fn active_edges(reports: &[PrimitiveReport], edges: &[EnablementEdge]) -> (r: Vec<bool>)
    ensures
        r@.len() == edges@.len(),
        forall|i: int|
            0 <= i < edges@.len() ==> #[trigger] r@[i] == (is_dark_source(
                text::views(reports@),
                edges@[i].from@,
            ) && !has_edge(text::views(edges@).take(i), edges@[i].from@, edges@[i].to@)),
{
    let mut r: Vec<bool> = Vec::new();
    let mut i: usize = 0;
    while i < edges.len()
        invariant
            i <= edges.len(),
            r.len() == i,
            forall|j: int|
                0 <= j < i ==> #[trigger] r@[j] == (is_dark_source(
                    text::views(reports@),
                    edges@[j].from@,
                ) && !has_edge(text::views(edges@).take(j), edges@[j].from@, edges@[j].to@)),
        decreases edges.len() - i,
    {
        let e: &EnablementEdge = &edges[i];
        let active: bool = dark_source(reports, e.from.as_str()) && !edge_among(
            edges,
            i,
            e.from.as_str(),
            e.to.as_str(),
        );
        r.push(active);
        i += 1;
    }
    r
}

/// Fills in, for each report, what it is blocked by and what it would upgrade.
///
/// Only direct edges count, and two edges between the same primitives count once, so cycles in
/// the graph do no harm. A source that is not reported is not dark.
#[must_use]
pub fn annotate(reports: &[PrimitiveReport], edges: &[EnablementEdge]) -> (r: Vec<AnnotatedReport>)
    ensures
        r@.len() == reports@.len(),
        forall|i: int|
            0 <= i < r@.len() ==> {
                let name = reports@[i].name@;
                &&& (#[trigger] r@[i]).report@ == reports@[i]@
                &&& text::views(r@[i].blocked_by@) == blockers(
                    text::views(reports@),
                    text::views(edges@),
                    name,
                )
                &&& text::views(r@[i].would_upgrade@) == upgrades(
                    text::views(reports@),
                    text::views(edges@),
                    name,
                )
            },
{
    let ghost all_reports = text::views(reports@);
    let ghost all_edges = text::views(edges@);
    let active: Vec<bool> = active_edges(reports, edges);
    let mut r: Vec<AnnotatedReport> = Vec::new();
    let mut i: usize = 0;
    while i < reports.len()
        invariant
            all_reports == text::views(reports@),
            all_edges == text::views(edges@),
            active@.len() == edges@.len(),
            forall|j: int|
                0 <= j < edges@.len() ==> #[trigger] active@[j] == (is_dark_source(
                    all_reports,
                    edges@[j].from@,
                ) && !has_edge(all_edges.take(j), edges@[j].from@, edges@[j].to@)),
            i <= reports.len(),
            r.len() == i,
            forall|j: int|
                0 <= j < i ==> {
                    let name = reports@[j].name@;
                    &&& (#[trigger] r@[j]).report@ == reports@[j]@
                    &&& text::views(r@[j].blocked_by@) == blockers(all_reports, all_edges, name)
                    &&& text::views(r@[j].would_upgrade@) == upgrades(all_reports, all_edges, name)
                },
        decreases reports.len() - i,
    {
        let report: &PrimitiveReport = &reports[i];
        let ghost name = report.name@;
        let mut blocked_by: Vec<PrimitiveId> = Vec::new();
        let mut would_upgrade: Vec<PrimitiveId> = Vec::new();
        let mut k: usize = 0;
        assert(text::views(blocked_by@) =~= blockers(all_reports, all_edges.take(0), name));
        assert(text::views(would_upgrade@) =~= upgrades(all_reports, all_edges.take(0), name));
        while k < edges.len()
            invariant
                all_edges == text::views(edges@),
                active@.len() == edges@.len(),
                forall|j: int|
                    0 <= j < edges@.len() ==> #[trigger] active@[j] == (is_dark_source(
                        all_reports,
                        edges@[j].from@,
                    ) && !has_edge(all_edges.take(j), edges@[j].from@, edges@[j].to@)),
                k <= edges.len(),
                name == report.name@,
                text::views(blocked_by@) == blockers(all_reports, all_edges.take(k as int), name),
                text::views(would_upgrade@) == upgrades(
                    all_reports,
                    all_edges.take(k as int),
                    name,
                ),
            decreases edges.len() - k,
        {
            let e: &EnablementEdge = &edges[k];
            let ghost seen = text::views(blocked_by@);
            let ghost known = text::views(would_upgrade@);
            proof {
                assert(all_edges.take(k + 1).drop_last() =~= all_edges.take(k as int));
                assert(all_edges.take(k + 1).last() == e@);
            }
            if active[k] && text::same(e.to.as_str(), report.name.as_str()) {
                blocked_by.push(e.from.clone());
                assert(text::views(blocked_by@) =~= seen.push(e.from@));
            }
            if active[k] && text::same(e.from.as_str(), report.name.as_str()) {
                would_upgrade.push(e.to.clone());
                assert(text::views(would_upgrade@) =~= known.push(e.to@));
            }
            k += 1;
        }
        assert(all_edges.take(all_edges.len() as int) =~= all_edges);
        r.push(AnnotatedReport { report: report.clone(), blocked_by, would_upgrade });
        i += 1;
    }
    r
}

// ---------------------------------------------------------------------------
// Laws
// ---------------------------------------------------------------------------

proof fn pushing_contains(s: Seq<Seq<char>>, last: Seq<char>, x: Seq<char>)
    ensures
        s.push(last).contains(x) <==> s.contains(x) || last == x,
{
    let t = s.push(last);
    if t.contains(x) {
        let i = choose|i: int| 0 <= i < t.len() && t[i] == x;
        if i < s.len() {
            assert(s[i] == x);
        }
    }
    if s.contains(x) {
        let i = choose|i: int| 0 <= i < s.len() && s[i] == x;
        assert(t[i] == x);
    }
    if last == x {
        assert(t[s.len() as int] == x);
    }
}

proof fn more_edges(edges: Seq<EdgeView>, from: Seq<char>, to: Seq<char>)
    requires
        edges.len() > 0,
    ensures
        has_edge(edges, from, to) <==> has_edge(edges.drop_last(), from, to) || (edges.last().from
            == from && edges.last().to == to),
{
    let rest = edges.drop_last();
    if has_edge(edges, from, to) {
        let i = choose|i: int|
            0 <= i < edges.len() && (#[trigger] edges[i]).from == from && edges[i].to == to;
        if i < rest.len() {
            assert(rest[i] == edges[i]);
        }
    }
    if has_edge(rest, from, to) {
        let i = choose|i: int|
            0 <= i < rest.len() && (#[trigger] rest[i]).from == from && rest[i].to == to;
        assert(edges[i] == rest[i]);
    }
    assert(edges[edges.len() - 1] == edges.last());
}

proof fn blockers_are_dark_neighbours(
    reports: Seq<ReportView>,
    edges: Seq<EdgeView>,
    x: Seq<char>,
    y: Seq<char>,
)
    ensures
        blockers(reports, edges, y).contains(x) <==> is_dark_source(reports, x) && has_edge(
            edges,
            x,
            y,
        ),
        upgrades(reports, edges, x).contains(y) <==> is_dark_source(reports, x) && has_edge(
            edges,
            x,
            y,
        ),
    decreases edges.len(),
{
    if edges.len() > 0 {
        let rest = edges.drop_last();
        let e = edges.last();
        blockers_are_dark_neighbours(reports, rest, x, y);
        more_edges(edges, x, y);
        pushing_contains(blockers(reports, rest, y), e.from, x);
        pushing_contains(upgrades(reports, rest, x), e.to, y);
    }
}

/// One primitive is blocked by another exactly when reviving the other would upgrade it: when the
/// other is dark and an edge leads from it to the first.
pub proof fn blocking_and_upgrading_mirror_each_other(
    reports: Seq<ReportView>,
    edges: Seq<EdgeView>,
    x: Seq<char>,
    y: Seq<char>,
)
    ensures
        blockers(reports, edges, y).contains(x) <==> upgrades(reports, edges, x).contains(y),
        blockers(reports, edges, y).contains(x) <==> is_dark_source(reports, x) && has_edge(
            edges,
            x,
            y,
        ),
{
    blockers_are_dark_neighbours(reports, edges, x, y);
}

/// A primitive that is `Live` blocks nothing, and nothing is left for it to upgrade.
pub proof fn a_live_primitive_holds_nothing_back(
    reports: Seq<ReportView>,
    edges: Seq<EdgeView>,
    name: Seq<char>,
    other: Seq<char>,
)
    requires
        verdict_on(reports, name) == Some(VerdictView::Live),
    ensures
        upgrades(reports, edges, name).len() == 0,
        !blockers(reports, edges, other).contains(name),
    decreases edges.len(),
{
    blockers_are_dark_neighbours(reports, edges, name, other);
    if edges.len() > 0 {
        a_live_primitive_holds_nothing_back(reports, edges.drop_last(), name, other);
    }
}

/// However often an edge is repeated, no primitive is named twice.
pub proof fn nothing_is_named_twice(
    reports: Seq<ReportView>,
    edges: Seq<EdgeView>,
    name: Seq<char>,
)
    ensures
        blockers(reports, edges, name).no_duplicates(),
        upgrades(reports, edges, name).no_duplicates(),
    decreases edges.len(),
{
    if edges.len() > 0 {
        let rest = edges.drop_last();
        let e = edges.last();
        nothing_is_named_twice(reports, rest, name);
        blockers_are_dark_neighbours(reports, rest, e.from, name);
        blockers_are_dark_neighbours(reports, rest, name, e.to);
        assert forall|s: Seq<Seq<char>>, last: Seq<char>|
            s.no_duplicates() && !s.contains(last) implies #[trigger] s.push(
            last,
        ).no_duplicates() by {
            let t = s.push(last);
            assert forall|i: int, j: int|
                0 <= i < t.len() && 0 <= j < t.len() && i != j implies t[i] != t[j] by {
                if i < s.len() && j < s.len() {
                    assert(s[i] != s[j]);
                } else if i < s.len() {
                    assert(s.contains(s[i]));
                } else {
                    assert(s.contains(s[j]));
                }
            }
        }
    }
}

proof fn the_last_report_counts(reports: Seq<ReportView>, name: Seq<char>, k: int)
    requires
        -1 <= k < reports.len(),
        k >= 0 ==> reports[k].name == name,
        forall|j: int| k < j < reports.len() ==> (#[trigger] reports[j]).name != name,
    ensures
        verdict_on(reports, name) == if k >= 0 {
            Some(reports[k].verdict)
        } else {
            None
        },
    decreases reports.len(),
{
    if reports.len() > 0 && k < reports.len() - 1 {
        let rest = reports.drop_last();
        assert(reports[reports.len() - 1].name != name);
        assert forall|j: int| k < j < rest.len() implies (#[trigger] rest[j]).name != name by {
            assert(rest[j] == reports[j]);
        }
        the_last_report_counts(rest, name, k);
    }
}

/// Without edges nothing blocks anything, and one more edge adds its source to what blocks its
/// target, and its target to what its source would upgrade, exactly where the source's last
/// report is there and anything but `Live`, each at the end and unless it is named already.
pub proof fn one_more_edge_adds_its_ends(
    reports: &[PrimitiveReport],
    edges: &[EnablementEdge],
    longer: &[EnablementEdge],
    e: EnablementEdge,
    k: int,
    i: int,
    r: Vec<AnnotatedReport>,
    s: Vec<AnnotatedReport>,
)
    requires
        text::views(longer@) == text::views(edges@).push(e@),
        call_ensures(annotate, (reports, edges), r),
        call_ensures(annotate, (reports, longer), s),
        -1 <= k < reports@.len(),
        k >= 0 ==> reports@[k].name@ == e.from@,
        forall|j: int| k < j < reports@.len() ==> (#[trigger] reports@[j]).name@ != e.from@,
        0 <= i < reports@.len(),
    ensures
        r@.len() == reports@.len(),
        s@.len() == reports@.len(),
        s@[i].report@ == reports@[i]@,
        edges@.len() == 0 ==> r@[i].blocked_by@.len() == 0 && r@[i].would_upgrade@.len() == 0,
        ({
            let name = reports@[i].name@;
            let dark = k >= 0 && !(reports@[k].verdict is Live);
            let blocked = text::views(r@[i].blocked_by@);
            let upgraded = text::views(r@[i].would_upgrade@);
            &&& text::views(s@[i].blocked_by@) == if dark && e.to@ == name && !blocked.contains(
                e.from@,
            ) {
                blocked.push(e.from@)
            } else {
                blocked
            }
            &&& text::views(s@[i].would_upgrade@) == if dark && e.from@ == name
                && !upgraded.contains(e.to@) {
                upgraded.push(e.to@)
            } else {
                upgraded
            }
        }),
{
    let all = text::views(reports@);
    let before = text::views(edges@);
    let after = text::views(longer@);
    let name = reports@[i].name@;
    assert(after.drop_last() =~= before);
    assert(after.last() == e@);
    assert(s@[i].report@ == reports@[i]@);
    assert(r@[i].report@ == reports@[i]@);
    assert(text::views(r@[i].blocked_by@).len() == r@[i].blocked_by@.len());
    assert(text::views(r@[i].would_upgrade@).len() == r@[i].would_upgrade@.len());
    if k >= 0 {
        assert(all[k] == reports@[k]@);
    }
    assert forall|j: int| k < j < all.len() implies (#[trigger] all[j]).name != e.from@ by {
        assert(reports@[j].name@ != e.from@);
    }
    the_last_report_counts(all, e.from@, k);
    blockers_are_dark_neighbours(all, before, e.from@, e.to@);
}

/// The one known edge: with a live `agentns` the stamps of `provfs` would be sessions in place of
/// fallbacks.
pub proof fn agentns_upgrades_provfs(r: Vec<EnablementEdge>)
    requires
        call_ensures(canonical_edges, (), r),
    ensures
        r@.len() == 1,
        r@[0].from@ == "agentns"@,
        r@[0].to@ == "provfs"@,
        r@[0].effect is UpgradesQuality,
        r@[0].effect->from_state@ == "comm-fallback"@,
        r@[0].effect->to_state@ == "128bit-session"@,
{
    assert(text::views(r@).len() == r@.len());
    assert(text::views(r@)[0] == r@[0]@);
}

/// The two sorts of edges.
pub proof fn edges_lead_from_source_to_target(
    from: &str,
    to: &str,
    from_state: &str,
    to_state: &str,
    a: EnablementEdge,
    b: EnablementEdge,
)
    requires
        call_ensures(EnablementEdge::enables, (from, to), a),
        call_ensures(EnablementEdge::upgrades, (from, to, from_state, to_state), b),
    ensures
        a.from@ == from@ && a.to@ == to@ && a.effect is EnablesLiveness,
        b.from@ == from@ && b.to@ == to@ && b.effect is UpgradesQuality,
        b.effect->from_state@ == from_state@,
        b.effect->to_state@ == to_state@,
{
    assert(b@.effect == b.effect@);
}

} // verus!
