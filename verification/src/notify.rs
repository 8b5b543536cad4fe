//! Notifications: which health events are worth a line, and what is remembered of them.

use vstd::prelude::*;

use crate::crossdep::{self, AnnotatedReport, EnablementEdge};
use crate::names::NameMap;
use crate::paths;
use crate::receipt::{Receipt, ReceiptView};
use crate::report::{PrimitiveReport, ReportView};
use crate::split;
use crate::streak::{self, StreakInfo};
use crate::text;
use crate::time;
use crate::verdict::VerdictView;
use crate::watch;

verus! {

/// The inert streak that is worth a notification by default.
pub const DEFAULT_STREAK_THRESHOLD: u32 = 3;

// ---------------------------------------------------------------------------
// What is remembered
// ---------------------------------------------------------------------------

/// What has been seen of each primitive.
#[derive(Debug, Clone)]
pub struct EdgeState {
    /// The last verdict of each primitive. A primitive without an entry has not been seen.
    pub last_verdict: NameMap<String>,
    /// The highest inert streak since the primitive went dark. A primitive without an entry has
    /// not been dark since.
    pub last_streak_fired: NameMap<u32>,
}

/// What an `EdgeState` stands for.
#[verifier::ext_equal]
pub struct EdgeStateView {
    pub last_verdict: Map<Seq<char>, Seq<char>>,
    pub last_streak_fired: Map<Seq<char>, u32>,
}

impl View for EdgeState {
    type V = EdgeStateView;

    open spec fn view(&self) -> EdgeStateView {
        EdgeStateView {
            last_verdict: self.last_verdict@,
            last_streak_fired: self.last_streak_fired@,
        }
    }
}

impl EdgeStateView {
    /// Nothing seen.
    pub open spec fn empty() -> EdgeStateView {
        EdgeStateView { last_verdict: Map::empty(), last_streak_fired: Map::empty() }
    }

    /// The last verdict of a primitive.
    pub open spec fn verdict_of(self, name: Seq<char>) -> Option<Seq<char>> {
        if self.last_verdict.dom().contains(name) {
            Some(self.last_verdict[name])
        } else {
            None
        }
    }

    /// The streak remembered of a primitive.
    pub open spec fn streak_of(self, name: Seq<char>) -> u32 {
        if self.last_streak_fired.dom().contains(name) {
            self.last_streak_fired[name]
        } else {
            0
        }
    }
}

impl Default for EdgeState {
    fn default() -> (r: Self)
        ensures
            r@ == EdgeStateView::empty(),
    {
        EdgeState { last_verdict: NameMap::new(), last_streak_fired: NameMap::new() }
    }
}

/// Where the state is kept: where the override says, or below the home directory.
pub open spec fn state_file(chosen: Option<Seq<char>>, home: Option<Seq<char>>) -> Seq<char> {
    match chosen {
        Some(path) => path,
        None => paths::below(
            match home {
                Some(h) => h,
                None => "/tmp"@,
            },
            ".local/state/quicken/notify.json"@,
        ),
    }
}

impl EdgeState {
    /// The stored state, or an empty one where none could be read.
    #[must_use]
    pub fn load(stored: Option<EdgeState>) -> (r: Self)
        ensures
            r@ == match stored {
                Some(s) => s@,
                None => EdgeStateView::empty(),
            },
    {
        match stored {
            Some(s) => s,
            None => EdgeState::default(),
        }
    }

    /// Where the state is kept by default: the path that was chosen, else
    /// `.local/state/quicken/notify.json` below the home directory, or below `/tmp` without one.
    #[must_use]
    pub fn default_path(chosen: Option<&str>, home: Option<&str>) -> (r: String)
        ensures
            r@ == state_file(text::opt_view(chosen), text::opt_view(home)),
    {
        if let Some(path) = chosen {
            return path.to_owned();
        }
        let home: &str = match home {
            Some(h) => h,
            None => "/tmp",
        };
        paths::join(home, ".local/state/quicken/notify.json")
    }
}

// ---------------------------------------------------------------------------
// Verdict words
// ---------------------------------------------------------------------------

/// Whether a verdict word is worse than `live-degraded`.
pub open spec fn dark(verdict: Seq<char>) -> bool {
    verdict != "live"@ && verdict != "live-degraded"@
}

/// Whether a primitive went dark, or is dark in another way than before.
pub open spec fn darkening(from: Option<Seq<char>>, to: Seq<char>) -> bool {
    dark(to) && from != Some(to)
}

/// Whether a primitive was dark and no longer is.
pub open spec fn recovery(from: Option<Seq<char>>, to: Seq<char>) -> bool {
    from is Some && dark(from->0) && !dark(to)
}

/// Whether a verdict word is worse than `live-degraded`.
#[must_use]
pub fn is_dark(verdict_str: &str) -> (r: bool)
    ensures
        r == dark(verdict_str@),
{
    !text::same(verdict_str, "live") && !text::same(verdict_str, "live-degraded")
}

/// Whether the step from `from` to `to` is one into the dark: the primitive was live, or has not
/// been seen, and is dark now, or it was dark already but with another verdict.
#[must_use]
pub fn is_darkening_edge(from: Option<&str>, to: &str) -> (r: bool)
    ensures
        r == darkening(text::opt_view(from), to@),
{
    match from {
        None => is_dark(to),
        Some(prev) => is_dark(to) && !text::same(prev, to),
    }
}

/// Whether the step from `from` to `to` is one out of the dark.
#[must_use]
pub fn is_recovery_edge(from: Option<&str>, to: &str) -> (r: bool)
    ensures
        r == recovery(text::opt_view(from), to@),
{
    match from {
        None => false,
        Some(prev) => is_dark(prev) && !is_dark(to),
    }
}

// ---------------------------------------------------------------------------
// Events
// ---------------------------------------------------------------------------

/// A health event from the bus or from a receipt.
#[derive(Debug, Clone)]
pub struct HealthEvent {
    /// `primitive.` and the name.
    pub subject: String,
    /// The verdict as one word.
    pub verdict: String,
    /// Consecutive dark boots.
    pub inert_streak: u32,
    /// When the event came about, in RFC 3339.
    pub ts: String,
    /// The dark primitives that block this one.
    pub blocked_by: Vec<String>,
}

/// What a `HealthEvent` stands for.
pub struct HealthView {
    pub subject: Seq<char>,
    pub verdict: Seq<char>,
    pub inert_streak: u32,
    pub ts: Seq<char>,
    pub blocked_by: Seq<Seq<char>>,
}

impl View for HealthEvent {
    type V = HealthView;

    open spec fn view(&self) -> HealthView {
        HealthView {
            subject: self.subject@,
            verdict: self.verdict@,
            inert_streak: self.inert_streak,
            ts: self.ts@,
            blocked_by: text::views(self.blocked_by@),
        }
    }
}

impl HealthView {
    /// The name of the primitive: the subject without `primitive.` in front.
    pub open spec fn name(self) -> Seq<char> {
        let prefix = "primitive."@;
        if text::starts_with(self.subject, prefix) {
            self.subject.skip(prefix.len() as int)
        } else {
            self.subject
        }
    }
}

impl HealthEvent {
    /// The name of the primitive: the subject without `primitive.` in front.
    #[must_use]
    pub fn primitive_name(&self) -> (r: &str)
        ensures
            r@ == self@.name(),
    {
        if text::has_prefix(self.subject.as_str(), "primitive.") {
            proof {
                reveal_strlit("primitive.");
                assert(self.subject@.subrange(10, self.subject@.len() as int)
                    =~= self.subject@.skip(10));
            }
            let n: usize = self.subject.as_str().unicode_len();
            self.subject.as_str().substring_char(10, n)
        } else {
            self.subject.as_str()
        }
    }
}

/// The options of a notifier.
#[derive(Debug, Clone)]
pub struct NotifyOptions {
    /// Where the state is kept.
    pub state_path: String,
    /// The inert streak that is worth a notification.
    pub streak_threshold: u32,
    /// Whether recoveries are worth one.
    pub notify_recovery: bool,
    /// Whether transitions are announced by `peon-ping` too.
    pub ping: bool,
    /// The `agorabus` binary.
    pub agorabus_bin: String,
}

impl NotifyOptions {
    /// The default options, with the state kept at `state_path`.
    #[must_use]
    pub fn with_state_path(state_path: &str) -> (r: Self)
        ensures
            r.state_path@ == state_path@,
            r.streak_threshold == DEFAULT_STREAK_THRESHOLD,
            !r.notify_recovery,
            !r.ping,
            r.agorabus_bin@ == "agorabus"@,
    {
        NotifyOptions {
            state_path: state_path.to_owned(),
            streak_threshold: DEFAULT_STREAK_THRESHOLD,
            notify_recovery: false,
            ping: false,
            agorabus_bin: "agorabus".to_owned(),
        }
    }
}

/// A notification.
#[derive(Debug, Clone, PartialEq, Eq)]
pub struct Signal {
    /// The line to print.
    pub line: String,
    /// Whether it is worth a ping.
    pub should_ping: bool,
}

/// What a `Signal` stands for.
pub struct SignalView {
    pub line: Seq<char>,
    pub should_ping: bool,
}

impl View for Signal {
    type V = SignalView;

    open spec fn view(&self) -> SignalView {
        SignalView { line: self.line@, should_ping: self.should_ping }
    }
}

// ---------------------------------------------------------------------------
// Transitions
// ---------------------------------------------------------------------------

/// The line for a primitive that went dark.
pub open spec fn darkening_line(name: Seq<char>, streak: u32) -> Seq<char> {
    let suffix = if streak > 0 {
        " (streak "@ + text::decimal(streak as nat) + ")"@
    } else {
        Seq::empty()
    };
    "quicken: ⚠ "@ + name + " went dark"@ + suffix + " — quicken remedy "@ + name
}

/// The line for a streak that reached the threshold.
pub open spec fn threshold_line(name: Seq<char>, streak: u32, threshold: u32) -> Seq<char> {
    "quicken: ⚠ "@ + name + " inert streak "@ + text::decimal(streak as nat)
        + " crossed threshold "@ + text::decimal(threshold as nat) + " — quicken remedy "@ + name
}

/// The line for a primitive that recovered.
pub open spec fn recovery_line(name: Seq<char>, verdict: Seq<char>) -> Seq<char> {
    "quicken: ✅ "@ + name + " recovered (now "@ + verdict + ")"@
}

/// Whether an event brings a dark primitive's streak up to the threshold.
pub open spec fn crosses(e: HealthView, state: EdgeStateView, threshold: u32) -> bool {
    dark(e.verdict) && e.inert_streak >= threshold && state.streak_of(e.name()) < threshold
}

/// What an event is worth, against what is remembered.
pub open spec fn signal_for(
    e: HealthView,
    state: EdgeStateView,
    threshold: u32,
    notify_recovery: bool,
) -> Option<SignalView> {
    let name = e.name();
    let prev = state.verdict_of(name);
    if darkening(prev, e.verdict) {
        Some(SignalView { line: darkening_line(name, e.inert_streak), should_ping: true })
    } else if crosses(e, state, threshold) {
        Some(
            SignalView { line: threshold_line(name, e.inert_streak, threshold), should_ping: true },
        )
    } else if notify_recovery && recovery(prev, e.verdict) {
        Some(SignalView { line: recovery_line(name, e.verdict), should_ping: false })
    } else {
        None
    }
}

/// What is remembered after an event.
pub open spec fn remembering(e: HealthView, state: EdgeStateView) -> EdgeStateView {
    let name = e.name();
    EdgeStateView {
        last_verdict: state.last_verdict.insert(name, e.verdict),
        last_streak_fired: if !dark(e.verdict) {
            state.last_streak_fired.remove(name)
        } else if e.inert_streak >= state.streak_of(name) {
            state.last_streak_fired.insert(name, e.inert_streak)
        } else {
            state.last_streak_fired
        },
    }
}

/// What is remembered after a list of events.
pub open spec fn remembering_all(events: Seq<HealthView>, state: EdgeStateView) -> EdgeStateView
    decreases events.len(),
{
    if events.len() == 0 {
        state
    } else {
        remembering(events.last(), remembering_all(events.drop_last(), state))
    }
}

/// The notifications for a list of events, each held against what was remembered before it.
pub open spec fn signals_for(
    events: Seq<HealthView>,
    state: EdgeStateView,
    threshold: u32,
    notify_recovery: bool,
) -> Seq<SignalView>
    decreases events.len(),
{
    if events.len() == 0 {
        Seq::empty()
    } else {
        let rest = events.drop_last();
        let before = signals_for(rest, state, threshold, notify_recovery);
        match signal_for(
            events.last(),
            remembering_all(rest, state),
            threshold,
            notify_recovery,
        ) {
            Some(s) => before.push(s),
            None => before,
        }
    }
}

fn remembered_streak(state: &EdgeState, name: &str) -> (r: u32)
    ensures
        r == state@.streak_of(name@),
{
    match state.last_streak_fired.get(name) {
        Some(n) => *n,
        None => 0,
    }
}

/// What an event is worth, against what is remembered: a line where the primitive went dark, one
/// where its streak reached the threshold, and, if asked for, one where it recovered.
#[must_use]
pub fn classify_event(event: &HealthEvent, state: &EdgeState, opts: &NotifyOptions) -> (r: Option<
    Signal,
>)
    ensures
        text::opt_view(r) == signal_for(
            event@,
            state@,
            opts.streak_threshold,
            opts.notify_recovery,
        ),
{
    let name: &str = event.primitive_name();
    let verdict: &str = event.verdict.as_str();
    let prev: Option<&str> = match state.last_verdict.get(name) {
        Some(v) => Some(v.as_str()),
        None => None,
    };
    assert(text::opt_view(prev) == state@.verdict_of(name@));
    if is_darkening_edge(prev, verdict) {
        let mut line: String = "quicken: ⚠ ".to_owned();
        line.append(name);
        line.append(" went dark");
        let ghost before = line@;
        if event.inert_streak > 0 {
            line.append(" (streak ");
            line.append(text::decimal_text(event.inert_streak as u64).as_str());
            line.append(")");
            assert(line@ =~= before + (" (streak "@ + text::decimal(event.inert_streak as nat)
                + ")"@));
        } else {
            assert(line@ =~= before + Seq::empty());
        }
        line.append(" — quicken remedy ");
        line.append(name);
        return Some(Signal { line, should_ping: true });
    }
    let threshold: u32 = opts.streak_threshold;
    if is_dark(verdict) && event.inert_streak >= threshold && remembered_streak(state, name)
        < threshold {
        let mut line: String = "quicken: ⚠ ".to_owned();
        line.append(name);
        line.append(" inert streak ");
        line.append(text::decimal_text(event.inert_streak as u64).as_str());
        line.append(" crossed threshold ");
        line.append(text::decimal_text(threshold as u64).as_str());
        line.append(" — quicken remedy ");
        line.append(name);
        return Some(Signal { line, should_ping: true });
    }
    if opts.notify_recovery && is_recovery_edge(prev, verdict) {
        let mut line: String = "quicken: ✅ ".to_owned();
        line.append(name);
        line.append(" recovered (now ");
        line.append(verdict);
        line.append(")");
        return Some(Signal { line, should_ping: false });
    }
    None
}

/// Remembers an event: its verdict, and its streak while the primitive is dark.
pub fn apply_event_to_state(event: &HealthEvent, state: &mut EdgeState)
    ensures
        final(state)@ == remembering(event@, old(state)@),
{
    let name: &str = event.primitive_name();
    let fired: u32 = remembered_streak(state, name);
    state.last_verdict.insert(name.to_owned(), event.verdict.clone());
    if is_dark(event.verdict.as_str()) {
        if event.inert_streak >= fired {
            state.last_streak_fired.insert(name.to_owned(), event.inert_streak);
        }
    } else {
        state.last_streak_fired.remove(name);
    }
}

/// What is to be done about a signal: a line to print and, where asked for, a ping.
#[derive(Debug, Clone)]
pub struct Emission {
    /// The line to print.
    pub line: String,
    /// Whether to send the line as a ping too.
    pub ping: bool,
}

/// What is to be done about a signal: it is printed, and sent as a ping where the options ask
/// for pings and the signal is worth one.
#[must_use]
pub fn emit_signal(signal: &Signal, opts: &NotifyOptions) -> (r: Emission)
    ensures
        r.line@ == signal.line@,
        r.ping == (opts.ping && signal.should_ping),
{
    Emission { line: signal.line.clone(), ping: opts.ping && signal.should_ping }
}

/// Whether `list` holds what is to be done about each of `signals`, in order.
pub open spec fn are_emissions(list: Seq<Emission>, signals: Seq<SignalView>, ping: bool) -> bool {
    &&& list.len() == signals.len()
    &&& forall|i: int|
        0 <= i < list.len() ==> {
            &&& (#[trigger] list[i]).line@ == signals[i].line
            &&& list[i].ping == (ping && signals[i].should_ping)
        }
}

/// Goes through a list of events: what is to be done about each, in order, while the state
/// remembers them.
pub fn run_once(events: &[HealthEvent], state: &mut EdgeState, opts: &NotifyOptions) -> (r: Vec<
    Emission,
>)
    ensures
        final(state)@ == remembering_all(text::views(events@), old(state)@),
        are_emissions(
            r@,
            signals_for(
                text::views(events@),
                old(state)@,
                opts.streak_threshold,
                opts.notify_recovery,
            ),
            opts.ping,
        ),
{
    let ghost all = text::views(events@);
    let ghost start = state@;
    let mut r: Vec<Emission> = Vec::new();
    let mut i: usize = 0;
    while i < events.len()
        invariant
            all == text::views(events@),
            i <= events.len(),
            state@ == remembering_all(all.take(i as int), start),
            are_emissions(
                r@,
                signals_for(
                    all.take(i as int),
                    start,
                    opts.streak_threshold,
                    opts.notify_recovery,
                ),
                opts.ping,
            ),
        decreases events.len() - i,
    {
        proof {
            assert(all.take(i + 1).drop_last() =~= all.take(i as int));
            assert(all.take(i + 1).last() == events@[i as int]@);
        }
        if let Some(signal) = classify_event(&events[i], state, opts) {
            r.push(emit_signal(&signal, opts));
        }
        apply_event_to_state(&events[i], state);
        i += 1;
    }
    assert(all.take(all.len() as int) =~= all);
    r
}

// ---------------------------------------------------------------------------
// Where events come from
// ---------------------------------------------------------------------------

/// The exit code of going through a list of events once: 2 where what is remembered of them could
/// not be stored, else 0.
#[must_use]
pub fn once_exit_code(stored: bool) -> (r: i32)
    ensures
        r == if stored {
            0i32
        } else {
            2i32
        },
{
    if stored {
        0
    } else {
        2
    }
}

/// The event for one report of the last receipt of a history.
pub open spec fn health_for(
    report: ReportView,
    latest: ReceiptView,
    history: Seq<ReceiptView>,
) -> HealthView {
    HealthView {
        subject: "primitive."@ + report.name,
        verdict: watch::verdict_word(report.verdict),
        inert_streak: streak::inert_streak(history, report.name) as u32,
        ts: time::rfc3339_text(latest.taken_at, false),
        blocked_by: crossdep::blockers(latest.reports, crossdep::known_edges(), report.name),
    }
}

/// The events of the last receipt of a history, oldest receipt first.
pub open spec fn latest_health(history: Seq<ReceiptView>) -> Seq<HealthView> {
    if history.len() == 0 {
        Seq::empty()
    } else {
        history.last().reports.map_values(
            |r: ReportView| health_for(r, history.last(), history),
        )
    }
}

/// One event for each report of the last receipt of a history, oldest receipt first.
#[must_use]
pub fn events_from_attest(history: &[Receipt]) -> (r: Vec<HealthEvent>)
    requires
        history@.len() <= u32::MAX,
    ensures
        text::views(r@) == latest_health(text::views(history@)),
{
    let ghost all = text::views(history@);
    let mut r: Vec<HealthEvent> = Vec::new();
    let n: usize = history.len();
    if n == 0 {
        assert(text::views(r@) =~= latest_health(all));
        return r;
    }
    let latest: &Receipt = &history[n - 1];
    assert(all.last() == latest@);
    let reports: &[PrimitiveReport] = latest.reports.as_slice();
    let streaks: Vec<(String, StreakInfo)> = streak::compute_streaks(reports, history);
    let edges: Vec<EnablementEdge> = crossdep::canonical_edges();
    let annotated: Vec<AnnotatedReport> = crossdep::annotate(reports, edges.as_slice());
    let mut i: usize = 0;
    while i < reports.len()
        invariant
            all == text::views(history@),
            all.len() > 0,
            all.last() == latest@,
            reports@ == latest.reports@,
            streaks@.len() == reports@.len(),
            annotated@.len() == reports@.len(),
            forall|j: int|
                0 <= j < streaks@.len() ==> (#[trigger] streaks@[j]).0@ == reports@[j].name@
                    && streaks@[j].1.inert_streak == streak::inert_streak(all, streaks@[j].0@),
            forall|j: int|
                0 <= j < annotated@.len() ==> text::views((#[trigger] annotated@[j]).blocked_by@)
                    == crossdep::blockers(
                    latest@.reports,
                    crossdep::known_edges(),
                    reports@[j].name@,
                ),
            i <= reports.len(),
            r.len() == i,
            forall|j: int|
                0 <= j < i ==> (#[trigger] r@[j])@ == health_for(reports@[j]@, latest@, all),
        decreases reports.len() - i,
    {
        let report: &PrimitiveReport = &reports[i];
        let mut subject: String = "primitive.".to_owned();
        subject.append(report.name.as_str());
        let inert_streak: u32 = streaks[i].1.inert_streak;
        let event: HealthEvent = HealthEvent {
            subject,
            verdict: watch::verdict_to_str(&report.verdict),
            inert_streak,
            ts: latest.taken_at.to_rfc3339(),
            blocked_by: text::clone_texts(&annotated[i].blocked_by),
        };
        r.push(event);
        i += 1;
    }
    assert(text::views(r@) =~= latest_health(all));
    r
}

/// The payload in a line from the bus: from the first brace on.
#[must_use]
pub fn payload_in(line: &str) -> (r: Option<String>)
    ensures
        text::opt_view(r) == ({
            let at = split::first_index(line@, '{');
            if at < line@.len() {
                Some(line@.skip(at as int))
            } else {
                None
            }
        }),
{
    let v: Vec<char> = text::chars_of(line);
    let mut i: usize = 0;
    assert(line@.skip(0) =~= line@);
    while i < v.len()
        invariant
            v@ == line@,
            i <= v.len(),
            split::first_index(line@, '{') == i + split::first_index(line@.skip(i as int), '{'),
        decreases v.len() - i,
    {
        assert(line@.skip(i as int)[0] == v@[i as int]);
        if v[i] == '{' {
            let payload: String = split::slice(&v, line, i, v.len());
            assert(payload@ =~= line@.skip(i as int));
            return Some(payload);
        }
        assert(line@.skip(i as int).drop_first() =~= line@.skip(i + 1));
        i += 1;
    }
    None
}

// ---------------------------------------------------------------------------
// Laws
// ---------------------------------------------------------------------------

/// The same event again, right after it was remembered, is worth nothing.
pub proof fn an_event_is_signalled_once(
    e: HealthView,
    state: EdgeStateView,
    threshold: u32,
    notify_recovery: bool,
)
    ensures
        signal_for(e, remembering(e, state), threshold, notify_recovery) is None,
{
}

/// A primitive that goes dark, or dark in another way, is always signalled, with a ping.
pub proof fn darkening_is_never_missed(
    e: HealthView,
    state: EdgeStateView,
    threshold: u32,
    notify_recovery: bool,
)
    requires
        darkening(state.verdict_of(e.name()), e.verdict),
    ensures
        signal_for(e, state, threshold, notify_recovery) == Some(
            SignalView { line: darkening_line(e.name(), e.inert_streak), should_ping: true },
        ),
{
}

/// A primitive that stays dark in the same way, below the threshold, is silent.
pub proof fn a_plateau_is_silent(
    e: HealthView,
    state: EdgeStateView,
    threshold: u32,
    notify_recovery: bool,
)
    requires
        dark(e.verdict),
        state.verdict_of(e.name()) == Some(e.verdict),
        e.inert_streak < threshold || state.streak_of(e.name()) >= threshold,
    ensures
        signal_for(e, state, threshold, notify_recovery) is None,
{
}

/// A primitive that is not dark is worth a line only where it recovered and recoveries are asked
/// for, and never a ping.
pub proof fn only_asked_for_recoveries_are_signalled(
    e: HealthView,
    state: EdgeStateView,
    threshold: u32,
    notify_recovery: bool,
)
    requires
        !dark(e.verdict),
    ensures
        signal_for(e, state, threshold, notify_recovery) is Some <==> notify_recovery && recovery(
            state.verdict_of(e.name()),
            e.verdict,
        ),
        signal_for(e, state, threshold, notify_recovery) is Some ==> !signal_for(
            e,
            state,
            threshold,
            notify_recovery,
        )->0.should_ping,
{
}

/// While a primitive stays dark, its streak reaches the threshold at most once: after an event
/// with a streak at or above it, no further event of the primitive crosses it, however many come
/// and whatever comes of other primitives in between.
pub proof fn the_threshold_is_crossed_once(
    first: HealthView,
    events: Seq<HealthView>,
    e: HealthView,
    state: EdgeStateView,
    threshold: u32,
)
    requires
        dark(first.verdict),
        first.inert_streak >= threshold,
        e.name() == first.name(),
        forall|i: int|
            0 <= i < events.len() ==> (#[trigger] events[i]).name() != first.name() || dark(
                events[i].verdict,
            ),
    ensures
        !crosses(e, remembering_all(events, remembering(first, state)), threshold),
{
    remembered_streak_stays(first, events, state, threshold);
}

proof fn remembered_streak_stays(
    first: HealthView,
    events: Seq<HealthView>,
    state: EdgeStateView,
    threshold: u32,
)
    requires
        dark(first.verdict),
        first.inert_streak >= threshold,
        forall|i: int|
            0 <= i < events.len() ==> (#[trigger] events[i]).name() != first.name() || dark(
                events[i].verdict,
            ),
    ensures
        remembering_all(events, remembering(first, state)).streak_of(first.name()) >= threshold,
    decreases events.len(),
{
    if events.len() > 0 {
        let rest = events.drop_last();
        assert forall|i: int| 0 <= i < rest.len() implies (#[trigger] rest[i]).name()
            != first.name() || dark(rest[i].verdict) by {
            assert(rest[i] == events[i]);
        }
        remembered_streak_stays(first, rest, state, threshold);
        assert(events[events.len() - 1] == events.last());
    }
}

/// An event changes nothing about other primitives: neither what is remembered of them nor what
/// their events are worth.
pub proof fn primitives_do_not_interfere(
    e: HealthView,
    other: HealthView,
    state: EdgeStateView,
    threshold: u32,
    notify_recovery: bool,
)
    requires
        e.name() != other.name(),
    ensures
        remembering(e, state).verdict_of(other.name()) == state.verdict_of(other.name()),
        remembering(e, state).streak_of(other.name()) == state.streak_of(other.name()),
        signal_for(other, remembering(e, state), threshold, notify_recovery) == signal_for(
            other,
            state,
            threshold,
            notify_recovery,
        ),
{
}

/// The event of a report is about the primitive of that report.
pub proof fn an_event_names_its_primitive(
    report: ReportView,
    latest: ReceiptView,
    history: Seq<ReceiptView>,
)
    ensures
        health_for(report, latest, history).name() == report.name,
{
    let s = "primitive."@ + report.name;
    assert(s.take("primitive."@.len() as int) =~= "primitive."@);
    assert(s.skip("primitive."@.len() as int) =~= report.name);
}

/// What is published of a report and what is read from a receipt of it say the same.
pub proof fn both_sources_agree(
    report: ReportView,
    latest: ReceiptView,
    history: Seq<ReceiptView>,
    now: time::Civil,
)
    ensures
        ({
            let read = health_for(report, latest, history);
            let published = watch::event_for(
                report,
                latest.reports,
                crossdep::known_edges(),
                history,
                now,
            );
            &&& read.subject == published.subject
            &&& read.verdict == published.verdict
            &&& read.inert_streak == published.inert_streak
            &&& read.blocked_by == published.blocked_by
        }),
{
}

/// A verdict and its word are dark alike.
pub proof fn words_are_as_dark_as_verdicts(v: VerdictView)
    ensures
        dark(watch::verdict_word(v)) <==> !v.acceptable(),
{
    reveal_strlit("live");
    reveal_strlit("live-degraded");
    reveal_strlit("staged-not-installed");
    reveal_strlit("installed-not-activated");
    reveal_strlit("inert");
    reveal_strlit("unknown");
    let w = watch::verdict_word(v);
    if !v.acceptable() {
        assert(w.len() != "live"@.len());
        assert(w[0] != 'l');
        assert("live-degraded"@[0] == 'l');
    }
}

/// Whether an event is about the primitive with this name: its subject is `primitive.` and the
/// name, or the name alone where that does not start so.
pub open spec fn is_about(e: HealthEvent, name: Seq<char>) -> bool {
    ||| e.subject@ == "primitive."@ + name
    ||| e.subject@ == name && !(exists|rest: Seq<char>| name == #[trigger] ("primitive."@ + rest))
}

proof fn the_name_is_behind_the_prefix(e: HealthEvent, name: Seq<char>)
    requires
        is_about(e, name),
    ensures
        e@.name() == name,
{
    let p = "primitive."@;
    text::a_prefix_comes_first(p, name);
    if e.subject@ != p + name && text::starts_with(name, p) {
        assert(name =~= p + name.skip(p.len() as int));
    }
}

/// The name of a primitive is what stands behind `primitive.` in the subject of its event, and the
/// whole subject where that does not start so.
pub proof fn subjects_hold_names(e: &HealthEvent, name: Seq<char>, r: &str)
    requires
        call_ensures(HealthEvent::primitive_name, (e,), r),
    ensures
        e.subject@ == "primitive."@ + name ==> r@ == name,
        !(exists|rest: Seq<char>| e.subject@ == #[trigger] ("primitive."@ + rest)) ==> r@
            == e.subject@,
{
    let p = "primitive."@;
    text::a_prefix_comes_first(p, name);
    if text::starts_with(e.subject@, p) {
        assert(e.subject@ =~= p + e.subject@.skip(p.len() as int));
    }
}

/// Every verdict word but `live` and `live-degraded` is dark; a step into the dark ends in a dark
/// word that is not the one before, and a step out of it leads from a dark word to another.
pub proof fn steps_lead_into_the_dark_or_out_of_it(
    from: Option<&str>,
    to: &str,
    is_so: bool,
    into: bool,
    out: bool,
)
    requires
        call_ensures(is_dark, (to,), is_so),
        call_ensures(is_darkening_edge, (from, to), into),
        call_ensures(is_recovery_edge, (from, to), out),
    ensures
        is_so <==> to@ != "live"@ && to@ != "live-degraded"@,
        from is None ==> into == is_so && !out,
        from matches Some(f) ==> {
            &&& into <==> is_so && f@ != to@
            &&& out <==> !is_so && f@ != "live"@ && f@ != "live-degraded"@
        },
{
}

/// What an event is worth, on every input: a line and a ping where the primitive is dark and was
/// not dark in the same way when last seen; the same where it was, and its streak has reached a
/// threshold that the remembered streak had not; a line without a ping where it is no longer dark
/// and recoveries are asked for; and nothing otherwise.
pub proof fn events_are_worth_their_transitions(
    e: &HealthEvent,
    state: &EdgeState,
    opts: &NotifyOptions,
    name: Seq<char>,
    r: Option<Signal>,
)
    requires
        call_ensures(classify_event, (e, state, opts), r),
        is_about(*e, name),
    ensures
        ({
            let now = e.verdict@;
            let dark_now = now != "live"@ && now != "live-degraded"@;
            let seen = state.last_verdict@.dom().contains(name);
            let last = state.last_verdict@[name];
            let streak = text::decimal(e.inert_streak as nat);
            let threshold = opts.streak_threshold;
            let crossed = e.inert_streak >= threshold && threshold > 0 && (
            state.last_streak_fired@.dom().contains(name) ==> state.last_streak_fired@[name]
                < threshold);
            &&& dark_now && !(seen && last == now) ==> r is Some && r->0.should_ping && r->0.line@
                == "quicken: ⚠ "@ + name + " went dark"@ + (if e.inert_streak > 0 {
                " (streak "@ + streak + ")"@
            } else {
                Seq::empty()
            }) + " — quicken remedy "@ + name
            &&& dark_now && seen && last == now && crossed ==> r is Some && r->0.should_ping
                && r->0.line@ == "quicken: ⚠ "@ + name + " inert streak "@ + streak
                + " crossed threshold "@ + text::decimal(threshold as nat) + " — quicken remedy "@
                + name
            &&& dark_now && seen && last == now && !crossed ==> r is None
            &&& !dark_now ==> (r is Some <==> opts.notify_recovery && seen && last != "live"@ && last
                != "live-degraded"@)
            &&& !dark_now && r is Some ==> !r->0.should_ping && r->0.line@ == "quicken: ✅ "@
                + name + " recovered (now "@ + now + ")"@
        }),
{
    the_name_is_behind_the_prefix(*e, name);
}

/// A streak at or above the threshold, where the remembered streak is below it, is always
/// signalled with the threshold's line and a ping while the primitive stays dark in the same way,
/// for every threshold.
pub proof fn reaching_the_threshold_is_signalled(
    e: &HealthEvent,
    state: &EdgeState,
    opts: &NotifyOptions,
    name: Seq<char>,
    r: Option<Signal>,
)
    requires
        call_ensures(classify_event, (e, state, opts), r),
        is_about(*e, name),
        e.verdict@ != "live"@,
        e.verdict@ != "live-degraded"@,
        state.last_verdict@.dom().contains(name),
        state.last_verdict@[name] == e.verdict@,
        state.last_streak_fired@.dom().contains(name),
        state.last_streak_fired@[name] < opts.streak_threshold <= e.inert_streak,
    ensures
        r is Some,
        r->0.should_ping,
        r->0.line@ == "quicken: ⚠ "@ + name + " inert streak "@ + text::decimal(
            e.inert_streak as nat,
        ) + " crossed threshold "@ + text::decimal(opts.streak_threshold as nat)
            + " — quicken remedy "@ + name,
{
    events_are_worth_their_transitions(e, state, opts, name, r);
}

/// What is remembered of an event: its verdict; while it is dark, the longest streak so far; and
/// no streak once it is not. Of other primitives everything stays as it was.
pub proof fn the_longest_streak_is_remembered(
    e: &HealthEvent,
    state: &mut EdgeState,
    name: Seq<char>,
    other: Seq<char>,
)
    requires
        call_ensures(apply_event_to_state, (e, state), ()),
        is_about(*e, name),
        other != name,
    ensures
        ({
            let was = old(state)@;
            let now = final(state)@;
            let dark_now = e.verdict@ != "live"@ && e.verdict@ != "live-degraded"@;
            &&& now.last_verdict.dom().contains(name) && now.last_verdict[name] == e.verdict@
            &&& now.last_streak_fired.dom().contains(name) <==> dark_now
            &&& dark_now ==> now.last_streak_fired[name] == if was.last_streak_fired.dom().contains(
                name,
            ) && was.last_streak_fired[name] > e.inert_streak {
                was.last_streak_fired[name]
            } else {
                e.inert_streak
            }
            &&& now.last_verdict.dom().contains(other) == was.last_verdict.dom().contains(other)
            &&& was.last_verdict.dom().contains(other) ==> now.last_verdict[other]
                == was.last_verdict[other]
            &&& now.last_streak_fired.dom().contains(other) == was.last_streak_fired.dom().contains(
                other,
            )
            &&& was.last_streak_fired.dom().contains(other) ==> now.last_streak_fired[other]
                == was.last_streak_fired[other]
        }),
{
    the_name_is_behind_the_prefix(*e, name);
}

proof fn lists_are_gone_through_in_parts(
    a: Seq<HealthView>,
    b: Seq<HealthView>,
    state: EdgeStateView,
    threshold: u32,
    notify_recovery: bool,
)
    ensures
        remembering_all(a + b, state) == remembering_all(b, remembering_all(a, state)),
        signals_for(a + b, state, threshold, notify_recovery) == signals_for(
            a,
            state,
            threshold,
            notify_recovery,
        ) + signals_for(b, remembering_all(a, state), threshold, notify_recovery),
    decreases b.len(),
{
    if b.len() == 0 {
        assert(a + b =~= a);
        assert(signals_for(a, state, threshold, notify_recovery) + Seq::empty() =~= signals_for(
            a,
            state,
            threshold,
            notify_recovery,
        ));
    } else {
        lists_are_gone_through_in_parts(a, b.drop_last(), state, threshold, notify_recovery);
        assert((a + b).drop_last() =~= a + b.drop_last());
        assert((a + b).last() == b.last());
        assert(signals_for(a + b, state, threshold, notify_recovery) =~= signals_for(
            a,
            state,
            threshold,
            notify_recovery,
        ) + signals_for(b, remembering_all(a, state), threshold, notify_recovery));
    }
}

/// Whether two lists say the same lines and pings, in order.
pub open spec fn same_emissions(a: Seq<Emission>, b: Seq<Emission>) -> bool {
    &&& a.len() == b.len()
    &&& forall|i: int|
        0 <= i < a.len() ==> (#[trigger] a[i]).line@ == b[i].line@ && a[i].ping == b[i].ping
}

/// Going through two lists of events one after the other comes to the same as going through both
/// at once: the same lines in the same order, and the same state.
pub proof fn events_are_gone_through_one_by_one(
    all: &[HealthEvent],
    first: &[HealthEvent],
    rest: &[HealthEvent],
    opts: &NotifyOptions,
    at_once: &mut EdgeState,
    one: &mut EdgeState,
    two: &mut EdgeState,
    r: Vec<Emission>,
    a: Vec<Emission>,
    b: Vec<Emission>,
)
    requires
        text::views(all@) == text::views(first@) + text::views(rest@),
        call_ensures(run_once, (all, at_once, opts), r),
        call_ensures(run_once, (first, one, opts), a),
        call_ensures(run_once, (rest, two, opts), b),
        old(at_once)@ == old(one)@,
        old(two)@ == final(one)@,
    ensures
        final(at_once)@ == final(two)@,
        same_emissions(r@, a@ + b@),
        first@.len() == 0 ==> a@.len() == 0 && final(one)@ == old(one)@,
{
    lists_are_gone_through_in_parts(
        text::views(first@),
        text::views(rest@),
        old(one)@,
        opts.streak_threshold,
        opts.notify_recovery,
    );
    let both = a@ + b@;
    assert forall|i: int| 0 <= i < r@.len() implies (#[trigger] r@[i]).line@ == both[i].line@
        && r@[i].ping == both[i].ping by {
        if i < a@.len() {
            assert(both[i] == a@[i]);
        } else {
            assert(both[i] == b@[i - a@.len()]);
        }
    }
}

/// Going through one event says what it is worth, with a ping where pings are asked for and it is
/// worth one, and remembers it.
pub proof fn one_event_is_weighed_and_remembered(
    events: &[HealthEvent],
    state: &mut EdgeState,
    same: &mut EdgeState,
    opts: &NotifyOptions,
    r: Vec<Emission>,
    signal: Option<Signal>,
)
    requires
        events@.len() == 1,
        call_ensures(run_once, (events, state, opts), r),
        call_ensures(classify_event, (&events@[0], &*old(state), opts), signal),
        call_ensures(apply_event_to_state, (&events@[0], same), ()),
        old(same)@ == old(state)@,
    ensures
        final(state)@ == final(same)@,
        signal is None ==> r@.len() == 0,
        signal matches Some(s) ==> r@.len() == 1 && r@[0].line@ == s.line@ && r@[0].ping == (
        opts.ping && s.should_ping),
{
    let all = text::views(events@);
    assert(all.last() == events@[0]@);
    assert(all.drop_last() =~= Seq::empty());
    reveal_with_fuel(signals_for, 2);
    reveal_with_fuel(remembering_all, 2);
    if signal is Some {
        assert(r@.len() == 1);
        assert(r@[0].line@ == signal->0.line@);
    }
}

proof fn a_growing_streak(
    events: Seq<HealthView>,
    name: Seq<char>,
    verdict: Seq<char>,
    state: EdgeStateView,
    threshold: u32,
    notify_recovery: bool,
)
    requires
        events.len() > 0,
        dark(verdict),
        !state.last_verdict.dom().contains(name),
        !state.last_streak_fired.dom().contains(name),
        forall|k: int|
            0 <= k < events.len() ==> (#[trigger] events[k]).name() == name && events[k].verdict
                == verdict && events[k].inert_streak == k + 1,
    ensures
        remembering_all(events, state).verdict_of(name) == Some(verdict),
        remembering_all(events, state).streak_of(name) == events.len(),
        ({
            let signals = signals_for(events, state, threshold, notify_recovery);
            &&& signals.len() == if 2 <= threshold <= events.len() {
                2nat
            } else {
                1nat
            }
            &&& signals[0] == (SignalView { line: darkening_line(name, 1), should_ping: true })
            &&& 2 <= threshold <= events.len() ==> signals[1] == (SignalView {
                line: threshold_line(name, threshold, threshold),
                should_ping: true,
            })
        }),
    decreases events.len(),
{
    let rest = events.drop_last();
    let e = events.last();
    assert(events[events.len() - 1] == e);
    if rest.len() == 0 {
        assert(rest =~= Seq::empty());
        reveal_with_fuel(signals_for, 2);
        reveal_with_fuel(remembering_all, 2);
    } else {
        assert forall|k: int| 0 <= k < rest.len() implies (#[trigger] rest[k]).name() == name
            && rest[k].verdict == verdict && rest[k].inert_streak == k + 1 by {
            assert(rest[k] == events[k]);
        }
        a_growing_streak(rest, name, verdict, state, threshold, notify_recovery);
    }
}

/// A primitive that goes dark and whose streak grows by one with every event is told of when it
/// goes dark and, for every threshold of at least two, once more when the streak is as long as
/// the threshold, and not again.
pub proof fn a_growing_streak_is_told_of_at_the_threshold(
    events: &[HealthEvent],
    state: &mut EdgeState,
    opts: &NotifyOptions,
    name: Seq<char>,
    verdict: Seq<char>,
    r: Vec<Emission>,
)
    requires
        events@.len() > 0,
        call_ensures(run_once, (events, state, opts), r),
        verdict != "live"@,
        verdict != "live-degraded"@,
        !old(state).last_verdict@.dom().contains(name),
        !old(state).last_streak_fired@.dom().contains(name),
        forall|k: int|
            0 <= k < events@.len() ==> is_about(#[trigger] events@[k], name)
                && events@[k].verdict@ == verdict && events@[k].inert_streak == k + 1,
    ensures
        r@[0].line@ == "quicken: ⚠ "@ + name + " went dark"@ + (" (streak "@ + text::decimal(1)
            + ")"@) + " — quicken remedy "@ + name,
        r@[0].ping == opts.ping,
        ({
            let threshold = opts.streak_threshold;
            &&& 2 <= threshold <= events@.len() ==> r@.len() == 2 && r@[1].line@
                == "quicken: ⚠ "@ + name + " inert streak "@ + text::decimal(threshold as nat)
                + " crossed threshold "@ + text::decimal(threshold as nat) + " — quicken remedy "@
                + name && r@[1].ping == opts.ping
            &&& !(2 <= threshold <= events@.len()) ==> r@.len() == 1
        }),
{
    let all = text::views(events@);
    assert forall|k: int| 0 <= k < all.len() implies (#[trigger] all[k]).name() == name
        && all[k].verdict == verdict && all[k].inert_streak == k + 1 by {
        assert(is_about(events@[k], name));
        the_name_is_behind_the_prefix(events@[k], name);
    }
    a_growing_streak(
        all,
        name,
        verdict,
        old(state)@,
        opts.streak_threshold,
        opts.notify_recovery,
    );
}

/// The events of a history are those of its last receipt, one for each report in order, each with
/// the verdict's word, the streak over the whole history, the moment of the receipt, and what
/// blocks the primitive among the reports of that receipt.
pub proof fn events_tell_of_the_last_receipt(
    history: &[Receipt],
    r: Vec<HealthEvent>,
    i: int,
    name: &str,
    word: String,
    n: u32,
    stamp: String,
    reports: &[PrimitiveReport],
    edges: &[EnablementEdge],
    annotated: Vec<AnnotatedReport>,
)
    requires
        call_ensures(events_from_attest, (history,), r),
        history@.len() > 0 ==> {
            let last = history@.last();
            &&& 0 <= i < last.reports@.len()
            &&& name@ == last.reports@[i].name@
            &&& call_ensures(watch::verdict_to_str, (&last.reports@[i].verdict,), word)
            &&& call_ensures(time::Timestamp::to_rfc3339, (&last.taken_at,), stamp)
            &&& text::views(reports@) == text::views(last.reports@)
        },
        call_ensures(streak::inert_streak_for, (name, history), n),
        text::views(edges@) == crossdep::known_edges(),
        call_ensures(crossdep::annotate, (reports, edges), annotated),
    ensures
        history@.len() == 0 ==> r@.len() == 0,
        history@.len() > 0 ==> {
            &&& r@.len() == history@.last().reports@.len()
            &&& r@[i].subject@ == "primitive."@ + name@
            &&& r@[i].verdict@ == word@
            &&& r@[i].inert_streak == n
            &&& r@[i].ts@ == stamp@
            &&& text::views(r@[i].blocked_by@) == text::views(annotated@[i].blocked_by@)
        },
{
    let all = text::views(history@);
    let events = text::views(r@);
    assert(events.len() == r@.len());
    if history@.len() > 0 {
        let last = history@.last();
        assert(all.last() == last@);
        assert(last@.reports[i] == last.reports@[i]@);
        assert(events[i] == r@[i]@);
        assert(events[i] == health_for(last@.reports[i], last@, all));
        assert(reports@.len() == text::views(reports@).len());
        assert(text::views(reports@)[i] == reports@[i]@);
        assert(annotated@[i].report@ == reports@[i]@);
    }
}

/// The payload of a line is what stands from its first brace on; there is none exactly where the
/// line has no brace.
pub proof fn the_payload_starts_at_the_first_brace(line: &str, r: Option<String>)
    requires
        call_ensures(payload_in, (line,), r),
    ensures
        r is None <==> forall|i: int| 0 <= i < line@.len() ==> #[trigger] line@[i] != '{',
        r matches Some(p) ==> exists|at: int|
            0 <= at < line@.len() && #[trigger] line@[at] == '{' && p@ == line@.skip(at)
                && forall|i: int| 0 <= i < at ==> #[trigger] line@[i] != '{',
{
    split::the_first_index_is_first(line@, '{');
    let at = split::first_index(line@, '{') as int;
    if at < line@.len() {
        assert(line@[at] == '{');
        assert(!(forall|i: int| 0 <= i < line@.len() ==> #[trigger] line@[i] != '{'));
    }
}

/// Where the state is kept: a chosen path is taken as it is, and without one the file lies below
/// the home directory, or below `/tmp` without that. By default a streak of three boots is worth a
/// notification, a recovery is not, and nothing is pinged.
pub proof fn defaults_are_quiet(
    chosen: Option<&str>,
    home: Option<&str>,
    path: String,
    opts: NotifyOptions,
    state_path: &str,
)
    requires
        call_ensures(EdgeState::default_path, (chosen, home), path),
        call_ensures(NotifyOptions::with_state_path, (state_path,), opts),
    ensures
        chosen matches Some(c) ==> path@ == c@,
        chosen is None && home is Some ==> path@ == paths::below(
            home->0@,
            ".local/state/quicken/notify.json"@,
        ),
        chosen is None && home is None ==> path@ == "/tmp/.local/state/quicken/notify.json"@,
        opts.state_path@ == state_path@,
        opts.streak_threshold == 3,
        !opts.notify_recovery,
        !opts.ping,
        opts.agorabus_bin@ == "agorabus"@,
{
    reveal_strlit("/tmp");
    reveal_strlit("/");
    reveal_strlit(".local/state/quicken/notify.json");
    reveal_strlit("/tmp/.local/state/quicken/notify.json");
    assert("/tmp"@ + "/"@ + ".local/state/quicken/notify.json"@
        =~= "/tmp/.local/state/quicken/notify.json"@);
}

/// What could not be read is taken as nothing seen, and what could is taken as it is.
pub proof fn an_unreadable_state_is_empty(stored: Option<EdgeState>, r: EdgeState)
    requires
        call_ensures(EdgeState::load, (stored,), r),
    ensures
        stored is Some ==> r.last_verdict@ == stored->0.last_verdict@ && r.last_streak_fired@
            == stored->0.last_streak_fired@,
        stored is None ==> r.last_verdict@ == Map::<Seq<char>, Seq<char>>::empty()
            && r.last_streak_fired@ == Map::<Seq<char>, u32>::empty(),
{
}

/// Going through events once succeeds exactly where what is remembered could be stored.
pub proof fn a_state_that_is_not_stored_is_an_error(stored: bool, code: i32)
    requires
        call_ensures(once_exit_code, (stored,), code),
    ensures
        stored ==> code == 0,
        !stored ==> code == 2,
{
}

} // verus!
