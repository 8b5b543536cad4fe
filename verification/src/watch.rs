//! Publishing verdicts on the bus: the events, their payloads, and what comes of publishing.

use vstd::prelude::*;

use crate::crossdep::{self, AnnotatedReport, EnablementEdge};
use crate::delta;
use crate::evidence::{Evidence, EvidencePair, EvidenceView, PairView};
use crate::json;
use crate::names::NameMap;
use crate::receipt::{Receipt, ReceiptView};
use crate::report::{PrimitiveReport, ReportView};
use crate::streak;
use crate::text;
use crate::time::{self, Civil, Timestamp};
use crate::verdict::{Verdict, VerdictView};

verus! {

/// How often publishing an event is tried.
pub const MAX_PUBLISH_RETRIES: u32 = 3;

// ---------------------------------------------------------------------------
// Verdicts and evidence in short
// ---------------------------------------------------------------------------

/// A verdict as one word.
pub open spec fn verdict_word(v: VerdictView) -> Seq<char> {
    match v {
        VerdictView::Live => "live"@,
        VerdictView::LiveDegraded { .. } => "live-degraded"@,
        VerdictView::StagedNotInstalled => "staged-not-installed"@,
        VerdictView::InstalledNotActivated => "installed-not-activated"@,
        VerdictView::Inert => "inert"@,
        VerdictView::MechanismLiveNotWired { .. } => "unknown"@,
        VerdictView::Unknown => "unknown"@,
    }
}

/// A verdict as one word.
pub fn verdict_to_str(v: &Verdict) -> (r: String)
    ensures
        r@ == verdict_word(v@),
{
    match v {
        Verdict::Live => "live".to_owned(),
        Verdict::LiveDegraded { .. } => "live-degraded".to_owned(),
        Verdict::StagedNotInstalled => "staged-not-installed".to_owned(),
        Verdict::InstalledNotActivated => "installed-not-activated".to_owned(),
        Verdict::Inert => "inert".to_owned(),
        Verdict::MechanismLiveNotWired { .. } => "unknown".to_owned(),
        Verdict::Unknown => "unknown".to_owned(),
    }
}

/// An observation as a JSON object.
pub open spec fn pair_json(p: PairView) -> Seq<char> {
    "{\"key\":"@ + json::quoted(p.key) + ",\"value\":"@ + json::quoted(p.value) + "}"@
}

/// Evidence as a JSON object.
pub open spec fn evidence_json(e: EvidenceView) -> Seq<char> {
    "{\"pairs\":["@ + text::joined(e.pairs.map_values(|p: PairView| pair_json(p)), ","@)
        + "],\"detail\":"@ + match e.detail {
        Some(d) => json::quoted(d),
        None => "null"@,
    } + "}"@
}

/// A hash of bytes: each step multiplies by 33 and adds a byte, modulo two to the 64.
pub open spec fn hash(bytes: Seq<u8>) -> int
    decreases bytes.len(),
{
    if bytes.len() == 0 {
        5381
    } else {
        (hash(bytes.drop_last()) * 33 + bytes.last()) % 0x1_0000_0000_0000_0000
    }
}

/// The first eight of the sixteen hexadecimal digits of the evidence's hash.
pub open spec fn digest(e: EvidenceView) -> Seq<char> {
    text::zero_padded(
        text::digits(hash(vstd::utf8::encode_utf8(evidence_json(e))) as nat, 16),
        16,
    ).take(8)
}

fn pair_text(p: &EvidencePair) -> (r: String)
    ensures
        r@ == pair_json(p@),
{
    let mut r: String = "{\"key\":".to_owned();
    r.append(json::string(p.key.as_str()).as_str());
    r.append(",\"value\":");
    r.append(json::string(p.value.as_str()).as_str());
    r.append("}");
    r
}

/// Evidence as a JSON object.
pub fn evidence_text(e: &Evidence) -> (r: String)
    ensures
        r@ == evidence_json(e@),
{
    let ghost all = e@.pairs.map_values(|p: PairView| pair_json(p));
    let mut parts: Vec<String> = Vec::new();
    let mut i: usize = 0;
    while i < e.pairs.len()
        invariant
            all == e@.pairs.map_values(|p: PairView| pair_json(p)),
            i <= e.pairs.len(),
            text::views(parts@) == all.take(i as int),
        decreases e.pairs.len() - i,
    {
        let ghost before = text::views(parts@);
        parts.push(pair_text(&e.pairs[i]));
        i += 1;
        assert(text::views(parts@) =~= before.push(pair_json(e.pairs@[i - 1]@)));
        assert(text::views(parts@) =~= all.take(i as int));
    }
    assert(all.take(all.len() as int) =~= all);
    let mut r: String = "{\"pairs\":[".to_owned();
    r.append(text::join(&parts, ",").as_str());
    r.append("],\"detail\":");
    match &e.detail {
        Some(d) => r.append(json::string(d.as_str()).as_str()),
        None => r.append("null"),
    }
    r.append("}");
    r
}

fn hash_of(bytes: &[u8]) -> (r: u64)
    ensures
        r == hash(bytes@),
{
    let mut h: u64 = 5381;
    let mut i: usize = 0;
    while i < bytes.len()
        invariant
            i <= bytes.len(),
            h == hash(bytes@.take(i as int)),
        decreases bytes.len() - i,
    {
        proof {
            assert(bytes@.take(i + 1).drop_last() =~= bytes@.take(i as int));
            assert(bytes@.take(i + 1).last() == bytes@[i as int]);
        }
        h = h.wrapping_mul(33).wrapping_add(bytes[i] as u64);
        i += 1;
    }
    assert(bytes@.take(bytes@.len() as int) =~= bytes@);
    h
}

/// A short digest of evidence: eight hexadecimal digits.
pub fn evidence_digest(evidence: &Evidence) -> (r: String)
    ensures
        r@ == digest(evidence@),
{
    let raw: String = evidence_text(evidence);
    let h: u64 = hash_of(raw.as_str().as_bytes());
    let full: String = text::zero_fill(text::number_text(h, 16).as_str(), 16);
    assert(full@.subrange(0, 8) =~= full@.take(8));
    full.as_str().substring_char(0, 8).to_owned()
}

// ---------------------------------------------------------------------------
// Events
// ---------------------------------------------------------------------------

/// The liveness of one primitive, for the bus.
#[derive(Debug, Clone)]
pub struct PrimitiveEvent {
    /// `primitive.` and the name.
    pub subject: String,
    /// The verdict as one word.
    pub verdict: String,
    /// A digest of the evidence, eight hexadecimal digits.
    pub evidence_digest: String,
    /// Consecutive dark boots.
    pub inert_streak: u32,
    /// The dark primitives that block this one.
    pub blocked_by: Vec<String>,
    /// When the primitive was probed.
    pub ts: Timestamp,
}

/// What a `PrimitiveEvent` stands for.
pub struct EventView {
    pub subject: Seq<char>,
    pub verdict: Seq<char>,
    pub evidence_digest: Seq<char>,
    pub inert_streak: u32,
    pub blocked_by: Seq<Seq<char>>,
    pub ts: Civil,
}

impl View for PrimitiveEvent {
    type V = EventView;

    open spec fn view(&self) -> EventView {
        EventView {
            subject: self.subject@,
            verdict: self.verdict@,
            evidence_digest: self.evidence_digest@,
            inert_streak: self.inert_streak,
            blocked_by: text::views(self.blocked_by@),
            ts: self.ts@,
        }
    }
}

/// Whether a receipt of the history reports on a primitive.
pub open spec fn named_in(history: Seq<ReceiptView>, name: Seq<char>) -> bool {
    exists|i: int, j: int|
        0 <= i < history.len() && 0 <= j < history[i].reports.len()
            && (#[trigger] history[i].reports[j]).name == name
}

/// The event for one report among those of a run.
pub open spec fn event_for(
    report: ReportView,
    reports: Seq<ReportView>,
    edges: Seq<crossdep::EdgeView>,
    history: Seq<ReceiptView>,
    now: Civil,
) -> EventView {
    EventView {
        subject: "primitive."@ + report.name,
        verdict: verdict_word(report.verdict),
        evidence_digest: digest(report.evidence),
        inert_streak: streak::inert_streak(history, report.name) as u32,
        blocked_by: crossdep::blockers(reports, edges, report.name),
        ts: now,
    }
}

/// An event as a JSON object.
pub open spec fn event_json(e: EventView) -> Seq<char> {
    "{\"subject\":"@ + json::quoted(e.subject) + ",\"verdict\":"@ + json::quoted(e.verdict)
        + ",\"evidence_digest\":"@ + json::quoted(e.evidence_digest) + ",\"inert_streak\":"@
        + text::decimal(e.inert_streak as nat) + ",\"blocked_by\":"@ + json::string_array(
        e.blocked_by,
    ) + ",\"ts\":"@ + json::quoted(time::rfc3339_text(e.ts, true)) + "}"@
}

/// The inert streak of every primitive that the history reports on.
#[must_use]
pub fn read_inert_streaks(history: &[Receipt]) -> (r: NameMap<u32>)
    requires
        history@.len() <= u32::MAX,
    ensures
        forall|name: Seq<char>|
            #[trigger] r@.dom().contains(name) <==> named_in(text::views(history@), name),
        forall|name: Seq<char>|
            r@.dom().contains(name) ==> #[trigger] r@[name] == streak::inert_streak(
                text::views(history@),
                name,
            ),
{
    let ghost all = text::views(history@);
    let mut r: NameMap<u32> = NameMap::new();
    let mut i: usize = 0;
    while i < history.len()
        invariant
            history@.len() <= u32::MAX,
            all == text::views(history@),
            i <= history.len(),
            forall|name: Seq<char>|
                #[trigger] r@.dom().contains(name) <==> named_in(all.take(i as int), name),
            forall|name: Seq<char>|
                r@.dom().contains(name) ==> #[trigger] r@[name] == streak::inert_streak(all, name),
        decreases history.len() - i,
    {
        let receipt: &Receipt = &history[i];
        let mut j: usize = 0;
        while j < receipt.reports.len()
            invariant
                history@.len() <= u32::MAX,
                all == text::views(history@),
                i < history.len(),
                receipt@ == all[i as int],
                j <= receipt.reports.len(),
                forall|name: Seq<char>|
                    #[trigger] r@.dom().contains(name) <==> named_in(all.take(i as int), name) || (
                    exists|k: int|
                        0 <= k < j && (#[trigger] receipt@.reports[k]).name == name),
                forall|name: Seq<char>|
                    r@.dom().contains(name) ==> #[trigger] r@[name] == streak::inert_streak(
                        all,
                        name,
                    ),
            decreases receipt.reports.len() - j,
        {
            let name: &String = &receipt.reports[j].name;
            assert(receipt@.reports[j as int].name == name@);
            let n: u32 = streak::inert_streak_for(name.as_str(), history);
            r.insert(name.clone(), n);
            j += 1;
        }
        proof {
            assert forall|name: Seq<char>| #[trigger]
                r@.dom().contains(name) <==> named_in(all.take(i + 1), name) by {
                let before = all.take(i as int);
                let after = all.take(i + 1);
                if named_in(before, name) {
                    let (x, y) = choose|x: int, y: int|
                        0 <= x < before.len() && 0 <= y < before[x].reports.len()
                            && (#[trigger] before[x].reports[y]).name == name;
                    assert(after[x].reports[y].name == name);
                }
                if exists|k: int|
                    0 <= k < receipt@.reports.len() && (#[trigger] receipt@.reports[k]).name
                        == name {
                    let k = choose|k: int|
                        0 <= k < receipt@.reports.len() && (#[trigger] receipt@.reports[k]).name
                            == name;
                    assert(after[i as int].reports[k].name == name);
                }
                if named_in(after, name) {
                    let (x, y) = choose|x: int, y: int|
                        0 <= x < after.len() && 0 <= y < after[x].reports.len()
                            && (#[trigger] after[x].reports[y]).name == name;
                    if x < i {
                        assert(before[x].reports[y].name == name);
                    } else {
                        assert(receipt@.reports[y].name == name);
                    }
                }
            }
        }
        i += 1;
    }
    assert(all.take(all.len() as int) =~= all);
    r
}

proof fn unnamed_has_no_streak(history: Seq<ReceiptView>, name: Seq<char>)
    requires
        !named_in(history, name),
    ensures
        streak::inert_streak(history, name) == 0,
{
    if history.len() > 0 {
        let last = history.last();
        assert forall|j: int| 0 <= j < last.reports.len() implies (#[trigger] last.reports[j]).name
            != name by {
            assert(history[history.len() - 1].reports[j].name != name);
        }
        delta::unnamed_is_not_found(last.reports, name);
        streak::an_unseen_primitive_has_no_streak(history, name);
    }
}

/// One event for each report of a run, in order.
#[must_use]
pub fn watch_events(reports: &[PrimitiveReport], history: &[Receipt], now: Timestamp) -> (r: Vec<
    PrimitiveEvent,
>)
    requires
        history@.len() <= u32::MAX,
    ensures
        r@.len() == reports@.len(),
        forall|i: int|
            0 <= i < r@.len() ==> (#[trigger] r@[i])@ == event_for(
                reports@[i]@,
                text::views(reports@),
                crossdep::known_edges(),
                text::views(history@),
                now@,
            ),
{
    let edges: Vec<EnablementEdge> = crossdep::canonical_edges();
    let annotated: Vec<AnnotatedReport> = crossdep::annotate(reports, edges.as_slice());
    let streaks: NameMap<u32> = read_inert_streaks(history);
    let mut r: Vec<PrimitiveEvent> = Vec::new();
    let mut i: usize = 0;
    while i < annotated.len()
        invariant
            annotated@.len() == reports@.len(),
            forall|j: int|
                0 <= j < annotated@.len() ==> (#[trigger] annotated@[j]).report@ == reports@[j]@
                    && text::views(annotated@[j].blocked_by@) == crossdep::blockers(
                    text::views(reports@),
                    crossdep::known_edges(),
                    reports@[j].name@,
                ),
            forall|name: Seq<char>|
                #[trigger] streaks@.dom().contains(name) <==> named_in(
                    text::views(history@),
                    name,
                ),
            forall|name: Seq<char>|
                streaks@.dom().contains(name) ==> #[trigger] streaks@[name]
                    == streak::inert_streak(text::views(history@), name),
            i <= annotated.len(),
            r.len() == i,
            forall|j: int|
                0 <= j < i ==> (#[trigger] r@[j])@ == event_for(
                    reports@[j]@,
                    text::views(reports@),
                    crossdep::known_edges(),
                    text::views(history@),
                    now@,
                ),
        decreases annotated.len() - i,
    {
        let a: &AnnotatedReport = &annotated[i];
        let inert_streak: u32 = match streaks.get(a.report.name.as_str()) {
            Some(n) => *n,
            None => 0,
        };
        proof {
            assert(a.report@ == reports@[i as int]@);
            if !named_in(text::views(history@), a.report.name@) {
                unnamed_has_no_streak(text::views(history@), a.report.name@);
            }
        }
        let mut subject: String = "primitive.".to_owned();
        subject.append(a.report.name.as_str());
        let event: PrimitiveEvent = PrimitiveEvent {
            subject,
            verdict: verdict_to_str(&a.report.verdict),
            evidence_digest: evidence_digest(&a.report.evidence),
            inert_streak,
            blocked_by: text::clone_texts(&a.blocked_by),
            ts: now,
        };
        r.push(event);
        i += 1;
    }
    r
}

impl PrimitiveEvent {
    /// The topic that the event is published on.
    #[must_use]
    pub fn topic(&self) -> (r: String)
        ensures
            r@ == "wm.health."@ + self@.subject,
    {
        let mut r: String = "wm.health.".to_owned();
        r.append(self.subject.as_str());
        r
    }

    /// The event as a JSON object.
    #[must_use]
    pub fn payload(&self) -> (r: String)
        ensures
            r@ == event_json(self@),
    {
        let mut r: String = "{\"subject\":".to_owned();
        r.append(json::string(self.subject.as_str()).as_str());
        r.append(",\"verdict\":");
        r.append(json::string(self.verdict.as_str()).as_str());
        r.append(",\"evidence_digest\":");
        r.append(json::string(self.evidence_digest.as_str()).as_str());
        r.append(",\"inert_streak\":");
        r.append(text::decimal_text(self.inert_streak as u64).as_str());
        r.append(",\"blocked_by\":");
        r.append(json::strings(&self.blocked_by).as_str());
        r.append(",\"ts\":");
        r.append(json::string(self.ts.to_rfc3339_zulu().as_str()).as_str());
        r.append("}");
        r
    }
}

/// The events of a run as a JSON array.
#[must_use]
pub fn payload_array(events: &Vec<PrimitiveEvent>) -> (r: String)
    ensures
        r@ == "["@ + text::joined(
            text::views(events@).map_values(|e: EventView| event_json(e)),
            ","@,
        ) + "]"@,
{
    let ghost all = text::views(events@).map_values(|e: EventView| event_json(e));
    let mut parts: Vec<String> = Vec::new();
    let mut i: usize = 0;
    while i < events.len()
        invariant
            all == text::views(events@).map_values(|e: EventView| event_json(e)),
            i <= events.len(),
            text::views(parts@) == all.take(i as int),
        decreases events.len() - i,
    {
        let ghost before = text::views(parts@);
        parts.push(events[i].payload());
        i += 1;
        assert(text::views(parts@) =~= before.push(event_json(events@[i - 1]@)));
        assert(text::views(parts@) =~= all.take(i as int));
    }
    assert(all.take(all.len() as int) =~= all);
    let mut r: String = "[".to_owned();
    r.append(text::join(&parts, ",").as_str());
    r.append("]");
    r
}

// ---------------------------------------------------------------------------
// Publishing
// ---------------------------------------------------------------------------

/// What became of one try to publish an event.
#[derive(Debug, Clone)]
pub enum Attempt {
    /// The bus took the event.
    Succeeded,
    /// The publishing command failed, with an exit code if it had one.
    Exited(Option<i32>),
    /// The publishing command could not be run.
    NotRun(String),
}

/// What to do after a try.
#[derive(Debug, Clone)]
pub enum PublishStep {
    /// The event is published.
    Published,
    /// Try again.
    Retry,
    /// Give up, for this reason.
    GiveUp(String),
}

/// Why a try failed.
pub open spec fn failure_reason(a: Attempt) -> Seq<char> {
    match a {
        Attempt::Succeeded => Seq::empty(),
        Attempt::Exited(code) => "agorabus publish exited "@ + text::signed_decimal(
            match code {
                Some(c) => c as int,
                None => -1,
            },
        ),
        Attempt::NotRun(e) => "could not run agorabus: "@ + e@,
    }
}

/// What to do after the try with number `attempt`, counted from zero.
pub fn after_attempt(attempt: u32, outcome: &Attempt) -> (r: PublishStep)
    requires
        attempt < MAX_PUBLISH_RETRIES,
    ensures
        r is Published <==> *outcome is Succeeded,
        r is Retry <==> !(*outcome is Succeeded) && attempt + 1 < MAX_PUBLISH_RETRIES,
        r matches PublishStep::GiveUp(reason) ==> reason@ == failure_reason(*outcome),
{
    let last: bool = attempt + 1 == MAX_PUBLISH_RETRIES;
    match outcome {
        Attempt::Succeeded => PublishStep::Published,
        Attempt::Exited(code) => {
            if !last {
                return PublishStep::Retry;
            }
            let code: i32 = match code {
                Some(c) => *c,
                None => -1,
            };
            let mut reason: String = "agorabus publish exited ".to_owned();
            reason.append(text::signed_text(code).as_str());
            PublishStep::GiveUp(reason)
        },
        Attempt::NotRun(e) => {
            if !last {
                return PublishStep::Retry;
            }
            let mut reason: String = "could not run agorabus: ".to_owned();
            reason.append(e.as_str());
            PublishStep::GiveUp(reason)
        },
    }
}

/// The notice that an event could not be published.
#[must_use]
pub fn failure_notice(topic: &str, reason: &str) -> (r: String)
    ensures
        r@ == "quicken watch: fail-open: could not publish "@ + topic@ + ": "@ + reason@,
{
    let mut r: String = "quicken watch: fail-open: could not publish ".to_owned();
    r.append(topic);
    r.append(": ");
    r.append(reason);
    r
}

/// Options of a watch run.
#[derive(Debug, Clone, Copy)]
pub struct WatchOptions {
    /// Whether a failure to publish is fatal.
    pub require_bus: bool,
    /// Whether the events are printed too, as JSON.
    pub format_json: bool,
}

/// Outcome of a watch run.
#[derive(Debug, Clone, Copy, PartialEq, Eq, Structural)]
pub enum WatchOutcome {
    /// All events are published, or it does not matter that some are not.
    Clean,
    /// The bus is required and could not be reached.
    BusError,
    /// Something else went wrong.
    InternalError,
}

impl WatchOutcome {
    /// The exit code of the process.
    #[must_use]
    pub fn exit_code(self) -> (r: i32)
        ensures
            r == match self {
                WatchOutcome::Clean => 0i32,
                WatchOutcome::BusError => 1i32,
                WatchOutcome::InternalError => 2i32,
            },
    {
        match self {
            WatchOutcome::Clean => 0,
            WatchOutcome::BusError => 1,
            WatchOutcome::InternalError => 2,
        }
    }

    /// The outcome as one word.
    #[must_use]
    pub fn label(self) -> (r: &'static str)
        ensures
            r@ == match self {
                WatchOutcome::Clean => "ok"@,
                WatchOutcome::BusError => "bus-error"@,
                WatchOutcome::InternalError => "internal-error"@,
            },
    {
        match self {
            WatchOutcome::Clean => "ok",
            WatchOutcome::BusError => "bus-error",
            WatchOutcome::InternalError => "internal-error",
        }
    }
}

/// The outcome of a run, from whether each event was published.
#[must_use]
pub fn run_outcome(opts: &WatchOptions, published: &Vec<bool>) -> (r: WatchOutcome)
    ensures
        r == if opts.require_bus && published@.contains(false) {
            WatchOutcome::BusError
        } else {
            WatchOutcome::Clean
        },
{
    let mut failed: bool = false;
    let mut i: usize = 0;
    while i < published.len()
        invariant
            i <= published.len(),
            failed <==> published@.take(i as int).contains(false),
        decreases published.len() - i,
    {
        proof {
            let before = published@.take(i as int);
            let after = published@.take(i + 1);
            if before.contains(false) {
                let k = choose|k: int| 0 <= k < before.len() && before[k] == false;
                assert(after[k] == false);
            }
            if after.contains(false) {
                let k = choose|k: int| 0 <= k < after.len() && after[k] == false;
                if k < i {
                    assert(before[k] == false);
                }
            }
            assert(after[i as int] == published@[i as int]);
        }
        if !published[i] {
            failed = true;
        }
        i += 1;
    }
    assert(published@.take(published@.len() as int) =~= published@);
    if failed && opts.require_bus {
        WatchOutcome::BusError
    } else {
        WatchOutcome::Clean
    }
}

// ---------------------------------------------------------------------------
// Laws
// ---------------------------------------------------------------------------

proof fn digits_are_hexadecimal(n: nat)
    ensures
        forall|i: int|
            0 <= i < text::digits(n, 16).len() ==> text::is_hex_digit(
                #[trigger] text::digits(n, 16)[i],
            ),
    decreases n,
{
    let s = text::digits(n, 16);
    let last = text::digit_char((n % 16) as int);
    assert(text::is_hex_digit(last));
    if n >= 16 {
        digits_are_hexadecimal(n / 16);
        let front = text::digits(n / 16, 16);
        assert(s == front.push(last));
        assert forall|i: int| 0 <= i < s.len() implies text::is_hex_digit(#[trigger] s[i]) by {
            if i < front.len() {
                assert(s[i] == front[i]);
            }
        }
    } else {
        assert(s == seq![last]);
    }
}

/// A digest is eight hexadecimal digits, whatever the evidence.
pub proof fn a_digest_is_eight_hexadecimal_digits(e: EvidenceView)
    ensures
        digest(e).len() == 8,
        forall|i: int| 0 <= i < 8 ==> text::is_hex_digit(#[trigger] digest(e)[i]),
{
    let n = hash(vstd::utf8::encode_utf8(evidence_json(e))) as nat;
    digits_are_hexadecimal(n);
    let d = text::digits(n, 16);
    let full = text::zero_padded(d, 16);
    assert forall|i: int| 0 <= i < 8 implies text::is_hex_digit(#[trigger] digest(e)[i]) by {
        assert(digest(e)[i] == full[i]);
        if i >= full.len() - d.len() {
            assert(full[i] == d[i - (full.len() - d.len())]);
        }
    }
}

/// Every verdict is published as one of six words.
pub proof fn verdict_words_are_a_closed_set(v: VerdictView)
    ensures
        seq![
            "live"@,
            "live-degraded"@,
            "staged-not-installed"@,
            "installed-not-activated"@,
            "inert"@,
            "unknown"@,
        ].contains(verdict_word(v)),
{
    let set = seq![
        "live"@,
        "live-degraded"@,
        "staged-not-installed"@,
        "installed-not-activated"@,
        "inert"@,
        "unknown"@,
    ];
    assert(set[0] == "live"@ && set[1] == "live-degraded"@ && set[2] == "staged-not-installed"@
        && set[3] == "installed-not-activated"@ && set[4] == "inert"@ && set[5] == "unknown"@);
}

/// The word of each verdict, whatever it carries; a mechanism that is not wired is published as
/// unknown.
pub proof fn verdicts_have_words(v: &Verdict, r: String)
    requires
        call_ensures(verdict_to_str, (v,), r),
    ensures
        r@ == match *v {
            Verdict::Live => "live"@,
            Verdict::LiveDegraded { .. } => "live-degraded"@,
            Verdict::StagedNotInstalled => "staged-not-installed"@,
            Verdict::InstalledNotActivated => "installed-not-activated"@,
            Verdict::Inert => "inert"@,
            Verdict::MechanismLiveNotWired { .. } => "unknown"@,
            Verdict::Unknown => "unknown"@,
        },
{
}

/// The hash of no bytes, and what one more byte makes of a hash.
pub proof fn hashes_grow_byte_by_byte(bytes: Seq<u8>, b: u8)
    ensures
        hash(Seq::empty()) == 5381,
        hash(bytes.push(b)) == (33 * hash(bytes) + b) % 0x1_0000_0000_0000_0000,
        0 <= hash(bytes) < 0x1_0000_0000_0000_0000,
{
    assert(bytes.push(b).drop_last() =~= bytes);
}

proof fn sixteen_digits_unfold(n: nat, width: int)
    requires
        width >= 2,
    ensures
        text::zero_padded(text::digits(n, 16), width) == text::zero_padded(
            text::digits(n / 16, 16),
            width - 1,
        ).push(text::digit_char((n % 16) as int)),
{
    let d = text::digit_char((n % 16) as int);
    if n >= 16 {
        assert(text::digits(n, 16) == text::digits(n / 16, 16).push(d));
    } else {
        assert(text::digits(n, 16) == seq![d]);
        assert(text::digits(0, 16) == seq!['0']);
    }
    assert(text::zero_padded(text::digits(n, 16), width) =~= text::zero_padded(
        text::digits(n / 16, 16),
        width - 1,
    ).push(d));
}

spec fn power_of_sixteen(width: nat) -> nat
    decreases width,
{
    if width == 0 {
        1
    } else {
        16 * power_of_sixteen((width - 1) as nat)
    }
}

proof fn digits_fit(n: nat, width: nat)
    requires
        width >= 1,
        n < power_of_sixteen(width),
    ensures
        text::digits(n, 16).len() <= width,
    decreases width,
{
    if n >= 16 {
        assert(width >= 2) by {
            reveal_with_fuel(power_of_sixteen, 2);
        }
        assert(n / 16 < power_of_sixteen((width - 1) as nat));
        digits_fit(n / 16, (width - 1) as nat);
    }
}

/// The digest of evidence is the higher half of the hash of its text, in eight hexadecimal digits.
pub proof fn a_digest_is_the_higher_half_of_a_hash(e: &Evidence, d: String, raw: String)
    requires
        call_ensures(evidence_digest, (e,), d),
        call_ensures(evidence_text, (e,), raw),
    ensures
        d@.len() == 8,
        d@ == text::zero_padded(
            text::digits((hash(vstd::utf8::encode_utf8(raw@)) / 0x1_0000_0000) as nat, 16),
            8,
        ),
{
    let h = hash(vstd::utf8::encode_utf8(raw@)) as nat;
    let h1 = h / 16;
    let h2 = h1 / 16;
    let h3 = h2 / 16;
    let h4 = h3 / 16;
    let h5 = h4 / 16;
    let h6 = h5 / 16;
    let h7 = h6 / 16;
    let h8 = h7 / 16;
    sixteen_digits_unfold(h, 16);
    sixteen_digits_unfold(h1, 15);
    sixteen_digits_unfold(h2, 14);
    sixteen_digits_unfold(h3, 13);
    sixteen_digits_unfold(h4, 12);
    sixteen_digits_unfold(h5, 11);
    sixteen_digits_unfold(h6, 10);
    sixteen_digits_unfold(h7, 9);
    assert(h8 == h / 0x1_0000_0000);
    assert(h < 0x1_0000_0000_0000_0000);
    let front = text::zero_padded(text::digits(h8, 16), 8);
    assert(power_of_sixteen(8) == 0x1_0000_0000) by {
        reveal_with_fuel(power_of_sixteen, 9);
    }
    digits_fit(h8, 8);
    assert(front.len() == 8);
    assert(d@ =~= front);
}

/// The text of evidence tells every pair in order and the detail, or that there is none.
pub proof fn evidence_is_told_in_full(e: &Evidence, r: String)
    requires
        call_ensures(evidence_text, (e,), r),
    ensures
        r@ == "{\"pairs\":["@ + text::joined(
            Seq::new(
                e.pairs@.len(),
                |i: int|
                    "{\"key\":"@ + json::quoted(e.pairs@[i].key@) + ",\"value\":"@ + json::quoted(
                        e.pairs@[i].value@,
                    ) + "}"@,
            ),
            ","@,
        ) + "],\"detail\":"@ + (if e.detail is Some {
            json::quoted(e.detail->0@)
        } else {
            "null"@
        }) + "}"@,
{
    let told = e@.pairs.map_values(|p: PairView| pair_json(p));
    assert(told =~= Seq::new(
        e.pairs@.len(),
        |i: int|
            "{\"key\":"@ + json::quoted(e.pairs@[i].key@) + ",\"value\":"@ + json::quoted(
                e.pairs@[i].value@,
            ) + "}"@,
    ));
}

/// Every report of a run has its event, in order: with its name, the verdict's word, the digest of
/// its evidence, its streak over the history, what blocks it among the reports of the run, and
/// the moment of the run.
pub proof fn every_report_has_its_event(
    reports: &[PrimitiveReport],
    history: &[Receipt],
    now: Timestamp,
    r: Vec<PrimitiveEvent>,
    i: int,
    name: &str,
    word: String,
    mark: String,
    n: u32,
    edges: &[EnablementEdge],
    annotated: Vec<AnnotatedReport>,
)
    requires
        call_ensures(watch_events, (reports, history, now), r),
        0 <= i < reports@.len(),
        name@ == reports@[i].name@,
        call_ensures(verdict_to_str, (&reports@[i].verdict,), word),
        call_ensures(evidence_digest, (&reports@[i].evidence,), mark),
        call_ensures(streak::inert_streak_for, (name, history), n),
        text::views(edges@) == crossdep::known_edges(),
        call_ensures(crossdep::annotate, (reports, edges), annotated),
    ensures
        r@.len() == reports@.len(),
        r@[i].subject@ == "primitive."@ + name@,
        r@[i].verdict@ == word@,
        r@[i].evidence_digest@ == mark@,
        r@[i].inert_streak == n,
        text::views(r@[i].blocked_by@) == text::views(annotated@[i].blocked_by@),
        r@[i].ts@ == now@,
{
    assert(r@[i]@.subject == "primitive."@ + name@);
    assert(annotated@[i].report@ == reports@[i]@);
}

/// The streaks read from a history are those of every primitive that a receipt of it names, and of
/// no other.
pub proof fn every_named_primitive_has_a_streak(
    history: &[Receipt],
    r: NameMap<u32>,
    name: &str,
    n: u32,
    i: int,
    j: int,
)
    requires
        call_ensures(read_inert_streaks, (history,), r),
        call_ensures(streak::inert_streak_for, (name, history), n),
        0 <= i < history@.len(),
        0 <= j < history@[i].reports@.len(),
    ensures
        r@.dom().contains(history@[i].reports@[j].name@),
        r@.dom().contains(name@) ==> r@[name@] == n,
        r@.dom().contains(name@) ==> exists|x: int, y: int|
            0 <= x < history@.len() && 0 <= y < history@[x].reports@.len()
                && (#[trigger] history@[x].reports@[y]).name@ == name@,
{
    let all = text::views(history@);
    assert(all[i].reports[j] == history@[i].reports@[j]@);
    assert(named_in(all, history@[i].reports@[j].name@));
    if r@.dom().contains(name@) {
        let (x, y) = choose|x: int, y: int|
            0 <= x < all.len() && 0 <= y < all[x].reports.len()
                && (#[trigger] all[x].reports[y]).name == name@;
        assert(history@[x].reports@[y].name@ == name@);
    }
}

/// An event is published on the topic of its primitive, and its payload tells all of it.
pub proof fn payloads_tell_the_whole_event(
    e: &PrimitiveEvent,
    topic: String,
    payload: String,
    stamp: String,
    names: String,
)
    requires
        call_ensures(PrimitiveEvent::topic, (e,), topic),
        call_ensures(PrimitiveEvent::payload, (e,), payload),
        call_ensures(Timestamp::to_rfc3339_zulu, (&e.ts,), stamp),
        call_ensures(json::strings, (&e.blocked_by,), names),
    ensures
        topic@ == "wm.health."@ + e.subject@,
        payload@ == "{\"subject\":"@ + json::quoted(e.subject@) + ",\"verdict\":"@ + json::quoted(
            e.verdict@,
        ) + ",\"evidence_digest\":"@ + json::quoted(e.evidence_digest@) + ",\"inert_streak\":"@
            + text::decimal(e.inert_streak as nat) + ",\"blocked_by\":"@ + names@ + ",\"ts\":"@
            + json::quoted(stamp@) + "}"@,
{
}

/// The payload of a run is the payloads of its events, in order and between brackets.
pub proof fn a_run_is_told_as_an_array(
    events: &Vec<PrimitiveEvent>,
    r: String,
    payloads: Seq<String>,
)
    requires
        call_ensures(payload_array, (events,), r),
        payloads.len() == events@.len(),
        forall|i: int|
            0 <= i < events@.len() ==> call_ensures(
                PrimitiveEvent::payload,
                (&events@[i],),
                #[trigger] payloads[i],
            ),
    ensures
        r@ == "["@ + text::joined(text::views(payloads), ","@) + "]"@,
{
    let told = text::views(events@).map_values(|e: EventView| event_json(e));
    assert forall|i: int| 0 <= i < events@.len() implies #[trigger] told[i] == payloads[i]@ by {
        assert(call_ensures(PrimitiveEvent::payload, (&events@[i],), payloads[i]));
    }
    assert(told =~= text::views(payloads));
}

/// Publishing is tried three times: a failure is tried again after the first and the second, and
/// given up with its reason after the third.
pub proof fn publishing_is_tried_three_times(attempt: u32, outcome: &Attempt, r: PublishStep)
    requires
        attempt < 3,
        call_ensures(after_attempt, (attempt, outcome), r),
    ensures
        outcome is Succeeded <==> r is Published,
        !(outcome is Succeeded) && attempt < 2 <==> r is Retry,
        !(outcome is Succeeded) && attempt == 2 ==> r is GiveUp && r->GiveUp_0@ == match *outcome {
            Attempt::Succeeded => Seq::empty(),
            Attempt::Exited(code) => "agorabus publish exited "@ + (if code is Some {
                text::signed_decimal(code->0 as int)
            } else {
                "-1"@
            }),
            Attempt::NotRun(e) => "could not run agorabus: "@ + e@,
        },
{
    if *outcome is Exited {
        reveal_strlit("-");
        reveal_strlit("-1");
        assert(text::decimal(1) == seq!['1']);
        assert(text::signed_decimal(-1) =~= "-1"@);
    }
}

/// A run fails exactly where the bus is required and an event could not be published.
pub proof fn only_a_required_bus_can_fail(
    opts: &WatchOptions,
    published: &Vec<bool>,
    r: WatchOutcome,
    code: i32,
    word: &str,
    topic: &str,
    reason: &str,
    notice: String,
)
    requires
        call_ensures(run_outcome, (opts, published), r),
        call_ensures(WatchOutcome::exit_code, (r,), code),
        call_ensures(WatchOutcome::label, (r,), word),
        call_ensures(failure_notice, (topic, reason), notice),
    ensures
        ({
            let failed = opts.require_bus && exists|i: int|
                0 <= i < published@.len() && !#[trigger] published@[i];
            &&& r is BusError <==> failed
            &&& r is Clean <==> !failed
            &&& failed ==> code == 1 && word@ == "bus-error"@
            &&& !failed ==> code == 0 && word@ == "ok"@
        }),
        notice@ == "quicken watch: fail-open: could not publish "@ + topic@ + ": "@ + reason@,
{
    if published@.contains(false) {
        let i = choose|i: int| 0 <= i < published@.len() && published@[i] == false;
        assert(!published@[i]);
    }
}

} // verus!
