//! Remedies: what would revive a dark primitive, and which of it may be done without asking.

use vstd::prelude::*;

use crate::env::ProbeEnv;
use crate::evidence::{self, Evidence};
use crate::probes::memlog::{self, MemlogProbe, MemlogStep};
use crate::report::{PrimitiveReport, ReportView};
use crate::text;
use crate::verdict::{Verdict, VerdictView};

verus! {

/// How safe a step is.
#[derive(Debug, Clone, Copy, PartialEq, Eq, Structural)]
pub enum Tier {
    /// May be done without asking: pure userspace, no `sudo`, no kernel change.
    SafeUserspace,
    /// Needs elevated privileges; never done.
    RequiresSudo,
    /// Installs a kernel package and needs a reboot; never done.
    RequiresReboot,
    /// There is nothing to do; an explanation only.
    ReportOnly,
}

/// One step of a remedy.
#[derive(Debug, Clone, PartialEq, Eq)]
pub struct RemedyStep {
    /// The shell command; empty where there is none.
    pub command: String,
    /// How safe the step is.
    pub tier: Tier,
    /// Whether the step takes effect only after a reboot.
    pub requires_reboot: bool,
    /// What the step does, and why.
    pub rationale: String,
}

/// What a `RemedyStep` stands for.
pub struct StepView {
    pub command: Seq<char>,
    pub tier: Tier,
    pub requires_reboot: bool,
    pub rationale: Seq<char>,
}

impl View for RemedyStep {
    type V = StepView;

    open spec fn view(&self) -> StepView {
        StepView {
            command: self.command@,
            tier: self.tier,
            requires_reboot: self.requires_reboot,
            rationale: self.rationale@,
        }
    }
}

/// The remedy for one primitive.
#[derive(Debug, Clone, PartialEq, Eq)]
pub struct Remediation {
    /// The name of the primitive.
    pub primitive: String,
    /// The steps, in order.
    pub steps: Vec<RemedyStep>,
}

/// What a `Remediation` stands for.
pub struct RemediationView {
    pub primitive: Seq<char>,
    pub steps: Seq<StepView>,
}

impl View for Remediation {
    type V = RemediationView;

    open spec fn view(&self) -> RemediationView {
        RemediationView { primitive: self.primitive@, steps: text::views(self.steps@) }
    }
}

// ---------------------------------------------------------------------------
// Prescribing
// ---------------------------------------------------------------------------

/// A text as `Debug` of `str` writes it.
pub uninterp spec fn debug_text(s: Seq<char>) -> Seq<char>;

/// A text in quotes and with escapes, by the `Debug` of `str`.
///
/// Claims no more than that the result depends on the text alone: what is escaped, and how, is
/// left unsaid.
#[verifier::external_body]
fn debug_of(s: &str) -> (r: String)
    ensures
        r@ == debug_text(s@),
{
    format!("{s:?}")
}

/// The text that a verdict carries.
pub open spec fn carried(v: VerdictView) -> Option<Seq<char>> {
    match v {
        VerdictView::LiveDegraded { reason } => Some(reason),
        VerdictView::MechanismLiveNotWired { remediation } => Some(remediation),
        _ => None,
    }
}

/// A verdict in words, given how the text that it carries is quoted.
pub open spec fn state_words(v: VerdictView, quoted: Seq<char>) -> Seq<char> {
    match v {
        VerdictView::Live => "Live"@,
        VerdictView::LiveDegraded { .. } => "LiveDegraded { reason: "@ + quoted + " }"@,
        VerdictView::StagedNotInstalled => "StagedNotInstalled"@,
        VerdictView::InstalledNotActivated => "InstalledNotActivated"@,
        VerdictView::Inert => "Inert"@,
        VerdictView::MechanismLiveNotWired { .. } => "MechanismLiveNotWired { remediation: "@
            + quoted + " }"@,
        VerdictView::Unknown => "Unknown"@,
    }
}

/// A verdict in words.
pub open spec fn verdict_state(v: VerdictView) -> Seq<char> {
    state_words(
        v,
        match carried(v) {
            Some(text) => debug_text(text),
            None => Seq::empty(),
        },
    )
}

/// The commands that give the current session access to memlog.
pub open spec fn activation_command() -> Seq<char> {
    "systemd-sysusers /usr/lib/sysusers.d/memlog.conf && udevadm trigger /dev/memlog && newgrp memlog"@
}

/// What evidence says by a key, or something else where it says nothing.
pub open spec fn evidence_or(
    report: ReportView,
    key: Seq<char>,
    otherwise: Seq<char>,
) -> Seq<char> {
    match evidence::lookup(report.evidence.pairs, key) {
        Some(v) => v,
        None => otherwise,
    }
}

/// The remedy for a memlog update that waits: install it, or do without a reboot.
pub open spec fn staged_memlog_remedy(report: ReportView) -> RemediationView {
    let release = evidence_or(report, "staged_pkgrel"@, "?"@);
    let dir = evidence_or(report, "pkg_staging_dir"@, "~/wintermute/wintermute-kernel/pkg"@);
    RemediationView {
        primitive: "memlog"@,
        steps: seq![
            StepView {
                command: "sudo pacman -U "@ + dir + "/linux-wintermute-7.0.10.arch1-"@ + release
                    + "-x86_64.pkg.tar.zst"@,
                tier: Tier::RequiresReboot,
                requires_reboot: true,
                rationale: "Install staged kernel package (pkgrel "@ + release
                    + ") then reboot to activate the memlog kernel module."@,
            },
            StepView {
                command: activation_command(),
                tier: Tier::SafeUserspace,
                requires_reboot: false,
                rationale:
                    "No-reboot userspace path: re-apply group/udev rules so the current session gains memlog group membership without a kernel reinstall or reboot."@,
            },
        ],
    }
}

/// The remedy for a memlog that is installed but not activated.
pub open spec fn installed_memlog_remedy() -> RemediationView {
    RemediationView {
        primitive: "memlog"@,
        steps: seq![
            StepView {
                command: activation_command(),
                tier: Tier::SafeUserspace,
                requires_reboot: false,
                rationale:
                    "Re-apply group/udev rules so the current session gains memlog group membership."@,
            },
        ],
    }
}

/// The remedy for an inert agentns: there is none but a new kernel.
pub open spec fn inert_agentns_remedy() -> RemediationView {
    RemediationView {
        primitive: "agentns"@,
        steps: seq![
            StepView {
                command: Seq::empty(),
                tier: Tier::ReportOnly,
                requires_reboot: false,
                rationale:
                    "agentns is inert because the kernel module is not assigning a session UUID. There is no userspace command that can revive this: the fix is a kernel reinstall + reboot (see quicken remedy for memlog to update the kernel package)."@,
            },
        ],
    }
}

/// The remedy where no other is known, given how the state of the primitive is worded.
pub open spec fn manual_remedy(name: Seq<char>, state: Seq<char>) -> RemediationView {
    RemediationView {
        primitive: name,
        steps: seq![
            StepView {
                command: Seq::empty(),
                tier: Tier::ReportOnly,
                requires_reboot: false,
                rationale: "No automated remediation is available for primitive '"@ + name
                    + "' in state '"@ + state
                    + "'. Check self-review journal for manual steps."@,
            },
        ],
    }
}

/// The remedy for a report, if one is due.
pub open spec fn prescription(report: ReportView) -> Option<RemediationView> {
    if report.verdict is Live {
        None
    } else if report.verdict is StagedNotInstalled && report.name == "memlog"@ {
        Some(staged_memlog_remedy(report))
    } else if report.verdict is InstalledNotActivated && report.name == "memlog"@ {
        Some(installed_memlog_remedy())
    } else if report.verdict is Inert && report.name == "agentns"@ {
        Some(inert_agentns_remedy())
    } else {
        Some(manual_remedy(report.name, verdict_state(report.verdict)))
    }
}

/// A verdict in words, given how the text that it carries is quoted.
#[must_use]
pub fn worded_state(v: &Verdict, quoted: &str) -> (r: String)
    ensures
        r@ == state_words(v@, quoted@),
{
    match v {
        Verdict::Live => "Live".to_owned(),
        Verdict::LiveDegraded { .. } => {
            let mut r: String = "LiveDegraded { reason: ".to_owned();
            r.append(quoted);
            r.append(" }");
            r
        },
        Verdict::StagedNotInstalled => "StagedNotInstalled".to_owned(),
        Verdict::InstalledNotActivated => "InstalledNotActivated".to_owned(),
        Verdict::Inert => "Inert".to_owned(),
        Verdict::MechanismLiveNotWired { .. } => {
            let mut r: String = "MechanismLiveNotWired { remediation: ".to_owned();
            r.append(quoted);
            r.append(" }");
            r
        },
        Verdict::Unknown => "Unknown".to_owned(),
    }
}

fn state_of(v: &Verdict) -> (r: String)
    ensures
        r@ == verdict_state(v@),
{
    let quoted: String = match v {
        Verdict::LiveDegraded { reason } => debug_of(reason.as_str()),
        Verdict::MechanismLiveNotWired { remediation } => debug_of(remediation.as_str()),
        _ => String::new(),
    };
    worded_state(v, quoted.as_str())
}

fn one_step(primitive: &str, step: RemedyStep) -> (r: Remediation)
    ensures
        r@ == (RemediationView { primitive: primitive@, steps: seq![step@] }),
{
    let mut steps: Vec<RemedyStep> = Vec::new();
    steps.push(step);
    assert(text::views(steps@) =~= seq![step@]);
    Remediation { primitive: primitive.to_owned(), steps }
}

fn activation() -> (r: String)
    ensures
        r@ == activation_command(),
{
    "systemd-sysusers /usr/lib/sysusers.d/memlog.conf && udevadm trigger /dev/memlog && newgrp memlog".to_owned()
}

/// The remedy for a memlog update that waits.
fn memlog_staged_not_installed(report: &PrimitiveReport) -> (r: Remediation)
    ensures
        r@ == staged_memlog_remedy(report@),
{
    let release: &str = match report.evidence.get("staged_pkgrel") {
        Some(v) => v,
        None => "?",
    };
    let dir: &str = match report.evidence.get("pkg_staging_dir") {
        Some(v) => v,
        None => "~/wintermute/wintermute-kernel/pkg",
    };
    let mut command: String = "sudo pacman -U ".to_owned();
    command.append(dir);
    command.append("/linux-wintermute-7.0.10.arch1-");
    command.append(release);
    command.append("-x86_64.pkg.tar.zst");
    let mut rationale: String = "Install staged kernel package (pkgrel ".to_owned();
    rationale.append(release);
    rationale.append(") then reboot to activate the memlog kernel module.");
    let install: RemedyStep = RemedyStep {
        command,
        tier: Tier::RequiresReboot,
        requires_reboot: true,
        rationale,
    };
    let activate: RemedyStep = RemedyStep {
        command: activation(),
        tier: Tier::SafeUserspace,
        requires_reboot: false,
        rationale:
            "No-reboot userspace path: re-apply group/udev rules so the current session gains memlog group membership without a kernel reinstall or reboot.".to_owned(),
    };
    let mut steps: Vec<RemedyStep> = Vec::new();
    steps.push(install);
    steps.push(activate);
    assert(text::views(steps@) =~= seq![install@, activate@]);
    Remediation { primitive: "memlog".to_owned(), steps }
}

/// The remedy for a memlog that is installed but not activated.
fn memlog_installed_not_activated() -> (r: Remediation)
    ensures
        r@ == installed_memlog_remedy(),
{
    one_step(
        "memlog",
        RemedyStep {
            command: activation(),
            tier: Tier::SafeUserspace,
            requires_reboot: false,
            rationale:
                "Re-apply group/udev rules so the current session gains memlog group membership.".to_owned(),
        },
    )
}

/// The remedy for an inert agentns.
fn agentns_inert() -> (r: Remediation)
    ensures
        r@ == inert_agentns_remedy(),
{
    one_step(
        "agentns",
        RemedyStep {
            command: String::new(),
            tier: Tier::ReportOnly,
            requires_reboot: false,
            rationale:
                "agentns is inert because the kernel module is not assigning a session UUID. There is no userspace command that can revive this: the fix is a kernel reinstall + reboot (see quicken remedy for memlog to update the kernel package).".to_owned(),
        },
    )
}

/// The remedy where no other is known, given how the state of the primitive is worded.
pub fn manual_remediation(name: &str, state: &str) -> (r: Remediation)
    ensures
        r@ == manual_remedy(name@, state@),
{
    let mut rationale: String = "No automated remediation is available for primitive '".to_owned();
    rationale.append(name);
    rationale.append("' in state '");
    rationale.append(state);
    rationale.append("'. Check self-review journal for manual steps.");
    one_step(
        name,
        RemedyStep {
            command: String::new(),
            tier: Tier::ReportOnly,
            requires_reboot: false,
            rationale,
        },
    )
}

/// The remedy for a report. There is none exactly where the primitive is `Live`.
#[must_use]
pub fn remediation_for(report: &PrimitiveReport) -> (r: Option<Remediation>)
    ensures
        text::opt_view(r) == prescription(report@),
{
    let name: &str = report.name.as_str();
    match &report.verdict {
        Verdict::Live => {
            return None;
        },
        Verdict::StagedNotInstalled => {
            if text::same(name, "memlog") {
                return Some(memlog_staged_not_installed(report));
            }
        },
        Verdict::InstalledNotActivated => {
            if text::same(name, "memlog") {
                return Some(memlog_installed_not_activated());
            }
        },
        Verdict::Inert => {
            if text::same(name, "agentns") {
                return Some(agentns_inert());
            }
        },
        _ => {},
    }
    Some(manual_remediation(name, state_of(&report.verdict).as_str()))
}

/// The remedies for a list of reports, in order.
pub open spec fn prescriptions(reports: Seq<ReportView>) -> Seq<RemediationView>
    decreases reports.len(),
{
    if reports.len() == 0 {
        Seq::empty()
    } else {
        let before = prescriptions(reports.drop_last());
        match prescription(reports.last()) {
            Some(r) => before.push(r),
            None => before,
        }
    }
}

/// The remedies for a list of reports, in order.
#[must_use]
pub fn remediations(reports: &[PrimitiveReport]) -> (r: Vec<Remediation>)
    ensures
        text::views(r@) == prescriptions(text::views(reports@)),
{
    let ghost all = text::views(reports@);
    let mut r: Vec<Remediation> = Vec::new();
    let mut i: usize = 0;
    assert(text::views(r@) =~= prescriptions(all.take(0)));
    while i < reports.len()
        invariant
            all == text::views(reports@),
            i <= reports.len(),
            text::views(r@) == prescriptions(all.take(i as int)),
        decreases reports.len() - i,
    {
        proof {
            assert(all.take(i + 1).drop_last() =~= all.take(i as int));
            assert(all.take(i + 1).last() == reports@[i as int]@);
        }
        let ghost before = text::views(r@);
        if let Some(rem) = remediation_for(&reports[i]) {
            r.push(rem);
            assert(text::views(r@) =~= before.push(rem@));
        }
        i += 1;
    }
    assert(all.take(all.len() as int) =~= all);
    r
}

/// What to do about the remedies for the current reports.
#[derive(Debug, Clone, Copy, PartialEq, Eq, Structural)]
pub enum RemedyMode {
    /// Every primitive is live.
    NothingToDo,
    /// Give the remedies out as JSON.
    GiveJson,
    /// Take the safe steps.
    TakeSafeSteps,
    /// List the steps and take none.
    ListSteps,
}

/// What to do about `count` remedies. Steps are taken only where that is asked for.
#[must_use]
pub fn remedy_mode(count: usize, apply: bool, json: bool) -> (r: RemedyMode)
    ensures
        r == if count == 0 {
            RemedyMode::NothingToDo
        } else if json {
            RemedyMode::GiveJson
        } else if apply {
            RemedyMode::TakeSafeSteps
        } else {
            RemedyMode::ListSteps
        },
{
    if count == 0 {
        RemedyMode::NothingToDo
    } else if json {
        RemedyMode::GiveJson
    } else if apply {
        RemedyMode::TakeSafeSteps
    } else {
        RemedyMode::ListSteps
    }
}

// ---------------------------------------------------------------------------
// Taking steps
// ---------------------------------------------------------------------------

/// What became of one command: the command, and why it failed if it did.
pub open spec fn outcome(command: Seq<char>, r: Result<(), String>) -> (
    Seq<char>,
    Result<(), Seq<char>>,
) {
    match r {
        Ok(_) => (command, Ok(())),
        Err(e) => (command, Err(e@)),
    }
}

/// What runs commands and prints lines.
pub trait CommandExecutor {
    /// The commands that were run, in order, and what became of each.
    ///
    /// An executor that is not itself verified has no need to give one.
    open spec fn log(&self) -> Seq<(Seq<char>, Result<(), Seq<char>>)> {
        vstd::pervasive::arbitrary()
    }

    /// The lines that were printed, in order.
    open spec fn shown(&self) -> Seq<Seq<char>> {
        vstd::pervasive::arbitrary()
    }

    /// Runs a command. An error says why it failed.
    fn run(&mut self, command: &str) -> (r: Result<(), String>)
        ensures
            final(self).log() == old(self).log().push(outcome(command@, r)),
            final(self).shown() == old(self).shown(),
    ;

    /// Prints a line.
    fn show(&mut self, line: &str)
        ensures
            final(self).log() == old(self).log(),
            final(self).shown() == old(self).shown().push(line@),
    ;
}

/// An executor that runs nothing and only records what it was asked for.
#[derive(Debug, Clone)]
pub struct RecordingExecutor {
    /// The commands that it was asked to run.
    pub executed: Vec<String>,
    /// The lines that it was asked to print.
    pub lines: Vec<String>,
}

impl RecordingExecutor {
    /// An executor without a record.
    #[must_use]
    pub fn new() -> (r: Self)
        ensures
            r.executed@.len() == 0,
            r.lines@.len() == 0,
    {
        RecordingExecutor { executed: Vec::new(), lines: Vec::new() }
    }
}

impl Default for RecordingExecutor {
    fn default() -> (r: Self)
        ensures
            r.executed@.len() == 0,
            r.lines@.len() == 0,
    {
        RecordingExecutor::new()
    }
}

impl CommandExecutor for RecordingExecutor {
    /// Every command in the record, each a success.
    open spec fn log(&self) -> Seq<(Seq<char>, Result<(), Seq<char>>)> {
        all_succeed(text::views(self.executed@))
    }

    open spec fn shown(&self) -> Seq<Seq<char>> {
        text::views(self.lines@)
    }

    fn run(&mut self, command: &str) -> (r: Result<(), String>)
        ensures
            r is Ok,
            text::views(final(self).executed@) == text::views(old(self).executed@).push(command@),
            final(self).lines@ == old(self).lines@,
    {
        self.executed.push(command.to_owned());
        assert(text::views(self.executed@) =~= text::views(old(self).executed@).push(command@));
        assert(self.log() =~= old(self).log().push(outcome(command@, Ok(()))));
        Ok(())
    }

    fn show(&mut self, line: &str)
        ensures
            text::views(final(self).lines@) == text::views(old(self).lines@).push(line@),
            final(self).executed@ == old(self).executed@,
    {
        self.lines.push(line.to_owned());
        assert(text::views(self.lines@) =~= text::views(old(self).lines@).push(line@));
    }
}

/// A log of commands that all succeed.
pub open spec fn all_succeed(commands: Seq<Seq<char>>) -> Seq<(Seq<char>, Result<(), Seq<char>>)> {
    commands.map_values(|c: Seq<char>| (c, Ok::<(), Seq<char>>(())))
}

/// A tier as one word.
pub open spec fn tier_word(tier: Tier) -> Seq<char> {
    match tier {
        Tier::SafeUserspace => "safe-userspace"@,
        Tier::RequiresSudo => "requires-sudo"@,
        Tier::RequiresReboot => "requires-reboot"@,
        Tier::ReportOnly => "report-only"@,
    }
}

/// A tier as one word.
#[must_use]
pub fn tier_label(tier: &Tier) -> (r: &'static str)
    ensures
        r@ == tier_word(*tier),
{
    match tier {
        Tier::SafeUserspace => "safe-userspace",
        Tier::RequiresSudo => "requires-sudo",
        Tier::RequiresReboot => "requires-reboot",
        Tier::ReportOnly => "report-only",
    }
}

/// The commands of the safe steps, in order.
pub open spec fn safe_commands(steps: Seq<StepView>) -> Seq<Seq<char>>
    decreases steps.len(),
{
    if steps.len() == 0 {
        Seq::empty()
    } else {
        let before = safe_commands(steps.drop_last());
        if steps.last().tier == Tier::SafeUserspace {
            before.push(steps.last().command)
        } else {
            before
        }
    }
}

/// What is printed of a step that is not taken.
pub open spec fn skip_lines(step: StepView) -> Seq<Seq<char>> {
    let note = "  note: "@ + step.rationale;
    if step.command.len() > 0 {
        seq!["[skip — "@ + tier_word(step.tier) + "] "@ + step.command, note]
    } else {
        seq![note]
    }
}

/// What is printed of the steps that are not taken, in order.
pub open spec fn skipped_lines(steps: Seq<StepView>) -> Seq<Seq<char>>
    decreases steps.len(),
{
    if steps.len() == 0 {
        Seq::empty()
    } else {
        let before = skipped_lines(steps.drop_last());
        if steps.last().tier == Tier::SafeUserspace {
            before
        } else {
            before + skip_lines(steps.last())
        }
    }
}

fn show_skipped<E: CommandExecutor>(step: &RemedyStep, executor: &mut E)
    ensures
        final(executor).log() == old(executor).log(),
        final(executor).shown() == old(executor).shown() + skip_lines(step@),
{
    let ghost before = executor.shown();
    let mut note: String = "  note: ".to_owned();
    note.append(step.rationale.as_str());
    if step.command.as_str().unicode_len() > 0 {
        let mut skip: String = "[skip — ".to_owned();
        skip.append(tier_label(&step.tier));
        skip.append("] ");
        skip.append(step.command.as_str());
        executor.show(skip.as_str());
        executor.show(note.as_str());
        assert(executor.shown() =~= before + skip_lines(step@));
    } else {
        executor.show(note.as_str());
        assert(executor.shown() =~= before + skip_lines(step@));
    }
}

/// What an executor was asked for: the commands with what became of each, and the lines.
pub struct Record {
    /// The commands that were run, in order, and what became of each.
    pub log: Seq<(Seq<char>, Result<(), Seq<char>>)>,
    /// The lines that were printed, in order.
    pub shown: Seq<Seq<char>>,
}

/// The record of an executor.
pub open spec fn record<E: CommandExecutor>(executor: E) -> Record {
    Record { log: executor.log(), shown: executor.shown() }
}

impl Record {
    /// The record after `commands` were run, each with success, and `lines` printed.
    pub open spec fn grown(self, commands: Seq<Seq<char>>, lines: Seq<Seq<char>>) -> Record {
        Record { log: self.log + all_succeed(commands), shown: self.shown + lines }
    }

    /// The record after one more command failed.
    pub open spec fn failed(self, command: Seq<char>, error: Seq<char>) -> Record {
        Record { log: self.log.push((command, Err(error))), ..self }
    }
}

/// Whether taking the safe steps in `steps` leads from one record to another with `result`.
///
/// Either every safe step was run, succeeded and is counted, or a safe step failed with the error
/// of `result` after every safe step before it succeeded, and nothing was asked for after that.
pub open spec fn is_taking(
    steps: Seq<StepView>,
    before: Record,
    after: Record,
    result: Result<int, Seq<char>>,
) -> bool {
    match result {
        Ok(n) => {
            &&& n == safe_commands(steps).len()
            &&& after == before.grown(safe_commands(steps), skipped_lines(steps))
        },
        Err(e) => exists|k: int| #[trigger] fails_at(steps, k, before, after, e),
    }
}

/// Whether the safe step at `k` failed with the error `e` after all before it succeeded.
pub open spec fn fails_at(
    steps: Seq<StepView>,
    k: int,
    before: Record,
    after: Record,
    e: Seq<char>,
) -> bool {
    let earlier = steps.take(k);
    &&& 0 <= k < steps.len()
    &&& steps[k].tier == Tier::SafeUserspace
    &&& after == before.grown(safe_commands(earlier), skipped_lines(earlier)).failed(
        steps[k].command,
        e,
    )
}

/// A result with a mathematical value.
pub open spec fn result_view(r: Result<usize, String>) -> Result<int, Seq<char>> {
    match r {
        Ok(n) => Ok(n as int),
        Err(e) => Err(e@),
    }
}

/// Takes the safe steps of a remedy, in order, and prints the others.
///
/// Gives back how many safe steps there were. Ends at the first one that fails, with its error.
pub fn apply_safe_steps<E: CommandExecutor>(
    remediation: &Remediation,
    executor: &mut E,
) -> (r: Result<usize, String>)
    ensures
        is_taking(
            remediation@.steps,
            record(*old(executor)),
            record(*final(executor)),
            result_view(r),
        ),
{
    let ghost all = remediation@.steps;
    let ghost start = record(*executor);
    let mut ran: usize = 0;
    let mut i: usize = 0;
    assert(record(*executor) =~= start.grown(
        safe_commands(all.take(0)),
        skipped_lines(all.take(0)),
    ));
    while i < remediation.steps.len()
        invariant
            all == text::views(remediation.steps@),
            all == remediation@.steps,
            start == record(*old(executor)),
            ran <= i <= remediation.steps.len(),
            ran == safe_commands(all.take(i as int)).len(),
            record(*executor) == start.grown(
                safe_commands(all.take(i as int)),
                skipped_lines(all.take(i as int)),
            ),
        decreases remediation.steps.len() - i,
    {
        let step: &RemedyStep = &remediation.steps[i];
        proof {
            assert(all.take(i + 1).drop_last() =~= all.take(i as int));
            assert(all.take(i + 1).last() == step@);
            assert(all[i as int] == step@);
        }
        let ghost commands = safe_commands(all.take(i as int));
        let ghost lines = skipped_lines(all.take(i as int));
        match step.tier {
            Tier::SafeUserspace => {
                let result: Result<(), String> = executor.run(step.command.as_str());
                match result {
                    Ok(_) => {
                        ran += 1;
                        assert(record(*executor).log =~= start.grown(
                            commands.push(step.command@),
                            lines,
                        ).log);
                    },
                    Err(e) => {
                        proof {
                            let failure: Result<int, Seq<char>> = Err(e@);
                            assert(fails_at(
                                all,
                                i as int,
                                start,
                                record(*executor),
                                failure->Err_0,
                            ));
                        }
                        return Err(e);
                    },
                }
            },
            Tier::RequiresSudo | Tier::RequiresReboot | Tier::ReportOnly => {
                show_skipped(step, executor);
                assert(record(*executor).shown =~= start.grown(
                    commands,
                    lines + skip_lines(step@),
                ).shown);
            },
        }
        i += 1;
    }
    assert(all.take(all.len() as int) =~= all);
    Ok(ran)
}

/// What is printed before a remedy is taken.
pub open spec fn heading_lines(primitive: Seq<char>) -> Seq<Seq<char>> {
    seq![Seq::empty(), "=== Remediation: "@ + primitive + " ==="@]
}

/// What is printed after a remedy was taken.
pub open spec fn applied_line(count: nat) -> Seq<char> {
    "  "@ + text::decimal(count) + " SafeUserspace step(s) applied."@
}

/// The commands of the safe steps of all remedies, in order.
pub open spec fn all_safe_commands(list: Seq<RemediationView>) -> Seq<Seq<char>>
    decreases list.len(),
{
    if list.len() == 0 {
        Seq::empty()
    } else {
        all_safe_commands(list.drop_last()) + safe_commands(list.last().steps)
    }
}

/// What is printed where all remedies are taken: of each its heading, the steps that are not
/// taken and how many are.
pub open spec fn all_lines(list: Seq<RemediationView>) -> Seq<Seq<char>>
    decreases list.len(),
{
    if list.len() == 0 {
        Seq::empty()
    } else {
        let last = list.last();
        all_lines(list.drop_last()) + heading_lines(last.primitive) + skipped_lines(
            last.steps,
        ).push(applied_line(safe_commands(last.steps).len()))
    }
}

/// What is said of a remedy that failed.
pub open spec fn failure_text(primitive: Seq<char>, error: Seq<char>) -> Seq<char> {
    "remedy apply failed for '"@ + primitive + "': "@ + error
}

/// Whether the remedy at `j` failed with the error `e` after all before it were taken.
pub open spec fn stops_at(
    list: Seq<RemediationView>,
    j: int,
    before: Record,
    after: Record,
    e: Seq<char>,
) -> bool {
    let earlier = list.take(j);
    &&& 0 <= j < list.len()
    &&& is_taking(
        list[j].steps,
        before.grown(
            all_safe_commands(earlier),
            all_lines(earlier) + heading_lines(list[j].primitive),
        ),
        after,
        Err(e),
    )
}

fn show_heading<E: CommandExecutor>(primitive: &str, executor: &mut E)
    ensures
        final(executor).log() == old(executor).log(),
        final(executor).shown() == old(executor).shown() + heading_lines(primitive@),
{
    let ghost before = executor.shown();
    let mut heading: String = "=== Remediation: ".to_owned();
    heading.append(primitive);
    heading.append(" ===");
    proof {
        reveal_strlit("");
        assert(""@ =~= Seq::<char>::empty());
    }
    executor.show("");
    executor.show(heading.as_str());
    assert(executor.shown() =~= before + heading_lines(primitive@));
}

fn show_applied<E: CommandExecutor>(count: usize, executor: &mut E)
    ensures
        final(executor).log() == old(executor).log(),
        final(executor).shown() == old(executor).shown().push(applied_line(count as nat)),
{
    let mut line: String = "  ".to_owned();
    line.append(text::decimal_text(count as u64).as_str());
    line.append(" SafeUserspace step(s) applied.");
    executor.show(line.as_str());
}

fn failure_message(primitive: &str, error: &str) -> (r: String)
    ensures
        r@ == failure_text(primitive@, error@),
{
    let mut r: String = "remedy apply failed for '".to_owned();
    r.append(primitive);
    r.append("': ");
    r.append(error);
    r
}

/// Takes the safe steps of all remedies, in order, each under a heading.
///
/// Gives back how many safe steps each had. Ends at the first remedy that fails, and says which
/// one it was and why.
pub fn apply_remedies<E: CommandExecutor>(list: &[Remediation], executor: &mut E) -> (r: Result<
    Vec<usize>,
    String,
>)
    ensures
        ({
            let all = text::views(list@);
            let before = record(*old(executor));
            let after = record(*final(executor));
            match r {
                Ok(counts) => {
                    &&& counts@.len() == all.len()
                    &&& forall|i: int|
                        0 <= i < all.len() ==> #[trigger] counts@[i] == safe_commands(
                            all[i].steps,
                        ).len()
                    &&& after == before.grown(all_safe_commands(all), all_lines(all))
                },
                Err(m) => exists|j: int, e: Seq<char>| #[trigger]
                    stops_at(all, j, before, after, e) && m@ == failure_text(all[j].primitive, e),
            }
        }),
{
    let ghost all = text::views(list@);
    let ghost start = record(*executor);
    let mut counts: Vec<usize> = Vec::new();
    let mut i: usize = 0;
    assert(record(*executor) =~= start.grown(
        all_safe_commands(all.take(0)),
        all_lines(all.take(0)),
    ));
    while i < list.len()
        invariant
            all == text::views(list@),
            start == record(*old(executor)),
            i <= list.len(),
            counts@.len() == i,
            forall|k: int|
                0 <= k < i ==> #[trigger] counts@[k] == safe_commands(all[k].steps).len(),
            record(*executor) == start.grown(
                all_safe_commands(all.take(i as int)),
                all_lines(all.take(i as int)),
            ),
        decreases list.len() - i,
    {
        let remedy: &Remediation = &list[i];
        let ghost commands = all_safe_commands(all.take(i as int));
        let ghost lines = all_lines(all.take(i as int));
        let ghost heading = heading_lines(remedy.primitive@);
        proof {
            assert(all.take(i + 1).drop_last() =~= all.take(i as int));
            assert(all.take(i + 1).last() == remedy@);
            assert(all[i as int] == remedy@);
        }
        show_heading(remedy.primitive.as_str(), executor);
        let ghost headed = record(*executor);
        assert(headed.shown =~= start.grown(commands, lines + heading).shown);
        match apply_safe_steps(remedy, executor) {
            Ok(n) => {
                let ghost skipped = skipped_lines(remedy@.steps);
                let ghost safe = safe_commands(remedy@.steps);
                show_applied(n, executor);
                counts.push(n);
                proof {
                    assert(record(*executor).log =~= start.grown(commands + safe, lines).log);
                    assert(record(*executor).shown =~= start.grown(
                        commands,
                        lines + heading + skipped.push(applied_line(n as nat)),
                    ).shown);
                }
            },
            Err(e) => {
                let m: String = failure_message(remedy.primitive.as_str(), e.as_str());
                assert(stops_at(all, i as int, start, record(*executor), e@));
                return Err(m);
            },
        }
        i += 1;
    }
    assert(all.take(all.len() as int) =~= all);
    Ok(counts)
}

// ---------------------------------------------------------------------------
// Laws
// ---------------------------------------------------------------------------

/// A remedy is due exactly where a primitive is not `Live`, and it has at least one step.
pub proof fn a_remedy_is_due_unless_live(report: ReportView)
    ensures
        prescription(report) is None <==> report.verdict is Live,
        prescription(report) is Some ==> prescription(report)->0.primitive == report.name
            && prescription(report)->0.steps.len() > 0,
{
}

/// In every remedy a step that only reports has no command, a step needs a reboot exactly where
/// its tier says so, and a step that may be taken without asking has a command.
pub proof fn tiers_say_what_steps_do(report: ReportView, k: int)
    requires
        prescription(report) is Some,
        0 <= k < prescription(report)->0.steps.len(),
    ensures
        ({
            let step = prescription(report)->0.steps[k];
            &&& step.tier == Tier::ReportOnly ==> step.command.len() == 0
            &&& step.tier == Tier::RequiresReboot <==> step.requires_reboot
            &&& step.tier == Tier::SafeUserspace ==> step.command == activation_command()
                && !step.requires_reboot
        }),
{
}

/// A command in the list of safe commands is that of a safe step.
proof fn a_safe_command_is_of_a_safe_step(steps: Seq<StepView>, command: Seq<char>)
    requires
        safe_commands(steps).contains(command),
    ensures
        exists|k: int|
            0 <= k < steps.len() && (#[trigger] steps[k]).tier == Tier::SafeUserspace
                && steps[k].command == command,
    decreases steps.len(),
{
    let rest = steps.drop_last();
    let before = safe_commands(rest);
    if before.contains(command) {
        a_safe_command_is_of_a_safe_step(rest, command);
        let k = choose|k: int|
            0 <= k < rest.len() && (#[trigger] rest[k]).tier == Tier::SafeUserspace
                && rest[k].command == command;
        assert(steps[k] == rest[k]);
    } else {
        let all = safe_commands(steps);
        let k = choose|k: int| 0 <= k < all.len() && all[k] == command;
        if k < before.len() {
            assert(before[k] == command);
        }
        assert(steps[steps.len() - 1] == steps.last());
    }
}

/// Whether `sudo` starts at none of the first `n` places of `s`.
spec fn no_sudo(s: Seq<char>, n: nat) -> bool
    decreases n,
{
    n == 0 || {
        let at = n - 1;
        &&& !(s[at] == 's' && s[at + 1] == 'u' && s[at + 2] == 'd')
        &&& no_sudo(s, at as nat)
    }
}

proof fn no_sudo_at(s: Seq<char>, n: nat, at: int)
    requires
        no_sudo(s, n),
        0 <= at < n,
    ensures
        !(s[at] == 's' && s[at + 1] == 'u' && s[at + 2] == 'd'),
    decreases n,
{
    if at < n - 1 {
        no_sudo_at(s, (n - 1) as nat, at);
    }
}

/// A safe step needs no privileges: no command of one calls `sudo`.
pub proof fn safe_steps_need_no_sudo(report: ReportView, k: int)
    requires
        prescription(report) is Some,
        0 <= k < prescription(report)->0.steps.len(),
        prescription(report)->0.steps[k].tier == Tier::SafeUserspace,
    ensures
        !text::holds(prescription(report)->0.steps[k].command, "sudo"@),
{
    let command = activation_command();
    reveal_strlit("sudo");
    assert(no_sudo(command, (command.len() - 3) as nat)) by {
        reveal_strlit(
            "systemd-sysusers /usr/lib/sysusers.d/memlog.conf && udevadm trigger /dev/memlog && newgrp memlog",
        );
        reveal_with_fuel(no_sudo, 100);
    }
    assert forall|at: int| 0 <= at <= command.len() implies !#[trigger] text::starts_with(
        command.skip(at),
        "sudo"@,
    ) by {
        let rest = command.skip(at);
        if text::starts_with(rest, "sudo"@) {
            let start = rest.take(4);
            assert(start[0] == 's' && start[1] == 'u' && start[2] == 'd');
            assert(command[at] == 's' && command[at + 1] == 'u' && command[at + 2] == 'd');
            no_sudo_at(command, (command.len() - 3) as nat, at);
        }
    }
}

/// Whatever is run when the safe steps of a remedy are taken is the command of a safe step, also
/// where one of them fails.
pub proof fn only_safe_commands_are_run(
    steps: Seq<StepView>,
    before: Record,
    after: Record,
    result: Result<int, Seq<char>>,
    at: int,
)
    requires
        is_taking(steps, before, after, result),
        before.log.len() <= at < after.log.len(),
    ensures
        exists|k: int|
            0 <= k < steps.len() && (#[trigger] steps[k]).tier == Tier::SafeUserspace
                && steps[k].command == after.log[at].0,
{
    match result {
        Ok(_) => {
            let commands = safe_commands(steps);
            assert(commands[at - before.log.len()] == after.log[at].0);
            a_safe_command_is_of_a_safe_step(steps, after.log[at].0);
        },
        Err(e) => {
            let k = choose|k: int| #[trigger] fails_at(steps, k, before, after, e);
            let earlier = steps.take(k);
            let commands = safe_commands(earlier);
            if at < before.log.len() + commands.len() {
                assert(commands[at - before.log.len()] == after.log[at].0);
                a_safe_command_is_of_a_safe_step(earlier, after.log[at].0);
                let m = choose|m: int|
                    0 <= m < earlier.len() && (#[trigger] earlier[m]).tier == Tier::SafeUserspace
                        && earlier[m].command == after.log[at].0;
                assert(steps[m] == earlier[m]);
            } else {
                assert(steps[k].command == after.log[at].0);
            }
        },
    }
}

/// Taking the safe steps fails exactly where a command that was run for it failed, which is then
/// the last one.
pub proof fn a_failure_is_never_swallowed(
    steps: Seq<StepView>,
    before: Record,
    after: Record,
    result: Result<int, Seq<char>>,
)
    requires
        is_taking(steps, before, after, result),
    ensures
        result is Ok <==> forall|at: int|
            before.log.len() <= at < after.log.len() ==> (#[trigger] after.log[at]).1 is Ok,
        result matches Err(e) ==> after.log.len() > before.log.len() && after.log.last().1 == Err::<
            (),
            Seq<char>,
        >(e),
{
    match result {
        Ok(_) => {},
        Err(e) => {
            let k = choose|k: int| #[trigger] fails_at(steps, k, before, after, e);
            assert(after.log[after.log.len() - 1].1 is Err);
        },
    }
}

/// Nothing is left to remedy exactly where every primitive is `Live`.
pub proof fn nothing_to_remedy_means_all_live(reports: Seq<ReportView>)
    ensures
        prescriptions(reports).len() == 0 <==> forall|i: int|
            0 <= i < reports.len() ==> (#[trigger] reports[i]).verdict is Live,
    decreases reports.len(),
{
    if reports.len() > 0 {
        let rest = reports.drop_last();
        nothing_to_remedy_means_all_live(rest);
        a_remedy_is_due_unless_live(reports.last());
        assert(reports[reports.len() - 1] == reports.last());
        assert forall|i: int| 0 <= i < rest.len() implies #[trigger] rest[i] == reports[i] by {}
        if forall|i: int| 0 <= i < rest.len() ==> (#[trigger] rest[i]).verdict is Live {
            assert forall|i: int| 0 <= i < reports.len() - 1 implies (
            #[trigger] reports[i]).verdict is Live by {
                assert(rest[i] == reports[i]);
            }
        }
    }
}

/// What a staged memlog update calls for: first its installation, which takes `sudo` and a reboot
/// and names the staged release and the staging directory, each by what the evidence says of it
/// and by a stand-in where it says nothing, whatever it says of the other; then a way without a
/// reboot.
pub proof fn the_staged_release_is_installed(
    report: &PrimitiveReport,
    r: Option<Remediation>,
    release: Option<&str>,
    dir: Option<&str>,
)
    requires
        report.verdict is StagedNotInstalled,
        report.name@ == "memlog"@,
        call_ensures(remediation_for, (report,), r),
        call_ensures(Evidence::get, (&report.evidence, "staged_pkgrel"), release),
        call_ensures(Evidence::get, (&report.evidence, "pkg_staging_dir"), dir),
    ensures
        r is Some,
        r->0.primitive@ == "memlog"@,
        r->0.steps@.len() == 2,
        ({
            let first = r->0.steps@[0];
            let second = r->0.steps@[1];
            let number = if release is Some { release->0@ } else { "?"@ };
            let place = if dir is Some { dir->0@ } else { "~/wintermute/wintermute-kernel/pkg"@ };
            &&& first.command@ == "sudo pacman -U "@ + place + "/linux-wintermute-7.0.10.arch1-"@
                + number + "-x86_64.pkg.tar.zst"@
            &&& text::ends_with(
                first.command@,
                "/linux-wintermute-7.0.10.arch1-"@ + number + "-x86_64.pkg.tar.zst"@,
            )
            &&& first.tier is RequiresReboot
            &&& first.requires_reboot
            &&& first.rationale@ == "Install staged kernel package (pkgrel "@ + number
                + ") then reboot to activate the memlog kernel module."@
            &&& second.command@
                == "systemd-sysusers /usr/lib/sysusers.d/memlog.conf && udevadm trigger /dev/memlog && newgrp memlog"@
            &&& second.tier is SafeUserspace
            &&& !second.requires_reboot
            &&& second.rationale@
                == "No-reboot userspace path: re-apply group/udev rules so the current session gains memlog group membership without a kernel reinstall or reboot."@
        }),
{
    let view = r->0@;
    assert(view.steps.len() == r->0.steps@.len());
    assert(view.steps[0] == r->0.steps@[0]@);
    assert(view.steps[1] == r->0.steps@[1]@);
    let number = if release is Some { release->0@ } else { "?"@ };
    let place = if dir is Some { dir->0@ } else { "~/wintermute/wintermute-kernel/pkg"@ };
    let tail = "/linux-wintermute-7.0.10.arch1-"@ + number + "-x86_64.pkg.tar.zst"@;
    let command = r->0.steps@[0].command@;
    assert(command =~= "sudo pacman -U "@ + place + tail);
    assert(command.skip(command.len() - tail.len()) =~= tail);
}

/// The probe and the remedy fit together: for the report that the probe gives of a staged release
/// above the installed one, the command prescribed names that release.
pub proof fn the_prescribed_package_is_the_staged_one(
    env: &ProbeEnv,
    dev_exists: bool,
    installed: u32,
    staged: u32,
    step: MemlogStep,
    r: Option<Remediation>,
)
    requires
        staged > installed,
        call_ensures(
            MemlogProbe::begin,
            (&MemlogProbe, env, dev_exists, Some(installed), Some(staged)),
            step,
        ),
        step is Done ==> call_ensures(remediation_for, (&step->Done_0,), r),
    ensures
        step is Done,
        r is Some,
        r->0.steps@.len() == 2,
        r->0.steps@[0].command@
            == "sudo pacman -U ~/wintermute/wintermute-kernel/pkg/linux-wintermute-7.0.10.arch1-"@
            + text::decimal(staged as nat) + "-x86_64.pkg.tar.zst"@,
{
    let node = crate::paths::below(env@.dev_root, "memlog"@);
    memlog::both_releases_are_on_record(node, dev_exists, installed, staged);
    memlog::the_directory_is_not_on_record(node, dev_exists, Some(installed), Some(staged));
    let view = r->0@;
    assert(view.steps.len() == r->0.steps@.len());
    assert(view.steps[0] == r->0.steps@[0]@);
    reveal_strlit("sudo pacman -U ");
    reveal_strlit("~/wintermute/wintermute-kernel/pkg");
    reveal_strlit("/linux-wintermute-7.0.10.arch1-");
    reveal_strlit(
        "sudo pacman -U ~/wintermute/wintermute-kernel/pkg/linux-wintermute-7.0.10.arch1-",
    );
    assert("sudo pacman -U "@ + "~/wintermute/wintermute-kernel/pkg"@
        + "/linux-wintermute-7.0.10.arch1-"@
        =~= "sudo pacman -U ~/wintermute/wintermute-kernel/pkg/linux-wintermute-7.0.10.arch1-"@);
}

/// What the other states call for: nothing where the primitive is `Live`; the way without a reboot
/// for a memlog that is not activated; an explanation for an inert agentns; and for everything
/// else a pointer to the manual steps that names the primitive and its state.
pub proof fn other_states_are_explained(
    report: &PrimitiveReport,
    r: Option<Remediation>,
    name: &str,
    state: &str,
    manual: Remediation,
)
    requires
        call_ensures(remediation_for, (report,), r),
        name@ == report.name@,
        call_ensures(manual_remediation, (name, state), manual),
        state@ == verdict_state(report@.verdict),
    ensures
        r is None <==> report.verdict is Live,
        r is Some ==> r->0.primitive@ == report.name@,
        report.verdict is InstalledNotActivated && report.name@ == "memlog"@ ==> {
            let step = r->0.steps@[0];
            &&& r->0.steps@.len() == 1
            &&& step.command@
                == "systemd-sysusers /usr/lib/sysusers.d/memlog.conf && udevadm trigger /dev/memlog && newgrp memlog"@
            &&& step.tier is SafeUserspace
            &&& !step.requires_reboot
            &&& step.rationale@
                == "Re-apply group/udev rules so the current session gains memlog group membership."@
        },
        report.verdict is Inert && report.name@ == "agentns"@ ==> {
            let step = r->0.steps@[0];
            &&& r->0.steps@.len() == 1
            &&& step.command@.len() == 0
            &&& step.tier is ReportOnly
            &&& !step.requires_reboot
            &&& step.rationale@
                == "agentns is inert because the kernel module is not assigning a session UUID. There is no userspace command that can revive this: the fix is a kernel reinstall + reboot (see quicken remedy for memlog to update the kernel package)."@
        },
        !(report.verdict is Live) && !(report.name@ == "memlog"@ && (report.verdict
            is StagedNotInstalled || report.verdict is InstalledNotActivated)) && !(report.name@
            == "agentns"@ && report.verdict is Inert) ==> r->0@ == manual@,
{
    if r is Some {
        let view = r->0@;
        assert(view.steps.len() == r->0.steps@.len());
        assert(view.steps[0] == r->0.steps@[0]@);
    }
}

/// The pointer to manual steps names the primitive and its state and runs nothing.
pub proof fn manual_steps_are_pointed_to(name: &str, state: &str, r: Remediation)
    requires
        call_ensures(manual_remediation, (name, state), r),
    ensures
        r.primitive@ == name@,
        r.steps@.len() == 1,
        r.steps@[0].command@.len() == 0,
        r.steps@[0].tier is ReportOnly,
        !r.steps@[0].requires_reboot,
        r.steps@[0].rationale@ == "No automated remediation is available for primitive '"@ + name@
            + "' in state '"@ + state@ + "'. Check self-review journal for manual steps."@,
{
    assert(r@.steps.len() == r.steps@.len());
    assert(r@.steps[0] == r.steps@[0]@);
}

/// A state is worded by its variant, with the quoted text where it carries one.
pub proof fn states_are_named_by_their_variants(v: &Verdict, quoted: &str, r: String)
    requires
        call_ensures(worded_state, (v, quoted), r),
    ensures
        r@ == match *v {
            Verdict::Live => "Live"@,
            Verdict::LiveDegraded { .. } => "LiveDegraded { reason: "@ + quoted@ + " }"@,
            Verdict::StagedNotInstalled => "StagedNotInstalled"@,
            Verdict::InstalledNotActivated => "InstalledNotActivated"@,
            Verdict::Inert => "Inert"@,
            Verdict::MechanismLiveNotWired { .. } => "MechanismLiveNotWired { remediation: "@
                + quoted@ + " }"@,
            Verdict::Unknown => "Unknown"@,
        },
{
}

/// The state that a remedy speaks of is worded with the text that the verdict carries, quoted.
pub proof fn carried_text_is_quoted(v: VerdictView)
    ensures
        verdict_state(v) == match v {
            VerdictView::Live => "Live"@,
            VerdictView::LiveDegraded { reason } => "LiveDegraded { reason: "@ + debug_text(reason)
                + " }"@,
            VerdictView::StagedNotInstalled => "StagedNotInstalled"@,
            VerdictView::InstalledNotActivated => "InstalledNotActivated"@,
            VerdictView::Inert => "Inert"@,
            VerdictView::MechanismLiveNotWired { remediation } =>
                "MechanismLiveNotWired { remediation: "@ + debug_text(remediation) + " }"@,
            VerdictView::Unknown => "Unknown"@,
        },
{
}

/// One more report adds its remedy at the end, if it has one; without reports there is none.
pub proof fn remedies_come_in_the_order_of_reports(
    reports: &[PrimitiveReport],
    longer: &[PrimitiveReport],
    report: PrimitiveReport,
    r: Vec<Remediation>,
    s: Vec<Remediation>,
    one: Option<Remediation>,
)
    requires
        text::views(longer@) == text::views(reports@).push(report@),
        call_ensures(remediations, (reports,), r),
        call_ensures(remediations, (longer,), s),
        call_ensures(remediation_for, (&report,), one),
    ensures
        reports@.len() == 0 ==> r@.len() == 0,
        text::views(s@) == match one {
            Some(rem) => text::views(r@).push(rem@),
            None => text::views(r@),
        },
{
    assert(text::views(longer@).drop_last() =~= text::views(reports@));
    assert(text::views(r@).len() == r@.len());
}

/// Steps are taken only where that is asked for, there is something to do and no JSON is wanted.
pub proof fn steps_are_taken_only_where_asked_for(
    count: usize,
    apply: bool,
    json: bool,
    r: RemedyMode,
)
    requires
        call_ensures(remedy_mode, (count, apply, json), r),
    ensures
        r is NothingToDo <==> count == 0,
        r is GiveJson <==> count > 0 && json,
        r is TakeSafeSteps <==> count > 0 && !json && apply,
        r is ListSteps <==> count > 0 && !json && !apply,
{
}

/// Every tier has a word of its own.
pub proof fn tiers_have_words(tier: &Tier, r: &str)
    requires
        call_ensures(tier_label, (tier,), r),
    ensures
        r@ == match *tier {
            Tier::SafeUserspace => "safe-userspace"@,
            Tier::RequiresSudo => "requires-sudo"@,
            Tier::RequiresReboot => "requires-reboot"@,
            Tier::ReportOnly => "report-only"@,
        },
{
}

proof fn safe_commands_are_filtered(steps: Seq<StepView>)
    ensures
        safe_commands(steps) == steps.filter(
            |s: StepView| s.tier == Tier::SafeUserspace,
        ).map_values(|s: StepView| s.command),
    decreases steps.len(),
{
    reveal(Seq::filter);
    let safe = |s: StepView| s.tier == Tier::SafeUserspace;
    let command = |s: StepView| s.command;
    if steps.len() > 0 {
        let rest = steps.drop_last();
        let last = steps.last();
        safe_commands_are_filtered(rest);
        assert(rest.filter(safe).push(last).map_values(command) =~= rest.filter(safe).map_values(
            command,
        ).push(last.command));
    } else {
        assert(steps.filter(safe).map_values(command) =~= Seq::empty());
    }
}

/// What is printed of a step that is not taken: its tier and command where it has one, and why it
/// is there; nothing is printed of a safe step.
pub open spec fn told_of(s: StepView) -> Seq<Seq<char>> {
    let note = "  note: "@ + s.rationale;
    let word = match s.tier {
        Tier::SafeUserspace => Seq::empty(),
        Tier::RequiresSudo => "requires-sudo"@,
        Tier::RequiresReboot => "requires-reboot"@,
        Tier::ReportOnly => "report-only"@,
    };
    if s.tier == Tier::SafeUserspace {
        Seq::empty()
    } else if s.command == Seq::<char>::empty() {
        seq![note]
    } else {
        seq!["[skip — "@ + word + "] "@ + s.command, note]
    }
}

proof fn skipped_lines_are_flat(steps: Seq<StepView>)
    ensures
        skipped_lines(steps) == steps.map_values(|s: StepView| told_of(s)).flatten(),
    decreases steps.len(),
{
    let told = steps.map_values(|s: StepView| told_of(s));
    if steps.len() > 0 {
        let rest = steps.drop_last();
        let last = steps.last();
        skipped_lines_are_flat(rest);
        if last.command.len() == 0 {
            assert(last.command =~= Seq::empty());
        }
        assert(told =~= rest.map_values(|s: StepView| told_of(s)).push(told_of(last)));
        rest.map_values(|s: StepView| told_of(s)).lemma_flatten_push(told_of(last));
        assert(skipped_lines(steps) =~= skipped_lines(rest) + told_of(last));
    } else {
        assert(told =~= Seq::empty());
        assert(told.flatten() =~= Seq::empty());
    }
}

/// Where all goes well, the executor has run the commands of the safe steps, each once and in
/// order, and nothing else, every other step was printed, and the safe steps are counted.
pub proof fn exactly_the_safe_steps_are_taken<E: CommandExecutor>(
    rem: &Remediation,
    executor: &mut E,
    r: Result<usize, String>,
)
    requires
        call_ensures(apply_safe_steps::<E>, (rem, executor), r),
        r is Ok,
    ensures
        ({
            let safe = rem@.steps.filter(|s: StepView| s.tier == Tier::SafeUserspace);
            &&& r->Ok_0 == safe.len()
            &&& final(executor).log() == old(executor).log() + safe.map_values(
                |s: StepView| (s.command, Ok::<(), Seq<char>>(())),
            )
            &&& final(executor).shown() == old(executor).shown() + rem@.steps.map_values(
                |s: StepView| told_of(s),
            ).flatten()
        }),
{
    let steps = rem@.steps;
    safe_commands_are_filtered(steps);
    skipped_lines_are_flat(steps);
    let safe = steps.filter(|s: StepView| s.tier == Tier::SafeUserspace);
    assert(all_succeed(safe_commands(steps)) =~= safe.map_values(
        |s: StepView| (s.command, Ok::<(), Seq<char>>(())),
    ));
}

/// Where a command fails, it is that of a safe step, every safe step before it was run with
/// success and in order, nothing comes after it, and its error is handed on.
pub proof fn a_failing_step_is_the_last<E: CommandExecutor>(
    rem: &Remediation,
    executor: &mut E,
    r: Result<usize, String>,
)
    requires
        call_ensures(apply_safe_steps::<E>, (rem, executor), r),
        r is Err,
    ensures
        exists|k: int|
            0 <= k < rem@.steps.len() && (#[trigger] rem@.steps[k]).tier == Tier::SafeUserspace
                && final(executor).log() == old(executor).log() + rem@.steps.take(k).filter(
                |s: StepView| s.tier == Tier::SafeUserspace,
            ).map_values(|s: StepView| (s.command, Ok::<(), Seq<char>>(()))).push(
                (rem@.steps[k].command, Err::<(), Seq<char>>(r->Err_0@)),
            ) && final(executor).shown() == old(executor).shown() + rem@.steps.take(k).map_values(
                |s: StepView| told_of(s),
            ).flatten(),
{
    let steps = rem@.steps;
    let before = record(*old(executor));
    let after = record(*final(executor));
    let e = r->Err_0@;
    let k = choose|k: int| #[trigger] fails_at(steps, k, before, after, e);
    let earlier = steps.take(k);
    safe_commands_are_filtered(earlier);
    skipped_lines_are_flat(earlier);
    let safe = earlier.filter(|s: StepView| s.tier == Tier::SafeUserspace);
    let ran = safe.map_values(|s: StepView| (s.command, Ok::<(), Seq<char>>(())));
    assert(all_succeed(safe_commands(earlier)) =~= ran);
    assert(final(executor).log() =~= old(executor).log() + ran.push(
        (steps[k].command, Err::<(), Seq<char>>(e)),
    ));
    assert(steps[k].tier == Tier::SafeUserspace);
}

/// Where all goes well, the remedies are taken one after another, each under its heading and with
/// the number of its safe steps behind it.
pub proof fn remedies_are_taken_one_by_one<E: CommandExecutor>(
    all: &[Remediation],
    list: &[Remediation],
    last: Remediation,
    executor: &mut E,
    shorter: &mut E,
    r: Result<Vec<usize>, String>,
    s: Result<Vec<usize>, String>,
)
    requires
        text::views(all@) == text::views(list@).push(last@),
        call_ensures(apply_remedies::<E>, (all, executor), r),
        call_ensures(apply_remedies::<E>, (list, shorter), s),
        record(*old(executor)) == record(*old(shorter)),
        r is Ok,
        s is Ok,
    ensures
        list@.len() == 0 ==> s->Ok_0@.len() == 0 && final(shorter).log() == old(shorter).log()
            && final(shorter).shown() == old(shorter).shown(),
        ({
            let safe = last@.steps.filter(|s: StepView| s.tier == Tier::SafeUserspace);
            &&& r->Ok_0@ == s->Ok_0@.push(safe.len() as usize)
            &&& final(executor).log() == final(shorter).log() + safe.map_values(
                |s: StepView| (s.command, Ok::<(), Seq<char>>(())),
            )
            &&& final(executor).shown() == final(shorter).shown() + seq![
                Seq::empty(),
                "=== Remediation: "@ + last.primitive@ + " ==="@,
            ] + last@.steps.map_values(|s: StepView| told_of(s)).flatten() + seq![
                "  "@ + text::decimal(safe.len()) + " SafeUserspace step(s) applied."@,
            ]
        }),
{
    let steps = last@.steps;
    safe_commands_are_filtered(steps);
    skipped_lines_are_flat(steps);
    let safe = steps.filter(|s: StepView| s.tier == Tier::SafeUserspace);
    let views = text::views(all@);
    assert(views.drop_last() =~= text::views(list@));
    assert(views.last() == last@);
    if list@.len() == 0 {
        assert(final(shorter).log() =~= old(shorter).log());
        assert(final(shorter).shown() =~= old(shorter).shown());
    }
    assert(all_succeed(safe_commands(steps)) =~= safe.map_values(
        |s: StepView| (s.command, Ok::<(), Seq<char>>(())),
    ));
    assert(final(executor).log() =~= final(shorter).log() + all_succeed(safe_commands(steps)));
    assert(final(executor).shown() =~= final(shorter).shown() + seq![
        Seq::empty(),
        "=== Remediation: "@ + last.primitive@ + " ==="@,
    ] + skipped_lines(steps) + seq![
        "  "@ + text::decimal(safe.len()) + " SafeUserspace step(s) applied."@,
    ]);
    let counts = r->Ok_0@;
    let before = s->Ok_0@;
    assert forall|i: int| 0 <= i < before.len() implies #[trigger] counts[i] == before[i] by {
        assert(views[i] == text::views(list@)[i]);
    }
    assert(views[before.len() as int] == last@);
    assert(counts[before.len() as int] == safe.len());
    assert(counts =~= before.push(safe.len() as usize));
}

/// Where a remedy fails, those before it were taken, it is told of by its name and error, and
/// nothing comes after it.
pub proof fn a_failing_remedy_is_the_last<E: CommandExecutor>(
    list: &[Remediation],
    executor: &mut E,
    r: Result<Vec<usize>, String>,
)
    requires
        call_ensures(apply_remedies::<E>, (list, executor), r),
        r is Err,
    ensures
        final(executor).log().len() > old(executor).log().len(),
        final(executor).log().last().1 is Err,
        exists|j: int|
            0 <= j < list@.len() && r->Err_0@ == "remedy apply failed for '"@
                + (#[trigger] list@[j]).primitive@ + "': "@ + final(executor).log().last().1->Err_0,
        forall|i: int|
            old(executor).log().len() <= i < final(executor).log().len() - 1 ==> (
            #[trigger] final(executor).log()[i]).1 is Ok,
{
    let all = text::views(list@);
    let before = record(*old(executor));
    let after = record(*final(executor));
    let (j, e) = choose|j: int, e: Seq<char>| #[trigger]
        stops_at(all, j, before, after, e) && r->Err_0@ == failure_text(all[j].primitive, e);
    let mid = before.grown(
        all_safe_commands(all.take(j)),
        all_lines(all.take(j)) + heading_lines(all[j].primitive),
    );
    let failure: Result<int, Seq<char>> = Err(e);
    let k = choose|k: int| #[trigger] fails_at(all[j].steps, k, mid, after, failure->Err_0);
    assert(all[j] == list@[j]@);
    assert(list@[j].primitive@ == all[j].primitive);
    assert(after.log.last().1->Err_0 == e);
}

} // verus!
