//! Consecutive dark boots: counting and severity wording.

use vstd::prelude::*;

use crate::delta;
use crate::receipt::{Receipt, ReceiptView};
use crate::report::{PrimitiveReport, ReportView};
use crate::text;
use crate::verdict::Verdict;

verus! {

/// Streak information of a single primitive.
#[derive(Debug, Clone, PartialEq, Eq)]
pub struct StreakInfo {
    /// Number of consecutive distinct boots in which the primitive was worse than `LiveDegraded`.
    pub inert_streak: u32,
    /// Human-readable severity.
    pub severity: String,
}

/// The severity wording of a streak: the longer, the louder.
pub open spec fn severity(streak: int) -> Seq<char> {
    if streak <= 0 {
        Seq::empty()
    } else if streak <= 2 {
        "dark"@
    } else if streak <= 6 {
        "dark for "@ + text::decimal(streak as nat) + " boots"@
    } else {
        "DARK FOR "@ + text::decimal(streak as nat) + " BOOTS — needs attention"@
    }
}

/// Whether a receipt shows the primitive, and shows it worse than `LiveDegraded`.
pub open spec fn dark_in(r: ReceiptView, name: Seq<char>) -> bool {
    match delta::report_named(r.reports, name) {
        Some(report) => !report.verdict.acceptable(),
        None => false,
    }
}

/// Dark boots at the end of `history` (oldest first), not counting the boots in `seen`.
///
/// A boot is judged by its last receipt; the count ends at the first boot that was not dark.
pub open spec fn dark_boots(
    history: Seq<ReceiptView>,
    name: Seq<char>,
    seen: Set<Seq<char>>,
) -> nat
    decreases history.len(),
{
    if history.len() == 0 {
        0
    } else {
        let r = history.last();
        if seen.contains(r.boot_id) {
            dark_boots(history.drop_last(), name, seen)
        } else if dark_in(r, name) {
            1 + dark_boots(history.drop_last(), name, seen.insert(r.boot_id))
        } else {
            0
        }
    }
}

/// The number of consecutive distinct boots, up to the last, in which the primitive was dark.
pub open spec fn inert_streak(history: Seq<ReceiptView>, name: Seq<char>) -> nat {
    dark_boots(history, name, Set::empty())
}

/// Whether the inert streak of a primitive can be counted in 32 bits.
///
/// No streak is longer than its history, so every history of up to `u32::MAX` receipts is fine.
pub open spec fn countable(history: Seq<ReceiptView>, name: Seq<char>) -> bool {
    history.len() <= u32::MAX || inert_streak(history, name) <= u32::MAX
}

/// Whether `streaks` holds, for each report in order, its name, its inert streak in `history` and
/// the wording of that.
pub open spec fn are_streaks(
    streaks: Seq<(String, StreakInfo)>,
    reports: Seq<ReportView>,
    history: Seq<ReceiptView>,
) -> bool {
    &&& streaks.len() == reports.len()
    &&& forall|i: int|
        0 <= i < streaks.len() ==> {
            let n = inert_streak(history, reports[i].name);
            &&& (#[trigger] streaks[i]).0@ == reports[i].name
            &&& streaks[i].1.inert_streak == n
            &&& streaks[i].1.severity@ == severity(n as int)
        }
}

proof fn streaks_fit_in_their_history(
    history: Seq<ReceiptView>,
    name: Seq<char>,
    seen: Set<Seq<char>>,
)
    ensures
        dark_boots(history, name, seen) <= history.len(),
    decreases history.len(),
{
    if history.len() > 0 {
        let rest = history.drop_last();
        streaks_fit_in_their_history(rest, name, seen);
        streaks_fit_in_their_history(rest, name, seen.insert(history.last().boot_id));
    }
}

/// The severity wording of a streak.
///
/// Nothing for 0, `dark` for 1 and 2, `dark for N boots` up to 6, and from 7 on
/// `DARK FOR N BOOTS — needs attention`.
#[must_use]
pub fn streak_band(streak: u32) -> (r: String)
    ensures
        r@ == severity(streak as int),
{
    if streak == 0 {
        String::new()
    } else if streak <= 2 {
        "dark".to_owned()
    } else if streak <= 6 {
        let mut r: String = "dark for ".to_owned();
        r.append(text::decimal_text(streak as u64).as_str());
        r.append(" boots");
        r
    } else {
        let mut r: String = "DARK FOR ".to_owned();
        r.append(text::decimal_text(streak as u64).as_str());
        r.append(" BOOTS — needs attention");
        r
    }
}

/// Whether a verdict is worse than `LiveDegraded`.
fn is_streak_dark(verdict: &Verdict) -> (r: bool)
    ensures
        r == !verdict@.acceptable(),
{
    !verdict.is_acceptable()
}

/// Whether one of the texts in `list` is `s`.
fn contains_text(list: &Vec<String>, s: &str) -> (r: bool)
    ensures
        r == text::views(list@).contains(s@),
{
    let mut i: usize = 0;
    while i < list.len()
        invariant
            i <= list.len(),
            forall|j: int| 0 <= j < i ==> (#[trigger] list@[j])@ != s@,
        decreases list.len() - i,
    {
        if text::same(list[i].as_str(), s) {
            assert(text::views(list@)[i as int] == s@);
            return true;
        }
        i += 1;
    }
    assert(!text::views(list@).contains(s@)) by {
        if text::views(list@).contains(s@) {
            let j = choose|j: int| 0 <= j < list@.len() && text::views(list@)[j] == s@;
            assert(list@[j]@ == s@);
        }
    }
    false
}

/// The inert streak of `name` over the history, oldest first.
#[must_use]
pub fn inert_streak_for(name: &str, history: &[Receipt]) -> (r: u32)
    requires
        countable(text::views(history@), name@),
    ensures
        r == inert_streak(text::views(history@), name@),
{
    proof {
        streaks_fit_in_their_history(text::views(history@), name@, Set::empty());
    }
    let ghost all = text::views(history@);
    let mut seen: Vec<String> = Vec::new();
    let mut streak: u32 = 0;
    let mut i: usize = history.len();
    assert(all.take(all.len() as int) =~= all);
    assert(text::views(seen@).to_set() =~= Set::empty());
    while i > 0
        invariant
            all == text::views(history@),
            inert_streak(all, name@) <= u32::MAX,
            i <= history.len(),
            inert_streak(all, name@) == streak + dark_boots(
                all.take(i as int),
                name@,
                text::views(seen@).to_set(),
            ),
        decreases i,
    {
        let receipt: &Receipt = &history[i - 1];
        proof {
            assert(all.take(i as int).last() == receipt@);
            assert(all.take(i as int).drop_last() =~= all.take(i - 1));
        }
        if !contains_text(&seen, receipt.boot_id.as_str()) {
            let dark: bool = match delta::find_report(receipt.reports.as_slice(), name) {
                Some(report) => is_streak_dark(&report.verdict),
                None => false,
            };
            if !dark {
                return streak;
            }
            let ghost before = text::views(seen@);
            seen.push(receipt.boot_id.clone());
            proof {
                assert(text::views(seen@) =~= before.push(receipt.boot_id@));
                assert(text::views(seen@).to_set() =~= before.to_set().insert(receipt.boot_id@)) by {
                    assert forall|b: Seq<char>|
                        before.to_set().insert(receipt.boot_id@).contains(
                            b,
                        ) implies text::views(seen@).to_set().contains(b) by {
                        if b == receipt.boot_id@ {
                            assert(text::views(seen@)[before.len() as int] == b);
                        } else {
                            let j = choose|j: int| 0 <= j < before.len() && before[j] == b;
                            assert(text::views(seen@)[j] == b);
                        }
                    }
                }
            }
            streak += 1;
        }
        i -= 1;
    }
    streak
}

/// Inert streaks of each current primitive, from the full receipt history, oldest first.
///
/// Several receipts of the same boot count as one boot, judged by the last of them.
#[must_use]
pub fn compute_streaks(current: &[PrimitiveReport], history: &[Receipt]) -> (r: Vec<
    (String, StreakInfo),
>)
    requires
        forall|i: int|
            0 <= i < current@.len() ==> countable(
                text::views(history@),
                (#[trigger] current@[i]).name@,
            ),
    ensures
        are_streaks(r@, text::views(current@), text::views(history@)),
{
    let mut r: Vec<(String, StreakInfo)> = Vec::new();
    let mut i: usize = 0;
    while i < current.len()
        invariant
            forall|j: int|
                0 <= j < current@.len() ==> countable(
                    text::views(history@),
                    (#[trigger] current@[j]).name@,
                ),
            i <= current.len(),
            r.len() == i,
            forall|j: int|
                0 <= j < i ==> {
                    let streak = inert_streak(text::views(history@), current@[j].name@);
                    &&& (#[trigger] r@[j]).0@ == current@[j].name@
                    &&& r@[j].1.inert_streak == streak
                    &&& r@[j].1.severity@ == severity(streak as int)
                },
        decreases current.len() - i,
    {
        let streak: u32 = inert_streak_for(current[i].name.as_str(), history);
        let info: StreakInfo = StreakInfo { inert_streak: streak, severity: streak_band(streak) };
        r.push((current[i].name.clone(), info));
        i += 1;
    }
    r
}

// ---------------------------------------------------------------------------
// Laws
// ---------------------------------------------------------------------------

/// The boots that a history knows.
pub open spec fn boots(history: Seq<ReceiptView>) -> Set<Seq<char>>
    decreases history.len(),
{
    if history.len() == 0 {
        Set::empty()
    } else {
        boots(history.drop_last()).insert(history.last().boot_id)
    }
}

/// Whether a history holds a receipt of a boot.
pub open spec fn knows(history: Seq<ReceiptView>, boot_id: Seq<char>) -> bool {
    exists|i: int| 0 <= i < history.len() && (#[trigger] history[i]).boot_id == boot_id
}

proof fn unknown_boot_is_irrelevant(
    history: Seq<ReceiptView>,
    name: Seq<char>,
    seen: Set<Seq<char>>,
    boot_id: Seq<char>,
)
    requires
        !knows(history, boot_id),
    ensures
        dark_boots(history, name, seen.insert(boot_id)) == dark_boots(history, name, seen),
    decreases history.len(),
{
    if history.len() > 0 {
        let r = history.last();
        let rest = history.drop_last();
        assert(history[history.len() - 1].boot_id != boot_id);
        assert forall|i: int| 0 <= i < rest.len() implies (#[trigger] rest[i]).boot_id
            != boot_id by {
            assert(rest[i] == history[i]);
        }
        unknown_boot_is_irrelevant(rest, name, seen, boot_id);
        unknown_boot_is_irrelevant(rest, name, seen.insert(r.boot_id), boot_id);
        assert(seen.insert(boot_id).insert(r.boot_id) =~= seen.insert(r.boot_id).insert(boot_id));
    }
}

/// One more boot in which the primitive is dark makes its streak longer by one.
pub proof fn a_dark_boot_lengthens_the_streak(
    history: Seq<ReceiptView>,
    r: ReceiptView,
    name: Seq<char>,
)
    requires
        dark_in(r, name),
        !knows(history, r.boot_id),
    ensures
        inert_streak(history.push(r), name) == inert_streak(history, name) + 1,
{
    assert(history.push(r).drop_last() =~= history);
    unknown_boot_is_irrelevant(history, name, Set::empty(), r.boot_id);
}

/// A receipt that does not show the primitive dark ends its streak.
pub proof fn a_bright_receipt_ends_the_streak(
    history: Seq<ReceiptView>,
    r: ReceiptView,
    name: Seq<char>,
)
    requires
        !dark_in(r, name),
    ensures
        inert_streak(history.push(r), name) == 0,
{
}

/// A receipt of a new boot decides the streak: one more where the primitive is dark in it, and
/// none where it is not.
pub proof fn a_new_boot_decides_the_streak(
    history: Seq<ReceiptView>,
    r: ReceiptView,
    name: Seq<char>,
)
    requires
        !knows(history, r.boot_id),
    ensures
        inert_streak(history.push(r), name) == if dark_in(r, name) {
            inert_streak(history, name) + 1
        } else {
            0
        },
{
    if dark_in(r, name) {
        a_dark_boot_lengthens_the_streak(history, r, name);
    } else {
        a_bright_receipt_ends_the_streak(history, r, name);
    }
}

/// Streaks are those of the history: reports with the same names have the same ones, whatever
/// their verdicts are now.
pub proof fn streaks_rest_on_names_alone(
    a: Seq<(String, StreakInfo)>,
    b: Seq<(String, StreakInfo)>,
    x: Seq<ReportView>,
    y: Seq<ReportView>,
    history: Seq<ReceiptView>,
)
    requires
        are_streaks(a, x, history),
        are_streaks(b, y, history),
        x.len() == y.len(),
        forall|i: int| 0 <= i < x.len() ==> (#[trigger] x[i]).name == y[i].name,
    ensures
        a.len() == b.len(),
        forall|i: int|
            0 <= i < a.len() ==> {
                &&& (#[trigger] a[i]).0@ == b[i].0@
                &&& a[i].1.inert_streak == b[i].1.inert_streak
                &&& a[i].1.severity@ == b[i].1.severity@
            },
{
    assert forall|i: int| 0 <= i < a.len() implies {
        &&& (#[trigger] a[i]).0@ == b[i].0@
        &&& a[i].1.inert_streak == b[i].1.inert_streak
        &&& a[i].1.severity@ == b[i].1.severity@
    } by {
        assert(x[i].name == y[i].name);
    }
}

/// Of several receipts of one boot in a row, only the last matters.
pub proof fn receipts_of_one_boot_count_once(
    history: Seq<ReceiptView>,
    earlier: ReceiptView,
    later: ReceiptView,
    name: Seq<char>,
)
    requires
        earlier.boot_id == later.boot_id,
    ensures
        inert_streak(history.push(earlier).push(later), name) == inert_streak(
            history.push(later),
            name,
        ),
{
    assert(history.push(earlier).push(later).drop_last() =~= history.push(earlier));
    assert(history.push(earlier).drop_last() =~= history);
    assert(history.push(later).drop_last() =~= history);
    if dark_in(later, name) {
        let seen = Set::<Seq<char>>::empty().insert(later.boot_id);
        assert(dark_boots(history.push(earlier), name, seen) == dark_boots(history, name, seen));
    }
}

proof fn dark_boots_are_boots(history: Seq<ReceiptView>, name: Seq<char>, seen: Set<Seq<char>>)
    ensures
        boots(history).finite(),
        dark_boots(history, name, seen) <= boots(history).difference(seen).len(),
    decreases history.len(),
{
    if history.len() > 0 {
        let r = history.last();
        let rest = history.drop_last();
        dark_boots_are_boots(rest, name, seen);
        dark_boots_are_boots(rest, name, seen.insert(r.boot_id));
        let all = boots(history).difference(seen);
        vstd::set_lib::lemma_len_subset(boots(rest).difference(seen), all);
        if !seen.contains(r.boot_id) {
            assert(all.remove(r.boot_id) =~= boots(rest).difference(seen.insert(r.boot_id)));
        }
    }
}

/// A streak counts boots, not receipts: it is never longer than the number of distinct boots.
pub proof fn a_streak_counts_distinct_boots(history: Seq<ReceiptView>, name: Seq<char>)
    ensures
        inert_streak(history, name) <= boots(history).len(),
{
    dark_boots_are_boots(history, name, Set::empty());
    assert(boots(history).difference(Set::empty()) =~= boots(history));
}

/// A primitive that the last receipt does not show has no streak.
pub proof fn an_unseen_primitive_has_no_streak(history: Seq<ReceiptView>, name: Seq<char>)
    requires
        history.len() > 0 ==> delta::report_named(history.last().reports, name) is None,
    ensures
        inert_streak(history, name) == 0,
{
}

/// A streak that grows gets another wording, save that one and two dark boots are worded alike.
pub proof fn longer_streaks_are_worded_differently(a: u32, b: u32)
    ensures
        severity(a as int) == severity(b as int) <==> a == b || (1 <= a <= 2 && 1 <= b <= 2),
{
    reveal_strlit("dark");
    reveal_strlit("dark for ");
    reveal_strlit(" boots");
    reveal_strlit("DARK FOR ");
    reveal_strlit(" BOOTS — needs attention");
    let s = severity(a as int);
    let t = severity(b as int);
    if s == t && a != b && !(1 <= a <= 2 && 1 <= b <= 2) {
        if a >= 3 && b >= 3 {
            let x = text::decimal(a as nat);
            let y = text::decimal(b as nat);
            assert(s[0] == t[0]);
            let tail = if a <= 6 { " boots"@.len() } else { " BOOTS — needs attention"@.len() };
            assert(x =~= s.subrange(9, s.len() - tail));
            assert(y =~= t.subrange(9, t.len() - tail));
            text::decimals_differ(a as nat, b as nat);
        } else {
            assert(s.len() == t.len());
            if s.len() > 0 {
                assert(s[0] == t[0]);
            }
        }
        assert(false);
    }
}

/// A receipt of a boot that has a later receipt does not matter, wherever the two stand.
pub proof fn only_the_last_receipt_of_a_boot_matters(
    name: &str,
    history: &[Receipt],
    shorter: &[Receipt],
    i: int,
    j: int,
    n: u32,
    m: u32,
)
    requires
        0 <= i < j < history@.len(),
        history@[i].boot_id@ == history@[j].boot_id@,
        text::views(shorter@) == text::views(history@).remove(i),
        call_ensures(inert_streak_for, (name, history), n),
        call_ensures(inert_streak_for, (name, shorter), m),
    ensures
        n == m,
{
    let all = text::views(history@);
    assert(all[i].boot_id == all[j].boot_id);
    earlier_receipts_do_not_matter(all, name@, Set::empty(), i);
}

proof fn earlier_receipts_do_not_matter(
    history: Seq<ReceiptView>,
    name: Seq<char>,
    seen: Set<Seq<char>>,
    i: int,
)
    requires
        0 <= i < history.len(),
        seen.contains(history[i].boot_id) || exists|j: int|
            i < j < history.len() && (#[trigger] history[j]).boot_id == history[i].boot_id,
    ensures
        dark_boots(history.remove(i), name, seen) == dark_boots(history, name, seen),
    decreases history.len(),
{
    let rest = history.drop_last();
    let r = history.last();
    if i == history.len() - 1 {
        assert(history.remove(i) =~= rest);
    } else {
        assert(history.remove(i).last() == r);
        assert(history.remove(i).drop_last() =~= rest.remove(i));
        assert(rest[i] == history[i]);
        if !seen.contains(history[i].boot_id) {
            let j = choose|j: int|
                i < j < history.len() && (#[trigger] history[j]).boot_id == history[i].boot_id;
            if j < rest.len() {
                assert(rest[j].boot_id == rest[i].boot_id);
            } else {
                assert(r.boot_id == history[i].boot_id);
            }
        }
        if seen.contains(r.boot_id) {
            earlier_receipts_do_not_matter(rest, name, seen, i);
        } else if dark_in(r, name) {
            earlier_receipts_do_not_matter(rest, name, seen.insert(r.boot_id), i);
        }
    }
}

/// A receipt of a boot that the history does not know lengthens the streak by one where its first
/// report of the primitive is neither `Live` nor `LiveDegraded`, and ends it where that report is
/// one of the two or there is none. Without receipts there is no streak.
pub proof fn every_verdict_below_degraded_is_dark(
    name: &str,
    history: &[Receipt],
    longer: &[Receipt],
    r: Receipt,
    i: int,
    n: u32,
    m: u32,
)
    requires
        text::views(longer@) == text::views(history@).push(r@),
        forall|k: int|
            0 <= k < history@.len() ==> (#[trigger] history@[k]).boot_id@ != r.boot_id@,
        0 <= i <= r.reports@.len(),
        forall|k: int| 0 <= k < i ==> (#[trigger] r.reports@[k]).name@ != name@,
        i < r.reports@.len() ==> r.reports@[i].name@ == name@,
        call_ensures(inert_streak_for, (name, history), n),
        call_ensures(inert_streak_for, (name, longer), m),
    ensures
        history@.len() == 0 ==> n == 0,
        i == r.reports@.len() ==> m == 0,
        i < r.reports@.len() ==> match r.reports@[i].verdict {
            Verdict::Live => m == 0,
            Verdict::LiveDegraded { .. } => m == 0,
            Verdict::StagedNotInstalled => m == n + 1,
            Verdict::InstalledNotActivated => m == n + 1,
            Verdict::Inert => m == n + 1,
            Verdict::MechanismLiveNotWired { .. } => m == n + 1,
            Verdict::Unknown => m == n + 1,
        },
{
    let all = text::views(history@);
    let reports = r@.reports;
    assert forall|k: int| 0 <= k < all.len() implies (#[trigger] all[k]).boot_id != r@.boot_id by {
        assert(history@[k].boot_id@ != r.boot_id@);
    }
    assert(!knows(all, r@.boot_id));
    a_new_boot_decides_the_streak(all, r@, name@);
    assert forall|k: int| 0 <= k < i implies (#[trigger] reports[k]).name != name@ by {
        assert(r.reports@[k].name@ != name@);
    }
    if i < r.reports@.len() {
        assert(reports[i] == r.reports@[i]@);
        delta::the_first_report_counts(reports, i);
    } else {
        delta::unnamed_is_not_found(reports, name@);
    }
}

/// A streak is worded by its length: not at all, `dark` up to two boots, with the number of boots
/// up to six, and in capitals and with a call for attention from the seventh on.
pub proof fn streaks_get_louder(streak: u32, r: String)
    requires
        call_ensures(streak_band, (streak,), r),
    ensures
        r@ == severity(streak as int),
        streak == 0 <==> r@.len() == 0,
        1 <= streak <= 2 ==> r@ == "dark"@,
        3 <= streak <= 6 ==> r@ == "dark for "@ + text::decimal(streak as nat) + " boots"@,
        streak >= 7 ==> r@ == "DARK FOR "@ + text::decimal(streak as nat)
            + " BOOTS — needs attention"@,
{
    reveal_strlit("dark");
    reveal_strlit("dark for ");
    reveal_strlit("DARK FOR ");
}

/// Every current report has its streak, counted over the history by its name, with the wording of
/// that streak.
pub proof fn every_report_has_its_streak(
    current: &[PrimitiveReport],
    history: &[Receipt],
    r: Vec<(String, StreakInfo)>,
    i: int,
    name: &str,
    n: u32,
    words: String,
)
    requires
        call_ensures(compute_streaks, (current, history), r),
        0 <= i < current@.len(),
        name@ == current@[i].name@,
        call_ensures(inert_streak_for, (name, history), n),
        call_ensures(streak_band, (n,), words),
    ensures
        r@.len() == current@.len(),
        r@[i].0@ == current@[i].name@,
        r@[i].1.inert_streak == n,
        r@[i].1.severity@ == words@,
{
    assert(text::views(current@)[i] == current@[i]@);
    assert(r@[i].0@ == current@[i].name@);
}

} // verus!
