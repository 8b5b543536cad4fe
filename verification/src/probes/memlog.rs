//! `MemlogProbe`: whether the memlog device can be written to, or an update waits for it.

use vstd::prelude::*;

use crate::env::ProbeEnv;
use crate::evidence::{self, Evidence, EvidenceView};
use crate::paths;
use crate::report::{PrimitiveReport, ReportView};
use crate::split;
use crate::text;
use crate::verdict::{Verdict, VerdictView};

verus! {

/// Probe for the memlog device.
#[derive(Debug, Clone, Copy)]
pub struct MemlogProbe;

/// An entry of the package manager's local database.
#[derive(Debug)]
pub struct PackageEntry {
    /// The entry's name, such as `linux-wintermute-6.8-5`.
    pub name: String,
    /// The content of its `desc` file, where it can be read.
    pub desc: Option<String>,
}

/// What is known of the device node.
#[derive(Debug)]
pub struct DeviceInfo {
    /// The file mode.
    pub mode: u32,
    /// The group that owns the node.
    pub gid: u32,
    /// The status of the current process, where it can be read.
    pub process_status: Option<String>,
}

/// What comes of the first step of the probe.
#[derive(Debug)]
pub enum MemlogStep {
    /// The report is complete.
    Done(PrimitiveReport),
    /// The device node has to be looked at. The evidence so far is carried on.
    InspectDevice(Evidence),
}

// ---------------------------------------------------------------------------
// Package releases
// ---------------------------------------------------------------------------

/// The release in `<version>-<release>-<arch>`: what stands before the last dash, back to the
/// dash before it.
pub open spec fn release_field(inner: Seq<char>) -> Option<Seq<char>> {
    let last = split::last_index(inner, '-');
    if last < 0 {
        None
    } else {
        let front = inner.take(last);
        Some(front.skip(split::last_index(front, '-') + 1))
    }
}

/// The release that a package file is named after.
pub open spec fn file_release(name: Seq<char>) -> Option<u32> {
    let prefix = "linux-wintermute-"@;
    let suffix = ".pkg.tar.zst"@;
    if !text::starts_with(name, prefix) {
        None
    } else {
        let rest = name.skip(prefix.len() as int);
        if !text::ends_with(rest, suffix) {
            None
        } else {
            match release_field(rest.take(rest.len() - suffix.len())) {
                Some(field) => text::parse_u32(field),
                None => None,
            }
        }
    }
}

/// The highest release among the package files, if there is one.
pub open spec fn highest_release(names: Seq<Seq<char>>) -> Option<u32>
    decreases names.len(),
{
    if names.len() == 0 {
        None
    } else {
        let before = highest_release(names.drop_last());
        match (before, file_release(names.last())) {
            (Some(a), Some(b)) => Some(if a >= b { a } else { b }),
            (None, Some(b)) => Some(b),
            (a, None) => a,
        }
    }
}

/// The release on the line after the first `%PKGREL%`.
pub open spec fn desc_release(lines: Seq<Seq<char>>) -> Option<u32>
    decreases lines.len(),
{
    if lines.len() == 0 {
        None
    } else if text::trim(lines[0]) == "%PKGREL%"@ {
        if lines.len() == 1 {
            None
        } else {
            text::parse_u32(text::trim(lines[1]))
        }
    } else {
        desc_release(lines.drop_first())
    }
}

/// The release that an entry of the database records.
pub open spec fn entry_release(e: PackageEntry) -> Option<u32> {
    if text::starts_with(e.name@, "linux-wintermute-"@) {
        match e.desc {
            Some(desc) => desc_release(split::lines(desc@)),
            None => None,
        }
    } else {
        None
    }
}

/// The release of the first entry that records one.
pub open spec fn installed_release(entries: Seq<PackageEntry>) -> Option<u32>
    decreases entries.len(),
{
    if entries.len() == 0 {
        None
    } else {
        match entry_release(entries[0]) {
            Some(r) => Some(r),
            None => installed_release(entries.drop_first()),
        }
    }
}

/// Where `c` last stands in the first `to` characters of `v`: one more than its place, or 0.
fn after_last(v: &Vec<char>, from: usize, to: usize, c: char) -> (r: usize)
    requires
        from <= to <= v@.len(),
    ensures
        from <= r <= to,
        r == from + split::last_index(v@.subrange(from as int, to as int), c) + 1,
{
    let ghost s = v@.subrange(from as int, to as int);
    let mut i: usize = to;
    assert(s.take(s.len() as int) =~= s);
    while i > from
        invariant
            from <= i <= to <= v.len(),
            s == v@.subrange(from as int, to as int),
            split::last_index(s, c) == split::last_index(s.take(i - from), c),
        decreases i,
    {
        assert(s.take(i - from).last() == v@[i - 1]);
        if v[i - 1] == c {
            return i;
        }
        assert(s.take(i - from).drop_last() =~= s.take(i - from - 1));
        i -= 1;
    }
    from
}

/// The release that a package file is named after: `linux-wintermute-<version>-<release>-<arch>`
/// with the ending `.pkg.tar.zst`.
pub fn parse_pkgrel_from_filename(filename: &str) -> (r: Option<u32>)
    ensures
        r == file_release(filename@),
{
    proof {
        reveal_strlit("linux-wintermute-");
        reveal_strlit(".pkg.tar.zst");
    }
    if !text::has_prefix(filename, "linux-wintermute-") {
        return None;
    }
    let v: Vec<char> = text::chars_of(filename);
    let ghost rest = filename@.skip(17);
    if v.len() < 29 || !text::matches_at(&v, v.len() - 12, ".pkg.tar.zst") {
        proof {
            if v@.len() >= 29 {
                let tail = v@.skip(v@.len() - 12);
                assert(tail.take(12) =~= tail);
                assert(rest.skip(rest.len() - 12) =~= tail);
            }
        }
        return None;
    }
    let end: usize = v.len() - 12;
    let ghost inner = rest.take(rest.len() - 12);
    proof {
        let tail = v@.skip(v@.len() - 12);
        assert(tail.take(12) =~= tail);
        assert(rest.skip(rest.len() - 12) =~= tail);
        assert(inner =~= v@.subrange(17, end as int));
    }
    let after_dash: usize = after_last(&v, 17, end, '-');
    if after_dash == 17 {
        return None;
    }
    let dash: usize = after_dash - 1;
    let start: usize = after_last(&v, 17, dash, '-');
    proof {
        assert(inner.take(dash - 17) =~= v@.subrange(17, dash as int));
        assert(inner.take(dash - 17).skip(start - 17) =~= v@.subrange(start as int, dash as int));
    }
    text::read_u32(&v, start, dash)
}

/// The highest release among the file names in the staging directory.
pub fn read_staged_pkgrel(names: &Vec<String>) -> (r: Option<u32>)
    ensures
        r == highest_release(text::views(names@)),
{
    let ghost all = text::views(names@);
    let mut best: Option<u32> = None;
    let mut i: usize = 0;
    while i < names.len()
        invariant
            all == text::views(names@),
            i <= names.len(),
            best == highest_release(all.take(i as int)),
        decreases names.len() - i,
    {
        assert(all.take(i + 1).drop_last() =~= all.take(i as int));
        assert(all.take(i + 1).last() == names@[i as int]@);
        if let Some(rel) = parse_pkgrel_from_filename(names[i].as_str()) {
            best = match best {
                Some(cur) => Some(
                    if cur >= rel {
                        cur
                    } else {
                        rel
                    },
                ),
                None => Some(rel),
            };
        }
        i += 1;
    }
    assert(all.take(all.len() as int) =~= all);
    best
}

/// The release in a `desc` file.
pub fn parse_pkgrel_from_desc(content: &str) -> (r: Option<u32>)
    ensures
        r == desc_release(split::lines(content@)),
{
    let list: Vec<String> = split::lines_of(content);
    let ghost all = text::views(list@);
    let mut i: usize = 0;
    assert(all.skip(0) =~= all);
    while i < list.len()
        invariant
            all == text::views(list@),
            all == split::lines(content@),
            i <= list.len(),
            desc_release(all) == desc_release(all.skip(i as int)),
        decreases list.len() - i,
    {
        assert(all.skip(i as int)[0] == list@[i as int]@);
        if text::same(text::trimmed(list[i].as_str()).as_str(), "%PKGREL%") {
            if i + 1 == list.len() {
                return None;
            }
            assert(all.skip(i as int)[1] == list@[i + 1]@);
            return text::u32_of(text::trimmed(list[i + 1].as_str()).as_str());
        }
        assert(all.skip(i as int).drop_first() =~= all.skip(i + 1));
        i += 1;
    }
    None
}

/// Whether an entry of the database is one of the kernel package.
#[must_use]
pub fn is_kernel_entry(name: &str) -> (r: bool)
    ensures
        r == text::starts_with(name@, "linux-wintermute-"@),
{
    text::has_prefix(name, "linux-wintermute-")
}

/// The release of the first entry of the database that records one.
pub fn read_installed_pkgrel(entries: &Vec<PackageEntry>) -> (r: Option<u32>)
    ensures
        r == installed_release(entries@),
{
    let mut i: usize = 0;
    assert(entries@.skip(0) =~= entries@);
    while i < entries.len()
        invariant
            i <= entries.len(),
            installed_release(entries@) == installed_release(entries@.skip(i as int)),
        decreases entries.len() - i,
    {
        assert(entries@.skip(i as int)[0] == entries@[i as int]);
        assert(entries@.skip(i as int).drop_first() =~= entries@.skip(i + 1));
        if is_kernel_entry(entries[i].name.as_str()) {
            if let Some(desc) = &entries[i].desc {
                if let Some(rel) = parse_pkgrel_from_desc(desc.as_str()) {
                    return Some(rel);
                }
            }
        }
        i += 1;
    }
    None
}

// ---------------------------------------------------------------------------
// Group membership
// ---------------------------------------------------------------------------

/// Whether one of the words is the number `gid`.
pub open spec fn names_group(words: Seq<Seq<char>>, gid: u32) -> bool {
    exists|i: int| 0 <= i < words.len() && text::parse_u32(#[trigger] words[i]) == Some(gid)
}

/// Whether the first line that starts with `Groups:` names the group.
pub open spec fn listed_group(lines: Seq<Seq<char>>, gid: u32) -> bool
    decreases lines.len(),
{
    let label = "Groups:"@;
    if lines.len() == 0 {
        false
    } else if text::starts_with(lines[0], label) {
        names_group(split::words(lines[0].skip(label.len() as int)), gid)
    } else {
        listed_group(lines.drop_first(), gid)
    }
}

/// Whether a process with this status is a member of the group.
pub open spec fn in_group(status: Option<Seq<char>>, gid: u32) -> bool {
    match status {
        Some(s) => listed_group(split::lines(s), gid),
        None => false,
    }
}

fn any_group(list: &Vec<String>, gid: u32) -> (r: bool)
    ensures
        r == names_group(text::views(list@), gid),
{
    let ghost all = text::views(list@);
    let mut i: usize = 0;
    while i < list.len()
        invariant
            all == text::views(list@),
            i <= list.len(),
            forall|j: int| 0 <= j < i ==> text::parse_u32(#[trigger] all[j]) != Some(gid),
        decreases list.len() - i,
    {
        assert(all[i as int] == list@[i as int]@);
        if let Some(g) = text::u32_of(list[i].as_str()) {
            if g == gid {
                return true;
            }
        }
        i += 1;
    }
    false
}

/// Whether the supplementary groups in a process status contain `gid`.
pub fn current_user_in_group(status: Option<&str>, gid: u32) -> (r: bool)
    ensures
        r == in_group(text::opt_view(status), gid),
{
    let content: &str = match status {
        Some(s) => s,
        None => {
            return false;
        },
    };
    let list: Vec<String> = split::lines_of(content);
    let ghost all = text::views(list@);
    let mut i: usize = 0;
    assert(all.skip(0) =~= all);
    while i < list.len()
        invariant
            all == text::views(list@),
            all == split::lines(content@),
            text::opt_view(status) == Some(content@),
            i <= list.len(),
            listed_group(all, gid) == listed_group(all.skip(i as int), gid),
        decreases list.len() - i,
    {
        let line: &str = list[i].as_str();
        assert(all.skip(i as int)[0] == line@);
        if text::has_prefix(line, "Groups:") {
            proof {
                reveal_strlit("Groups:");
            }
            let v: Vec<char> = text::chars_of(line);
            let rest: String = split::slice(&v, line, 7, v.len());
            assert(rest@ =~= line@.skip(7));
            return any_group(&split::words_of(rest.as_str()), gid);
        }
        assert(all.skip(i as int).drop_first() =~= all.skip(i + 1));
        i += 1;
    }
    false
}

// ---------------------------------------------------------------------------
// The probe
// ---------------------------------------------------------------------------

/// One more observation, where there is one.
pub open spec fn with_release(
    ev: EvidenceView,
    key: Seq<char>,
    release: Option<u32>,
) -> EvidenceView {
    match release {
        Some(r) => ev.with(key, text::decimal(r as nat)),
        None => ev,
    }
}

/// What is known before the device node is looked at.
pub open spec fn first_evidence(
    node: Seq<char>,
    exists_there: bool,
    installed: Option<u32>,
    staged: Option<u32>,
) -> EvidenceView {
    with_release(
        with_release(
            EvidenceView::empty().with("dev_node_path"@, node).with(
                "dev_node_exists"@,
                text::truth(exists_there),
            ),
            "installed_pkgrel"@,
            installed,
        ),
        "staged_pkgrel"@,
        staged,
    )
}

/// Whether a higher release is built than is installed.
pub open spec fn update_waits(installed: Option<u32>, staged: Option<u32>) -> bool {
    installed is Some && staged is Some && staged->0 > installed->0
}

/// The detail for a release that waits.
pub open spec fn waiting_detail(installed: u32, staged: u32) -> Seq<char> {
    "staged pkgrel "@ + text::decimal(staged as nat) + " > installed pkgrel "@ + text::decimal(
        installed as nat,
    ) + ": kernel update pending"@
}

/// Whether the group may write.
pub open spec fn group_writes(mode: u32) -> bool {
    mode & 0o20u32 != 0
}

/// What the device node adds to the evidence.
pub open spec fn device_evidence(
    ev: EvidenceView,
    mode: u32,
    gid: u32,
    member: bool,
) -> EvidenceView {
    ev.with("dev_mode_octal"@, text::zero_padded(text::digits(mode as nat, 8), 4)).with(
        "dev_gid"@,
        text::decimal(gid as nat),
    ).with("current_user_in_memlog_group"@, text::truth(member))
}

/// Why the device cannot be written to.
pub open spec fn denial(writes: bool, member: bool) -> Seq<char> {
    if !writes && !member {
        "group-write bit unset AND user not in memlog group"@
    } else if !writes {
        "group-write bit unset"@
    } else {
        "user not in memlog group"@
    }
}

/// Whether `step` is the first step for what was observed.
pub open spec fn is_first_step(
    step: MemlogStep,
    node: Seq<char>,
    exists_there: bool,
    installed: Option<u32>,
    staged: Option<u32>,
) -> bool {
    let ev = first_evidence(node, exists_there, installed, staged);
    if update_waits(installed, staged) {
        step matches MemlogStep::Done(r) && r@.says(
            "memlog"@,
            VerdictView::StagedNotInstalled,
            ev.with_detail(waiting_detail(installed->0, staged->0)),
        )
    } else if !exists_there {
        step matches MemlogStep::Done(r) && r@.says("memlog"@, VerdictView::Inert, ev)
    } else {
        step matches MemlogStep::InspectDevice(e) && e@ == ev
    }
}

/// Whether `r` is the report for what is known of the device node.
pub open spec fn is_last_step(
    r: ReportView,
    ev: EvidenceView,
    device: Result<DeviceInfo, String>,
) -> bool {
    match device {
        Err(e) => r.says("memlog"@, VerdictView::Unknown, ev.with("metadata_error"@, e@)),
        Ok(d) => {
            let member = in_group(text::opt_view(d.process_status), d.gid);
            let full = device_evidence(ev, d.mode, d.gid, member);
            if group_writes(d.mode) && member {
                r.says("memlog"@, VerdictView::Live, full)
            } else {
                r.says(
                    "memlog"@,
                    VerdictView::InstalledNotActivated,
                    full.with_detail(denial(group_writes(d.mode), member)),
                )
            }
        },
    }
}

impl MemlogProbe {
    /// The name of the primitive.
    pub fn name(&self) -> (r: &'static str)
        ensures
            r@ == "memlog"@,
    {
        "memlog"
    }

    /// The first step: whether the device node exists, and which releases are installed and
    /// staged.
    ///
    /// A staged update outweighs everything; without a device node there is nothing to look at.
    pub fn begin(
        &self,
        env: &ProbeEnv,
        dev_exists: bool,
        installed: Option<u32>,
        staged: Option<u32>,
    ) -> (r: MemlogStep)
        ensures
            is_first_step(
                r,
                paths::below(env@.dev_root, "memlog"@),
                dev_exists,
                installed,
                staged,
            ),
    {
        let node: String = env.memlog_dev_node();
        let mut ev: Evidence = Evidence::empty().with("dev_node_path", node.as_str()).with(
            "dev_node_exists",
            text::bool_text(dev_exists),
        );
        if let Some(rel) = installed {
            ev = ev.with("installed_pkgrel", text::decimal_text(rel as u64).as_str());
        }
        if let Some(rel) = staged {
            ev = ev.with("staged_pkgrel", text::decimal_text(rel as u64).as_str());
        }
        if let Some(inst) = installed {
            if let Some(rel) = staged {
                if rel > inst {
                    let mut detail: String = "staged pkgrel ".to_owned();
                    detail.append(text::decimal_text(rel as u64).as_str());
                    detail.append(" > installed pkgrel ");
                    detail.append(text::decimal_text(inst as u64).as_str());
                    detail.append(": kernel update pending");
                    return MemlogStep::Done(
                        PrimitiveReport::new(
                            self.name(),
                            Verdict::StagedNotInstalled,
                            ev.with_detail(detail.as_str()),
                        ),
                    );
                }
            }
        }
        if !dev_exists {
            return MemlogStep::Done(PrimitiveReport::new(self.name(), Verdict::Inert, ev));
        }
        MemlogStep::InspectDevice(ev)
    }

    /// The second step: whether the current user may write to the device node.
    pub fn finish(&self, evidence: Evidence, device: &Result<DeviceInfo, String>) -> (r:
        PrimitiveReport)
        ensures
            is_last_step(r@, evidence@, *device),
    {
        let info: &DeviceInfo = match device {
            Ok(info) => info,
            Err(e) => {
                let ev: Evidence = evidence.with("metadata_error", e.as_str());
                return PrimitiveReport::new(self.name(), Verdict::Unknown, ev);
            },
        };
        let writes: bool = (info.mode & 0o20u32) != 0;
        let octal: String = text::number_text(info.mode as u64, 8);
        let status: Option<&str> = match &info.process_status {
            Some(s) => Some(s.as_str()),
            None => None,
        };
        let member: bool = current_user_in_group(status, info.gid);
        let ev: Evidence = evidence.with(
            "dev_mode_octal",
            text::zero_fill(octal.as_str(), 4).as_str(),
        ).with("dev_gid", text::decimal_text(info.gid as u64).as_str()).with(
            "current_user_in_memlog_group",
            text::bool_text(member),
        );
        if writes && member {
            return PrimitiveReport::new(self.name(), Verdict::Live, ev);
        }
        let detail: &str = if !writes && !member {
            "group-write bit unset AND user not in memlog group"
        } else if !writes {
            "group-write bit unset"
        } else {
            "user not in memlog group"
        };
        PrimitiveReport::new(self.name(), Verdict::InstalledNotActivated, ev.with_detail(detail))
    }
}

// ---------------------------------------------------------------------------
// Laws
// ---------------------------------------------------------------------------

/// The staged release is that of a package file, and no package file has a higher one; there is
/// none exactly where no package file has any.
pub proof fn the_staged_release_is_the_highest(names: Seq<Seq<char>>)
    ensures
        match highest_release(names) {
            Some(h) => {
                &&& exists|i: int|
                    0 <= i < names.len() && file_release(#[trigger] names[i]) == Some(h)
                &&& forall|i: int|
                    0 <= i < names.len() && file_release(#[trigger] names[i]) is Some
                        ==> file_release(names[i])->0 <= h
            },
            None => forall|i: int|
                0 <= i < names.len() ==> file_release(#[trigger] names[i]) is None,
        },
    decreases names.len(),
{
    if names.len() > 0 {
        let rest = names.drop_last();
        the_staged_release_is_the_highest(rest);
        assert forall|i: int| 0 <= i < rest.len() implies #[trigger] rest[i] == names[i] by {}
        assert(names[names.len() - 1] == names.last());
        if let Some(h) = highest_release(rest) {
            let k = choose|i: int|
                0 <= i < rest.len() && file_release(#[trigger] rest[i]) == Some(h);
            assert(file_release(names[k]) == Some(h));
        }
        assert forall|i: int| 0 <= i < names.len() - 1 implies #[trigger] names[i] == rest[i] by {}
    }
}

/// Both releases are on record wherever both are known.
pub proof fn both_releases_are_on_record(
    node: Seq<char>,
    exists_there: bool,
    installed: u32,
    staged: u32,
)
    ensures
        ({
            let pairs = first_evidence(node, exists_there, Some(installed), Some(staged)).pairs;
            &&& evidence::lookup(pairs, "installed_pkgrel"@) == Some(
                text::decimal(installed as nat),
            )
            &&& evidence::lookup(pairs, "staged_pkgrel"@) == Some(text::decimal(staged as nat))
        }),
{
    reveal_strlit("dev_node_path");
    reveal_strlit("dev_node_exists");
    reveal_strlit("installed_pkgrel");
    reveal_strlit("staged_pkgrel");
    assert("dev_node_path"@[0] == 'd' && "dev_node_exists"@[0] == 'd');
    assert("installed_pkgrel"@[0] == 'i' && "staged_pkgrel"@[0] == 's');
    reveal_with_fuel(evidence::lookup, 5);
    let pairs = first_evidence(node, exists_there, Some(installed), Some(staged)).pairs;
    assert(pairs.len() == 4);
    assert(pairs.drop_first()[0] == pairs[1]);
    assert(pairs.drop_first().drop_first()[0] == pairs[2]);
    assert(pairs.drop_first().drop_first().drop_first()[0] == pairs[3]);
}

/// The first step does not say where packages are staged.
pub proof fn the_directory_is_not_on_record(
    node: Seq<char>,
    exists_there: bool,
    installed: Option<u32>,
    staged: Option<u32>,
)
    ensures
        evidence::lookup(
            first_evidence(node, exists_there, installed, staged).pairs,
            "pkg_staging_dir"@,
        ) is None,
{
    reveal_strlit("pkg_staging_dir");
    reveal_strlit("dev_node_path");
    reveal_strlit("dev_node_exists");
    reveal_strlit("installed_pkgrel");
    reveal_strlit("staged_pkgrel");
    let key = "pkg_staging_dir"@;
    assert(key[0] == 'p');
    assert("dev_node_path"@[0] == 'd' && "dev_node_exists"@[0] == 'd');
    assert("installed_pkgrel"@[0] == 'i' && "staged_pkgrel"@[0] == 's');
    let empty = EvidenceView::empty();
    evidence::records_do_not_interfere(empty, "dev_node_path"@, node, key);
    let one = empty.with("dev_node_path"@, node);
    evidence::records_do_not_interfere(one, "dev_node_exists"@, text::truth(exists_there), key);
    let two = one.with("dev_node_exists"@, text::truth(exists_there));
    let three = with_release(two, "installed_pkgrel"@, installed);
    if installed is Some {
        let n = text::decimal(installed->0 as nat);
        evidence::records_do_not_interfere(two, "installed_pkgrel"@, n, key);
    }
    if staged is Some {
        let n = text::decimal(staged->0 as nat);
        evidence::records_do_not_interfere(three, "staged_pkgrel"@, n, key);
    }
}

/// Whatever is observed, the report says what was seen, and without a device node and an update
/// that waits it is `Inert`.
pub proof fn missing_surfaces_are_reported(
    step: MemlogStep,
    node: Seq<char>,
    exists_there: bool,
    installed: Option<u32>,
    staged: Option<u32>,
)
    requires
        is_first_step(step, node, exists_there, installed, staged),
    ensures
        match step {
            MemlogStep::Done(r) => r@.evidence.pairs.len() > 0,
            MemlogStep::InspectDevice(e) => e@.pairs.len() > 0,
        },
        !exists_there && !update_waits(installed, staged) ==> step is Done && step->Done_0@.verdict
            is Inert,
{
}

/// Whether a text is free of dashes.
pub open spec fn dashless(s: Seq<char>) -> bool {
    forall|i: int| 0 <= i < s.len() ==> #[trigger] s[i] != '-'
}

/// The name of a package file with a version, ending in a dash where there is one, a release and
/// an architecture.
pub open spec fn package_name(
    version: Seq<char>,
    release: Seq<char>,
    arch: Seq<char>,
) -> Seq<char> {
    "linux-wintermute-"@ + (version + release + seq!['-'] + arch) + ".pkg.tar.zst"@
}

proof fn fields_are_found(version: Seq<char>, release: Seq<char>, arch: Seq<char>)
    requires
        version.len() == 0 || version.last() == '-',
        dashless(release),
        dashless(arch),
    ensures
        release_field(version + release + seq!['-'] + arch) == Some(release),
{
    let inner = version + release + seq!['-'] + arch;
    let at = (version + release).len() as int;
    assert(inner[at] == '-');
    assert forall|j: int| at < j < inner.len() implies #[trigger] inner[j] != '-' by {
        assert(inner[j] == arch[j - at - 1]);
    }
    split::last_index_at(inner, '-', at);
    let front = inner.take(at);
    assert(front =~= version + release);
    let start = version.len() - 1;
    assert forall|j: int| start < j < front.len() implies #[trigger] front[j] != '-' by {
        assert(front[j] == release[j - version.len()]);
    }
    if version.len() > 0 {
        assert(front[start] == version.last());
    }
    split::last_index_at(front, '-', start);
    assert(front.skip(start + 1) =~= release);
}

proof fn fields_are_between_dashes(inner: Seq<char>) -> (parts: (Seq<char>, Seq<char>))
    requires
        release_field(inner) is Some,
    ensures
        parts.0.len() == 0 || parts.0.last() == '-',
        dashless(release_field(inner)->0),
        dashless(parts.1),
        inner == parts.0 + release_field(inner)->0 + seq!['-'] + parts.1,
{
    split::the_last_index_is_last(inner, '-');
    let at = split::last_index(inner, '-');
    let front = inner.take(at);
    split::the_last_index_is_last(front, '-');
    let start = split::last_index(front, '-');
    let version = front.take(start + 1);
    let release = front.skip(start + 1);
    let arch = inner.skip(at + 1);
    assert forall|i: int| 0 <= i < release.len() implies #[trigger] release[i] != '-' by {
        assert(release[i] == front[start + 1 + i]);
    }
    assert forall|i: int| 0 <= i < arch.len() implies #[trigger] arch[i] != '-' by {
        assert(arch[i] == inner[at + 1 + i]);
    }
    if version.len() > 0 {
        assert(version.last() == front[start]);
    }
    assert(inner =~= version + release + seq!['-'] + arch);
    (version, arch)
}

/// A file is named after a release exactly where its name is `linux-wintermute-`, possibly a
/// version and a dash, the number of the release, a dash, an architecture without one, and
/// `.pkg.tar.zst`.
pub proof fn package_files_are_named_after_releases(filename: &str, r: Option<u32>, n: u32)
    requires
        call_ensures(parse_pkgrel_from_filename, (filename,), r),
    ensures
        r == file_release(filename@),
        r == Some(n) <==> exists|version: Seq<char>, release: Seq<char>, arch: Seq<char>|
            (version.len() == 0 || version.last() == '-') && dashless(release) && dashless(arch)
                && text::parse_u32(release) == Some(n) && filename@ == #[trigger] package_name(
                version,
                release,
                arch,
            ),
{
    let prefix = "linux-wintermute-"@;
    let suffix = ".pkg.tar.zst"@;
    let name = filename@;
    if r == Some(n) {
        let rest = name.skip(prefix.len() as int);
        let inner = rest.take(rest.len() - suffix.len());
        let (version, arch) = fields_are_between_dashes(inner);
        let release = release_field(inner)->0;
        assert(rest =~= inner + suffix);
        assert(name =~= prefix + rest);
        assert(name =~= package_name(version, release, arch));
    }
    if exists|version: Seq<char>, release: Seq<char>, arch: Seq<char>|
        (version.len() == 0 || version.last() == '-') && dashless(release) && dashless(arch)
            && text::parse_u32(release) == Some(n) && name == #[trigger] package_name(
            version,
            release,
            arch,
        ) {
        let (version, release, arch) = choose|
            version: Seq<char>,
            release: Seq<char>,
            arch: Seq<char>,
        |
            (version.len() == 0 || version.last() == '-') && dashless(release) && dashless(arch)
                && text::parse_u32(release) == Some(n) && name == #[trigger] package_name(
                version,
                release,
                arch,
            );
        let inner = version + release + seq!['-'] + arch;
        let rest = inner + suffix;
        assert(name =~= prefix + rest);
        text::a_prefix_comes_first(prefix, rest);
        assert(rest.skip(rest.len() - suffix.len()) =~= suffix);
        assert(rest.take(rest.len() - suffix.len()) =~= inner);
        fields_are_found(version, release, arch);
    }
}

/// The staged release is the highest that a package file is named after, and none where none is.
pub proof fn the_highest_file_is_staged(
    names: &Vec<String>,
    r: Option<u32>,
    i: int,
    name: &str,
    of_file: Option<u32>,
)
    requires
        call_ensures(read_staged_pkgrel, (names,), r),
        0 <= i < names@.len(),
        name@ == names@[i]@,
        call_ensures(parse_pkgrel_from_filename, (name,), of_file),
    ensures
        of_file is Some ==> r is Some && r->0 >= of_file->0,
        r is Some ==> exists|k: int|
            0 <= k < names@.len() && file_release((#[trigger] names@[k])@) == r,
{
    let all = text::views(names@);
    the_staged_release_is_the_highest(all);
    assert(all[i] == name@);
    if r is Some {
        let k = choose|k: int| 0 <= k < all.len() && file_release(#[trigger] all[k]) == r;
        assert(file_release(names@[k]@) == r);
    }
}

proof fn the_label_is_searched_for(lines: Seq<Seq<char>>, k: int)
    requires
        0 <= k <= lines.len(),
        forall|j: int| 0 <= j < k ==> text::trim(#[trigger] lines[j]) != "%PKGREL%"@,
        k < lines.len() ==> text::trim(lines[k]) == "%PKGREL%"@,
    ensures
        desc_release(lines) == if k + 1 < lines.len() {
            text::parse_u32(text::trim(lines[k + 1]))
        } else {
            None
        },
    decreases k,
{
    if k > 0 {
        let rest = lines.drop_first();
        assert forall|j: int| 0 <= j < k - 1 implies text::trim(#[trigger] rest[j])
            != "%PKGREL%"@ by {
            assert(rest[j] == lines[j + 1]);
        }
        assert(text::trim(lines[0]) != "%PKGREL%"@);
        the_label_is_searched_for(rest, k - 1);
    }
}

/// The release of a `desc` file is the number on the line right after the first `%PKGREL%`, both
/// without the white space around them.
pub proof fn the_release_follows_its_label(content: &str, r: Option<u32>, k: int)
    requires
        call_ensures(parse_pkgrel_from_desc, (content,), r),
        0 <= k <= split::lines(content@).len(),
        forall|j: int|
            0 <= j < k ==> text::trim(#[trigger] split::lines(content@)[j]) != "%PKGREL%"@,
        k < split::lines(content@).len() ==> text::trim(split::lines(content@)[k]) == "%PKGREL%"@,
    ensures
        r == if k + 1 < split::lines(content@).len() {
            text::parse_u32(text::trim(split::lines(content@)[k + 1]))
        } else {
            None
        },
{
    the_label_is_searched_for(split::lines(content@), k);
}

proof fn entries_are_searched(entries: Seq<PackageEntry>, k: int)
    requires
        0 <= k <= entries.len(),
        forall|j: int| 0 <= j < k ==> entry_release(#[trigger] entries[j]) is None,
        k < entries.len() ==> entry_release(entries[k]) is Some,
    ensures
        installed_release(entries) == if k < entries.len() {
            entry_release(entries[k])
        } else {
            None
        },
    decreases k,
{
    if k > 0 {
        let rest = entries.drop_first();
        assert forall|j: int| 0 <= j < k - 1 implies entry_release(#[trigger] rest[j]) is None by {
            assert(rest[j] == entries[j + 1]);
        }
        assert(entry_release(entries[0]) is None);
        entries_are_searched(rest, k - 1);
    }
}

/// What an entry of the database records: the release of its `desc` file, where it has one and is
/// named `linux-wintermute-` and something, and nothing otherwise.
pub proof fn only_kernel_entries_record_releases(
    e: PackageEntry,
    name: &str,
    kernel: bool,
    desc: &str,
    release: Option<u32>,
)
    requires
        name@ == e.name@,
        call_ensures(is_kernel_entry, (name,), kernel),
        e.desc is Some ==> desc@ == e.desc->0@,
        call_ensures(parse_pkgrel_from_desc, (desc,), release),
    ensures
        kernel <==> exists|rest: Seq<char>| e.name@ == #[trigger] ("linux-wintermute-"@ + rest),
        entry_release(e) == if kernel && e.desc is Some {
            release
        } else {
            None
        },
{
    let p = "linux-wintermute-"@;
    if kernel {
        assert(e.name@ =~= p + e.name@.skip(p.len() as int));
    }
    if exists|rest: Seq<char>| e.name@ == #[trigger] (p + rest) {
        let rest = choose|rest: Seq<char>| e.name@ == #[trigger] (p + rest);
        text::a_prefix_comes_first(p, rest);
    }
}

/// The installed release is that of the first entry that records one.
pub proof fn the_first_record_is_installed(entries: &Vec<PackageEntry>, r: Option<u32>, k: int)
    requires
        call_ensures(read_installed_pkgrel, (entries,), r),
        0 <= k <= entries@.len(),
        forall|j: int| 0 <= j < k ==> entry_release(#[trigger] entries@[j]) is None,
        k < entries@.len() ==> entry_release(entries@[k]) is Some,
    ensures
        k < entries@.len() ==> r == entry_release(entries@[k]),
        k == entries@.len() ==> r is None,
{
    entries_are_searched(entries@, k);
}

proof fn groups_are_searched_for(lines: Seq<Seq<char>>, gid: u32, k: int)
    requires
        0 <= k <= lines.len(),
        forall|j: int| 0 <= j < k ==> !text::starts_with(#[trigger] lines[j], "Groups:"@),
        k < lines.len() ==> text::starts_with(lines[k], "Groups:"@),
    ensures
        listed_group(lines, gid) <==> k < lines.len() && names_group(
            split::words(lines[k].skip("Groups:"@.len() as int)),
            gid,
        ),
    decreases k,
{
    if k > 0 {
        let rest = lines.drop_first();
        assert forall|j: int| 0 <= j < k - 1 implies !text::starts_with(
            #[trigger] rest[j],
            "Groups:"@,
        ) by {
            assert(rest[j] == lines[j + 1]);
        }
        assert(!text::starts_with(lines[0], "Groups:"@));
        groups_are_searched_for(rest, gid, k - 1);
    }
}

/// A process is in a group exactly where the group's number is one of the words behind `Groups:`
/// on the first line of its status that starts so.
pub proof fn the_first_groups_line_decides(
    status: &str,
    gid: u32,
    r: bool,
    without: bool,
    k: int,
    list: Seq<char>,
)
    requires
        call_ensures(current_user_in_group, (Some(status), gid), r),
        call_ensures(current_user_in_group, (None::<&str>, gid), without),
        0 <= k <= split::lines(status@).len(),
        forall|j: int|
            0 <= j < k ==> !text::starts_with(#[trigger] split::lines(status@)[j], "Groups:"@),
        k < split::lines(status@).len() ==> split::lines(status@)[k] == "Groups:"@ + list,
    ensures
        !without,
        k == split::lines(status@).len() ==> !r,
        k < split::lines(status@).len() ==> (r <==> exists|i: int|
            0 <= i < split::words(list).len() && text::parse_u32(#[trigger] split::words(list)[i])
                == Some(gid)),
{
    let lines = split::lines(status@);
    if k < lines.len() {
        text::a_prefix_comes_first("Groups:"@, list);
    }
    groups_are_searched_for(lines, gid, k);
}

/// What the device node decides, whatever is known of it: `Live` exactly where the bit that lets
/// the group write is set and the process is in the group, and `InstalledNotActivated` with the
/// reason otherwise; `Unknown` where the node could not be looked at.
pub proof fn the_group_bit_and_the_group_decide(
    evidence: Evidence,
    device: &Result<DeviceInfo, String>,
    r: PrimitiveReport,
    status: Option<&str>,
    member: bool,
)
    requires
        call_ensures(MemlogProbe::finish, (&MemlogProbe, evidence, device), r),
        device is Ok ==> text::opt_view(status) == text::opt_view(device->Ok_0.process_status),
        device is Ok ==> call_ensures(current_user_in_group, (status, device->Ok_0.gid), member),
    ensures
        r.name@ == "memlog"@,
        device is Err ==> r.verdict is Unknown && r.evidence@ == evidence@.with(
            "metadata_error"@,
            device->Err_0@,
        ),
        device is Ok ==> {
            let mode = device->Ok_0.mode;
            let writes = (mode / 16) % 2 == 1;
            &&& r.verdict is Live <==> writes && member
            &&& r.verdict is InstalledNotActivated <==> !(writes && member)
            &&& r.evidence@.pairs == evidence@.pairs + seq![
                evidence::PairView {
                    key: "dev_mode_octal"@,
                    value: text::zero_padded(text::digits(mode as nat, 8), 4),
                },
                evidence::PairView {
                    key: "dev_gid"@,
                    value: text::decimal(device->Ok_0.gid as nat),
                },
                evidence::PairView {
                    key: "current_user_in_memlog_group"@,
                    value: if member { "true"@ } else { "false"@ },
                },
            ]
            &&& writes && member ==> text::opt_view(r.evidence.detail) == text::opt_view(
                evidence.detail,
            )
            &&& !writes && !member ==> text::opt_view(r.evidence.detail) == Some(
                "group-write bit unset AND user not in memlog group"@,
            )
            &&& !writes && member ==> text::opt_view(r.evidence.detail) == Some(
                "group-write bit unset"@,
            )
            &&& writes && !member ==> text::opt_view(r.evidence.detail) == Some(
                "user not in memlog group"@,
            )
        },
{
    if device is Ok {
        let mode = device->Ok_0.mode;
        assert((mode & 0o20u32 != 0) == ((mode / 16) % 2 == 1)) by (bit_vector);
        let three = seq![
            evidence::PairView {
                key: "dev_mode_octal"@,
                value: text::zero_padded(text::digits(mode as nat, 8), 4),
            },
            evidence::PairView { key: "dev_gid"@, value: text::decimal(device->Ok_0.gid as nat) },
            evidence::PairView {
                key: "current_user_in_memlog_group"@,
                value: if member { "true"@ } else { "false"@ },
            },
        ];
        assert(r.evidence@.pairs =~= evidence@.pairs + three);
        assert(r@.evidence.detail == text::opt_view(r.evidence.detail));
    }
}

/// The type bits of the mode do not matter: a node is judged by its permissions alone, so two
/// modes with the same last nine bits come to the same verdict, and one that does not let the
/// group write is never `Live`.
pub proof fn file_types_do_not_matter(
    evidence: Evidence,
    device: &Result<DeviceInfo, String>,
    other: &Result<DeviceInfo, String>,
    r: PrimitiveReport,
    s: PrimitiveReport,
)
    requires
        device is Ok,
        other is Ok,
        device->Ok_0.mode % 512 == other->Ok_0.mode % 512,
        device->Ok_0.gid == other->Ok_0.gid,
        text::opt_view(device->Ok_0.process_status) == text::opt_view(other->Ok_0.process_status),
        call_ensures(MemlogProbe::finish, (&MemlogProbe, evidence, device), r),
        call_ensures(MemlogProbe::finish, (&MemlogProbe, evidence, other), s),
    ensures
        r@.verdict == s@.verdict,
        text::opt_view(r.evidence.detail) == text::opt_view(s.evidence.detail),
        device->Ok_0.mode % 512 == 0o640 || device->Ok_0.mode % 512 == 0o600 ==> !(r.verdict
            is Live),
{
    let m = device->Ok_0.mode;
    let k = other->Ok_0.mode;
    assert(m % 512 == k % 512 ==> ((m & 0o20u32) != 0) == ((k & 0o20u32) != 0)) by (bit_vector);
    assert(m % 512 == 0o640 || m % 512 == 0o600 ==> (m & 0o20u32) == 0) by (bit_vector);
    assert(r@.evidence.detail == text::opt_view(r.evidence.detail));
    assert(s@.evidence.detail == text::opt_view(s.evidence.detail));
}

/// What the first step decides, on every input: a staged release above the installed one is
/// `StagedNotInstalled`, whatever else there is; without a node the primitive is `Inert`; and
/// otherwise the node has to be looked at. What is known goes on record, in this order.
pub proof fn a_higher_staged_release_outweighs_everything(
    env: &ProbeEnv,
    dev_exists: bool,
    installed: Option<u32>,
    staged: Option<u32>,
    r: MemlogStep,
)
    requires
        call_ensures(MemlogProbe::begin, (&MemlogProbe, env, dev_exists, installed, staged), r),
    ensures
        ({
            let waits = installed is Some && staged is Some && staged->0 > installed->0;
            let node = seq![
                evidence::PairView {
                    key: "dev_node_path"@,
                    value: paths::below(env.dev_root@, "memlog"@),
                },
                evidence::PairView {
                    key: "dev_node_exists"@,
                    value: if dev_exists { "true"@ } else { "false"@ },
                },
            ];
            let releases = (match installed {
                Some(n) => seq![
                    evidence::PairView {
                        key: "installed_pkgrel"@,
                        value: text::decimal(n as nat),
                    },
                ],
                None => Seq::empty(),
            }) + match staged {
                Some(n) => seq![
                    evidence::PairView { key: "staged_pkgrel"@, value: text::decimal(n as nat) },
                ],
                None => Seq::empty(),
            };
            &&& r is InspectDevice <==> !waits && dev_exists
            &&& r matches MemlogStep::InspectDevice(e) ==> e@.pairs == node + releases && e.detail
                is None
            &&& r matches MemlogStep::Done(report) ==> {
                &&& report.name@ == "memlog"@
                &&& report.verdict is StagedNotInstalled <==> waits
                &&& report.verdict is Inert <==> !waits
                &&& report.evidence@.pairs == node + releases
                &&& text::opt_view(report.evidence.detail) == if waits {
                    Some(
                        "staged pkgrel "@ + text::decimal(staged->0 as nat)
                            + " > installed pkgrel "@ + text::decimal(installed->0 as nat)
                            + ": kernel update pending"@,
                    )
                } else {
                    None
                }
            }
        }),
{
    let node = seq![
        evidence::PairView {
            key: "dev_node_path"@,
            value: paths::below(env.dev_root@, "memlog"@),
        },
        evidence::PairView {
            key: "dev_node_exists"@,
            value: if dev_exists { "true"@ } else { "false"@ },
        },
    ];
    let releases = (match installed {
        Some(n) => seq![
            evidence::PairView { key: "installed_pkgrel"@, value: text::decimal(n as nat) },
        ],
        None => Seq::empty(),
    }) + match staged {
        Some(n) => seq![
            evidence::PairView { key: "staged_pkgrel"@, value: text::decimal(n as nat) },
        ],
        None => Seq::empty(),
    };
    let first = first_evidence(
        paths::below(env@.dev_root, "memlog"@),
        dev_exists,
        installed,
        staged,
    );
    assert(first.pairs =~= node + releases);
    match r {
        MemlogStep::Done(report) => {
            assert(report@.evidence.detail == text::opt_view(report.evidence.detail));
        },
        MemlogStep::InspectDevice(e) => {
            assert(e@.detail == text::opt_view(e.detail));
        },
    }
}

} // verus!
