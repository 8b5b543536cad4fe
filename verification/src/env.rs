//! `ProbeEnv`: the paths that probes look at.

use vstd::prelude::*;

use crate::paths;
use crate::text;

verus! {

/// The paths that a probe run looks at.
#[derive(Debug, Clone)]
pub struct ProbeEnv {
    /// Root of the device file system.
    pub dev_root: String,
    /// The agent-session pseudo-file.
    pub agent_session_path: String,
    /// A file that provfs stamps.
    pub provfs_xattr_path: String,
    /// The local database of the package manager.
    pub pacman_local_db: String,
    /// The directory of built packages.
    pub pkg_staging_dir: String,
    /// The `bpolicy` binary.
    pub bpolicy_path: String,
    /// A file to read in place of running `bpolicy status`.
    pub bpolicy_status_fixture: Option<String>,
    /// The `assay` binary; without one, it is searched for.
    pub assay_path: Option<String>,
}

/// What a `ProbeEnv` stands for.
pub struct EnvView {
    pub dev_root: Seq<char>,
    pub agent_session_path: Seq<char>,
    pub provfs_xattr_path: Seq<char>,
    pub pacman_local_db: Seq<char>,
    pub pkg_staging_dir: Seq<char>,
    pub bpolicy_path: Seq<char>,
    pub bpolicy_status_fixture: Option<Seq<char>>,
    pub assay_path: Option<Seq<char>>,
}

impl View for ProbeEnv {
    type V = EnvView;

    open spec fn view(&self) -> EnvView {
        EnvView {
            dev_root: self.dev_root@,
            agent_session_path: self.agent_session_path@,
            provfs_xattr_path: self.provfs_xattr_path@,
            pacman_local_db: self.pacman_local_db@,
            pkg_staging_dir: self.pkg_staging_dir@,
            bpolicy_path: self.bpolicy_path@,
            bpolicy_status_fixture: text::opt_view(self.bpolicy_status_fixture),
            assay_path: text::opt_view(self.assay_path),
        }
    }
}

/// The paths of a real system, for a home directory.
pub open spec fn system_env(home: Seq<char>) -> EnvView {
    EnvView {
        dev_root: "/dev"@,
        agent_session_path: "/proc/self/agent_session"@,
        provfs_xattr_path: paths::below(home, ".local/share/wintermute/last-run"@),
        pacman_local_db: "/var/lib/pacman/local"@,
        pkg_staging_dir: paths::below(home, "wintermute/wintermute-kernel/pkg"@),
        bpolicy_path: paths::below(home, ".local/bin/bpolicy"@),
        bpolicy_status_fixture: None,
        assay_path: None,
    }
}

/// The home directory, or that of the superuser where there is none.
pub open spec fn home_or_root(home: Option<Seq<char>>) -> Seq<char> {
    match home {
        Some(h) => h,
        None => "/root"@,
    }
}

impl ProbeEnv {
    /// The paths of a real system, for a home directory if there is one.
    #[must_use]
    pub fn for_home(home: Option<&str>) -> (r: Self)
        ensures
            r@ == system_env(home_or_root(text::opt_view(home))),
    {
        let home: &str = match home {
            Some(h) => h,
            None => "/root",
        };
        ProbeEnv {
            dev_root: "/dev".to_owned(),
            agent_session_path: "/proc/self/agent_session".to_owned(),
            provfs_xattr_path: paths::join(home, ".local/share/wintermute/last-run"),
            pacman_local_db: "/var/lib/pacman/local".to_owned(),
            pkg_staging_dir: paths::join(home, "wintermute/wintermute-kernel/pkg"),
            bpolicy_path: paths::join(home, ".local/bin/bpolicy"),
            bpolicy_status_fixture: None,
            assay_path: None,
        }
    }

    /// With another root of the device file system.
    #[must_use]
    pub fn with_dev_root(self, path: &str) -> (r: Self)
        ensures
            r@ == (EnvView { dev_root: path@, ..self@ }),
    {
        ProbeEnv { dev_root: path.to_owned(), ..self }
    }

    /// With another agent-session file.
    #[must_use]
    pub fn with_agent_session(self, path: &str) -> (r: Self)
        ensures
            r@ == (EnvView { agent_session_path: path@, ..self@ }),
    {
        ProbeEnv { agent_session_path: path.to_owned(), ..self }
    }

    /// With another file that provfs stamps.
    #[must_use]
    pub fn with_provfs_xattr_path(self, path: &str) -> (r: Self)
        ensures
            r@ == (EnvView { provfs_xattr_path: path@, ..self@ }),
    {
        ProbeEnv { provfs_xattr_path: path.to_owned(), ..self }
    }

    /// With another database of the package manager.
    #[must_use]
    pub fn with_pacman_local_db(self, path: &str) -> (r: Self)
        ensures
            r@ == (EnvView { pacman_local_db: path@, ..self@ }),
    {
        ProbeEnv { pacman_local_db: path.to_owned(), ..self }
    }

    /// With another directory of built packages.
    #[must_use]
    pub fn with_pkg_staging_dir(self, path: &str) -> (r: Self)
        ensures
            r@ == (EnvView { pkg_staging_dir: path@, ..self@ }),
    {
        ProbeEnv { pkg_staging_dir: path.to_owned(), ..self }
    }

    /// With a status file to read in place of running `bpolicy`.
    #[must_use]
    pub fn with_bpolicy_fixture(self, path: &str) -> (r: Self)
        ensures
            r@ == (EnvView { bpolicy_status_fixture: Some(path@), ..self@ }),
    {
        ProbeEnv { bpolicy_status_fixture: Some(path.to_owned()), ..self }
    }

    /// With a known `assay` binary.
    #[must_use]
    pub fn with_assay_path(self, path: &str) -> (r: Self)
        ensures
            r@ == (EnvView { assay_path: Some(path@), ..self@ }),
    {
        ProbeEnv { assay_path: Some(path.to_owned()), ..self }
    }

    /// Where the memlog device node is looked for.
    #[must_use]
    pub fn memlog_dev_node(&self) -> (r: String)
        ensures
            r@ == paths::below(self@.dev_root, "memlog"@),
    {
        paths::join(self.dev_root.as_str(), "memlog")
    }
}

/// The content of a file without surrounding white space, where it could be read.
pub fn read_trimmed(content: Option<&str>) -> (r: Option<String>)
    ensures
        text::opt_view(r) == match content {
            Some(s) => Some(text::trim(s@)),
            None => None,
        },
{
    match content {
        Some(s) => Some(text::trimmed(s)),
        None => None,
    }
}

// ---------------------------------------------------------------------------
// Laws
// ---------------------------------------------------------------------------

/// Where a real system has what is looked at: below the home directory, or that of the superuser
/// without one, and at fixed places.
pub proof fn a_real_system_has_fixed_places(home: Option<&str>, r: ProbeEnv, node: String)
    requires
        call_ensures(ProbeEnv::for_home, (home,), r),
        call_ensures(ProbeEnv::memlog_dev_node, (&r,), node),
    ensures
        ({
            let h = if home is Some { home->0@ } else { "/root"@ };
            &&& r.dev_root@ == "/dev"@
            &&& r.agent_session_path@ == "/proc/self/agent_session"@
            &&& r.provfs_xattr_path@ == paths::below(h, ".local/share/wintermute/last-run"@)
            &&& r.pacman_local_db@ == "/var/lib/pacman/local"@
            &&& r.pkg_staging_dir@ == paths::below(h, "wintermute/wintermute-kernel/pkg"@)
            &&& r.bpolicy_path@ == paths::below(h, ".local/bin/bpolicy"@)
            &&& r.bpolicy_status_fixture is None
            &&& r.assay_path is None
        }),
        node@ == "/dev/memlog"@,
{
    assert(r@.bpolicy_status_fixture == text::opt_view(r.bpolicy_status_fixture));
    assert(r@.assay_path == text::opt_view(r.assay_path));
    reveal_strlit("/dev");
    reveal_strlit("/");
    reveal_strlit("memlog");
    reveal_strlit("/dev/memlog");
    assert("/dev"@ + "/"@ + "memlog"@ =~= "/dev/memlog"@);
}

/// What is read from a file is its content without the white space around it.
pub proof fn content_is_trimmed(content: Option<&str>, r: Option<String>, plain: String)
    requires
        call_ensures(read_trimmed, (content,), r),
        content is Some ==> call_ensures(text::trimmed, (content->0,), plain),
    ensures
        r is Some <==> content is Some,
        r is Some ==> r->0@ == plain@,
{
}

} // verus!
