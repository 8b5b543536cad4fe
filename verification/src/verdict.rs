//! `Verdict`: classification of a primitive's liveness.

use vstd::prelude::*;

verus! {

/// Liveness classification of a kernel primitive.
#[derive(Debug, PartialEq, Eq)]
#[non_exhaustive]
pub enum Verdict {
    /// The primitive is fully operational.
    Live,
    /// The primitive is running but with degraded behaviour.
    LiveDegraded {
        /// Human-readable explanation of the degradation.
        reason: String,
    },
    /// A newer package is built but not installed.
    StagedNotInstalled,
    /// The package is installed but activation has not occurred.
    InstalledNotActivated,
    /// The primitive is entirely inert at runtime.
    Inert,
    /// The kernel mechanism works, but the live process was not wrapped at launch.
    MechanismLiveNotWired {
        /// Human-readable remediation advice.
        remediation: String,
    },
    /// Liveness could not be determined.
    Unknown,
}

/// What a `Verdict` stands for.
pub enum VerdictView {
    Live,
    LiveDegraded { reason: Seq<char> },
    StagedNotInstalled,
    InstalledNotActivated,
    Inert,
    MechanismLiveNotWired { remediation: Seq<char> },
    Unknown,
}

impl VerdictView {
    /// At least as good as `LiveDegraded`.
    pub open spec fn acceptable(self) -> bool {
        self is Live || self is LiveDegraded
    }
}

impl View for Verdict {
    type V = VerdictView;

    open spec fn view(&self) -> VerdictView {
        match self {
            Verdict::Live => VerdictView::Live,
            Verdict::LiveDegraded { reason } => VerdictView::LiveDegraded { reason: reason@ },
            Verdict::StagedNotInstalled => VerdictView::StagedNotInstalled,
            Verdict::InstalledNotActivated => VerdictView::InstalledNotActivated,
            Verdict::Inert => VerdictView::Inert,
            Verdict::MechanismLiveNotWired { remediation } => VerdictView::MechanismLiveNotWired {
                remediation: remediation@,
            },
            Verdict::Unknown => VerdictView::Unknown,
        }
    }
}

impl Clone for Verdict {
    fn clone(&self) -> (r: Self)
        ensures
            r@ == self@,
    {
        match self {
            Verdict::Live => Verdict::Live,
            Verdict::LiveDegraded { reason } => Verdict::LiveDegraded { reason: reason.clone() },
            Verdict::StagedNotInstalled => Verdict::StagedNotInstalled,
            Verdict::InstalledNotActivated => Verdict::InstalledNotActivated,
            Verdict::Inert => Verdict::Inert,
            Verdict::MechanismLiveNotWired { remediation } => Verdict::MechanismLiveNotWired {
                remediation: remediation.clone(),
            },
            Verdict::Unknown => Verdict::Unknown,
        }
    }
}

impl Verdict {
    /// Whether the verdict is at least as good as `LiveDegraded`.
    ///
    /// A run exits with 0 exactly when every primitive passes this threshold.
    #[must_use]
    pub fn is_acceptable(&self) -> (ok: bool)
        ensures
            ok == self@.acceptable(),
    {
        matches!(self, Verdict::Live | Verdict::LiveDegraded { .. })
    }
}

// ---------------------------------------------------------------------------
// Laws
// ---------------------------------------------------------------------------

/// `Live` and `LiveDegraded` pass, whatever the reason, and the other five verdicts do not.
pub proof fn live_and_degraded_pass(v: &Verdict, ok: bool)
    requires
        call_ensures(Verdict::is_acceptable, (v,), ok),
    ensures
        ok == v@.acceptable(),
        match *v {
            Verdict::Live => ok,
            Verdict::LiveDegraded { .. } => ok,
            Verdict::StagedNotInstalled => !ok,
            Verdict::InstalledNotActivated => !ok,
            Verdict::Inert => !ok,
            Verdict::MechanismLiveNotWired { .. } => !ok,
            Verdict::Unknown => !ok,
        },
{
}

} // verus!
