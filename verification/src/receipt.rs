//! `Receipt`: a timestamped snapshot of all primitive reports.

use vstd::prelude::*;

use crate::report::{self, PrimitiveReport, ReportView};
use crate::text;
use crate::time::{self, Civil, Timestamp};

verus! {

/// A source of the current time.
pub trait AttestClock {
    /// The current time in UTC.
    fn now(&self) -> Timestamp;
}

/// The system's own clock.
#[derive(Debug, Clone, Copy)]
pub struct SystemClock;

impl Default for SystemClock {
    fn default() -> (r: Self) {
        SystemClock
    }
}

impl AttestClock for SystemClock {
    /// The current time, as [`Timestamp::now`] gives it.
    fn now(&self) -> (r: Timestamp)
        ensures
            call_ensures(Timestamp::now, (), r),
            time::is_moment(r@),
    {
        Timestamp::now()
    }
}

/// A liveness receipt: one snapshot per run.
#[derive(Debug)]
pub struct Receipt {
    /// When this receipt was taken.
    pub taken_at: Timestamp,
    /// Identifier of the boot that the receipt belongs to.
    pub boot_id: String,
    /// The probe reports of that moment.
    pub reports: Vec<PrimitiveReport>,
}

/// What a `Receipt` stands for.
pub struct ReceiptView {
    pub taken_at: Civil,
    pub boot_id: Seq<char>,
    pub reports: Seq<ReportView>,
}

impl View for Receipt {
    type V = ReceiptView;

    open spec fn view(&self) -> ReceiptView {
        ReceiptView {
            taken_at: self.taken_at@,
            boot_id: self.boot_id@,
            reports: text::views(self.reports@),
        }
    }
}

impl Clone for Receipt {
    fn clone(&self) -> (r: Self)
        ensures
            r@ == self@,
    {
        Receipt {
            taken_at: self.taken_at,
            boot_id: self.boot_id.clone(),
            reports: report::clone_reports(self.reports.as_slice()),
        }
    }
}

/// The name of the file that holds the receipt of a moment.
pub open spec fn file_name(taken_at: Civil) -> Seq<char> {
    time::file_stamp_text(taken_at) + ".json"@
}

impl Receipt {
    /// The name of the file that holds this receipt: its moment, with `_` for every colon.
    #[must_use]
    pub fn filename(&self) -> (r: String)
        ensures
            r@ == file_name(self@.taken_at),
    {
        let mut r: String = self.taken_at.file_stamp();
        r.append(".json");
        r
    }
}

// ---------------------------------------------------------------------------
// Laws
// ---------------------------------------------------------------------------

/// A receipt's file is named after the moment it was taken at, and after nothing else.
pub proof fn files_are_named_after_moments(r: &Receipt, name: String, stamp: String)
    requires
        call_ensures(Receipt::filename, (r,), name),
        call_ensures(Timestamp::file_stamp, (&r.taken_at,), stamp),
    ensures
        name@ == stamp@ + ".json"@,
{
}

} // verus!
