//! Scan-fatal errors and their visible reporting.
//!
//! A failure of the top-level clipboard read aborts the whole scan: the
//! visible collection stays exactly as it was at the reset instant (empty),
//! and the failure is surfaced as visible text rather than silently
//! swallowed. Per-payload failures are not errors at this level; the
//! pipeline skips those pairs and continues.

use vstd::prelude::*;
use crate::scan::RecordModel;
use crate::scan::ScanResult;

verus! {

/// Why a whole scan failed before any item could be read.
#[derive(Clone, Copy, Debug, PartialEq, Eq, Structural)]
pub enum ScanError {
    /// No clipboard capability exists in the current environment.
    PlatformUnavailable,
    /// The platform refused permission to read the clipboard.
    PermissionDenied,
    /// The platform reported some other failure during the top-level read.
    PlatformError,
}

impl ScanError {
    /// The visible text each error is reported as.
    pub open spec fn message_model(&self) -> Seq<char> {
        match self {
            ScanError::PlatformUnavailable => "clipboard scan failed: no clipboard available"@,
            ScanError::PermissionDenied => "clipboard scan failed: permission denied"@,
            ScanError::PlatformError => "clipboard scan failed: platform error"@,
        }
    }

    /// Render this error as visible text for the user.
    pub fn message(&self) -> (r: String)
        ensures
            r@ == self.message_model(),
    {
        match self {
            ScanError::PlatformUnavailable => String::from_str(
                "clipboard scan failed: no clipboard available",
            ),
            ScanError::PermissionDenied => String::from_str(
                "clipboard scan failed: permission denied",
            ),
            ScanError::PlatformError => String::from_str("clipboard scan failed: platform error"),
        }
    }
}

/// The terminal state of a scan whose top-level clipboard read failed: the
/// visible collection is empty — exactly as it was at the reset instant —
/// and a visible, non-empty error indication is produced.
pub fn failed_scan(e: &ScanError) -> (r: (ScanResult, String))
    ensures
        r.0@ == Seq::<RecordModel>::empty(),
        r.1@ == e.message_model(),
{
    (ScanResult::new(), e.message())
}

} // verus!
