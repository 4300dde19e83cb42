//! One process per user session.
//!
//! Two copies would fight over the same monitor and each would install its own
//! wheel hook, so a single notch would move brightness twice. A named mutex
//! tells them apart: it exists for as long as any handle to it is open.
use vstd::prelude::*;

verus! {

/// The last error of Windows when a named object existed already.
pub const ERROR_ALREADY_EXISTS: u32 = 183;

/// What came of creating the named mutex.
#[derive(Debug, Clone, Copy, PartialEq, Eq)]
pub enum Creation {
    /// A handle came back; this was the last error right after.
    Handle { last_error: u32 },
    /// No handle came back.
    Failed,
}

/// The claim to be the one instance, for as long as it is kept.
#[derive(Debug, Clone, Copy, PartialEq, Eq)]
pub struct Guard {
    /// Whether the claim stands on a handle of the mutex, which has to be kept
    /// open as long as the claim.
    pub on_handle: bool,
}

/// Claims the single-instance slot, or gives nothing when another copy holds it.
///
/// Where the mutex cannot be made at all the check is skipped: starting anyway is
/// friendlier than refusing to run.
pub fn acquire(creation: Creation) -> (r: Option<Guard>)
    ensures
        r == (match creation {
            Creation::Failed => Some(Guard { on_handle: false }),
            Creation::Handle { last_error } => if last_error == ERROR_ALREADY_EXISTS {
                None
            } else {
                Some(Guard { on_handle: true })
            },
        }),
{
    match creation {
        Creation::Failed => Some(Guard { on_handle: false }),
        Creation::Handle { last_error } => {
            if last_error == ERROR_ALREADY_EXISTS {
                None
            } else {
                Some(Guard { on_handle: true })
            }
        },
    }
}

} // verus!
