use vstd::prelude::*;

verus! {

/// A change worth announcing to the presentation layer; it carries its kind only.
#[derive(Debug, Clone, Copy, PartialEq, Eq, Structural)]
pub enum NotificationEvent {
    CiSuccess,
    CiFailure,
    PrApproved,
    PrChangesRequested,
    PrMerged,
    PrNewComment,
}

} // verus!
