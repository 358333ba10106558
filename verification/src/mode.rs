//! The display filter and the mapping from a location fragment to it.

use crate::text::same_text;
use vstd::prelude::*;

verus! {

/// Which entries of the list are shown.
#[derive(Debug, Clone, Copy, PartialEq, Eq, Structural)]
pub enum Mode {
    /// Only the entries that are not paid yet.
    Active,
    /// Only the entries that are paid.
    Paid,
    /// Every entry.
    All,
}

impl Default for Mode {
    fn default() -> (mode: Mode)
        ensures
            mode == Mode::All,
    {
        Mode::All
    }
}

/// The filter that a location fragment selects: `"/active"` and `"/paid"`
/// select their filters, every other text selects `All`.
pub open spec fn route_of(hash: Seq<char>) -> Mode {
    if hash == "/active"@ {
        Mode::Active
    } else if hash == "/paid"@ {
        Mode::Paid
    } else {
        Mode::All
    }
}

/// The filter for a location that may have no fragment at all.
pub open spec fn route_of_location(hash: Option<Seq<char>>) -> Mode {
    match hash {
        Some(h) => route_of(h),
        None => Mode::All,
    }
}

/// Maps a location fragment to a filter. Never fails: a fragment that is not
/// recognised selects `All`.
pub fn route(hash: &str) -> (mode: Mode)
    ensures
        mode == route_of(hash@),
{
    if same_text(hash, "/active") {
        Mode::Active
    } else if same_text(hash, "/paid") {
        Mode::Paid
    } else {
        Mode::All
    }
}

/// The filter after a navigation event: the route of the fragment, or the
/// default filter when the location has none.
pub fn route_location(hash: Option<&str>) -> (mode: Mode)
    ensures
        mode == route_of_location(
            match hash {
                Some(h) => Some(h@),
                None => None,
            },
        ),
{
    match hash {
        Some(h) => route(h),
        None => Mode::default(),
    }
}

} // verus!
