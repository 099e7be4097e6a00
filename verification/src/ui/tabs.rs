//! The tabs of the user interface.

use vstd::prelude::*;

verus! {

/// A tab of the user interface.
#[derive(Clone, Copy, Debug, PartialEq, Eq, Structural)]
pub enum Tabs {
    /// The profile tab.
    ProfileTab,
    /// The tab that controls the clash service.
    ClashsrvctlTab,
}

} // verus!
