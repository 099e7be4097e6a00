pub mod tui;

use vstd::prelude::*;

verus! {

/// What failed while the configuration was loaded.
#[derive(Clone, Copy, Debug, PartialEq, Eq, Structural)]
pub enum ErrKind {
    LoadProfileConfig,
    LoadAppConfig,
    LoadClashConfig,
}

/// A problem met while the configuration was loaded, with its reason.
#[derive(Clone, Debug)]
pub struct CfgError {
    pub kind: ErrKind,
    pub reason: String,
}

impl CfgError {
    pub fn new(kind: ErrKind, reason: String) -> (r: CfgError)
        ensures
            r.kind == kind,
            r.reason == reason,
    {
        CfgError { kind, reason }
    }
}

} // verus!
