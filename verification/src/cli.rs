//! The providers a run can be configured with.

use vstd::prelude::*;

verus! {

/// Where reverse-image candidates come from.
#[derive(Clone, Copy, Debug, PartialEq, Eq, Structural)]
pub enum SearchProvider {
    Fixture,
    Serpapi,
}

/// Where the evidence hash is recorded and re-verified.
#[derive(Clone, Copy, Debug, PartialEq, Eq, Structural)]
pub enum ChainProvider {
    Local,
    SolanaMemo,
}

} // verus!
