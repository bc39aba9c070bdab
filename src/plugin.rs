//! The plugin that carries the function which configures a resolver once, at
//! startup.

use vstd::prelude::*;

verus! {

/// Holds the function that fills a new resolver with embedded assets and
/// handlers.
pub struct EmbassetPlugin<F> {
    initializer: F,
}

impl<F> EmbassetPlugin<F> {
    /// The configuring function.
    pub closed spec fn configure_fn(&self) -> F {
        self.initializer
    }

    /// Creates the plugin around `asset_initializer`.
    pub fn new(asset_initializer: F) -> (r: Self)
        ensures
            r.configure_fn() == asset_initializer,
    {
        Self { initializer: asset_initializer }
    }

    /// The configuring function.
    pub fn initializer(&self) -> (r: &F)
        ensures
            *r == self.configure_fn(),
    {
        &self.initializer
    }
}

} // verus!
