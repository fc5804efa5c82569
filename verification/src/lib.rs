//! Core logic of a multi-protocol proxy server: the configuration data
//! model with its group expansion and validation pass, the address and
//! mask model used by routing rules, the client-proxy selector, and the
//! decision kernel of the per-connection supervisor.

pub mod address;
pub mod clone_util;
pub mod config;
pub mod groups;
pub mod handlers;
pub mod laws;
pub mod numfmt;
pub mod option_util;
pub mod selector;
pub mod supervisor;
pub mod validate;

use vstd::prelude::*;

verus! {

/// A boolean that is true, used as the default for several settings.
pub fn default_true() -> (r: bool)
    ensures
        r,
{
    true
}

} // verus!
