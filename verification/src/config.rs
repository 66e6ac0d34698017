//! The single configuration value: how many ranked candidates to show.

use vstd::prelude::*;

verus! {

/// The number of results shown when no configuration supplies one.
pub const DEFAULT_MAX_RESULTS: usize = 10;

/// The effective result limit: the configured value when one was read,
/// otherwise the default. A missing or malformed configuration file is
/// handed in as `None` and degrades to the default without aborting.
pub fn effective_max_results(configured: Option<usize>) -> (n: usize)
    ensures
        n == match configured {
            Some(m) => m,
            None => DEFAULT_MAX_RESULTS as usize,
        },
{
    match configured {
        Some(m) => m,
        None => DEFAULT_MAX_RESULTS,
    }
}

} // verus!
