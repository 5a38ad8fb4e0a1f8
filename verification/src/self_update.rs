//! Options for replacing the running executable with a newer build. The
//! replacement itself - release lookup, download, rebuild from source - is
//! the surrounding program's concern; the library only carries the chosen
//! options.

use vstd::prelude::*;

verus! {

/// How a self-update should proceed.
#[derive(Debug)]
pub struct UpdateOptions {
    /// Rebuild from the source checkout instead of fetching a release.
    pub from_source: bool,
    /// Only report whether a newer version exists.
    pub check: bool,
    /// Update even when the running version looks current.
    pub force: bool,
    /// Pin a specific version tag instead of the latest.
    pub version: Option<String>,
    /// Narrate each step.
    pub verbose: bool,
}

/// Carrier of the options for one self-update run.
pub struct Updater {
    /// The options this run was created with.
    pub options: UpdateOptions,
}

impl Updater {
    /// Create an updater around the given options.
    pub fn new(options: UpdateOptions) -> (r: Self)
        ensures
            r.options.from_source == options.from_source,
            r.options.check == options.check,
            r.options.force == options.force,
            r.options.verbose == options.verbose,
            match r.options.version {
                Option::Some(v) => options.version matches Option::Some(w) && v@ == w@,
                Option::None => options.version is None,
            },
    {
        Updater { options }
    }
}

} // verus!
